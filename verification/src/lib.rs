//! A verified real-time multi-room interaction engine: named,
//! capacity-bounded rooms whose members exchange broadcast chat and
//! signal-state messages and trigger scripted slash-commands.

pub mod commands;
pub mod ext;
pub mod limits;
pub mod pipeline;
pub mod registry;
pub mod room;
pub mod session;
pub mod text;
pub mod utils;
