//! Trusted bindings to the outside crates the engine leans on: the
//! tokio broadcast bus that carries every room's messages, uuid for
//! room identifiers, the chrono clock, and percent-encoding.

use tokio::sync::broadcast::Receiver;
use tokio::sync::broadcast::Sender;
use vstd::prelude::*;

verus! {

#[verifier::external_type_specification]
#[verifier::external_body]
#[verifier::reject_recursive_types(T)]
pub struct ExSender<T>(tokio::sync::broadcast::Sender<T>);

#[verifier::external_type_specification]
#[verifier::external_body]
#[verifier::reject_recursive_types(T)]
pub struct ExReceiver<T>(tokio::sync::broadcast::Receiver<T>);

/// One message drawn from a subscription, or the reason none came.
#[derive(Debug)]
pub enum Received {
    /// The oldest unread message.
    Message(String),
    /// Nothing unread right now.
    Nothing,
    /// The subscriber fell behind the bounded buffer and this many of
    /// its oldest unread messages were dropped.
    Lagged(u64),
    /// Every sending half is gone.
    Closed,
}

/// Relies on `tokio::sync::broadcast::channel`: makes a bounded
/// broadcast bus and hands back its sending half; the spare receiving
/// half is dropped, since the engine subscribes each member itself.
/// The call panics on a capacity of zero or above `usize::MAX / 2`,
/// which the precondition rules out.
#[verifier::external_body]
pub(crate) fn new_bus(capacity: usize) -> Sender<String>
    requires
        1 <= capacity <= usize::MAX / 2,
{
    tokio::sync::broadcast::channel(capacity).0
}

/// Relies on `tokio::sync::broadcast::Sender::subscribe`: a new
/// receiving half that observes only what is published after this
/// call.
#[verifier::external_body]
pub(crate) fn subscribe_bus(bus: &Sender<String>) -> Receiver<String>
{
    bus.subscribe()
}

/// Relies on `tokio::sync::broadcast::Sender::clone`: another sending
/// half of the same bus.
#[verifier::external_body]
pub(crate) fn clone_bus(bus: &Sender<String>) -> Sender<String>
{
    bus.clone()
}

/// Relies on `tokio::sync::broadcast::Sender::send`: best-effort
/// fan-out of one message to every current subscriber. The result is
/// how many subscribers the bus had at the send, zero when nobody was
/// subscribed and the message went nowhere; a publisher is never
/// blocked and never fails.
#[verifier::external_body]
pub fn publish(bus: &Sender<String>, message: String) -> usize
{
    match bus.send(message) {
        Ok(n) => n,
        Err(_) => 0,
    }
}

/// Relies on `tokio::sync::broadcast::Receiver::try_recv`: draws the
/// oldest unread message without waiting, each of the error variants
/// mapped to its own case of [`Received`].
#[verifier::external_body]
pub fn receive_now(subscription: &mut Receiver<String>) -> Received
{
    match subscription.try_recv() {
        Ok(m) => Received::Message(m),
        Err(tokio::sync::broadcast::error::TryRecvError::Empty) => Received::Nothing,
        Err(tokio::sync::broadcast::error::TryRecvError::Lagged(n)) => Received::Lagged(n),
        Err(tokio::sync::broadcast::error::TryRecvError::Closed) => Received::Closed,
    }
}

/// Relies on `uuid::Uuid::new_v4` and its `Display` form: a random
/// identifier rendered in the hyphenated format, which is always 36
/// characters long. Nothing else can be promised of a random value.
#[verifier::external_body]
pub(crate) fn fresh_room_id() -> (r: String)
    ensures
        r@.len() == 36,
{
    uuid::Uuid::new_v4().to_string()
}

/// Relies on `chrono::Utc::now`: the current instant as a microsecond
/// timestamp together with its `%H:%M:%S` label, which is always
/// 8 characters (two digits each, colon-separated). Nothing else can
/// be promised of the clock.
#[verifier::external_body]
pub(crate) fn clock_now() -> (r: (i64, String))
    ensures
        r.1@.len() == 8,
{
    let now = chrono::Utc::now();
    (now.timestamp_micros(), now.format("%H:%M:%S").to_string())
}

/// What `urlencoding::encode` makes of a string: a function of the
/// characters alone.
pub uninterp spec fn url_encoded(s: Seq<char>) -> Seq<char>;

/// Relies on `urlencoding::encode`: percent-encodes everything outside
/// the URL-safe set; the result depends on the input alone.
#[verifier::external_body]
pub(crate) fn url_encode(s: &str) -> (r: String)
    ensures
        r@ == url_encoded(s@),
{
    urlencoding::encode(s).into_owned()
}

} // verus!
