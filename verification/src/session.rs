//! The per-connection lifecycle: upgrade parameters, the
//! classification of inbound frames into chat, signal and command
//! work, and the phase machine whose driver runs the forwarder and
//! reader tasks. The machine guarantees that however the two tasks
//! race, the cleanup duty is handed out at most once.

use vstd::prelude::*;

use crate::registry::AdmissionError;
use crate::registry::WsParams;
use crate::room::Role;
use crate::text;

verus! {

/// What one chat line asks for: a command invocation, or plain words.
#[derive(Debug)]
pub enum ChatAction {
    Command { name: String, args: Vec<String> },
    Say { text: String },
}

/// The mathematical shadow of a [`ChatAction`].
pub enum ChatActionV {
    Command { name: Seq<char>, args: Seq<Seq<char>> },
    Say { text: Seq<char> },
}

impl View for ChatAction {
    type V = ChatActionV;

    open spec fn view(&self) -> ChatActionV {
        match self {
            ChatAction::Command { name, args } => ChatActionV::Command {
                name: name@,
                args: args@.map_values(|a: String| a@),
            },
            ChatAction::Say { text } => ChatActionV::Say { text: text@ },
        }
    }
}

/// What the two fields of one inbound frame call for; either may be
/// present.
#[derive(Debug)]
pub struct FrameActions {
    pub chat: Option<ChatAction>,
    pub signal: Option<String>,
}

/// How a chat field is read: an empty field asks nothing; text whose
/// trimmed form opens with the sigil names a command — its first
/// word with the sigil shed, the remaining words its arguments; any
/// other text is said as it stands, trimmed.
pub open spec fn classify_chat_spec(raw: Seq<char>) -> Option<ChatActionV> {
    if raw.len() == 0 {
        None
    } else {
        let t = text::trim_spec(raw);
        if t.len() > 0 && t[0] == '/' {
            let words = text::split_ws(t);
            if words.len() > 0 {
                Some(
                    ChatActionV::Command {
                        name: words[0].drop_first(),
                        args: words.drop_first(),
                    },
                )
            } else {
                None
            }
        } else {
            Some(ChatActionV::Say { text: t })
        }
    }
}

/// How a signal field is read: an empty field asks nothing, anything
/// else is the new signal value as sent.
pub open spec fn signal_action_spec(sig: Seq<char>) -> Option<Seq<char>> {
    if sig.len() == 0 {
        None
    } else {
        Some(sig)
    }
}

/// Classifies one inbound frame's two fields.
pub fn classify_frame(chat_message: &str, signal: &str) -> (r: FrameActions)
    ensures
        match r.chat {
            Some(a) => classify_chat_spec(chat_message@) == Some(a@),
            None => classify_chat_spec(chat_message@) is None,
        },
        match r.signal {
            Some(s) => signal_action_spec(signal@) == Some(s@),
            None => signal_action_spec(signal@) is None,
        },
{
    let chat: Option<ChatAction> = if chat_message.is_empty() {
        None
    } else {
        let t = text::trim(chat_message);
        let tn = t.unicode_len();
        if tn > 0 && t.get_char(0) == '/' {
            let mut words = text::split_whitespace_owned(t);
            if words.len() > 0 {
                proof {
                    text::lemma_split_ws_words_nonempty(t@);
                    assert(words@.map_values(|a: String| a@)[0] == text::split_ws(t@)[0]);
                }
                let ghost all_words = words@.map_values(|a: String| a@);
                let first = words.remove(0);
                let fl = first.unicode_len();
                let name = String::from_str(first.as_str().substring_char(1, fl));
                proof {
                    assert(words@.map_values(|a: String| a@) =~= all_words.drop_first());
                    assert(name@ == text::split_ws(t@)[0].drop_first());
                }
                Some(ChatAction::Command { name: name, args: words })
            } else {
                None
            }
        } else {
            Some(ChatAction::Say { text: String::from_str(t) })
        }
    };
    let signal_action: Option<String> = if signal.is_empty() {
        None
    } else {
        Some(String::from_str(signal))
    };
    FrameActions { chat: chat, signal: signal_action }
}

/// Reads the socket-upgrade parameters: the role case-folded, the
/// display name trimmed; a blank name is refused before any admission
/// is attempted.
pub fn prepare_ws(params: &WsParams) -> (r: Result<(Role, String), AdmissionError>)
    ensures
        match r {
            Ok(p) => {
                &&& text::trim_spec(params.username@).len() > 0
                &&& p.0 == crate::room::role_from_ci_spec(params.role@)
                &&& p.1@ == text::trim_spec(params.username@)
            },
            Err(e) => {
                &&& e == AdmissionError::EmptyUsername
                &&& text::trim_spec(params.username@).len() == 0
            },
        },
{
    let trimmed = text::trim(params.username.as_str());
    if trimmed.unicode_len() == 0 {
        return Err(AdmissionError::EmptyUsername);
    }
    Ok((crate::room::role_from_str_ci(params.role.as_str()), String::from_str(trimmed)))
}

/// The phases of one connection, in the order they are passed:
/// admission, subscription and task start, the race of the two tasks,
/// and the single cleanup into the terminal phase.
#[derive(Clone, Copy, Debug, PartialEq, Eq, Structural)]
pub enum SessionPhase {
    Connecting,
    Admitted,
    Active,
    Terminating,
    Closed,
}

/// What drives a session from phase to phase.
#[derive(Clone, Copy, Debug, PartialEq, Eq, Structural)]
pub enum SessionEvent {
    /// The registry granted admission.
    Granted,
    /// The registry refused admission.
    Refused,
    /// The forwarder and reader tasks are running.
    Started,
    /// One of the two tasks finished — client close, push failure or
    /// protocol error alike.
    TaskEnded,
    /// The other task acknowledged its cancellation.
    PeerStopped,
}

/// What the driver owes after a step.
#[derive(Clone, Copy, Debug, PartialEq, Eq, Structural)]
pub enum SessionDuty {
    /// Nothing.
    Nothing,
    /// Send one refusal message and close; no session was created.
    RejectAndClose,
    /// Spawn the forwarder and reader tasks.
    SpawnTasks,
    /// Cancel the task that is still running.
    CancelPeer,
    /// Run the one cleanup: leave the room, broadcast the notice, and
    /// let the registry collect the room if it emptied.
    Cleanup,
}

/// The transition table of the session machine. An event that does
/// not belong to the current phase changes nothing — in particular
/// the terminal phase absorbs everything, and a second task ending
/// during termination is absorbed rather than triggering a second
/// cleanup.
pub open spec fn step_spec(phase: SessionPhase, event: SessionEvent) -> (SessionPhase, SessionDuty) {
    match (phase, event) {
        (SessionPhase::Connecting, SessionEvent::Granted) => (
            SessionPhase::Admitted,
            SessionDuty::SpawnTasks,
        ),
        (SessionPhase::Connecting, SessionEvent::Refused) => (
            SessionPhase::Closed,
            SessionDuty::RejectAndClose,
        ),
        (SessionPhase::Admitted, SessionEvent::Started) => (
            SessionPhase::Active,
            SessionDuty::Nothing,
        ),
        (SessionPhase::Active, SessionEvent::TaskEnded) => (
            SessionPhase::Terminating,
            SessionDuty::CancelPeer,
        ),
        (SessionPhase::Terminating, SessionEvent::PeerStopped) => (
            SessionPhase::Closed,
            SessionDuty::Cleanup,
        ),
        _ => (phase, SessionDuty::Nothing),
    }
}

/// Takes one step of the session machine.
pub fn session_step(phase: SessionPhase, event: SessionEvent) -> (r: (SessionPhase, SessionDuty))
    ensures
        r == step_spec(phase, event),
{
    match (phase, event) {
        (SessionPhase::Connecting, SessionEvent::Granted) => (
            SessionPhase::Admitted,
            SessionDuty::SpawnTasks,
        ),
        (SessionPhase::Connecting, SessionEvent::Refused) => (
            SessionPhase::Closed,
            SessionDuty::RejectAndClose,
        ),
        (SessionPhase::Admitted, SessionEvent::Started) => (
            SessionPhase::Active,
            SessionDuty::Nothing,
        ),
        (SessionPhase::Active, SessionEvent::TaskEnded) => (
            SessionPhase::Terminating,
            SessionDuty::CancelPeer,
        ),
        (SessionPhase::Terminating, SessionEvent::PeerStopped) => (
            SessionPhase::Closed,
            SessionDuty::Cleanup,
        ),
        _ => (phase, SessionDuty::Nothing),
    }
}

/// Where the machine stands after a whole trace of events.
pub open spec fn run_spec(phase: SessionPhase, events: Seq<SessionEvent>) -> SessionPhase
    decreases events.len(),
{
    if events.len() == 0 {
        phase
    } else {
        run_spec(step_spec(phase, events[0]).0, events.drop_first())
    }
}

/// How often a trace hands out the cleanup duty.
pub open spec fn cleanup_count(phase: SessionPhase, events: Seq<SessionEvent>) -> nat
    decreases events.len(),
{
    if events.len() == 0 {
        0
    } else {
        (if step_spec(phase, events[0]).1 == SessionDuty::Cleanup {
            1nat
        } else {
            0nat
        }) + cleanup_count(step_spec(phase, events[0]).0, events.drop_first())
    }
}

/// Law: whatever events the two racing tasks produce, in whatever
/// order, a session's driver is handed the cleanup duty at most once;
/// and the terminal phase hands out nothing at all.
pub proof fn lemma_cleanup_at_most_once(phase: SessionPhase, events: Seq<SessionEvent>)
    ensures
        cleanup_count(phase, events) <= 1,
        phase == SessionPhase::Closed ==> cleanup_count(phase, events) == 0 && run_spec(
            phase,
            events,
        ) == SessionPhase::Closed,
    decreases events.len(),
{
    if events.len() > 0 {
        let next = step_spec(phase, events[0]).0;
        lemma_cleanup_at_most_once(next, events.drop_first());
        if step_spec(phase, events[0]).1 == SessionDuty::Cleanup {
            assert(next == SessionPhase::Closed);
        }
    }
}

} // verus!
