//! The background server's supervisor, as a verified state machine.
//!
//! One server process is spawned per session and supervised for its whole
//! life: `NotStarted -> Starting -> Running -> Exited` or `Crashed`.  The
//! spawning and the draining of the process's output streams are I/O and
//! belong to the embedding program; it reports each step here and performs
//! the returned logging action.  Every complete line of output is
//! forwarded to the log, stdout at info level and stderr at error level,
//! each prefixed with the server's tag; bytes that are not valid text are
//! decoded with replacement characters rather than dropped.

use vstd::prelude::*;
use vstd::utf8::{valid_utf8, decode_utf8};

verus! {

/// What decoding a byte sequence with replacement characters yields: a
/// pure function of the bytes alone.
pub uninterp spec fn lossy_decode(bytes: Seq<u8>) -> Seq<char>;

/// Relies on `String::from_utf8_lossy`: the result depends on the bytes
/// alone, and bytes that are valid UTF-8 decode to exactly their decoding.
#[verifier::external_body]
fn string_from_utf8_lossy(bytes: &Vec<u8>) -> (r: String)
    ensures
        r@ == lossy_decode(bytes@),
        valid_utf8(bytes@) ==> r@ == decode_utf8(bytes@),
{
    String::from_utf8_lossy(bytes.as_slice()).into_owned()
}

/// Where the supervised process stands in its life cycle.
#[derive(Clone, Copy, Debug, PartialEq, Eq, Structural)]
pub enum SupervisorState {
    /// No spawn has been requested, or the spawn failed.
    NotStarted,
    /// A spawn was requested and has not resolved yet.
    Starting,
    /// The process is alive and its output streams are being drained.
    Running,
    /// Both streams closed and the process reported success.
    Exited,
    /// Both streams closed and the process reported failure.
    Crashed,
}

/// What the embedding program observed on the supervised process.
pub enum ServerEvent {
    /// A complete line arrived on the process's standard output.
    StdoutLine(Vec<u8>),
    /// A complete line arrived on the process's standard error.
    StderrLine(Vec<u8>),
    /// Both output streams closed; `success` tells whether the exit
    /// status reported success.
    StreamsClosed { success: bool },
    /// Anything else the process facility reports; ignored.
    Other,
}

/// What the embedding program must do with a handled event.
pub enum LogAction {
    /// Forward the message to the log at info level.
    Info(String),
    /// Forward the message to the log at error level.
    Error(String),
    /// Nothing to forward.
    Nothing,
}

/// The tag put before a forwarded standard-output line.
pub open spec fn info_prefix() -> Seq<char> {
    "API Server: "@
}

/// The tag put before a forwarded standard-error line.
pub open spec fn error_prefix() -> Seq<char> {
    "API Server Error: "@
}

/// The state after an event on the running process: closing streams end
/// the supervision, telling exit from crash; everything else keeps the
/// state.
pub open spec fn stream_next_state(s: SupervisorState, e: ServerEvent) -> SupervisorState {
    match e {
        ServerEvent::StreamsClosed { success } => if s is Running {
            if success {
                SupervisorState::Exited
            } else {
                SupervisorState::Crashed
            }
        } else {
            s
        },
        _ => s,
    }
}

/// The logging action an event demands: while the process runs, every
/// complete line is forwarded with its stream's tag, decoded with
/// replacement characters where it is not valid text; all other events
/// demand nothing.
pub open spec fn stream_action_ok(s: SupervisorState, e: ServerEvent, act: LogAction) -> bool {
    match e {
        ServerEvent::StdoutLine(b) => if s is Running {
            act matches LogAction::Info(m) && m@ == info_prefix() + lossy_decode(b@)
        } else {
            act is Nothing
        },
        ServerEvent::StderrLine(b) => if s is Running {
            act matches LogAction::Error(m) && m@ == error_prefix() + lossy_decode(b@)
        } else {
            act is Nothing
        },
        _ => act is Nothing,
    }
}

/// The supervisor owns the life-cycle state of the one background server
/// process of a session.
pub struct Supervisor {
    state: SupervisorState,
}

impl Supervisor {
    /// The current life-cycle state.
    pub fn state(&self) -> (s: SupervisorState)
        ensures
            s == self@,
    {
        self.state
    }

    /// The state, for contracts.
    pub closed spec fn view(&self) -> SupervisorState {
        self.state
    }

    /// A fresh session: nothing spawned yet.
    pub fn new() -> (s: Self)
        ensures
            s@ is NotStarted,
    {
        Supervisor { state: SupervisorState::NotStarted }
    }

    /// A spawn was requested: the one transition out of `NotStarted`.
    pub fn begin_start(&mut self)
        requires
            old(self)@ is NotStarted,
        ensures
            final(self)@ is Starting,
    {
        self.state = SupervisorState::Starting;
    }

    /// The spawn resolved: the process is running, or the launch failed
    /// and the session stays unstarted, free to operate on.
    pub fn spawn_resolved(&mut self, ok: bool)
        requires
            old(self)@ is Starting,
        ensures
            ok ==> final(self)@ is Running,
            !ok ==> final(self)@ is NotStarted,
    {
        if ok {
            self.state = SupervisorState::Running;
        } else {
            self.state = SupervisorState::NotStarted;
        }
    }

    /// Handles one observed event: steps the state machine and says what
    /// to log.
    pub fn handle_event(&mut self, event: ServerEvent) -> (act: LogAction)
        ensures
            final(self)@ == stream_next_state(old(self)@, event),
            stream_action_ok(old(self)@, event, act),
    {
        match event {
            ServerEvent::StdoutLine(b) => {
                if matches!(self.state, SupervisorState::Running) {
                    let text = string_from_utf8_lossy(&b);
                    LogAction::Info(String::from_str("API Server: ").concat(text.as_str()))
                } else {
                    LogAction::Nothing
                }
            },
            ServerEvent::StderrLine(b) => {
                if matches!(self.state, SupervisorState::Running) {
                    let text = string_from_utf8_lossy(&b);
                    LogAction::Error(
                        String::from_str("API Server Error: ").concat(text.as_str()),
                    )
                } else {
                    LogAction::Nothing
                }
            },
            ServerEvent::StreamsClosed { success } => {
                if matches!(self.state, SupervisorState::Running) {
                    if success {
                        self.state = SupervisorState::Exited;
                    } else {
                        self.state = SupervisorState::Crashed;
                    }
                }
                LogAction::Nothing
            },
            ServerEvent::Other => LogAction::Nothing,
        }
    }
}

} // verus!

