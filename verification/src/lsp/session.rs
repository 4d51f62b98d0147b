//! The life of a language-server connection: what the client writes, tells
//! the editor and does to the server process, event by event.

use vstd::prelude::*;

use crate::lsp::json::JsonValue;

verus! {

/// Where a connection is: the `initialize` request is written first, and
/// the connection runs once it is out.
#[derive(Debug, Clone, Copy, PartialEq, Eq, Structural)]
pub enum LspPhase {
    Starting,
    Running,
}

/// What the client keeps between events.
#[derive(Debug, Clone, Copy, PartialEq, Eq, Structural)]
pub struct LspClientState {
    pub phase: LspPhase,
    /// The server answered `initialize`.
    pub initialized: bool,
    /// The connection is going down: nothing more is sent.
    pub shutting_down: bool,
    /// The clock after which a server that has not exited is terminated is
    /// running.
    pub clock_running: bool,
}

/// What happens to the client.
#[derive(Debug)]
pub enum LspEvent {
    /// The server sent a message.
    Incoming(JsonValue),
    /// The server closed its output.
    IncomingEof,
    /// Reading from the server failed.
    IncomingError(String),
    /// The server process exited, with its exit code if it has one.
    Exited(Option<i32>),
    /// The editor asks for a message to be sent.
    Send(JsonValue),
    /// The editor asks for a full-text `textDocument/didChange`.
    SendDidChange { uri: String, version: i32, text: String },
    /// The editor asks for a shutdown, or is gone.
    Shutdown,
    /// Writing a message whose failure counts failed.
    WriteFailed(String),
    /// A turn of the loop ended; whether the shutdown clock has run out.
    Tick { clock_expired: bool },
}

/// A message for the server.
#[derive(Debug)]
pub enum Outgoing {
    /// The `initialize` request (id 1).
    Initialize,
    /// The `initialized` notification.
    Initialized,
    /// An error reply ("method not implemented") to the request just
    /// received.
    MethodNotImplemented,
    /// A message the editor built.
    Message(JsonValue),
    /// A full-text `textDocument/didChange`.
    DidChange { uri: String, version: i32, text: String },
    /// The `shutdown` request (id `u64::MAX`).
    ShutdownRequest,
    /// The `exit` notification.
    Exit,
}

/// What the client tells the editor.
#[derive(Debug)]
pub enum LspNotice {
    Started,
    Initialized,
    Message(JsonValue),
    Error(String),
    Exited(Option<i32>),
}

/// What the client does.
#[derive(Debug)]
pub enum LspAction {
    /// Writes a message; a failure is reported back as `WriteFailed` only
    /// where `report_failure` says so.
    Write { message: Outgoing, report_failure: bool },
    Notify(LspNotice),
    /// Starts (or restarts) the shutdown clock.
    StartShutdownClock,
    /// Kills the server process.
    Terminate,
    /// Ends the connection.
    Stop,
}

/// The message is the reply to `initialize`: its `id` is the integer 1.
pub open spec fn is_initialize_reply(m: JsonValue) -> bool {
    crate::lsp::json::u64_of(crate::lsp::json::spec_get(m, "id"@)) == Some(1u64)
}

/// The message is a request of the server: it has a `method` and an `id`.
pub open spec fn is_server_request(m: JsonValue) -> bool {
    crate::lsp::json::spec_get(m, "method"@) is Some && crate::lsp::json::spec_get(m, "id"@) is Some
}

/// The connection goes down: nothing more is sent, and the shutdown clock
/// runs.
pub open spec fn going_down(s: LspClientState) -> LspClientState {
    LspClientState { shutting_down: true, clock_running: true, ..s }
}

/// The client's answer to an event: its next state and its actions, in
/// order.
pub open spec fn spec_lsp_step(s: LspClientState, e: LspEvent) -> (LspClientState, Seq<LspAction>) {
    match e {
        LspEvent::Incoming(m) => {
            if is_initialize_reply(m) && !s.initialized {
                (
                    LspClientState { initialized: true, ..s },
                    seq![
                        LspAction::Write { message: Outgoing::Initialized, report_failure: false },
                        LspAction::Notify(LspNotice::Initialized),
                        LspAction::Notify(LspNotice::Message(m)),
                    ],
                )
            } else if is_server_request(m) {
                (
                    s,
                    seq![
                        LspAction::Write { message: Outgoing::MethodNotImplemented, report_failure: false },
                        LspAction::Notify(LspNotice::Message(m)),
                    ],
                )
            } else {
                (s, seq![LspAction::Notify(LspNotice::Message(m))])
            }
        },
        LspEvent::IncomingEof => (
            going_down(s),
            if s.clock_running { Seq::empty() } else { seq![LspAction::StartShutdownClock] },
        ),
        LspEvent::IncomingError(error) => (
            going_down(s),
            if s.clock_running {
                seq![LspAction::Notify(LspNotice::Error(error))]
            } else {
                seq![LspAction::Notify(LspNotice::Error(error)), LspAction::StartShutdownClock]
            },
        ),
        LspEvent::Exited(code) => (s, seq![LspAction::Notify(LspNotice::Exited(code)), LspAction::Stop]),
        LspEvent::Send(m) => if s.shutting_down {
            (s, Seq::empty())
        } else {
            (s, seq![LspAction::Write { message: Outgoing::Message(m), report_failure: true }])
        },
        LspEvent::SendDidChange { uri, version, text } => if s.shutting_down {
            (s, Seq::empty())
        } else {
            (s, seq![LspAction::Write { message: Outgoing::DidChange { uri, version, text }, report_failure: true }])
        },
        LspEvent::Shutdown => if s.shutting_down {
            (s, Seq::empty())
        } else {
            (
                going_down(s),
                seq![
                    LspAction::Write { message: Outgoing::ShutdownRequest, report_failure: false },
                    LspAction::Write { message: Outgoing::Exit, report_failure: false },
                    LspAction::StartShutdownClock,
                ],
            )
        },
        LspEvent::WriteFailed(error) => match s.phase {
            LspPhase::Starting => (
                s,
                seq![LspAction::Notify(LspNotice::Error(error)), LspAction::Terminate, LspAction::Stop],
            ),
            LspPhase::Running => (
                going_down(s),
                seq![LspAction::Notify(LspNotice::Error(error)), LspAction::StartShutdownClock],
            ),
        },
        LspEvent::Tick { clock_expired } => if s.shutting_down && s.clock_running && clock_expired {
            (s, seq![LspAction::Terminate])
        } else {
            (s, Seq::empty())
        },
    }
}

impl LspClientState {
    /// A connection about to start.
    pub fn new() -> (s: Self)
        ensures
            s == (LspClientState { phase: LspPhase::Starting, initialized: false, shutting_down: false, clock_running: false }),
    {
        LspClientState { phase: LspPhase::Starting, initialized: false, shutting_down: false, clock_running: false }
    }

    /// Starts the connection: the editor hears that the server started, and
    /// `initialize` is written before anything else.
    pub fn start(&mut self) -> (actions: Vec<LspAction>)
        requires
            old(self).phase == LspPhase::Starting,
        ensures
            actions@ == seq![
                LspAction::Notify(LspNotice::Started),
                LspAction::Write { message: Outgoing::Initialize, report_failure: true },
            ],
            *final(self) == *old(self),
    {
        let mut actions: Vec<LspAction> = Vec::new();
        actions.push(LspAction::Notify(LspNotice::Started));
        actions.push(LspAction::Write { message: Outgoing::Initialize, report_failure: true });
        actions
    }

    /// `initialize` is out: the connection runs.
    pub fn initialize_sent(&mut self)
        ensures
            *final(self) == (LspClientState { phase: LspPhase::Running, ..*old(self) }),
    {
        self.phase = LspPhase::Running;
    }
}

/// The client's answer to one event, as `spec_lsp_step` gives it.
pub fn lsp_client_step(state: &mut LspClientState, event: LspEvent) -> (actions: Vec<LspAction>)
    ensures
        (*final(state), actions@) == spec_lsp_step(*old(state), event),
{
    let mut actions: Vec<LspAction> = Vec::new();
    let s = *state;
    match event {
        LspEvent::Incoming(m) => {
            let initialize_reply = match m.get("id") {
                Some(id) => id.as_u64() == Some(1u64),
                None => false,
            };
            let request = m.get("method").is_some() && m.get("id").is_some();
            if initialize_reply && !s.initialized {
                state.initialized = true;
                actions.push(LspAction::Write { message: Outgoing::Initialized, report_failure: false });
                actions.push(LspAction::Notify(LspNotice::Initialized));
            } else if request {
                actions.push(LspAction::Write { message: Outgoing::MethodNotImplemented, report_failure: false });
            }
            actions.push(LspAction::Notify(LspNotice::Message(m)));
        },
        LspEvent::IncomingEof => {
            if !s.clock_running {
                actions.push(LspAction::StartShutdownClock);
            }
            state.shutting_down = true;
            state.clock_running = true;
        },
        LspEvent::IncomingError(error) => {
            actions.push(LspAction::Notify(LspNotice::Error(error)));
            if !s.clock_running {
                actions.push(LspAction::StartShutdownClock);
            }
            state.shutting_down = true;
            state.clock_running = true;
        },
        LspEvent::Exited(code) => {
            actions.push(LspAction::Notify(LspNotice::Exited(code)));
            actions.push(LspAction::Stop);
        },
        LspEvent::Send(m) => {
            if !s.shutting_down {
                actions.push(LspAction::Write { message: Outgoing::Message(m), report_failure: true });
            }
        },
        LspEvent::SendDidChange { uri, version, text } => {
            if !s.shutting_down {
                actions.push(LspAction::Write { message: Outgoing::DidChange { uri, version, text }, report_failure: true });
            }
        },
        LspEvent::Shutdown => {
            if !s.shutting_down {
                actions.push(LspAction::Write { message: Outgoing::ShutdownRequest, report_failure: false });
                actions.push(LspAction::Write { message: Outgoing::Exit, report_failure: false });
                actions.push(LspAction::StartShutdownClock);
                state.shutting_down = true;
                state.clock_running = true;
            }
        },
        LspEvent::WriteFailed(error) => {
            actions.push(LspAction::Notify(LspNotice::Error(error)));
            match s.phase {
                LspPhase::Starting => {
                    actions.push(LspAction::Terminate);
                    actions.push(LspAction::Stop);
                },
                LspPhase::Running => {
                    actions.push(LspAction::StartShutdownClock);
                    state.shutting_down = true;
                    state.clock_running = true;
                },
            }
        },
        LspEvent::Tick { clock_expired } => {
            if s.shutting_down && s.clock_running && clock_expired {
                actions.push(LspAction::Terminate);
            }
        },
    }
    proof {
        assert(actions@ =~= spec_lsp_step(*old(state), event).1);
    }
    actions
}


/// Once the connection is going down it stays so, and nothing the editor
/// asks for is sent any more; the server is answered `initialized` at most
/// once.
pub proof fn lemma_nothing_sent_after_shutdown(s: LspClientState, e: LspEvent)
    ensures
        s.shutting_down ==> spec_lsp_step(s, e).0.shutting_down,
        s.shutting_down && (e is Send || e is SendDidChange || e is Shutdown) ==> spec_lsp_step(s, e).1.len() == 0,
        s.initialized ==> spec_lsp_step(s, e).0.initialized && forall|i: int|
            0 <= i < spec_lsp_step(s, e).1.len() ==> !((#[trigger] spec_lsp_step(s, e).1[i]) matches LspAction::Write {
                message: Outgoing::Initialized,
                ..
            }),
{
}

} // verus!
