use vstd::prelude::*;

verus! {

/// Which stream of the assistant child a line of output came from.
#[derive(Debug, Clone, Copy, PartialEq, Eq, Structural)]
pub enum OutputStream {
    Stdout,
    Stderr,
}

/// The observable state of an assistant session.
///
/// `Idle` is the initial state; `send` moves the session to `Thinking`;
/// a working-class output frame moves it to `Working`; a terminal-class
/// frame or the end of the output stream returns it to `Idle`; an error
/// frame or a failed spawn yields `Error`. `Error` is not terminal: a
/// later `send` returns the session to `Thinking`.
#[derive(Debug, Clone, Copy, PartialEq, Eq, Structural)]
pub enum AgentStatus {
    Idle,
    Thinking,
    Working,
    Error,
    Exited,
}

/// One line of output from an assistant child.
#[derive(Debug)]
pub struct AgentOutput {
    pub agent_id: String,
    pub stream: OutputStream,
    pub data: String,
}

/// A status transition of an assistant session.
#[derive(Debug)]
pub struct AgentStatusChange {
    pub agent_id: String,
    pub status: AgentStatus,
}

/// A chunk of output from a terminal session, decoded lossily as UTF-8.
#[derive(Debug)]
pub struct TerminalOutput {
    pub terminal_id: String,
    pub data: String,
}

/// An event carried by the broadcast bus to every subscriber.
#[derive(Debug)]
pub enum BusEvent {
    AgentOutput(AgentOutput),
    AgentStatus(AgentStatusChange),
    TerminalOutput(TerminalOutput),
}

/// The mathematical value of an `AgentOutput`.
#[verifier::ext_equal]
pub struct AgentOutputView {
    pub agent_id: Seq<char>,
    pub stream: OutputStream,
    pub data: Seq<char>,
}

/// The mathematical value of an `AgentStatusChange`.
#[verifier::ext_equal]
pub struct AgentStatusChangeView {
    pub agent_id: Seq<char>,
    pub status: AgentStatus,
}

/// The mathematical value of a `TerminalOutput`.
#[verifier::ext_equal]
pub struct TerminalOutputView {
    pub terminal_id: Seq<char>,
    pub data: Seq<char>,
}

/// The mathematical value of a `BusEvent`.
#[verifier::ext_equal]
pub enum BusEventView {
    AgentOutput(AgentOutputView),
    AgentStatus(AgentStatusChangeView),
    TerminalOutput(TerminalOutputView),
}

impl View for AgentOutput {
    type V = AgentOutputView;

    open spec fn view(&self) -> AgentOutputView {
        AgentOutputView { agent_id: self.agent_id@, stream: self.stream, data: self.data@ }
    }
}

impl View for AgentStatusChange {
    type V = AgentStatusChangeView;

    open spec fn view(&self) -> AgentStatusChangeView {
        AgentStatusChangeView { agent_id: self.agent_id@, status: self.status }
    }
}

impl View for TerminalOutput {
    type V = TerminalOutputView;

    open spec fn view(&self) -> TerminalOutputView {
        TerminalOutputView { terminal_id: self.terminal_id@, data: self.data@ }
    }
}

impl View for BusEvent {
    type V = BusEventView;

    open spec fn view(&self) -> BusEventView {
        match self {
            BusEvent::AgentOutput(o) => BusEventView::AgentOutput(o@),
            BusEvent::AgentStatus(s) => BusEventView::AgentStatus(s@),
            BusEvent::TerminalOutput(t) => BusEventView::TerminalOutput(t@),
        }
    }
}

impl Clone for AgentOutput {
    fn clone(&self) -> (r: Self)
        ensures
            r == *self,
    {
        AgentOutput {
            agent_id: self.agent_id.clone(),
            stream: self.stream,
            data: self.data.clone(),
        }
    }
}

impl Clone for AgentStatusChange {
    fn clone(&self) -> (r: Self)
        ensures
            r == *self,
    {
        AgentStatusChange { agent_id: self.agent_id.clone(), status: self.status }
    }
}

impl Clone for TerminalOutput {
    fn clone(&self) -> (r: Self)
        ensures
            r == *self,
    {
        TerminalOutput { terminal_id: self.terminal_id.clone(), data: self.data.clone() }
    }
}

impl Clone for BusEvent {
    fn clone(&self) -> (r: Self)
        ensures
            r == *self,
    {
        match self {
            BusEvent::AgentOutput(o) => BusEvent::AgentOutput(o.clone()),
            BusEvent::AgentStatus(s) => BusEvent::AgentStatus(s.clone()),
            BusEvent::TerminalOutput(t) => BusEvent::TerminalOutput(t.clone()),
        }
    }
}

/// The view of a sequence of bus events.
pub open spec fn events_view(evs: Seq<BusEvent>) -> Seq<BusEventView> {
    evs.map_values(|e: BusEvent| e@)
}

} // verus!
