//! What the client and the daemon tell each other.

use vstd::prelude::*;
use crate::geometry::{Dir, Size};
use crate::ids::{AgentId, RepoId, TerminalId};
use crate::pane::Layout;
use crate::text::opt_text;
use crate::time::Moment;

verus! {

/// Why an agent waits for its user.
#[derive(Clone, Copy, Debug, PartialEq, Eq, Structural)]
pub enum AttentionKind {
    Permission,
    Question,
    Info,
}

/// What an agent is doing.
#[derive(Clone, Debug, PartialEq, Eq)]
pub enum AgentState {
    Working,
    NeedsAttention { kind: AttentionKind, message: Option<String> },
    Idle,
    Starting,
    Exited { code: Option<i32> },
    Error { message: String },
}

/// A repository the daemon knows.
#[derive(Clone, Debug, PartialEq, Eq)]
pub struct RepoInfo {
    pub id: RepoId,
    pub name: String,
    pub path: String,
}

/// An agent the daemon runs. `glyph` is the character that shows its state.
#[derive(Clone, Debug, PartialEq, Eq)]
pub struct AgentInfo {
    pub id: AgentId,
    pub repo: RepoId,
    pub name: String,
    pub branch: Option<String>,
    pub state: AgentState,
    pub glyph: char,
    pub last_activity: Moment,
    pub last_opened: Moment,
    pub unread: bool,
    pub primary_terminal: TerminalId,
}

/// A message from the daemon.
#[derive(Debug, PartialEq, Eq)]
pub enum DaemonMsg {
    Hello { proto_version: u32 },
    Repos(Vec<RepoInfo>),
    RepoAdded(RepoInfo),
    Agents(Vec<AgentInfo>),
    Layouts(Vec<(AgentId, Layout)>),
    Minis(Vec<AgentId>),
    Active(Option<AgentId>),
    Previous(Option<AgentId>),
    AgentAdded(AgentInfo),
    AgentRemoved { id: AgentId },
    DeleteNeedsConfirm { id: AgentId, message: String },
    StateChanged { id: AgentId, state: AgentState, glyph: char },
    UnreadChanged { id: AgentId, unread: bool },
    OpenedChanged { id: AgentId, at: Moment },
    TerminalApp { terminal: TerminalId, passthrough: bool },
    Navigate { dir: Dir },
    OutputSnapshot { terminal: TerminalId, bytes: Vec<u8> },
    Output { terminal: TerminalId, bytes: Vec<u8> },
    ScrollView { terminal: TerminalId, offset: usize, available: usize, bytes: Vec<u8> },
    TerminalExited { terminal: TerminalId },
    DoctorReport { repo: RepoId, pruned: Vec<String>, skipped: Vec<(String, usize)> },
    Error { message: String },
}

/// A message to the daemon.
#[derive(Debug, PartialEq, Eq)]
pub enum ClientMsg {
    Hello { proto_version: u32 },
    AddRepo { path: String },
    CreateAgent { repo: RepoId, branch: String, prompt: Option<String> },
    CreateAgentAt { path: String, branch: String },
    CreateHeadAgent { repo: RepoId },
    CreateHeadAgentAt { path: String },
    DeleteAgent { id: AgentId, force: bool },
    ResumeAgent { id: AgentId },
    DoctorRepo { repo: RepoId },
    Attach { terminal: TerminalId, size: Size },
    Detach { terminal: TerminalId },
    Input { terminal: TerminalId, bytes: Vec<u8> },
    Scroll { terminal: TerminalId, lines: i32 },
    SpawnShell { terminal: TerminalId, like: TerminalId },
    CloseTerminal { terminal: TerminalId },
    SetLayout { agent: AgentId, layout: Option<Layout> },
    SetMinis(Vec<AgentId>),
    SetActive(Option<AgentId>),
    SetPrevious(Option<AgentId>),
    Focus { agent: Option<AgentId> },
}

/// Something the client wants done outside.
#[derive(Debug, PartialEq, Eq)]
pub enum Action {
    /// A message for the daemon.
    Send(ClientMsg),
    /// A sequence for the outer terminal.
    Emit(String),
}

/// What a message to the daemon says.
pub enum MsgView {
    Hello { proto_version: u32 },
    AddRepo { path: Seq<char> },
    CreateAgent { repo: RepoId, branch: Seq<char>, prompt: Option<Seq<char>> },
    CreateAgentAt { path: Seq<char>, branch: Seq<char> },
    CreateHeadAgent { repo: RepoId },
    CreateHeadAgentAt { path: Seq<char> },
    DeleteAgent { id: AgentId, force: bool },
    ResumeAgent { id: AgentId },
    DoctorRepo { repo: RepoId },
    Attach { terminal: TerminalId, size: Size },
    Detach { terminal: TerminalId },
    Input { terminal: TerminalId, bytes: Seq<u8> },
    Scroll { terminal: TerminalId, lines: i32 },
    SpawnShell { terminal: TerminalId, like: TerminalId },
    CloseTerminal { terminal: TerminalId },
    SetLayout { agent: AgentId, layout: Option<Layout> },
    SetMinis(Seq<AgentId>),
    SetActive(Option<AgentId>),
    SetPrevious(Option<AgentId>),
    Focus { agent: Option<AgentId> },
    /// Not a message: a sequence for the outer terminal.
    Emit(Seq<char>),
}

impl View for ClientMsg {
    type V = MsgView;

    open spec fn view(&self) -> MsgView {
        match *self {
            ClientMsg::Hello { proto_version } => MsgView::Hello { proto_version },
            ClientMsg::AddRepo { path } => MsgView::AddRepo { path: path@ },
            ClientMsg::CreateAgent { repo, branch, prompt } => MsgView::CreateAgent {
                repo,
                branch: branch@,
                prompt: opt_text(prompt),
            },
            ClientMsg::CreateAgentAt { path, branch } => MsgView::CreateAgentAt {
                path: path@,
                branch: branch@,
            },
            ClientMsg::CreateHeadAgent { repo } => MsgView::CreateHeadAgent { repo },
            ClientMsg::CreateHeadAgentAt { path } => MsgView::CreateHeadAgentAt { path: path@ },
            ClientMsg::DeleteAgent { id, force } => MsgView::DeleteAgent { id, force },
            ClientMsg::ResumeAgent { id } => MsgView::ResumeAgent { id },
            ClientMsg::DoctorRepo { repo } => MsgView::DoctorRepo { repo },
            ClientMsg::Attach { terminal, size } => MsgView::Attach { terminal, size },
            ClientMsg::Detach { terminal } => MsgView::Detach { terminal },
            ClientMsg::Input { terminal, bytes } => MsgView::Input { terminal, bytes: bytes@ },
            ClientMsg::Scroll { terminal, lines } => MsgView::Scroll { terminal, lines },
            ClientMsg::SpawnShell { terminal, like } => MsgView::SpawnShell { terminal, like },
            ClientMsg::CloseTerminal { terminal } => MsgView::CloseTerminal { terminal },
            ClientMsg::SetLayout { agent, layout } => MsgView::SetLayout { agent, layout },
            ClientMsg::SetMinis(ids) => MsgView::SetMinis(ids@),
            ClientMsg::SetActive(id) => MsgView::SetActive(id),
            ClientMsg::SetPrevious(id) => MsgView::SetPrevious(id),
            ClientMsg::Focus { agent } => MsgView::Focus { agent },
        }
    }
}

impl View for Action {
    type V = MsgView;

    open spec fn view(&self) -> MsgView {
        match *self {
            Action::Send(msg) => msg@,
            Action::Emit(text) => MsgView::Emit(text@),
        }
    }
}

/// What the client wants done, in order, and has not handed over yet.
pub struct Outbox {
    pub actions: Vec<Action>,
}

impl View for Outbox {
    type V = Seq<MsgView>;

    open spec fn view(&self) -> Seq<MsgView> {
        Seq::new(self.actions@.len(), |i: int| self.actions@[i]@)
    }
}

impl Outbox {
    /// An outbox with nothing in it.
    pub fn new() -> (out: Outbox)
        ensures
            out@ == Seq::<MsgView>::empty(),
    {
        let out = Outbox { actions: Vec::new() };
        assert(out@ =~= Seq::<MsgView>::empty());
        out
    }

    /// Put a message for the daemon at the end.
    pub fn send(&mut self, msg: ClientMsg)
        ensures
            final(self)@ == old(self)@.push(msg@),
    {
        self.actions.push(Action::Send(msg));
        assert(self@ =~= old(self)@.push(msg@));
    }

    /// Put a sequence for the outer terminal at the end.
    pub fn emit(&mut self, text: String)
        ensures
            final(self)@ == old(self)@.push(MsgView::Emit(text@)),
    {
        self.actions.push(Action::Emit(text));
        assert(self@ =~= old(self)@.push(MsgView::Emit(text@)));
    }
}

} // verus!
