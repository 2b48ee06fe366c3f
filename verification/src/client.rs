//! Reaching the daemon: the handshake, and how long to try.
//!
//! The client never clears the daemon's socket. A daemon that starts decides about the socket itself;
//! unlinking it here would leave an earlier daemon running where nothing can reach it.

use vstd::prelude::*;
use crate::text::owned;
use crate::wire::DaemonMsg;

verus! {

/// How often a freshly spawned daemon is tried.
pub const CONNECT_TRIES: u32 = 100;

/// How long to wait before each of these tries, in milliseconds.
pub const CONNECT_WAIT_MS: u64 = 20;

/// The first thing heard from the daemon.
pub enum FirstFrame {
    /// A message.
    Message(DaemonMsg),
    /// Something that could not be read.
    Unreadable,
    /// The end of the stream.
    Closed,
}

/// What a handshake came to.
#[derive(Debug, PartialEq, Eq)]
pub enum Handshake {
    /// The daemon speaks the client's version.
    Ready,
    /// The daemon speaks another version.
    WrongVersion { theirs: u32, ours: u32 },
    /// The daemon refused, with this message.
    Rejected(String),
    /// The daemon began with something else.
    Unexpected,
    /// What the daemon sent could not be read.
    Unreadable,
    /// The daemon hung up.
    Closed,
}

/// Whether a client that speaks version `ours` can go on after the daemon's first frame.
pub open spec fn welcome(ours: u32, frame: FirstFrame) -> bool {
    match frame {
        FirstFrame::Message(DaemonMsg::Hello { proto_version }) => proto_version == ours,
        _ => false,
    }
}

/// Judge the daemon's first frame, for a client that speaks version `ours`.
pub fn judge_hello(ours: u32, frame: FirstFrame) -> (out: Handshake)
    ensures
        out is Ready == welcome(ours, frame),
        match (frame, out) {
            (FirstFrame::Message(DaemonMsg::Hello { proto_version }), Handshake::Ready) =>
                proto_version == ours,
            (
                FirstFrame::Message(DaemonMsg::Hello { proto_version }),
                Handshake::WrongVersion { theirs, ours: o },
            ) => proto_version != ours && theirs == proto_version && o == ours,
            (FirstFrame::Message(DaemonMsg::Hello { .. }), _) => false,
            (FirstFrame::Message(DaemonMsg::Error { message }), Handshake::Rejected(text)) => text@
                == message@,
            (FirstFrame::Message(DaemonMsg::Error { .. }), _) => false,
            (FirstFrame::Message(_), Handshake::Unexpected) => true,
            (FirstFrame::Unreadable, Handshake::Unreadable) => true,
            (FirstFrame::Closed, Handshake::Closed) => true,
            _ => false,
        },
{
    match frame {
        FirstFrame::Message(msg) => match msg {
            DaemonMsg::Hello { proto_version } => if proto_version == ours {
                Handshake::Ready
            } else {
                Handshake::WrongVersion { theirs: proto_version, ours }
            },
            DaemonMsg::Error { message } => Handshake::Rejected(message),
            _ => Handshake::Unexpected,
        },
        FirstFrame::Unreadable => Handshake::Unreadable,
        FirstFrame::Closed => Handshake::Closed,
    }
}

/// What to say of a handshake that failed. Where the daemon began with something else, this is a
/// prefix: the frame that came is to follow it.
pub fn handshake_error(h: &Handshake) -> (text: Option<String>)
    ensures
        text is None == (*h is Ready),
        match (*h, text) {
            (Handshake::Rejected(m), Some(t)) => t@ == "daemon rejected connection: "@ + m@,
            (Handshake::Unexpected, Some(t)) => t@ == "unexpected first frame from daemon: "@,
            (Handshake::Unreadable, Some(t)) => t@ == "read daemon hello"@,
            (Handshake::Closed, Some(t)) => t@
                == "daemon closed the connection during handshake"@,
            (Handshake::WrongVersion { .. }, Some(t)) => t@ == "incompatible protocol version"@,
            _ => true,
        },
{
    match h {
        Handshake::Ready => None,
        Handshake::WrongVersion { .. } => Some(owned("incompatible protocol version")),
        Handshake::Rejected(m) => {
            let mut out = owned("daemon rejected connection: ");
            out.append(m.as_str());
            Some(out)
        },
        Handshake::Unexpected => Some(owned("unexpected first frame from daemon: ")),
        Handshake::Unreadable => Some(owned("read daemon hello")),
        Handshake::Closed => Some(owned("daemon closed the connection during handshake")),
    }
}

/// Where an attempt to connect stands.
#[derive(Clone, Copy, Debug, PartialEq, Eq, Structural)]
pub enum ConnectState {
    /// Nothing was tried yet.
    Start,
    /// No daemon answered, so one has to be spawned.
    Spawning,
    /// A daemon was spawned and tried this often.
    Waiting { tried: u32 },
    Connected,
    /// The daemon did not come up.
    Failed,
}

/// What to do next.
#[derive(Clone, Copy, Debug, PartialEq, Eq, Structural)]
pub enum ConnectAction {
    Handshake,
    Spawn,
    /// Wait, then try the handshake.
    WaitAndHandshake { millis: u64 },
    Done,
    GiveUp,
}

/// What to do in a state.
pub open spec fn action_in(state: ConnectState) -> ConnectAction {
    match state {
        ConnectState::Start => ConnectAction::Handshake,
        ConnectState::Spawning => ConnectAction::Spawn,
        ConnectState::Waiting { .. } => ConnectAction::WaitAndHandshake { millis: CONNECT_WAIT_MS },
        ConnectState::Connected => ConnectAction::Done,
        ConnectState::Failed => ConnectAction::GiveUp,
    }
}

/// The state after the action of `state` ended well or not. A daemon that is there is used; otherwise
/// one is spawned once, and tried a limited number of times.
pub open spec fn state_after(state: ConnectState, ok: bool) -> ConnectState {
    match state {
        ConnectState::Start => if ok {
            ConnectState::Connected
        } else {
            ConnectState::Spawning
        },
        ConnectState::Spawning => if ok {
            ConnectState::Waiting { tried: 0 }
        } else {
            ConnectState::Failed
        },
        ConnectState::Waiting { tried } => if ok {
            ConnectState::Connected
        } else if tried + 1 < CONNECT_TRIES {
            ConnectState::Waiting { tried: (tried + 1) as u32 }
        } else {
            ConnectState::Failed
        },
        ConnectState::Connected => state,
        ConnectState::Failed => state,
    }
}

impl ConnectState {
    /// What to do now.
    pub fn action(self) -> (action: ConnectAction)
        ensures
            action == action_in(self),
    {
        match self {
            ConnectState::Start => ConnectAction::Handshake,
            ConnectState::Spawning => ConnectAction::Spawn,
            ConnectState::Waiting { .. } => ConnectAction::WaitAndHandshake {
                millis: CONNECT_WAIT_MS,
            },
            ConnectState::Connected => ConnectAction::Done,
            ConnectState::Failed => ConnectAction::GiveUp,
        }
    }

    /// The state after the action ended, well or not.
    pub fn next(self, ok: bool) -> (state: ConnectState)
        ensures
            state == state_after(self, ok),
    {
        match self {
            ConnectState::Start => if ok {
                ConnectState::Connected
            } else {
                ConnectState::Spawning
            },
            ConnectState::Spawning => if ok {
                ConnectState::Waiting { tried: 0 }
            } else {
                ConnectState::Failed
            },
            ConnectState::Waiting { tried } => if ok {
                ConnectState::Connected
            } else if tried < CONNECT_TRIES - 1 {
                ConnectState::Waiting { tried: tried + 1 }
            } else {
                ConnectState::Failed
            },
            ConnectState::Connected => self,
            ConnectState::Failed => self,
        }
    }
}

/// The state after `n` failed tries of a spawned daemon.
pub open spec fn after_failures(n: nat) -> ConnectState
    decreases n,
{
    if n == 0 {
        ConnectState::Waiting { tried: 0 }
    } else {
        state_after(after_failures((n - 1) as nat), false)
    }
}

/// A spawned daemon is tried exactly the allowed number of times before the client gives up.
pub proof fn tries_are_bounded(n: nat)
    ensures
        n < CONNECT_TRIES ==> after_failures(n) == (ConnectState::Waiting { tried: n as u32 }),
        n >= CONNECT_TRIES ==> after_failures(n) == ConnectState::Failed,
    decreases n,
{
    if n > 0 {
        tries_are_bounded((n - 1) as nat);
    }
}

} // verus!
