//! Events between the node and the console: what the node reports
//! ([`AppEvent`]), what the console asks of it ([`NodeCommand`]), and the
//! lines of the message pane ([`DisplayLine`]).

use vstd::prelude::*;

verus! {

/// `Option<String>` seen as text.
pub open spec fn opt_text(o: Option<String>) -> Option<Seq<char>> {
    match o {
        Some(s) => Some(s@),
        None => None,
    }
}

/// Everything the node layer can tell the console.
#[derive(Debug)]
pub enum AppEvent {
    /// A direct or broadcast message arrived; `to` is `None` for a broadcast.
    MessageReceived {
        from_id: String,
        from_name: String,
        to: Option<String>,
        content: String,
        timestamp: u64,
    },
    /// A message this node sent, echoed in the message pane.
    MessageSent {
        to: Option<String>,
        content: String,
        timestamp: u64,
        ok_count: usize,
        total: usize,
        our_name: String,
        our_id: String,
    },
    /// A peer connected.
    PeerConnected { node_id: String, username: String },
    /// A peer disconnected.
    PeerDisconnected { node_id: String, reason: String },
    /// A general notice.
    SystemNotice(String),
    /// One line of output of a command.
    CommandOutput(String),
    /// The node finished shutting down.
    NodeShutdown,
}

/// [`AppEvent`] with its texts as character sequences.
pub enum EventV {
    MessageReceived {
        from_id: Seq<char>,
        from_name: Seq<char>,
        to: Option<Seq<char>>,
        content: Seq<char>,
        timestamp: u64,
    },
    MessageSent {
        to: Option<Seq<char>>,
        content: Seq<char>,
        timestamp: u64,
        ok_count: usize,
        total: usize,
        our_name: Seq<char>,
        our_id: Seq<char>,
    },
    PeerConnected { node_id: Seq<char>, username: Seq<char> },
    PeerDisconnected { node_id: Seq<char>, reason: Seq<char> },
    SystemNotice(Seq<char>),
    CommandOutput(Seq<char>),
    NodeShutdown,
}

impl View for AppEvent {
    type V = EventV;

    open spec fn view(&self) -> EventV {
        match self {
            AppEvent::MessageReceived { from_id, from_name, to, content, timestamp } =>
                EventV::MessageReceived {
                from_id: from_id@,
                from_name: from_name@,
                to: opt_text(*to),
                content: content@,
                timestamp: *timestamp,
            },
            AppEvent::MessageSent {
                to,
                content,
                timestamp,
                ok_count,
                total,
                our_name,
                our_id,
            } => EventV::MessageSent {
                to: opt_text(*to),
                content: content@,
                timestamp: *timestamp,
                ok_count: *ok_count,
                total: *total,
                our_name: our_name@,
                our_id: our_id@,
            },
            AppEvent::PeerConnected { node_id, username } => EventV::PeerConnected {
                node_id: node_id@,
                username: username@,
            },
            AppEvent::PeerDisconnected { node_id, reason } => EventV::PeerDisconnected {
                node_id: node_id@,
                reason: reason@,
            },
            AppEvent::SystemNotice(s) => EventV::SystemNotice(s@),
            AppEvent::CommandOutput(s) => EventV::CommandOutput(s@),
            AppEvent::NodeShutdown => EventV::NodeShutdown,
        }
    }
}

/// A list of events seen as values.
pub open spec fn events_view(s: Seq<AppEvent>) -> Seq<EventV> {
    s.map_values(|e: AppEvent| e@)
}

/// Commands the console sends to the node.
#[derive(Debug)]
pub enum NodeCommand {
    SendMessage { to: String, content: String },
    BroadcastMessage { content: String },
    /// Connect to an explicit `ip:port`; the node id comes from the handshake.
    Connect { addr: String },
    /// Reconnect to a peer known in the registry.
    ConnectById { node_id: String },
    /// Connect by IP only, probing the default ports.
    ConnectByIp { ip: String },
    /// `Some(node_id)`: enter chat with that peer (connecting if needed);
    /// `None`: leave chat mode.
    Chat(Option<String>),
    ListPeers,
    ListConnected,
    Quit,
}

/// [`NodeCommand`] with its texts as character sequences.
pub enum CmdV {
    SendMessage { to: Seq<char>, content: Seq<char> },
    BroadcastMessage { content: Seq<char> },
    Connect { addr: Seq<char> },
    ConnectById { node_id: Seq<char> },
    ConnectByIp { ip: Seq<char> },
    Chat(Option<Seq<char>>),
    ListPeers,
    ListConnected,
    Quit,
}

impl View for NodeCommand {
    type V = CmdV;

    open spec fn view(&self) -> CmdV {
        match self {
            NodeCommand::SendMessage { to, content } => CmdV::SendMessage {
                to: to@,
                content: content@,
            },
            NodeCommand::BroadcastMessage { content } => CmdV::BroadcastMessage {
                content: content@,
            },
            NodeCommand::Connect { addr } => CmdV::Connect { addr: addr@ },
            NodeCommand::ConnectById { node_id } => CmdV::ConnectById { node_id: node_id@ },
            NodeCommand::ConnectByIp { ip } => CmdV::ConnectByIp { ip: ip@ },
            NodeCommand::Chat(o) => CmdV::Chat(opt_text(*o)),
            NodeCommand::ListPeers => CmdV::ListPeers,
            NodeCommand::ListConnected => CmdV::ListConnected,
            NodeCommand::Quit => CmdV::Quit,
        }
    }
}

/// Visual category of a line in the message pane.
#[derive(Debug, Clone, Copy, PartialEq, Eq, Structural)]
pub enum LineKind {
    Incoming,
    Outgoing,
    System,
}

/// One line of the message pane.
#[derive(Debug)]
pub struct DisplayLine {
    pub kind: LineKind,
    pub text: String,
}

/// A line of the message pane, as a value.
pub struct LineV {
    pub kind: LineKind,
    pub text: Seq<char>,
}

impl View for DisplayLine {
    type V = LineV;

    open spec fn view(&self) -> LineV {
        LineV { kind: self.kind, text: self.text@ }
    }
}

impl Clone for DisplayLine {
    fn clone(&self) -> (r: Self)
        ensures
            r@ == self@,
    {
        DisplayLine { kind: self.kind, text: self.text.clone() }
    }
}

} // verus!
