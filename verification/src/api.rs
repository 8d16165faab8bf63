//! The interface between the chat application and its user interface:
//! commands the interface sends, notifications it receives, and the data
//! they carry.

use vstd::prelude::*;

verus! {

/// Content of a chat message.
#[derive(Debug)]
pub enum Content {
    Text(String),
}

impl Clone for Content {
    fn clone(&self) -> (r: Self)
        ensures
            r == *self,
    {
        match self {
            Content::Text(s) => Content::Text(s.clone()),
        }
    }
}

/// Delivery status of a message.
#[derive(Debug)]
pub enum MessageStatus {
    /// Handed to the peer's connection.
    Sent,
    /// Sending failed, with the reason.
    Failed(String),
}

impl Clone for MessageStatus {
    fn clone(&self) -> (r: Self)
        ensures
            r == *self,
    {
        match self {
            MessageStatus::Sent => MessageStatus::Sent,
            MessageStatus::Failed(s) => MessageStatus::Failed(s.clone()),
        }
    }
}

/// One message of a conversation.
#[derive(Debug)]
pub struct MessageInfo {
    pub msg_id: String,
    pub from: String,
    pub content: Content,
    pub timestamp: u64,
    pub status: MessageStatus,
}

impl Clone for MessageInfo {
    fn clone(&self) -> (r: Self)
        ensures
            r == *self,
    {
        MessageInfo {
            msg_id: self.msg_id.clone(),
            from: self.from.clone(),
            content: self.content.clone(),
            timestamp: self.timestamp,
            status: self.status.clone(),
        }
    }
}

/// A connected peer: its node id, display name, and socket address text.
#[derive(Debug)]
pub struct PeerInfo {
    pub peer_id: String,
    pub peer_name: String,
    pub addr: String,
}

impl Clone for PeerInfo {
    fn clone(&self) -> (r: Self)
        ensures
            r == *self,
    {
        PeerInfo {
            peer_id: self.peer_id.clone(),
            peer_name: self.peer_name.clone(),
            addr: self.addr.clone(),
        }
    }
}

/// Importance of a notice.
#[derive(Debug, Clone, Copy, PartialEq, Eq, Structural)]
pub enum NoticeLevel {
    Info,
    Error,
}

/// What the user interface asks of the application.
#[derive(Debug)]
pub enum Command {
    /// Connect to a peer given by `ip:port`, bare IP, or node id.
    Connect { addr: String },
    /// Disconnect from a peer.
    Disconnect { peer_id: String },
    /// Send a message in a conversation; `msg_id` is chosen by the
    /// interface so it can match the acknowledgement.
    SendMessage { conv_id: String, msg_id: String, content: Content },
    /// Ask for history of a conversation: at most `limit` messages, older
    /// than `before` when given.
    GetHistory { conv_id: String, before: Option<u64>, limit: u32 },
    /// List connected peers.
    ListPeers,
    /// Shut down.
    Shutdown,
}

/// What the application tells the user interface.
#[derive(Debug)]
pub enum Notify {
    PeerOnline { peer_id: String, peer_name: String, addr: String },
    PeerOffline { peer_id: String },
    /// An incoming message.
    MessageReceived { conv_id: String, msg: MessageInfo },
    /// Whether a sent message was delivered.
    MessageAck { msg_id: String, status: MessageStatus },
    PeerList { peers: Vec<PeerInfo> },
    History { conv_id: String, messages: Vec<MessageInfo> },
    Notice { level: NoticeLevel, content: String },
}

/// [`MessageStatus`] as a value.
pub enum StatusV {
    Sent,
    Failed(Seq<char>),
}

/// [`MessageInfo`] as a value.
pub struct MessageInfoV {
    pub msg_id: Seq<char>,
    pub from: Seq<char>,
    pub text: Seq<char>,
    pub timestamp: u64,
    pub status: StatusV,
}

impl View for MessageStatus {
    type V = StatusV;

    open spec fn view(&self) -> StatusV {
        match self {
            MessageStatus::Sent => StatusV::Sent,
            MessageStatus::Failed(s) => StatusV::Failed(s@),
        }
    }
}

impl View for MessageInfo {
    type V = MessageInfoV;

    open spec fn view(&self) -> MessageInfoV {
        MessageInfoV {
            msg_id: self.msg_id@,
            from: self.from@,
            text: match self.content {
                Content::Text(t) => t@,
            },
            timestamp: self.timestamp,
            status: self.status@,
        }
    }
}

/// [`PeerInfo`] as a value: id, name, address.
pub open spec fn peer_info_view(p: PeerInfo) -> (Seq<char>, Seq<char>, Seq<char>) {
    (p.peer_id@, p.peer_name@, p.addr@)
}

/// [`Notify`] as a value.
pub enum NotifyV {
    PeerOnline { peer_id: Seq<char>, peer_name: Seq<char>, addr: Seq<char> },
    PeerOffline { peer_id: Seq<char> },
    MessageReceived { conv_id: Seq<char>, msg: MessageInfoV },
    MessageAck { msg_id: Seq<char>, status: StatusV },
    PeerList { peers: Seq<(Seq<char>, Seq<char>, Seq<char>)> },
    History { conv_id: Seq<char>, messages: Seq<MessageInfoV> },
    Notice { level: NoticeLevel, content: Seq<char> },
}

impl View for Notify {
    type V = NotifyV;

    open spec fn view(&self) -> NotifyV {
        match self {
            Notify::PeerOnline { peer_id, peer_name, addr } => NotifyV::PeerOnline {
                peer_id: peer_id@,
                peer_name: peer_name@,
                addr: addr@,
            },
            Notify::PeerOffline { peer_id } => NotifyV::PeerOffline { peer_id: peer_id@ },
            Notify::MessageReceived { conv_id, msg } => NotifyV::MessageReceived {
                conv_id: conv_id@,
                msg: msg@,
            },
            Notify::MessageAck { msg_id, status } => NotifyV::MessageAck {
                msg_id: msg_id@,
                status: status@,
            },
            Notify::PeerList { peers } => NotifyV::PeerList {
                peers: peers@.map_values(|p: PeerInfo| peer_info_view(p)),
            },
            Notify::History { conv_id, messages } => NotifyV::History {
                conv_id: conv_id@,
                messages: messages@.map_values(|m: MessageInfo| m@),
            },
            Notify::Notice { level, content } => NotifyV::Notice {
                level: *level,
                content: content@,
            },
        }
    }
}

/// [`Command`] as a value.
pub enum CommandV {
    Connect { addr: Seq<char> },
    Disconnect { peer_id: Seq<char> },
    SendMessage { conv_id: Seq<char>, msg_id: Seq<char>, text: Seq<char> },
    GetHistory { conv_id: Seq<char>, before: Option<u64>, limit: u32 },
    ListPeers,
    Shutdown,
}

impl View for Command {
    type V = CommandV;

    open spec fn view(&self) -> CommandV {
        match self {
            Command::Connect { addr } => CommandV::Connect { addr: addr@ },
            Command::Disconnect { peer_id } => CommandV::Disconnect { peer_id: peer_id@ },
            Command::SendMessage { conv_id, msg_id, content } => CommandV::SendMessage {
                conv_id: conv_id@,
                msg_id: msg_id@,
                text: match content {
                    Content::Text(t) => t@,
                },
            },
            Command::GetHistory { conv_id, before, limit } => CommandV::GetHistory {
                conv_id: conv_id@,
                before: *before,
                limit: *limit,
            },
            Command::ListPeers => CommandV::ListPeers,
            Command::Shutdown => CommandV::Shutdown,
        }
    }
}

} // verus!
