//! The peer-to-peer message protocol.

use vstd::prelude::*;
use crate::clock::now;

verus! {

/// A message exchanged between two peers over a stream connection.
#[derive(Debug, Clone)]
pub enum P2PMessage {
    /// First message of a connection, sent by both sides, so that each
    /// records the other's listening address and display name.
    Handshake { node_id: String, username: String, listen_addr: String, timestamp: u64 },
    /// A chat message; `to` is `None` for a broadcast.
    Direct { from: String, to: Option<String>, content: String, timestamp: u64 },
    /// System information.
    System { content: String, timestamp: u64 },
    /// Liveness probe.
    Keepalive { timestamp: u64 },
    /// The sender is leaving.
    Disconnect { reason: String, timestamp: u64 },
}

impl P2PMessage {
    /// The timestamp carried by any message.
    pub open spec fn spec_timestamp(self) -> u64 {
        match self {
            P2PMessage::Handshake { timestamp, .. } => timestamp,
            P2PMessage::Direct { timestamp, .. } => timestamp,
            P2PMessage::System { timestamp, .. } => timestamp,
            P2PMessage::Keepalive { timestamp } => timestamp,
            P2PMessage::Disconnect { timestamp, .. } => timestamp,
        }
    }

    /// A handshake stamped with the current time.
    pub fn new_handshake(node_id: String, username: String, listen_addr: String) -> (r: Self)
        ensures
            r matches P2PMessage::Handshake { node_id: a, username: b, listen_addr: c, .. } && a
                == node_id && b == username && c == listen_addr,
    {
        P2PMessage::Handshake { node_id, username, listen_addr, timestamp: now() }
    }

    /// A chat message stamped with the current time.
    pub fn new_direct(from: String, to: Option<String>, content: String) -> (r: Self)
        ensures
            r matches P2PMessage::Direct { from: a, to: b, content: c, .. } && a == from && b == to
                && c == content,
    {
        P2PMessage::Direct { from, to, content, timestamp: now() }
    }

    /// A system message stamped with the current time.
    pub fn new_system(content: String) -> (r: Self)
        ensures
            r matches P2PMessage::System { content: c, .. } && c == content,
    {
        P2PMessage::System { content, timestamp: now() }
    }

    /// A keepalive stamped with the current time.
    pub fn new_keepalive() -> (r: Self)
        ensures
            r is Keepalive,
    {
        P2PMessage::Keepalive { timestamp: now() }
    }

    /// A disconnect notice stamped with the current time.
    pub fn new_disconnect(reason: String) -> (r: Self)
        ensures
            r matches P2PMessage::Disconnect { reason: c, .. } && c == reason,
    {
        P2PMessage::Disconnect { reason, timestamp: now() }
    }

    /// The timestamp of the message.
    pub fn timestamp(&self) -> (r: u64)
        ensures
            r == self.spec_timestamp(),
    {
        match self {
            P2PMessage::Handshake { timestamp, .. } => *timestamp,
            P2PMessage::Direct { timestamp, .. } => *timestamp,
            P2PMessage::System { timestamp, .. } => *timestamp,
            P2PMessage::Keepalive { timestamp } => *timestamp,
            P2PMessage::Disconnect { timestamp, .. } => *timestamp,
        }
    }

    pub fn is_handshake(&self) -> (r: bool)
        ensures
            r == self is Handshake,
    {
        matches!(self, P2PMessage::Handshake { .. })
    }

    pub fn is_direct(&self) -> (r: bool)
        ensures
            r == self is Direct,
    {
        matches!(self, P2PMessage::Direct { .. })
    }

    pub fn is_system(&self) -> (r: bool)
        ensures
            r == self is System,
    {
        matches!(self, P2PMessage::System { .. })
    }

    pub fn is_keepalive(&self) -> (r: bool)
        ensures
            r == self is Keepalive,
    {
        matches!(self, P2PMessage::Keepalive { .. })
    }

    pub fn is_disconnect(&self) -> (r: bool)
        ensures
            r == self is Disconnect,
    {
        matches!(self, P2PMessage::Disconnect { .. })
    }
}

} // verus!
