//! Decisions of a chat node: what to do for each console command, how to
//! treat each message read from a peer, and how the results of sending are
//! reported. The node's connections and its I/O are driven by the caller,
//! which performs the actions returned here.

use vstd::prelude::*;
use crate::event::{AppEvent, CmdV, EventV, NodeCommand, events_view, opt_text};
use crate::message::P2PMessage;
use crate::registry::{KnownPeer, PeerRegistry, SocketParts, normalize_peer_addr, normalized_addr};
use crate::text::{cat, decimal, decimal_string, str_is};

verus! {

/// How a connection target is reached.
#[derive(Debug, Clone, Copy, PartialEq, Eq, Structural)]
pub enum ConnectVia {
    /// An explicit `ip:port`.
    Addr,
    /// A registry address: an `ip:port` if it parses as one, otherwise an
    /// IP whose default ports are probed.
    AddrOrIp,
    /// An IP whose default ports are probed.
    Ip,
}

/// How a failed connection attempt is reported.
#[derive(Debug)]
pub enum Failure {
    /// `Connection to '<target>' failed: <error>`.
    Target(String),
    /// `Auto-connect to '<node_id>' failed: <error>`.
    Auto(String),
    /// `IP connect failed: <error>`.
    Ip,
}

/// [`Failure`] as a value.
pub enum FailureV {
    Target(Seq<char>),
    Auto(Seq<char>),
    Ip,
}

impl View for Failure {
    type V = FailureV;

    open spec fn view(&self) -> FailureV {
        match self {
            Failure::Target(s) => FailureV::Target(s@),
            Failure::Auto(s) => FailureV::Auto(s@),
            Failure::Ip => FailureV::Ip,
        }
    }
}

/// Something the node has to do.
#[derive(Debug)]
pub enum NodeAction {
    /// Send every connected peer a disconnect notice with `reason`, then
    /// save the registry.
    Shutdown { reason: String },
    /// Report an event to the console.
    Emit(AppEvent),
    /// Send a direct message (connecting first if needed).
    SendDirect { to: String, content: String },
    /// Send a message to every connected peer.
    Broadcast { content: String },
    /// Open a connection.
    Connect { target: String, via: ConnectVia, failure: Failure },
}

/// [`NodeAction`] as a value.
pub enum ActionV {
    Shutdown { reason: Seq<char> },
    Emit(EventV),
    SendDirect { to: Seq<char>, content: Seq<char> },
    Broadcast { content: Seq<char> },
    Connect { target: Seq<char>, via: ConnectVia, failure: FailureV },
}

impl View for NodeAction {
    type V = ActionV;

    open spec fn view(&self) -> ActionV {
        match self {
            NodeAction::Shutdown { reason } => ActionV::Shutdown { reason: reason@ },
            NodeAction::Emit(e) => ActionV::Emit(e@),
            NodeAction::SendDirect { to, content } => ActionV::SendDirect {
                to: to@,
                content: content@,
            },
            NodeAction::Broadcast { content } => ActionV::Broadcast { content: content@ },
            NodeAction::Connect { target, via, failure } => ActionV::Connect {
                target: target@,
                via: *via,
                failure: failure@,
            },
        }
    }
}

/// A list of actions as values.
pub open spec fn actions_view(a: Seq<NodeAction>) -> Seq<ActionV> {
    a.map_values(|x: NodeAction| x@)
}

/// Output line listing a connected peer.
pub open spec fn connected_line(id: Seq<char>) -> Seq<char> {
    "  - "@ + id
}

/// Output line listing a known peer with its status.
pub open spec fn known_line(p: KnownPeer, online: bool) -> Seq<char> {
    "  - "@ + p.node_id@ + " ("@ + p.username@ + ") @ "@ + p.address@ + "  ["@ + (if online {
        "online"@
    } else {
        "offline"@
    }) + "]"@
}

/// Emitting a line of command output.
pub open spec fn output(line: Seq<char>) -> ActionV {
    ActionV::Emit(EventV::CommandOutput(line))
}

/// Emitting a notice.
pub open spec fn notice(text: Seq<char>) -> ActionV {
    ActionV::Emit(EventV::SystemNotice(text))
}

/// The notice for a node id that the registry does not know.
pub open spec fn unknown_peer_text(id: Seq<char>) -> Seq<char> {
    "Unknown peer '"@ + id + "'. Use 'connect <ip>' or 'connect <ip:port>' first."@
}

/// What the node does for a console command, given the ids of the
/// connected peers (in the order the connection table lists them) and the
/// registry; the flag says whether the node stops.
pub open spec fn plan_spec(cmd: CmdV, connected: Seq<Seq<char>>, reg: PeerRegistry) -> (Seq<ActionV>, bool) {
    match cmd {
        CmdV::Quit => (
            seq![ActionV::Shutdown { reason: "Node shutting down"@ }, ActionV::Emit(EventV::NodeShutdown)],
            true,
        ),
        CmdV::SendMessage { to, content } => (seq![ActionV::SendDirect { to, content }], false),
        CmdV::BroadcastMessage { content } => (seq![ActionV::Broadcast { content }], false),
        CmdV::Connect { addr } => (
            seq![ActionV::Connect { target: addr, via: ConnectVia::Addr, failure: FailureV::Target(addr) }],
            false,
        ),
        CmdV::ConnectById { node_id } => (
            match reg.known(node_id) {
                Some(p) => seq![
                    ActionV::Connect {
                        target: p.address@,
                        via: ConnectVia::AddrOrIp,
                        failure: FailureV::Target(node_id),
                    },
                ],
                None => seq![notice(unknown_peer_text(node_id))],
            },
            false,
        ),
        CmdV::ConnectByIp { ip } => (
            seq![ActionV::Connect { target: ip, via: ConnectVia::Ip, failure: FailureV::Ip }],
            false,
        ),
        CmdV::Chat(Some(node_id)) => (
            if connected.contains(node_id) {
                seq![]
            } else {
                match reg.known(node_id) {
                    Some(p) => seq![
                        ActionV::Connect {
                            target: p.address@,
                            via: ConnectVia::AddrOrIp,
                            failure: FailureV::Auto(node_id),
                        },
                    ],
                    None => seq![],
                }
            },
            false,
        ),
        CmdV::Chat(None) => (seq![], false),
        CmdV::ListConnected => (
            if connected.len() == 0 {
                seq![output("  No connected peers"@)]
            } else {
                seq![output("Connected peers:"@)] + Seq::new(
                    connected.len(),
                    |i: int| output(connected_line(connected[i])),
                )
            },
            false,
        ),
        CmdV::ListPeers => (
            if reg.entries().len() == 0 {
                seq![output("  No known peers in registry"@)]
            } else {
                seq![output("Known peers:"@)] + Seq::new(
                    reg.entries().len(),
                    |i: int|
                        output(
                            known_line(
                                reg.entries()[i],
                                connected.contains(reg.entries()[i].node_id@),
                            ),
                        ),
                )
            },
            false,
        ),
    }
}

/// Listing the known peers gives a header and one line per recorded peer,
/// in registry order, with its id, name and address; a peer is marked
/// online exactly when its id is among the connected peers' ids, and
/// offline otherwise. An empty registry gives one line saying so.
pub proof fn lemma_known_peers_status(connected: Seq<Seq<char>>, reg: PeerRegistry)
    ensures
        !plan_spec(CmdV::ListPeers, connected, reg).1,
        reg.entries().len() == 0 ==> plan_spec(CmdV::ListPeers, connected, reg).0 == seq![
            ActionV::Emit(EventV::CommandOutput("  No known peers in registry"@)),
        ],
        reg.entries().len() > 0 ==> {
            let acts = plan_spec(CmdV::ListPeers, connected, reg).0;
            &&& acts.len() == reg.entries().len() + 1
            &&& acts[0] == ActionV::Emit(EventV::CommandOutput("Known peers:"@))
            &&& forall|i: int|
                0 <= i < reg.entries().len() ==> acts[i + 1] == ActionV::Emit(
                    EventV::CommandOutput(
                        "  - "@ + (#[trigger] reg.entries()[i]).node_id@ + " ("@ + reg.entries()[i].username@
                            + ") @ "@ + reg.entries()[i].address@ + "  ["@ + (if connected.contains(
                            reg.entries()[i].node_id@,
                        ) {
                            "online"@
                        } else {
                            "offline"@
                        }) + "]"@,
                    ),
                )
        },
{
}

fn contains_text(list: &Vec<String>, x: &str) -> (r: bool)
    ensures
        r == crate::console::texts(list@).contains(x@),
{
    let n = list.len();
    let mut i: usize = 0;
    while i < n
        invariant
            n == list@.len(),
            i <= n,
            forall|j: int| 0 <= j < i ==> list@[j]@ != x@,
        decreases n - i,
    {
        if str_is(list[i].as_str(), x) {
            assert(crate::console::texts(list@)[i as int] == x@);
            return true;
        }
        i = i + 1;
    }
    assert(!crate::console::texts(list@).contains(x@)) by {
        if crate::console::texts(list@).contains(x@) {
            let j = choose|j: int| 0 <= j < list@.len() && crate::console::texts(list@)[j] == x@;
            assert(list@[j]@ == x@);
        }
    }
    false
}

fn emit_output(acts: &mut Vec<NodeAction>, line: String)
    ensures
        actions_view(final(acts)@) == actions_view(old(acts)@).push(output(line@)),
{
    let ghost l = line@;
    acts.push(NodeAction::Emit(AppEvent::CommandOutput(line)));
    assert(actions_view(acts@) =~= actions_view(old(acts)@).push(output(l)));
}

/// Decides what the node does for a console command. `connected` lists
/// the node ids of the live connections.
pub fn plan_command(cmd: NodeCommand, connected: &Vec<String>, reg: &PeerRegistry) -> (r: (Vec<NodeAction>, bool))
    requires
        reg.wf(),
    ensures
        actions_view(r.0@) == plan_spec(cmd@, crate::console::texts(connected@), *reg).0,
        r.1 == plan_spec(cmd@, crate::console::texts(connected@), *reg).1,
{
    let ghost conn = crate::console::texts(connected@);
    let ghost c = cmd@;
    let mut acts: Vec<NodeAction> = Vec::new();
    match cmd {
        NodeCommand::Quit => {
            acts.push(NodeAction::Shutdown { reason: String::from_str("Node shutting down") });
            acts.push(NodeAction::Emit(AppEvent::NodeShutdown));
            assert(actions_view(acts@) =~= plan_spec(c, conn, *reg).0);
            (acts, true)
        },
        NodeCommand::SendMessage { to, content } => {
            acts.push(NodeAction::SendDirect { to, content });
            assert(actions_view(acts@) =~= plan_spec(c, conn, *reg).0);
            (acts, false)
        },
        NodeCommand::BroadcastMessage { content } => {
            acts.push(NodeAction::Broadcast { content });
            assert(actions_view(acts@) =~= plan_spec(c, conn, *reg).0);
            (acts, false)
        },
        NodeCommand::Connect { addr } => {
            let label = addr.clone();
            acts.push(NodeAction::Connect { target: addr, via: ConnectVia::Addr, failure: Failure::Target(label) });
            assert(actions_view(acts@) =~= plan_spec(c, conn, *reg).0);
            (acts, false)
        },
        NodeCommand::ConnectById { node_id } => {
            match reg.get(node_id.as_str()) {
                Some(p) => {
                    acts.push(
                        NodeAction::Connect {
                            target: p.address.clone(),
                            via: ConnectVia::AddrOrIp,
                            failure: Failure::Target(node_id),
                        },
                    );
                },
                None => {
                    let mut s = String::from_str("Unknown peer '");
                    s = cat(s, node_id.as_str());
                    s = cat(s, "'. Use 'connect <ip>' or 'connect <ip:port>' first.");
                    acts.push(NodeAction::Emit(AppEvent::SystemNotice(s)));
                },
            }
            assert(actions_view(acts@) =~= plan_spec(c, conn, *reg).0);
            (acts, false)
        },
        NodeCommand::ConnectByIp { ip } => {
            acts.push(NodeAction::Connect { target: ip, via: ConnectVia::Ip, failure: Failure::Ip });
            assert(actions_view(acts@) =~= plan_spec(c, conn, *reg).0);
            (acts, false)
        },
        NodeCommand::Chat(Some(node_id)) => {
            if !contains_text(connected, node_id.as_str()) {
                match reg.get(node_id.as_str()) {
                    Some(p) => {
                        acts.push(
                            NodeAction::Connect {
                                target: p.address.clone(),
                                via: ConnectVia::AddrOrIp,
                                failure: Failure::Auto(node_id),
                            },
                        );
                    },
                    None => {},
                }
            }
            assert(actions_view(acts@) =~= plan_spec(c, conn, *reg).0);
            (acts, false)
        },
        NodeCommand::Chat(None) => {
            assert(actions_view(acts@) =~= plan_spec(c, conn, *reg).0);
            (acts, false)
        },
        NodeCommand::ListConnected => {
            let n = connected.len();
            if n == 0 {
                emit_output(&mut acts, String::from_str("  No connected peers"));
            } else {
                emit_output(&mut acts, String::from_str("Connected peers:"));
                let mut i: usize = 0;
                while i < n
                    invariant
                        n == connected@.len(),
                        conn == crate::console::texts(connected@),
                        i <= n,
                        actions_view(acts@) == seq![output("Connected peers:"@)] + Seq::new(
                            i as nat,
                            |j: int| output(connected_line(conn[j])),
                        ),
                    decreases n - i,
                {
                    let line = cat(String::from_str("  - "), connected[i].as_str());
                    emit_output(&mut acts, line);
                    assert(actions_view(acts@) =~= seq![output("Connected peers:"@)] + Seq::new(
                        (i + 1) as nat,
                        |j: int| output(connected_line(conn[j])),
                    ));
                    i = i + 1;
                }
            }
            assert(actions_view(acts@) =~= plan_spec(c, conn, *reg).0);
            (acts, false)
        },
        NodeCommand::ListPeers => {
            let known = reg.all();
            let n = known.len();
            let ghost es = reg.entries();
            if n == 0 {
                emit_output(&mut acts, String::from_str("  No known peers in registry"));
            } else {
                emit_output(&mut acts, String::from_str("Known peers:"));
                let mut i: usize = 0;
                while i < n
                    invariant
                        n == known@.len(),
                        n == es.len(),
                        es == reg.entries(),
                        forall|j: int| 0 <= j < known@.len() ==> *#[trigger] known@[j] == es[j],
                        conn == crate::console::texts(connected@),
                        i <= n,
                        actions_view(acts@) == seq![output("Known peers:"@)] + Seq::new(
                            i as nat,
                            |j: int| output(known_line(es[j], conn.contains(es[j].node_id@))),
                        ),
                    decreases n - i,
                {
                    let p = known[i];
                    let online = contains_text(connected, p.node_id.as_str());
                    let mut s = String::from_str("  - ");
                    s = cat(s, p.node_id.as_str());
                    s = cat(s, " (");
                    s = cat(s, p.username.as_str());
                    s = cat(s, ") @ ");
                    s = cat(s, p.address.as_str());
                    s = cat(s, "  [");
                    if online {
                        s = cat(s, "online");
                    } else {
                        s = cat(s, "offline");
                    }
                    s = cat(s, "]");
                    assert(s@ =~= known_line(es[i as int], online));
                    emit_output(&mut acts, s);
                    assert(actions_view(acts@) =~= seq![output("Known peers:"@)] + Seq::new(
                        (i + 1) as nat,
                        |j: int| output(known_line(es[j], conn.contains(es[j].node_id@))),
                    ));
                    i = i + 1;
                }
            }
            assert(actions_view(acts@) =~= plan_spec(c, conn, *reg).0);
            (acts, false)
        },
    }
}

/// The registry after recording the peer of a handshake: the peer's node
/// id, name, and its listening address as normalised for the registry.
pub open spec fn recorded(
    old_reg: PeerRegistry,
    new_reg: PeerRegistry,
    peer_id: Seq<char>,
    username: Seq<char>,
    address: Seq<char>,
) -> bool {
    &&& new_reg.wf()
    &&& new_reg.spec_path() == old_reg.spec_path()
    &&& new_reg.known(peer_id) matches Some(p) && p.node_id@ == peer_id && p.username@ == username
        && p.address@ == address
    &&& forall|k: Seq<char>| k != peer_id ==> #[trigger] new_reg.known(k) == old_reg.known(k)
}

/// Records the peer announced by a handshake (node id, name and listening
/// address, whose parse as a socket address is `parsed`) and reports it
/// connected.
pub fn record_handshake(
    reg: &mut PeerRegistry,
    peer_id: String,
    username: String,
    listen_addr: &str,
    parsed: Option<SocketParts>,
) -> (e: AppEvent)
    requires
        old(reg).wf(),
    ensures
        recorded(*old(reg), *final(reg), peer_id@, username@, normalized_addr(listen_addr@, parsed)),
        e@ == (EventV::PeerConnected { node_id: peer_id@, username: username@ }),
{
    let address = normalize_peer_addr(listen_addr, parsed);
    let e = AppEvent::PeerConnected { node_id: peer_id.clone(), username: username.clone() };
    reg.upsert(KnownPeer { node_id: peer_id, username, address });
    e
}

/// The display name of `from`: its registry name, or the id itself.
pub open spec fn sender_name(reg: PeerRegistry, from: Seq<char>) -> Seq<char> {
    match reg.known(from) {
        Some(p) => p.username@,
        None => from,
    }
}

/// What a message read from peer `peer_id` does: the events for the
/// console and whether the connection ends (after a disconnect notice).
/// A handshake (the reply on an outbound connection) also records the
/// peer, see [`on_peer_message`].
pub open spec fn peer_message_spec(peer_id: Seq<char>, msg: P2PMessage, reg: PeerRegistry) -> (Seq<EventV>, bool) {
    match msg {
        P2PMessage::Handshake { node_id, username, .. } => (
            seq![EventV::PeerConnected { node_id: node_id@, username: username@ }],
            false,
        ),
        P2PMessage::Direct { from, to, content, timestamp } => (
            seq![
                EventV::MessageReceived {
                    from_id: from@,
                    from_name: sender_name(reg, from@),
                    to: opt_text(to),
                    content: content@,
                    timestamp,
                },
            ],
            false,
        ),
        P2PMessage::System { content, .. } => (seq![EventV::SystemNotice(content@)], false),
        P2PMessage::Keepalive { .. } => (seq![], false),
        P2PMessage::Disconnect { reason, .. } => (
            seq![EventV::PeerDisconnected { node_id: peer_id, reason: reason@ }],
            true,
        ),
    }
}

/// A direct or broadcast message read from a peer is reported as one
/// received message that keeps the message's own sender, recipient
/// (`Some` id for a private message, `None` only for a broadcast), content
/// and timestamp, with the sender's display name from the registry (its id
/// when it is not known); the connection stays open.
pub proof fn lemma_received_message_kept(
    peer_id: Seq<char>,
    from: String,
    to: Option<String>,
    content: String,
    timestamp: u64,
    reg: PeerRegistry,
)
    ensures
        ({
            let r = peer_message_spec(peer_id, P2PMessage::Direct { from, to, content, timestamp }, reg);
            &&& !r.1
            &&& r.0.len() == 1
            &&& r.0[0] matches EventV::MessageReceived { from_id, from_name, to: rcpt, content: text, timestamp: ts }
                && from_id == from@ && text == content@ && ts == timestamp
                && (to is None <==> rcpt is None)
                && (to matches Some(x) ==> rcpt == Some(x@))
                && (reg.known(from@) matches Some(p) ==> from_name == p.username@)
                && (reg.known(from@) is None ==> from_name == from@)
        }),
{
}

/// Handles one message read from peer `peer_id`. `listen_parsed` is what
/// parsing the listening address of a handshake as a socket address gave
/// (it is not used for other messages). Returns the events for the console
/// and whether the connection ends (its entry is then removed).
pub fn on_peer_message(
    peer_id: &str,
    msg: P2PMessage,
    reg: &mut PeerRegistry,
    listen_parsed: Option<SocketParts>,
) -> (r: (Vec<AppEvent>, bool))
    requires
        old(reg).wf(),
    ensures
        events_view(r.0@) == peer_message_spec(peer_id@, msg, *old(reg)).0,
        r.1 == peer_message_spec(peer_id@, msg, *old(reg)).1,
        match msg {
            P2PMessage::Handshake { node_id, username, listen_addr, .. } => recorded(
                *old(reg),
                *final(reg),
                node_id@,
                username@,
                normalized_addr(listen_addr@, listen_parsed),
            ),
            _ => *final(reg) == *old(reg),
        },
{
    let ghost m = msg;
    let ghost reg0 = *reg;
    let mut evs: Vec<AppEvent> = Vec::new();
    match msg {
        P2PMessage::Handshake { node_id, username, listen_addr, .. } => {
            let e = record_handshake(reg, node_id, username, listen_addr.as_str(), listen_parsed);
            evs.push(e);
            assert(events_view(evs@) =~= peer_message_spec(peer_id@, m, reg0).0);
            (evs, false)
        },
        P2PMessage::Direct { from, to, content, timestamp } => {
            let from_name = match reg.get(from.as_str()) {
                Some(p) => p.username.clone(),
                None => from.clone(),
            };
            evs.push(AppEvent::MessageReceived { from_id: from, from_name, to, content, timestamp });
            assert(events_view(evs@) =~= peer_message_spec(peer_id@, m, reg0).0);
            (evs, false)
        },
        P2PMessage::System { content, .. } => {
            evs.push(AppEvent::SystemNotice(content));
            assert(events_view(evs@) =~= peer_message_spec(peer_id@, m, reg0).0);
            (evs, false)
        },
        P2PMessage::Keepalive { .. } => {
            assert(events_view(evs@) =~= peer_message_spec(peer_id@, m, reg0).0);
            (evs, false)
        },
        P2PMessage::Disconnect { reason, .. } => {
            evs.push(AppEvent::PeerDisconnected { node_id: String::from_str(peer_id), reason });
            assert(events_view(evs@) =~= peer_message_spec(peer_id@, m, reg0).0);
            (evs, true)
        },
    }
}

/// Handles the first message of a connection (accepted, or the reply on
/// an outbound one): a handshake records the peer and yields its node id
/// and the connected event; anything else refuses the connection.
/// `listen_parsed` is what parsing the handshake's listening address as a
/// socket address gave.
pub fn accept_handshake(
    first: Option<P2PMessage>,
    reg: &mut PeerRegistry,
    listen_parsed: Option<SocketParts>,
) -> (r: Option<(String, AppEvent)>)
    requires
        old(reg).wf(),
    ensures
        match first {
            Some(P2PMessage::Handshake { node_id, username, listen_addr, .. }) => {
                &&& r matches Some((id, e)) && id@ == node_id@ && e@ == (EventV::PeerConnected {
                    node_id: node_id@,
                    username: username@,
                })
                &&& recorded(
                    *old(reg),
                    *final(reg),
                    node_id@,
                    username@,
                    normalized_addr(listen_addr@, listen_parsed),
                )
            },
            _ => r is None && *final(reg) == *old(reg),
        },
{
    match first {
        Some(P2PMessage::Handshake { node_id, username, listen_addr, .. }) => {
            let id = node_id.clone();
            let e = record_handshake(reg, node_id, username, listen_addr.as_str(), listen_parsed);
            Some((id, e))
        },
        _ => None,
    }
}

/// The event for a connection the peer closed.
pub fn connection_closed(peer_id: &str) -> (e: AppEvent)
    ensures
        e@ == (EventV::PeerDisconnected { node_id: peer_id@, reason: "connection closed"@ }),
{
    AppEvent::PeerDisconnected {
        node_id: String::from_str(peer_id),
        reason: String::from_str("connection closed"),
    }
}

/// The event for a connection whose read failed with `error`.
pub fn connection_failed(peer_id: &str, error: &str) -> (e: AppEvent)
    ensures
        e@ == (EventV::PeerDisconnected { node_id: peer_id@, reason: "read error: "@ + error@ }),
{
    AppEvent::PeerDisconnected {
        node_id: String::from_str(peer_id),
        reason: cat(String::from_str("read error: "), error),
    }
}

/// The error for an outbound connection whose peer did not answer with a
/// handshake.
pub fn unexpected_reply(addr: &str) -> (r: String)
    ensures
        r@ == "Expected Handshake from "@ + addr@ + ", got unexpected message or EOF"@,
{
    let s = cat(String::from_str("Expected Handshake from "), addr);
    cat(s, ", got unexpected message or EOF")
}

/// The notice for a failed connection attempt.
pub open spec fn failure_text(f: FailureV, error: Seq<char>) -> Seq<char> {
    match f {
        FailureV::Target(t) => "Connection to '"@ + t + "' failed: "@ + error,
        FailureV::Auto(t) => "Auto-connect to '"@ + t + "' failed: "@ + error,
        FailureV::Ip => "IP connect failed: "@ + error,
    }
}

/// Reports a failed connection attempt.
pub fn connect_failed(failure: &Failure, error: &str) -> (e: AppEvent)
    ensures
        e@ == EventV::SystemNotice(failure_text(failure@, error@)),
{
    let s = match failure {
        Failure::Target(t) => {
            let s = cat(String::from_str("Connection to '"), t.as_str());
            cat(cat(s, "' failed: "), error)
        },
        Failure::Auto(t) => {
            let s = cat(String::from_str("Auto-connect to '"), t.as_str());
            cat(cat(s, "' failed: "), error)
        },
        Failure::Ip => cat(String::from_str("IP connect failed: "), error),
    };
    AppEvent::SystemNotice(s)
}

/// How a registry address is dialled: as `ip:port` when it parses as a
/// socket address (`parses_as_socket_addr`), otherwise as an IP to probe.
pub fn stored_address_via(parses_as_socket_addr: bool) -> (r: ConnectVia)
    ensures
        r == if parses_as_socket_addr {
            ConnectVia::Addr
        } else {
            ConnectVia::Ip
        },
{
    if parses_as_socket_addr {
        ConnectVia::Addr
    } else {
        ConnectVia::Ip
    }
}

/// The notice when probing the default ports of `ip` found no instance.
pub fn no_instance_notice(ip: &str) -> (e: AppEvent)
    ensures
        e@ == EventV::SystemNotice(
            "No p2p-chat instance found at "@ + ip@ + " (tried ports [9000, 9001, 9002, 9003, 9004])"@,
        ),
{
    let s = cat(String::from_str("No p2p-chat instance found at "), ip);
    AppEvent::SystemNotice(cat(s, " (tried ports [9000, 9001, 9002, 9003, 9004])"))
}

/// The line shown at startup when the registry holds `count` peers.
pub fn loaded_notice(count: usize) -> (r: Option<AppEvent>)
    ensures
        count == 0 ==> r is None,
        count > 0 ==> (r matches Some(e) && e@ == EventV::CommandOutput(
            "  Loaded "@ + decimal(count as nat) + " known peer(s) from registry. Use 'peers' to list."@,
        )),
{
    if count == 0 {
        None
    } else {
        let n = decimal_string(count as u64);
        let s = cat(String::from_str("  Loaded "), n.as_str());
        Some(AppEvent::CommandOutput(cat(s, " known peer(s) from registry. Use 'peers' to list.")))
    }
}

/// The notice for a start-up peer argument that does not parse.
pub fn invalid_peer_arg_notice(arg: &str, error: &str) -> (e: AppEvent)
    ensures
        e@ == EventV::SystemNotice("Invalid peer argument '"@ + arg@ + "': "@ + error@),
{
    let s = cat(String::from_str("Invalid peer argument '"), arg);
    AppEvent::SystemNotice(cat(cat(s, "': "), error))
}

/// The notice for a start-up peer that could not be reached.
pub fn initial_connect_failed_notice(arg: &str, error: &str) -> (e: AppEvent)
    ensures
        e@ == EventV::SystemNotice("Failed to connect to '"@ + arg@ + "': "@ + error@),
{
    let s = cat(String::from_str("Failed to connect to '"), arg);
    AppEvent::SystemNotice(cat(cat(s, "': "), error))
}

/// Where the connection for a direct message comes from.
#[derive(Debug)]
pub enum SenderLookup {
    /// The peer is connected.
    Connected,
    /// The peer is known but offline: emit the notice, reconnect to the
    /// stored address, then look again.
    Reconnect { address: String, notice: AppEvent },
    /// The peer is unknown: emit the notice and drop the message.
    Unknown { notice: AppEvent },
}

/// Decides how to reach `to` for a direct message.
pub fn lookup_sender(to: &str, connected: bool, reg: &PeerRegistry) -> (r: SenderLookup)
    requires
        reg.wf(),
    ensures
        connected ==> r is Connected,
        !connected && reg.known(to@) is Some ==> (r matches SenderLookup::Reconnect { address, notice }
            && address@ == reg.known(to@)->0.address@ && notice@ == EventV::SystemNotice(
            "'"@ + to@ + "' not connected \u{2013} reconnecting\u{2026}"@,
        )),
        !connected && reg.known(to@) is None ==> (r matches SenderLookup::Unknown { notice }
            && notice@ == EventV::SystemNotice(
            "Peer '"@ + to@ + "' is unknown. Use 'connect <ip>' or 'connect <ip:port>' first."@,
        )),
{
    if connected {
        return SenderLookup::Connected;
    }
    match reg.get(to) {
        Some(p) => {
            let s = cat(String::from_str("'"), to);
            let s = cat(s, "' not connected \u{2013} reconnecting\u{2026}");
            SenderLookup::Reconnect { address: p.address.clone(), notice: AppEvent::SystemNotice(s) }
        },
        None => {
            let s = cat(String::from_str("Peer '"), to);
            let s = cat(s, "' is unknown. Use 'connect <ip>' or 'connect <ip:port>' first.");
            SenderLookup::Unknown { notice: AppEvent::SystemNotice(s) }
        },
    }
}

/// The event after handing a direct message to the connection of `to`:
/// the echo when it was taken, the loss of the peer otherwise (its
/// connection entry is then removed).
pub fn direct_sent(
    to: &str,
    content: String,
    timestamp: u64,
    our_name: String,
    our_id: String,
    delivered: bool,
) -> (e: AppEvent)
    ensures
        delivered ==> e@ == (EventV::MessageSent {
            to: Some(to@),
            content: content@,
            timestamp,
            ok_count: 1,
            total: 1,
            our_name: our_name@,
            our_id: our_id@,
        }),
        !delivered ==> e@ == (EventV::PeerDisconnected {
            node_id: to@,
            reason: "send failed \u{2014} connection lost"@,
        }),
{
    if delivered {
        AppEvent::MessageSent {
            to: Some(String::from_str(to)),
            content,
            timestamp,
            ok_count: 1,
            total: 1,
            our_name,
            our_id,
        }
    } else {
        AppEvent::PeerDisconnected {
            node_id: String::from_str(to),
            reason: String::from_str("send failed \u{2014} connection lost"),
        }
    }
}

/// Number of `true` flags among the results.
pub open spec fn count_ok(results: Seq<(String, bool)>) -> nat
    decreases results.len(),
{
    if results.len() == 0 {
        0
    } else {
        count_ok(results.drop_last()) + if results.last().1 {
            1nat
        } else {
            0nat
        }
    }
}

/// The ids whose send failed, in order.
pub open spec fn failed_ids(results: Seq<(String, bool)>) -> Seq<Seq<char>>
    decreases results.len(),
{
    if results.len() == 0 {
        seq![]
    } else if results.last().1 {
        failed_ids(results.drop_last())
    } else {
        failed_ids(results.drop_last()).push(results.last().0@)
    }
}

/// Reports a broadcast from the per-peer send results (in sending order):
/// one disconnect per peer whose connection was lost (its entry is then
/// removed), then the echo with the count of peers reached.
pub fn broadcast_report(
    results: &Vec<(String, bool)>,
    content: String,
    timestamp: u64,
    our_name: String,
    our_id: String,
) -> (r: Vec<AppEvent>)
    ensures
        events_view(r@) == Seq::new(
            failed_ids(results@).len(),
            |i: int| EventV::PeerDisconnected {
                node_id: failed_ids(results@)[i],
                reason: "connection lost during broadcast"@,
            },
        ).push(
            EventV::MessageSent {
                to: None,
                content: content@,
                timestamp,
                ok_count: count_ok(results@) as usize,
                total: results@.len() as usize,
                our_name: our_name@,
                our_id: our_id@,
            },
        ),
{
    let mut evs: Vec<AppEvent> = Vec::new();
    let n = results.len();
    let mut ok: usize = 0;
    let mut i: usize = 0;
    while i < n
        invariant
            n == results@.len(),
            i <= n,
            ok == count_ok(results@.take(i as int)),
            ok <= i,
            events_view(evs@) == Seq::new(
                failed_ids(results@.take(i as int)).len(),
                |j: int| EventV::PeerDisconnected {
                    node_id: failed_ids(results@.take(i as int))[j],
                    reason: "connection lost during broadcast"@,
                },
            ),
        decreases n - i,
    {
        assert(results@.take(i + 1).drop_last() =~= results@.take(i as int));
        assert(results@.take(i + 1).last() == results@[i as int]);
        let ghost ev0 = events_view(evs@);
        if results[i].1 {
            ok = ok + 1;
            assert(failed_ids(results@.take(i + 1)) == failed_ids(results@.take(i as int)));
        } else {
            evs.push(
                AppEvent::PeerDisconnected {
                    node_id: results[i].0.clone(),
                    reason: String::from_str("connection lost during broadcast"),
                },
            );
            assert(failed_ids(results@.take(i + 1)) == failed_ids(results@.take(i as int)).push(
                results@[i as int].0@,
            ));
            assert(events_view(evs@) =~= ev0.push(
                EventV::PeerDisconnected {
                    node_id: results@[i as int].0@,
                    reason: "connection lost during broadcast"@,
                },
            ));
        }
        assert(events_view(evs@) =~= Seq::new(
            failed_ids(results@.take(i + 1)).len(),
            |j: int| EventV::PeerDisconnected {
                node_id: failed_ids(results@.take(i + 1))[j],
                reason: "connection lost during broadcast"@,
            },
        ));
        i = i + 1;
    }
    assert(results@.take(n as int) =~= results@);
    let ghost before = events_view(evs@);
    evs.push(
        AppEvent::MessageSent {
            to: None,
            content,
            timestamp,
            ok_count: ok,
            total: n,
            our_name,
            our_id,
        },
    );
    assert(events_view(evs@) =~= before.push(events_view(evs@).last()));
    evs
}

} // verus!
