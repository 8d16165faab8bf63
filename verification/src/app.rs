//! The chat application over the event-driven network layer: its peers,
//! how it answers packets from the network and commands from the user
//! interface. Network and notification I/O are performed by the caller,
//! which carries out the returned effects in order.

use vstd::prelude::*;
use crate::api::{Command, CommandV, Content, MessageInfo, MessageInfoV, MessageStatus, NoticeLevel, Notify, NotifyV, PeerInfo, StatusV, peer_info_view};
use crate::event::opt_text;
use crate::history::{HistoryManager, page};
use crate::net::{Packet, PacketV};
use crate::registry::DEFAULT_PORTS;
use crate::text::{cat, decimal, decimal_string, push_char, str_is};

verus! {

/// Token of a peer that is not connected; no connection ever has it.
pub const OFFLINE_TOKEN: usize = usize::MAX;

/// A peer of the application.
#[derive(Debug)]
pub struct Node {
    pub node_id: String,
    pub name: String,
    /// Its listening address, as text.
    pub addr: String,
    /// Token of its connection ([`OFFLINE_TOKEN`] when offline).
    pub token: usize,
    pub online: bool,
}

/// [`Node`] as a value.
pub struct NodeV {
    pub node_id: Seq<char>,
    pub name: Seq<char>,
    pub addr: Seq<char>,
    pub token: usize,
    pub online: bool,
}

impl View for Node {
    type V = NodeV;

    open spec fn view(&self) -> NodeV {
        NodeV {
            node_id: self.node_id@,
            name: self.name@,
            addr: self.addr@,
            token: self.token,
            online: self.online,
        }
    }
}

/// The record of a chat message, as a value.
pub open spec fn record(msg_id: Seq<char>, from: Seq<char>, text: Seq<char>, timestamp: u64) -> MessageInfoV {
    MessageInfoV { msg_id, from, text, timestamp, status: StatusV::Sent }
}

impl Node {
    /// A peer connected under `token`.
    pub fn new(node_id: String, name: String, addr: String, token: usize) -> (r: Self)
        ensures
            r@ == (NodeV { node_id: node_id@, name: name@, addr: addr@, token, online: true }),
    {
        Node { node_id, name, addr, token, online: true }
    }

    /// A peer known from saved data, not connected.
    pub fn new_offline(node_id: String, name: String, addr: String) -> (r: Self)
        ensures
            r@ == (NodeV {
                node_id: node_id@,
                name: name@,
                addr: addr@,
                token: OFFLINE_TOKEN,
                online: false,
            }),
    {
        Node { node_id, name, addr, token: OFFLINE_TOKEN, online: false }
    }

    /// The peer is connected again, under `token`.
    pub fn set_online(&mut self, token: usize, name: String, addr: String)
        ensures
            final(self)@ == (NodeV { token, name: name@, addr: addr@, online: true, ..old(self)@ }),
    {
        self.token = token;
        self.name = name;
        self.addr = addr;
        self.online = true;
    }

    /// The peer is no longer connected.
    pub fn set_offline(&mut self)
        ensures
            final(self)@ == (NodeV { online: false, token: OFFLINE_TOKEN, ..old(self)@ }),
    {
        self.online = false;
        self.token = OFFLINE_TOKEN;
    }

    /// An incoming chat message from this peer: its record, and the
    /// notification that shows it.
    pub fn handle_chat(&self, msg_id: String, content: String, timestamp: u64) -> (r: (MessageInfo, Notify))
        ensures
            r.0@ == record(msg_id@, self.node_id@, content@, timestamp),
            r.1@ == (NotifyV::MessageReceived {
                conv_id: self.node_id@,
                msg: record(msg_id@, self.node_id@, content@, timestamp),
            }),
    {
        let msg = MessageInfo {
            msg_id,
            from: self.node_id.clone(),
            content: Content::Text(content),
            timestamp,
            status: MessageStatus::Sent,
        };
        let n = Notify::MessageReceived { conv_id: self.node_id.clone(), msg: msg.clone() };
        (msg, n)
    }

    /// A chat message to this peer: the packet to send on its connection,
    /// and the record kept once it is sent.
    pub fn send_chat(&self, from_id: &str, msg_id: &str, content: &str, timestamp: u64) -> (r: (Packet, MessageInfo))
        ensures
            r.0@ == (PacketV::Chat {
                from: from_id@,
                to: Some(self.node_id@),
                content: content@,
                timestamp,
            }),
            r.1@ == record(msg_id@, from_id@, content@, timestamp),
    {
        let pkt = Packet::Chat {
            from: String::from_str(from_id),
            to: Some(self.node_id.clone()),
            content: String::from_str(content),
            timestamp,
        };
        let msg = MessageInfo {
            msg_id: String::from_str(msg_id),
            from: String::from_str(from_id),
            content: Content::Text(String::from_str(content)),
            timestamp,
            status: MessageStatus::Sent,
        };
        (pkt, msg)
    }

    /// The connection to close when the peer is dropped: its token, if it
    /// is online.
    pub fn close(&self) -> (r: Option<usize>)
        ensures
            r == if self.online {
                Some(self.token)
            } else {
                None
            },
    {
        if self.online {
            Some(self.token)
        } else {
            None
        }
    }
}

/// Something the caller has to do.
#[derive(Debug)]
pub enum Effect {
    /// Send a packet on a connection; a failure ends the application's run
    /// with that error.
    Send { token: usize, packet: Packet },
    /// Connect to the socket address written in `addr`, sending `hello`
    /// first. When `required`, a failure ends the run; otherwise an address
    /// that does not parse, or a failed connection, is ignored.
    Connect { addr: String, hello: Packet, required: bool },
    /// Close a connection.
    Close { token: usize },
    /// Tell the user interface.
    Notify(Notify),
    /// Send a chat message on a connection and report the outcome with
    /// [`App::chat_sent`].
    SendChat { token: usize, packet: Packet, conv_id: String, msg_id: String, record: MessageInfo },
    /// Save the history with a peer.
    SaveHistory { peer_id: String },
}

/// [`Effect`] as a value.
pub enum EffectV {
    Send { token: usize, packet: PacketV },
    Connect { addr: Seq<char>, hello: PacketV, required: bool },
    Close { token: usize },
    Notify(NotifyV),
    SendChat { token: usize, packet: PacketV, conv_id: Seq<char>, msg_id: Seq<char>, record: MessageInfoV },
    SaveHistory { peer_id: Seq<char> },
}

impl View for Effect {
    type V = EffectV;

    open spec fn view(&self) -> EffectV {
        match self {
            Effect::Send { token, packet } => EffectV::Send { token: *token, packet: packet@ },
            Effect::Connect { addr, hello, required } => EffectV::Connect {
                addr: addr@,
                hello: hello@,
                required: *required,
            },
            Effect::Close { token } => EffectV::Close { token: *token },
            Effect::Notify(n) => EffectV::Notify(n@),
            Effect::SendChat { token, packet, conv_id, msg_id, record } => EffectV::SendChat {
                token: *token,
                packet: packet@,
                conv_id: conv_id@,
                msg_id: msg_id@,
                record: record@,
            },
            Effect::SaveHistory { peer_id } => EffectV::SaveHistory { peer_id: peer_id@ },
        }
    }
}

/// A list of effects as values.
pub open spec fn effects_view(s: Seq<Effect>) -> Seq<EffectV> {
    s.map_values(|e: Effect| e@)
}

/// No two peers share a node id.
pub open spec fn ids_distinct(s: Seq<Node>) -> bool {
    forall|i: int, j: int| 0 <= i < j < s.len() ==> (#[trigger] s[i]).node_id@ != (#[trigger] s[j]).node_id@
}

/// Some peer of `s` has node id `k`.
pub open spec fn has_node(s: Seq<Node>, k: Seq<char>) -> bool {
    exists|i: int| 0 <= i < s.len() && (#[trigger] s[i]).node_id@ == k
}

/// Index of the peer of `s` with node id `k`.
pub open spec fn node_index(s: Seq<Node>, k: Seq<char>) -> int {
    choose|i: int| 0 <= i < s.len() && (#[trigger] s[i]).node_id@ == k
}

/// The peer of `s` with node id `k`, if any.
pub open spec fn node_of(s: Seq<Node>, k: Seq<char>) -> Option<NodeV> {
    if has_node(s, k) {
        Some(s[node_index(s, k)]@)
    } else {
        None
    }
}

proof fn lemma_node_at(s: Seq<Node>, i: int)
    requires
        ids_distinct(s),
        0 <= i < s.len(),
    ensures
        has_node(s, s[i].node_id@),
        node_index(s, s[i].node_id@) == i,
        node_of(s, s[i].node_id@) == Some(s[i]@),
{
    let k = s[i].node_id@;
    assert(has_node(s, k));
    let j = node_index(s, k);
    assert(0 <= j < s.len() && s[j].node_id@ == k);
    if j < i {
        assert(s[j].node_id@ != s[i].node_id@);
    } else if j > i {
        assert(s[i].node_id@ != s[j].node_id@);
    }
}

/// The node id of the first peer of `s` connected under `token`.
pub open spec fn first_with_token(s: Seq<Node>, token: usize) -> Option<Seq<char>>
    decreases s.len(),
{
    if s.len() == 0 {
        None
    } else if s[0].token == token {
        Some(s[0].node_id@)
    } else {
        first_with_token(s.drop_first(), token)
    }
}

/// `s` without the peers connected under `token`.
pub open spec fn without_token(s: Seq<Node>, token: usize) -> Seq<Node> {
    s.filter(|n: Node| n.token != token)
}

/// The packet announcing this application.
pub open spec fn hello_v(node_id: Seq<char>, name: Seq<char>, addr: Seq<char>) -> PacketV {
    PacketV::ConnectRequest { node_id, name, addr }
}

/// The text of a connection notice for `target`.
pub open spec fn connecting_text(target: Seq<char>) -> Seq<char> {
    "Connecting to "@ + target + "..."@
}

/// The text of the notice for connecting by IP.
pub open spec fn connecting_ip_text(ip: Seq<char>) -> Seq<char> {
    "Connecting to "@ + ip + " (trying ports [9000, 9001, 9002, 9003, 9004])..."@
}

/// The addresses tried when connecting by IP: the IP with each default port.
pub open spec fn ip_port_text(ip: Seq<char>, k: int) -> Seq<char> {
    ip + seq![':'] + decimal((9000 + k) as nat)
}

/// An information notice.
pub open spec fn info(text: Seq<char>) -> EffectV {
    EffectV::Notify(NotifyV::Notice { level: NoticeLevel::Info, content: text })
}

/// The id given to an incoming chat message: the sender's node id, `-`,
/// and the timestamp.
pub open spec fn incoming_id(from: Seq<char>, timestamp: u64) -> Seq<char> {
    from + seq!['-'] + decimal(timestamp as nat)
}

fn incoming_msg_id(from: &str, timestamp: u64) -> (r: String)
    ensures
        r@ == incoming_id(from@, timestamp),
{
    let mut id = String::from_str(from);
    push_char(&mut id, '-');
    let ts = decimal_string(timestamp);
    assert(from@.push('-') =~= from@ + seq!['-']);
    cat(id, ts.as_str())
}

/// What is done when the connection `token` closes: the connection of its
/// first peer is closed if that peer is online, and the peer is announced
/// offline.
pub open spec fn disconnect_effects(s: Seq<Node>, token: usize) -> Seq<EffectV> {
    match first_with_token(s, token) {
        Some(id) => (if node_of(s, id)->0.online {
            seq![EffectV::Close { token }]
        } else {
            seq![]
        }) + seq![EffectV::Notify(NotifyV::PeerOffline { peer_id: id })],
        None => seq![],
    }
}

/// The notice for a peer id that is not among the peers.
pub open spec fn unknown_text(id: Seq<char>) -> Seq<char> {
    "Unknown peer '"@ + id + "'"@
}

/// An error notice.
pub open spec fn error_notice(text: Seq<char>) -> EffectV {
    EffectV::Notify(NotifyV::Notice { level: NoticeLevel::Error, content: text })
}

/// Connection attempts to `ip` on each default port, in order; a failure
/// of any of them is ignored.
pub open spec fn probe_effects(ip: Seq<char>, hello: PacketV) -> Seq<EffectV> {
    Seq::new(5, |k: int| EffectV::Connect { addr: ip_port_text(ip, k), hello, required: false })
}

/// What a connect command does: connect to the socket address `target`
/// parses to (`parsed`); otherwise to the address of the peer whose node id
/// is `target`; otherwise probe `target` as an IP on the default ports.
pub open spec fn connect_effects(
    s: Seq<Node>,
    hello: PacketV,
    target: Seq<char>,
    parsed: Option<Seq<char>>,
) -> Seq<EffectV> {
    match parsed {
        Some(a) => seq![
            EffectV::Connect { addr: a, hello, required: true },
            info(connecting_text(a)),
        ],
        None => if has_node(s, target) {
            let a = node_of(s, target)->0.addr;
            seq![EffectV::Connect { addr: a, hello, required: true }, info(connecting_text(a))]
        } else {
            probe_effects(target, hello) + seq![info(connecting_ip_text(target))]
        },
    }
}

/// The peers as (node id, name, address) entries.
pub open spec fn peer_entries(s: Seq<Node>) -> Seq<(Seq<char>, Seq<char>, Seq<char>)> {
    s.map_values(|n: Node| (n.node_id@, n.name@, n.addr@))
}

/// What sending `text` as message `msg_id` to the peer `conv_id` at
/// `timestamp` does, from the application `from_id`: the chat packet on the
/// peer's connection, or a failed acknowledgement for an unknown peer.
pub open spec fn send_effects(
    s: Seq<Node>,
    from_id: Seq<char>,
    conv_id: Seq<char>,
    msg_id: Seq<char>,
    text: Seq<char>,
    timestamp: u64,
) -> Seq<EffectV> {
    if has_node(s, conv_id) {
        seq![
            EffectV::SendChat {
                token: node_of(s, conv_id)->0.token,
                packet: PacketV::Chat { from: from_id, to: Some(conv_id), content: text, timestamp },
                conv_id,
                msg_id,
                record: record(msg_id, from_id, text, timestamp),
            },
        ]
    } else {
        seq![
            EffectV::Notify(
                NotifyV::MessageAck { msg_id, status: StatusV::Failed(unknown_text(conv_id)) },
            ),
        ]
    }
}

/// A message that the application `app` sends to a peer it has is sent on
/// that peer's connection as a chat packet from the application's own id,
/// and its record (the one kept in the history once sent) carries the same
/// sender, the application's own id, with the message's id, text and
/// timestamp, marked sent. To a peer it does not have, nothing is sent and
/// the message is acknowledged as failed.
pub proof fn lemma_sent_message_is_ours(
    app: App,
    conv_id: Seq<char>,
    msg_id: Seq<char>,
    text: Seq<char>,
    timestamp: u64,
)
    ensures
        ({
            let e = send_effects(app.nodes(), app.id(), conv_id, msg_id, text, timestamp);
            &&& e.len() == 1
            &&& has_node(app.nodes(), conv_id) ==> (e[0] matches EffectV::SendChat {
                token,
                packet,
                conv_id: c,
                msg_id: m,
                record,
            } && token == node_of(app.nodes(), conv_id)->0.token && c == conv_id && m == msg_id
                && packet == (PacketV::Chat { from: app.id(), to: Some(conv_id), content: text, timestamp })
                && record.from == app.id() && record.msg_id == msg_id && record.text == text
                && record.timestamp == timestamp && record.status == StatusV::Sent)
            &&& !has_node(app.nodes(), conv_id) ==> (e[0] matches EffectV::Notify(
                NotifyV::MessageAck { msg_id: m, status: StatusV::Failed(_) },
            ) && m == msg_id)
        }),
{
}

/// The disconnect command for `peer_id` took the peers from `before` to
/// `after` with the effects `e`: the peer is dropped (its connection closed
/// if it was online) and announced offline, or, when there is no such peer,
/// nothing changes and an error notice is given.
pub open spec fn peer_dropped(before: Seq<Node>, after: Seq<Node>, peer_id: Seq<char>, e: Seq<EffectV>) -> bool {
    match node_of(before, peer_id) {
        Some(n) => {
            &&& after == before.remove(node_index(before, peer_id))
            &&& node_of(after, peer_id) is None
            &&& forall|k: Seq<char>| k != peer_id ==> #[trigger] node_of(after, k) == node_of(before, k)
            &&& e == (if n.online {
                seq![EffectV::Close { token: n.token }]
            } else {
                seq![]
            }) + seq![EffectV::Notify(NotifyV::PeerOffline { peer_id })]
        },
        None => {
            &&& after == before
            &&& e == seq![error_notice(unknown_text(peer_id))]
        },
    }
}

/// `e` is what sending `text` as message `msg_id` to `conv_id` does at
/// some time: the time is read from the clock when the message is sent.
pub open spec fn sent_now(
    s: Seq<Node>,
    from_id: Seq<char>,
    conv_id: Seq<char>,
    msg_id: Seq<char>,
    text: Seq<char>,
    e: Seq<EffectV>,
) -> bool {
    exists|t: u64| e == #[trigger] send_effects(s, from_id, conv_id, msg_id, text, t)
}

/// The peer kept from the saved peers `list` under `k`: the last entry
/// with that id, offline.
pub open spec fn last_saved(list: Seq<PeerInfo>, k: Seq<char>) -> Option<NodeV>
    decreases list.len(),
{
    if list.len() == 0 {
        None
    } else if list.last().peer_id@ == k {
        Some(
            NodeV {
                node_id: k,
                name: list.last().peer_name@,
                addr: list.last().addr@,
                token: OFFLINE_TOKEN,
                online: false,
            },
        )
    } else {
        last_saved(list.drop_last(), k)
    }
}

/// The chat application: its identity, its peers, and the chat history.
pub struct App {
    node_id: String,
    name: String,
    listen_addr: String,
    node_list: Vec<Node>,
    history: HistoryManager,
}

impl App {
    /// This application's node id.
    pub closed spec fn id(&self) -> Seq<char> {
        self.node_id@
    }

    /// This application's display name.
    pub closed spec fn display_name(&self) -> Seq<char> {
        self.name@
    }

    /// This application's listening address.
    pub closed spec fn listen(&self) -> Seq<char> {
        self.listen_addr@
    }

    /// This application's node id.
    pub fn node_id(&self) -> (r: &String)
        ensures
            r@ == self.id(),
    {
        &self.node_id
    }

    /// This application's display name.
    pub fn name(&self) -> (r: &String)
        ensures
            r@ == self.display_name(),
    {
        &self.name
    }

    /// This application's listening address.
    pub fn listen_addr(&self) -> (r: &String)
        ensures
            r@ == self.listen(),
    {
        &self.listen_addr
    }

    /// The chat history (what is saved for a peer is read from it).
    pub fn history(&self) -> (r: &HistoryManager)
        requires
            self.wf(),
        ensures
            *r == self.chat_history(),
            r.wf(),
    {
        &self.history
    }

    /// The peers, in the order they were first met.
    pub closed spec fn nodes(&self) -> Seq<Node> {
        self.node_list@
    }

    /// The chat history.
    pub closed spec fn chat_history(&self) -> HistoryManager {
        self.history
    }

    /// One peer per node id; the history is well formed.
    pub closed spec fn wf(&self) -> bool {
        ids_distinct(self.node_list@) && self.history.wf()
    }

    /// The peer with node id `k`, if any.
    pub open spec fn node(&self, k: Seq<char>) -> Option<NodeV> {
        node_of(self.nodes(), k)
    }

    /// The application `node_id` / `name` listening on `listen_addr`, with
    /// the saved history (one entry per peer) and the saved peers, offline
    /// (when an id is saved twice, the later entry is kept).
    pub fn new(
        node_id: String,
        name: String,
        listen_addr: String,
        saved: Vec<(String, Vec<MessageInfo>)>,
        saved_peers: Vec<PeerInfo>,
    ) -> (r: Self)
        requires
            forall|i: int, j: int|
                0 <= i < j < saved@.len() ==> (#[trigger] saved@[i]).0@ != (#[trigger] saved@[j]).0@,
        ensures
            r.wf(),
            r.id() == node_id@,
            r.display_name() == name@,
            r.listen() == listen_addr@,
            forall|k: Seq<char>| #[trigger] r.node(k) == last_saved(saved_peers@, k),
            forall|i: int|
                0 <= i < saved@.len() ==> #[trigger] r.chat_history().messages(saved@[i].0@)
                    == crate::history::last_n(saved@[i].1@, crate::history::HISTORY_LIMIT as int),
    {
        let history = HistoryManager::new(saved);
        let mut app = App { node_id, name, listen_addr, node_list: Vec::new(), history };
        let ghost h = app.history;
        let mut i: usize = 0;
        assert(saved_peers@.take(0) =~= Seq::<PeerInfo>::empty());
        while i < saved_peers.len()
            invariant
                app.wf(),
                app.history == h,
                app.id() == node_id@,
                app.display_name() == name@,
                app.listen() == listen_addr@,
                i <= saved_peers@.len(),
                forall|k: Seq<char>| #[trigger] app.node(k) == last_saved(saved_peers@.take(i as int), k),
            decreases saved_peers@.len() - i,
        {
            let p = &saved_peers[i];
            app.put_node(Node::new_offline(p.peer_id.clone(), p.peer_name.clone(), p.addr.clone()));
            assert(saved_peers@.take(i + 1).drop_last() =~= saved_peers@.take(i as int));
            i = i + 1;
        }
        assert(saved_peers@.take(saved_peers@.len() as int) =~= saved_peers@);
        app
    }

    fn find_node(&self, id: &str) -> (r: Option<usize>)
        requires
            self.wf(),
        ensures
            r is None ==> !has_node(self.nodes(), id@),
            r matches Some(i) ==> i < self.nodes().len() && self.nodes()[i as int].node_id@ == id@,
    {
        let n = self.node_list.len();
        let mut i: usize = 0;
        while i < n
            invariant
                n == self.node_list@.len(),
                i <= n,
                forall|t: int| 0 <= t < i ==> (#[trigger] self.node_list@[t]).node_id@ != id@,
            decreases n - i,
        {
            if str_is(self.node_list[i].node_id.as_str(), id) {
                return Some(i);
            }
            i = i + 1;
        }
        None
    }

    fn hello(&self) -> (p: Packet)
        ensures
            p@ == hello_v(self.id(), self.display_name(), self.listen()),
    {
        Packet::ConnectRequest {
            node_id: self.node_id.clone(),
            name: self.name.clone(),
            addr: self.listen_addr.clone(),
        }
    }

    /// Records a connected peer (replacing the one with the same node id).
    fn create_node(&mut self, node_id: String, name: String, addr: String, token: usize)
        requires
            old(self).wf(),
        ensures
            final(self).wf(),
            final(self).id() == old(self).id(),
            final(self).display_name() == old(self).display_name(),
            final(self).listen() == old(self).listen(),
            final(self).chat_history() == old(self).chat_history(),
            final(self).node(node_id@) == Some(
                NodeV { node_id: node_id@, name: name@, addr: addr@, token, online: true },
            ),
            forall|k: Seq<char>| k != node_id@ ==> #[trigger] final(self).node(k) == old(self).node(k),
    {
        self.put_node(Node::new(node_id, name, addr, token));
    }

    /// Records `node` (replacing the peer with the same node id).
    fn put_node(&mut self, node: Node)
        requires
            old(self).wf(),
        ensures
            final(self).wf(),
            final(self).id() == old(self).id(),
            final(self).display_name() == old(self).display_name(),
            final(self).listen() == old(self).listen(),
            final(self).chat_history() == old(self).chat_history(),
            final(self).node(node.node_id@) == Some(node@),
            forall|k: Seq<char>| k != node.node_id@ ==> #[trigger] final(self).node(k) == old(self).node(k),
    {
        let ghost old_s = self.node_list@;
        let ghost id = node.node_id@;
        match self.find_node(node.node_id.as_str()) {
            Some(i) => {
                proof {
                    lemma_node_at(old_s, i as int);
                }
                self.node_list.set(i, node);
                let ghost s = self.node_list@;
                assert(ids_distinct(s)) by {
                    assert forall|a: int, b: int| 0 <= a < b < s.len() implies (#[trigger] s[a]).node_id@
                        != (#[trigger] s[b]).node_id@ by {
                        assert(old_s[a].node_id@ != old_s[b].node_id@);
                    }
                }
                proof {
                    lemma_node_at(s, i as int);
                }
                assert forall|k: Seq<char>| k != id implies #[trigger] node_of(s, k) == node_of(old_s, k) by {
                    if has_node(s, k) {
                        let j = node_index(s, k);
                        lemma_node_at(s, j);
                        lemma_node_at(old_s, j);
                    }
                    if has_node(old_s, k) {
                        let j = node_index(old_s, k);
                        lemma_node_at(old_s, j);
                        assert(s[j].node_id@ == k);
                    }
                }
            },
            None => {
                self.node_list.push(node);
                let ghost s = self.node_list@;
                let ghost last = (s.len() - 1) as int;
                assert(ids_distinct(s)) by {
                    assert forall|a: int, b: int| 0 <= a < b < s.len() implies (#[trigger] s[a]).node_id@
                        != (#[trigger] s[b]).node_id@ by {
                        if b == last {
                            assert(s[a] == old_s[a]);
                        }
                    }
                }
                proof {
                    lemma_node_at(s, last);
                }
                assert forall|k: Seq<char>| k != id implies #[trigger] node_of(s, k) == node_of(old_s, k) by {
                    if has_node(s, k) {
                        let j = node_index(s, k);
                        lemma_node_at(s, j);
                        lemma_node_at(old_s, j);
                    }
                    if has_node(old_s, k) {
                        let j = node_index(old_s, k);
                        lemma_node_at(old_s, j);
                        assert(s[j] == old_s[j]);
                    }
                }
            },
        }
    }

    fn first_token_owner(&self, token: usize) -> (r: Option<usize>)
        ensures
            match first_with_token(self.nodes(), token) {
                Some(id) => r matches Some(i) && i < self.nodes().len() && self.nodes()[i as int].node_id@
                    == id && self.nodes()[i as int].token == token,
                None => r is None,
            },
    {
        let ghost s = self.node_list@;
        let n = self.node_list.len();
        let mut i: usize = 0;
        assert(s.skip(0) =~= s);
        while i < n
            invariant
                s == self.node_list@,
                n == s.len(),
                i <= n,
                first_with_token(s, token) == first_with_token(s.skip(i as int), token),
            decreases n - i,
        {
            if self.node_list[i].token == token {
                return Some(i);
            }
            assert(s.skip(i as int).drop_first() =~= s.skip(i + 1));
            i = i + 1;
        }
        None
    }

    /// Drops the peers connected under `token`.
    fn drop_token(&mut self, token: usize)
        requires
            old(self).wf(),
        ensures
            final(self).wf(),
            final(self).id() == old(self).id(),
            final(self).display_name() == old(self).display_name(),
            final(self).listen() == old(self).listen(),
            final(self).chat_history() == old(self).chat_history(),
            final(self).nodes() == without_token(old(self).nodes(), token),
    {
        let ghost orig = self.node_list@;
        let ghost pred = |n: Node| n.token != token;
        let mut rest: Vec<Node> = Vec::new();
        std::mem::swap(&mut rest, &mut self.node_list);
        let mut kept: Vec<Node> = Vec::new();
        let n = rest.len();
        let mut i: usize = 0;
        while i < n
            invariant
                n == orig.len(),
                i <= n,
                rest@ == orig.skip(i as int),
                pred == (|n: Node| n.token != token),
                kept@ == orig.take(i as int).filter(pred),
                ids_distinct(orig),
                ids_distinct(kept@),
                forall|j: int| 0 <= j < kept@.len() ==> exists|t: int| 0 <= t < i && #[trigger] orig[t] == #[trigger] kept@[j],
            decreases n - i,
        {
            reveal_with_fuel(Seq::<_>::filter, 1);
            assert(orig.take(i + 1).drop_last() =~= orig.take(i as int));
            assert(orig.take(i + 1).last() == orig[i as int]);
            let node = rest.remove(0);
            assert(rest@ =~= orig.skip(i + 1));
            if node.token != token {
                let ghost k0 = kept@;
                kept.push(node);
                assert forall|a: int, b: int| 0 <= a < b < kept@.len() implies (#[trigger] kept@[a]).node_id@
                    != (#[trigger] kept@[b]).node_id@ by {
                    if b == k0.len() {
                        let t = choose|t: int| 0 <= t < i && #[trigger] orig[t] == k0[a];
                        assert(orig[t].node_id@ != orig[i as int].node_id@);
                    } else {
                        assert(k0[a].node_id@ != k0[b].node_id@);
                    }
                }
                assert forall|j: int| 0 <= j < kept@.len() implies exists|t: int| 0 <= t < i + 1 && #[trigger] orig[t] == #[trigger] kept@[j] by {
                    if j == k0.len() {
                        assert(orig[i as int] == kept@[j]);
                    } else {
                        let t = choose|t: int| 0 <= t < i && #[trigger] orig[t] == k0[j];
                        assert(orig[t] == kept@[j]);
                    }
                }
            }
            i = i + 1;
        }
        assert(orig.take(n as int) =~= orig);
        self.node_list = kept;
    }

    /// Connection attempts for the connect command `target`; `parsed` is the
    /// socket address `target` parses to, written out, if it parses as one.
    fn connect_to(&self, target: &str, parsed: Option<String>) -> (r: Vec<Effect>)
        requires
            self.wf(),
        ensures
            effects_view(r@) == connect_effects(
                self.nodes(),
                hello_v(self.id(), self.display_name(), self.listen()),
                target@,
                opt_text(parsed),
            ),
    {
        let ghost hv = hello_v(self.id(), self.display_name(), self.listen());
        let mut out: Vec<Effect> = Vec::new();
        let addr = match parsed {
            Some(a) => a,
            None => match self.find_node(target) {
                Some(i) => {
                    proof {
                        lemma_node_at(self.node_list@, i as int);
                    }
                    self.node_list[i].addr.clone()
                },
                None => {
                    let mut i: usize = 0;
                    while i < 5
                        invariant
                            i <= 5,
                            DEFAULT_PORTS@ == seq![9000u16, 9001, 9002, 9003, 9004],
                            hv == hello_v(self.id(), self.display_name(), self.listen()),
                            effects_view(out@) == probe_effects(target@, hv).take(i as int),
                        decreases 5 - i,
                    {
                        let mut a = String::from_str(target);
                        push_char(&mut a, ':');
                        let port = DEFAULT_PORTS[i];
                        let digits = decimal_string(port as u64);
                        let a = cat(a, digits.as_str());
                        assert(target@.push(':') =~= target@ + seq![':']);
                        assert(port == 9000 + i);
                        let hello = self.hello();
                        assert(a@ == ip_port_text(target@, i as int));
                        let ghost before = out@;
                        out.push(Effect::Connect { addr: a, hello, required: false });
                        assert(out@.last()@ == probe_effects(target@, hv)[i as int]);
                        assert(effects_view(out@) =~= effects_view(before).push(out@.last()@));
                        assert(probe_effects(target@, hv).take(i + 1) =~= probe_effects(target@, hv).take(i as int).push(probe_effects(target@, hv)[i as int]));
                        i = i + 1;
                    }
                    let note = cat(cat(String::from_str("Connecting to "), target), " (trying ports [9000, 9001, 9002, 9003, 9004])...");
                    out.push(Effect::Notify(Notify::Notice { level: NoticeLevel::Info, content: note }));
                    assert(probe_effects(target@, hv).take(5) =~= probe_effects(target@, hv));
                    assert(effects_view(out@) =~= probe_effects(target@, hv) + seq![info(connecting_ip_text(target@))]);
                    return out;
                },
            },
        };
        let note = cat(cat(String::from_str("Connecting to "), addr.as_str()), "...");
        let hello = self.hello();
        out.push(Effect::Connect { addr, hello, required: true });
        out.push(Effect::Notify(Notify::Notice { level: NoticeLevel::Info, content: note }));
        proof {
            let a = out@[0]->Connect_addr@;
            assert(effects_view(out@) =~= seq![
                EffectV::Connect { addr: a, hello: hv, required: true },
                info(connecting_text(a)),
            ]);
        }
        out
    }

    /// The disconnect command for `peer_id`: the peer is dropped, or an
    /// error notice is given when there is no such peer.
    fn disconnect_peer(&mut self, peer_id: String) -> (r: Vec<Effect>)
        requires
            old(self).wf(),
        ensures
            final(self).wf(),
            final(self).id() == old(self).id(),
            final(self).display_name() == old(self).display_name(),
            final(self).listen() == old(self).listen(),
            final(self).chat_history() == old(self).chat_history(),
            peer_dropped(old(self).nodes(), final(self).nodes(), peer_id@, effects_view(r@)),
    {
        let mut out: Vec<Effect> = Vec::new();
        let ghost s = self.node_list@;
        match self.find_node(peer_id.as_str()) {
            Some(i) => {
                proof {
                    lemma_node_at(s, i as int);
                }
                match self.node_list[i].close() {
                    Some(t) => {
                        out.push(Effect::Close { token: t });
                    },
                    None => {},
                }
                out.push(Effect::Notify(Notify::PeerOffline { peer_id }));
                let _ = self.node_list.remove(i);
                let ghost t = self.node_list@;
                assert(t =~= s.remove(i as int));
                assert(ids_distinct(t)) by {
                    assert forall|a: int, b: int| 0 <= a < b < t.len() implies (#[trigger] t[a]).node_id@
                        != (#[trigger] t[b]).node_id@ by {
                        let a0 = if a < i { a } else { a + 1 };
                        let b0 = if b < i { b } else { b + 1 };
                        assert(t[a] == s[a0] && t[b] == s[b0]);
                    }
                }
                assert forall|k: Seq<char>| k != s[i as int].node_id@ implies #[trigger] node_of(t, k) == node_of(s, k) by {
                    if has_node(t, k) {
                        let j = node_index(t, k);
                        lemma_node_at(t, j);
                        let j0 = if j < i { j } else { j + 1 };
                        assert(t[j] == s[j0]);
                        lemma_node_at(s, j0);
                    }
                    if has_node(s, k) {
                        let j = node_index(s, k);
                        lemma_node_at(s, j);
                        assert(j != i);
                        let j1 = if j < i { j } else { j - 1 };
                        assert(t[j1] == s[j]);
                        lemma_node_at(t, j1);
                    }
                }
                assert(!has_node(t, s[i as int].node_id@)) by {
                    if has_node(t, s[i as int].node_id@) {
                        let j = node_index(t, s[i as int].node_id@);
                        let j0 = if j < i { j } else { j + 1 };
                        assert(t[j] == s[j0]);
                        assert(s[j0].node_id@ == s[i as int].node_id@);
                    }
                }
                proof {
                    if s[i as int].online {
                        assert(effects_view(out@) =~= seq![EffectV::Close { token: s[i as int].token }] + seq![
                            EffectV::Notify(NotifyV::PeerOffline { peer_id: s[i as int].node_id@ }),
                        ]);
                    } else {
                        assert(effects_view(out@) =~= Seq::<EffectV>::empty() + seq![
                            EffectV::Notify(NotifyV::PeerOffline { peer_id: s[i as int].node_id@ }),
                        ]);
                    }
                }
            },
            None => {
                let mut note = cat(String::from_str("Unknown peer '"), peer_id.as_str());
                note = cat(note, "'");
                out.push(Effect::Notify(Notify::Notice { level: NoticeLevel::Error, content: note }));
                assert(effects_view(out@) =~= seq![error_notice(unknown_text(peer_id@))]);
            },
        }
        out
    }

    /// Sends `text` as message `msg_id` to the peer `conv_id`, stamped
    /// `timestamp`.
    pub fn send_message_at(&self, conv_id: String, msg_id: String, text: String, timestamp: u64) -> (r: Vec<Effect>)
        requires
            self.wf(),
        ensures
            effects_view(r@) == send_effects(self.nodes(), self.id(), conv_id@, msg_id@, text@, timestamp),
    {
        let mut out: Vec<Effect> = Vec::new();
        match self.find_node(conv_id.as_str()) {
            Some(i) => {
                proof {
                    lemma_node_at(self.node_list@, i as int);
                }
                let (packet, record) = self.node_list[i].send_chat(self.node_id.as_str(), msg_id.as_str(), text.as_str(), timestamp);
                let token = self.node_list[i].token;
                out.push(Effect::SendChat { token, packet, conv_id, msg_id, record });
                assert(effects_view(out@) =~= send_effects(self.nodes(), self.id(), conv_id@, msg_id@, text@, timestamp));
            },
            None => {
                let mut note = cat(String::from_str("Unknown peer '"), conv_id.as_str());
                note = cat(note, "'");
                out.push(Effect::Notify(Notify::MessageAck { msg_id, status: MessageStatus::Failed(note) }));
                assert(effects_view(out@) =~= send_effects(self.nodes(), self.id(), conv_id@, msg_id@, text@, timestamp));
            },
        }
        out
    }

    /// Sends `text` as message `msg_id` to the peer `conv_id`, stamped with
    /// the current time.
    pub fn send_message(&self, conv_id: String, msg_id: String, text: String) -> (r: Vec<Effect>)
        requires
            self.wf(),
        ensures
            sent_now(self.nodes(), self.id(), conv_id@, msg_id@, text@, effects_view(r@)),
    {
        let ghost (c, m, x) = (conv_id@, msg_id@, text@);
        let timestamp = crate::clock::now();
        let out = self.send_message_at(conv_id, msg_id, text, timestamp);
        assert(effects_view(out@) == send_effects(self.nodes(), self.id(), c, m, x, timestamp));
        out
    }

    /// The outcome of a [`Effect::SendChat`]: `error` is the sending error,
    /// if any. A sent message is recorded in the history with the peer.
    pub fn chat_sent(&mut self, conv_id: String, msg_id: String, record: MessageInfo, error: Option<String>) -> (r: Vec<Effect>)
        requires
            old(self).wf(),
        ensures
            final(self).wf(),
            final(self).id() == old(self).id(),
            final(self).display_name() == old(self).display_name(),
            final(self).listen() == old(self).listen(),
            final(self).nodes() == old(self).nodes(),
            match error {
                None => {
                    &&& added(old(self).chat_history(), final(self).chat_history(), conv_id@, record@)
                    &&& effects_view(r@) == seq![
                        EffectV::Notify(NotifyV::MessageAck { msg_id: msg_id@, status: StatusV::Sent }),
                        EffectV::SaveHistory { peer_id: conv_id@ },
                    ]
                },
                Some(e) => {
                    &&& final(self).chat_history() == old(self).chat_history()
                    &&& effects_view(r@) == seq![
                        EffectV::Notify(NotifyV::MessageAck { msg_id: msg_id@, status: StatusV::Failed(e@) }),
                    ]
                },
            },
    {
        let mut out: Vec<Effect> = Vec::new();
        match error {
            None => {
                let ghost mv = record;
                let ghost before = self.history;
                self.history.add_message(conv_id.as_str(), record);
                proof {
                    let b = before.messages(conv_id@);
                    let t = if b.len() >= crate::history::HISTORY_LIMIT { b.drop_first() } else { b };
                    assert(t.push(mv).drop_last() =~= t);
                    assert(t.push(mv).last() == mv);
                }
                out.push(Effect::Notify(Notify::MessageAck { msg_id, status: MessageStatus::Sent }));
                out.push(Effect::SaveHistory { peer_id: conv_id });
                assert(effects_view(out@) =~= seq![
                    EffectV::Notify(NotifyV::MessageAck { msg_id: msg_id@, status: StatusV::Sent }),
                    EffectV::SaveHistory { peer_id: conv_id@ },
                ]);
            },
            Some(e) => {
                let ghost ev = e@;
                out.push(Effect::Notify(Notify::MessageAck { msg_id, status: MessageStatus::Failed(e) }));
                assert(effects_view(out@) =~= seq![
                    EffectV::Notify(NotifyV::MessageAck { msg_id: msg_id@, status: StatusV::Failed(ev) }),
                ]);
            },
        }
        out
    }

    /// The peers, as the user interface lists them.
    fn peer_list(&self) -> (r: Vec<PeerInfo>)
        ensures
            r@.map_values(|p: PeerInfo| peer_info_view(p)) == peer_entries(self.nodes()),
    {
        let mut r: Vec<PeerInfo> = Vec::new();
        let n = self.node_list.len();
        let mut i: usize = 0;
        while i < n
            invariant
                n == self.node_list@.len(),
                i <= n,
                r@.map_values(|p: PeerInfo| peer_info_view(p)) == peer_entries(self.node_list@.take(i as int)),
            decreases n - i,
        {
            let node = &self.node_list[i];
            let ghost before = r@;
            let p = PeerInfo { peer_id: node.node_id.clone(), peer_name: node.name.clone(), addr: node.addr.clone() };
            assert(peer_info_view(p) == (node.node_id@, node.name@, node.addr@));
            r.push(p);
            assert(r@ == before.push(p));
            assert(self.node_list@.take(i + 1) =~= self.node_list@.take(i as int).push(self.node_list@[i as int]));
            assert(r@.map_values(|p: PeerInfo| peer_info_view(p)) =~= before.map_values(|p: PeerInfo| peer_info_view(p)).push(peer_info_view(p)));
            assert(r@.map_values(|p: PeerInfo| peer_info_view(p)) =~= peer_entries(self.node_list@.take(i + 1)));
            i = i + 1;
        }
        assert(self.node_list@.take(n as int) =~= self.node_list@);
        r
    }

    /// Handles a command from the user interface; returns the effects to
    /// carry out, in order, and whether the application stops. `parsed` is
    /// read for a connect command only: the socket address its target parses
    /// to, written out, if it parses as one. A sent message is stamped with
    /// the current time.
    #[verifier::spinoff_prover]
    #[verifier::rlimit(40)]
    pub fn handle_command(&mut self, cmd: Command, parsed: Option<String>) -> (r: (Vec<Effect>, bool))
        requires
            old(self).wf(),
        ensures
            final(self).wf(),
            final(self).id() == old(self).id(),
            final(self).display_name() == old(self).display_name(),
            final(self).listen() == old(self).listen(),
            final(self).chat_history() == old(self).chat_history(),
            r.1 == (cmd@ is Shutdown),
            match cmd@ {
                CommandV::Connect { addr } => {
                    &&& final(self).nodes() == old(self).nodes()
                    &&& effects_view(r.0@) == connect_effects(
                        old(self).nodes(),
                        hello_v(old(self).id(), old(self).display_name(), old(self).listen()),
                        addr,
                        opt_text(parsed),
                    )
                },
                CommandV::Disconnect { peer_id } => peer_dropped(
                    old(self).nodes(),
                    final(self).nodes(),
                    peer_id,
                    effects_view(r.0@),
                ),
                CommandV::SendMessage { conv_id, msg_id, text } => {
                    &&& final(self).nodes() == old(self).nodes()
                    &&& sent_now(old(self).nodes(), old(self).id(), conv_id, msg_id, text, effects_view(r.0@))
                },
                CommandV::GetHistory { conv_id, before, limit } => {
                    &&& final(self).nodes() == old(self).nodes()
                    &&& effects_view(r.0@) == seq![
                        EffectV::Notify(NotifyV::History {
                            conv_id,
                            messages: page(old(self).chat_history().messages(conv_id), before, limit).map_values(|m: MessageInfo| m@),
                        }),
                    ]
                },
                CommandV::ListPeers => {
                    &&& final(self).nodes() == old(self).nodes()
                    &&& effects_view(r.0@) == seq![
                        EffectV::Notify(NotifyV::PeerList { peers: peer_entries(old(self).nodes()) }),
                    ]
                },
                CommandV::Shutdown => {
                    &&& final(self).nodes() == old(self).nodes()
                    &&& effects_view(r.0@) == Seq::<EffectV>::empty()
                },
            },
    {
        let ghost cv = cmd@;
        match cmd {
            Command::Shutdown => {
                assert(cv is Shutdown);
                let out: Vec<Effect> = Vec::new();
                assert(effects_view(out@) =~= Seq::<EffectV>::empty());
                (out, true)
            },
            Command::Connect { addr } => {
                assert(cv == CommandV::Connect { addr: addr@ });
                let out = self.connect_to(addr.as_str(), parsed);
                (out, false)
            },
            Command::Disconnect { peer_id } => {
                assert(cv == CommandV::Disconnect { peer_id: peer_id@ });
                let out = self.disconnect_peer(peer_id);
                (out, false)
            },
            Command::SendMessage { conv_id, msg_id, content } => {
                let text = match content {
                    Content::Text(t) => t,
                };
                assert(cv == CommandV::SendMessage { conv_id: conv_id@, msg_id: msg_id@, text: text@ });
                let out = self.send_message(conv_id, msg_id, text);
                (out, false)
            },
            Command::GetHistory { conv_id, before, limit } => {
                let messages = self.history.get_history(conv_id.as_str(), before, limit);
                let mut out: Vec<Effect> = Vec::new();
                let ghost c = conv_id@;
                assert(cv == CommandV::GetHistory { conv_id: c, before, limit });
                out.push(Effect::Notify(Notify::History { conv_id, messages }));
                assert(effects_view(out@) =~= seq![
                    EffectV::Notify(NotifyV::History {
                        conv_id: c,
                        messages: page(self.chat_history().messages(c), before, limit).map_values(|m: MessageInfo| m@),
                    }),
                ]);
                (out, false)
            },
            Command::ListPeers => {
                assert(cv is ListPeers);
                let peers = self.peer_list();
                let mut out: Vec<Effect> = Vec::new();
                out.push(Effect::Notify(Notify::PeerList { peers }));
                assert(effects_view(out@) =~= seq![
                    EffectV::Notify(NotifyV::PeerList { peers: peer_entries(self.nodes()) }),
                ]);
                (out, false)
            },
        }
    }

    /// A chat message from `from`: recorded and shown if `from` is a known
    /// peer, ignored otherwise.
    #[verifier::spinoff_prover]
    #[verifier::rlimit(40)]
    fn on_chat(&mut self, from: String, content: String, timestamp: u64) -> (r: Vec<Effect>)
        requires
            old(self).wf(),
        ensures
            final(self).wf(),
            final(self).id() == old(self).id(),
            final(self).display_name() == old(self).display_name(),
            final(self).listen() == old(self).listen(),
            final(self).nodes() == old(self).nodes(),
            if old(self).node(from@) is Some {
                let msg = record(incoming_id(from@, timestamp), from@, content@, timestamp);
                &&& effects_view(r@) == seq![
                    EffectV::Notify(NotifyV::MessageReceived { conv_id: from@, msg }),
                    EffectV::SaveHistory { peer_id: from@ },
                ]
                &&& added(old(self).chat_history(), final(self).chat_history(), from@, msg)
            } else {
                effects_view(r@) == Seq::<EffectV>::empty() && final(self).chat_history()
                    == old(self).chat_history()
            },
    {
        let mut out: Vec<Effect> = Vec::new();
        match self.find_node(from.as_str()) {
            Some(i) => {
                proof {
                    lemma_node_at(self.node_list@, i as int);
                }
                let ghost expect = record(incoming_id(from@, timestamp), from@, content@, timestamp);
                let msg_id = incoming_msg_id(from.as_str(), timestamp);
                let (msg, note) = self.node_list[i].handle_chat(msg_id, content, timestamp);
                let ghost mv = msg;
                assert(mv@ == expect);
                let ghost before = self.history;
                self.history.add_message(from.as_str(), msg);
                proof {
                    let b = before.messages(from@);
                    let t = if b.len() >= crate::history::HISTORY_LIMIT { b.drop_first() } else { b };
                    assert(t.push(mv).drop_last() =~= t);
                    assert(t.push(mv).last() == mv);
                }
                out.push(Effect::Notify(note));
                out.push(Effect::SaveHistory { peer_id: from });
                assert(effects_view(out@) =~= seq![
                    EffectV::Notify(NotifyV::MessageReceived { conv_id: from@, msg: expect }),
                    EffectV::SaveHistory { peer_id: from@ },
                ]);
                assert(added(before, self.history, from@, expect));
                assert(self.node(from@) is Some);
            },
            None => {
                assert(effects_view(out@) =~= Seq::<EffectV>::empty());
                assert(self.node(from@) is None);
            },
        }
        out
    }

    /// The connection `token` was closed by the peer: its peer is dropped.
    fn on_disconnect(&mut self, token: usize) -> (r: Vec<Effect>)
        requires
            old(self).wf(),
        ensures
            final(self).wf(),
            final(self).id() == old(self).id(),
            final(self).display_name() == old(self).display_name(),
            final(self).listen() == old(self).listen(),
            final(self).nodes() == without_token(old(self).nodes(), token),
            final(self).chat_history() == old(self).chat_history(),
            effects_view(r@) == disconnect_effects(old(self).nodes(), token),
    {
        let mut out: Vec<Effect> = Vec::new();
        let ghost s = self.node_list@;
        match self.first_token_owner(token) {
            Some(i) => {
                proof {
                    lemma_node_at(s, i as int);
                }
                match self.node_list[i].close() {
                    Some(t) => {
                        out.push(Effect::Close { token: t });
                    },
                    None => {},
                }
                let id = self.node_list[i].node_id.clone();
                out.push(Effect::Notify(Notify::PeerOffline { peer_id: id }));
                proof {
                    if s[i as int].online {
                        assert(effects_view(out@) =~= seq![EffectV::Close { token }] + seq![
                            EffectV::Notify(NotifyV::PeerOffline { peer_id: s[i as int].node_id@ }),
                        ]);
                    } else {
                        assert(effects_view(out@) =~= Seq::<EffectV>::empty() + seq![
                            EffectV::Notify(NotifyV::PeerOffline { peer_id: s[i as int].node_id@ }),
                        ]);
                    }
                }
            },
            None => {
                assert(effects_view(out@) =~= Seq::<EffectV>::empty());
            },
        }
        self.drop_token(token);
        out
    }

    /// Handles a packet that arrived on the connection `token`; returns the
    /// effects to carry out, in order.
    #[verifier::spinoff_prover]
    pub fn handle_packet(&mut self, token: usize, packet: Packet) -> (r: Vec<Effect>)
        requires
            old(self).wf(),
        ensures
            final(self).wf(),
            final(self).id() == old(self).id(),
            final(self).display_name() == old(self).display_name(),
            final(self).listen() == old(self).listen(),
            match packet@ {
                PacketV::ConnectRequest { node_id, name, addr } => {
                    &&& final(self).node(node_id) == Some(
                        NodeV { node_id, name, addr, token, online: true },
                    )
                    &&& forall|k: Seq<char>| k != node_id ==> #[trigger] final(self).node(k) == old(self).node(k)
                    &&& final(self).chat_history() == old(self).chat_history()
                    &&& effects_view(r@) == seq![
                        EffectV::Send {
                            token,
                            packet: PacketV::ConnectResponse {
                                node_id: old(self).id(),
                                name: old(self).display_name(),
                                addr: old(self).listen(),
                            },
                        },
                        EffectV::Notify(NotifyV::PeerOnline { peer_id: node_id, peer_name: name, addr }),
                    ]
                },
                PacketV::ConnectResponse { node_id, name, addr } => {
                    &&& final(self).node(node_id) == Some(
                        NodeV { node_id, name, addr, token, online: true },
                    )
                    &&& forall|k: Seq<char>| k != node_id ==> #[trigger] final(self).node(k) == old(self).node(k)
                    &&& final(self).chat_history() == old(self).chat_history()
                    &&& effects_view(r@) == seq![
                        EffectV::Notify(NotifyV::PeerOnline { peer_id: node_id, peer_name: name, addr }),
                    ]
                },
                PacketV::Chat { from, content, timestamp, .. } => {
                    &&& final(self).nodes() == old(self).nodes()
                    &&& if old(self).node(from) is Some {
                        let msg = record(incoming_id(from, timestamp), from, content, timestamp);
                        &&& effects_view(r@) == seq![
                            EffectV::Notify(NotifyV::MessageReceived { conv_id: from, msg }),
                            EffectV::SaveHistory { peer_id: from },
                        ]
                        &&& added(old(self).chat_history(), final(self).chat_history(), from, msg)
                    } else {
                        effects_view(r@) == Seq::<EffectV>::empty() && final(self).chat_history()
                            == old(self).chat_history()
                    }
                },
                PacketV::Disconnect { .. } => {
                    &&& final(self).nodes() == without_token(old(self).nodes(), token)
                    &&& final(self).chat_history() == old(self).chat_history()
                    &&& effects_view(r@) == disconnect_effects(old(self).nodes(), token)
                },
                PacketV::System { content } => {
                    &&& final(self).nodes() == old(self).nodes()
                    &&& final(self).chat_history() == old(self).chat_history()
                    &&& effects_view(r@) == seq![info(content)]
                },
                PacketV::Keepalive { .. } => {
                    &&& final(self).nodes() == old(self).nodes()
                    &&& final(self).chat_history() == old(self).chat_history()
                    &&& effects_view(r@) == Seq::<EffectV>::empty()
                },
            },
    {
        let ghost p = packet@;
        let mut out: Vec<Effect> = Vec::new();
        match packet {
            Packet::ConnectRequest { node_id, name, addr } => {
                let reply = Packet::ConnectResponse {
                    node_id: self.node_id.clone(),
                    name: self.name.clone(),
                    addr: self.listen_addr.clone(),
                };
                let online = Notify::PeerOnline {
                    peer_id: node_id.clone(),
                    peer_name: name.clone(),
                    addr: addr.clone(),
                };
                self.create_node(node_id, name, addr, token);
                out.push(Effect::Send { token, packet: reply });
                out.push(Effect::Notify(online));
                assert(effects_view(out@) =~= seq![
                    EffectV::Send {
                        token,
                        packet: PacketV::ConnectResponse {
                            node_id: old(self).id(),
                            name: old(self).display_name(),
                            addr: old(self).listen(),
                        },
                    },
                    EffectV::Notify(NotifyV::PeerOnline { peer_id: p->ConnectRequest_node_id, peer_name: p->ConnectRequest_name, addr: p->ConnectRequest_addr }),
                ]);
                out
            },
            Packet::ConnectResponse { node_id, name, addr } => {
                let online = Notify::PeerOnline {
                    peer_id: node_id.clone(),
                    peer_name: name.clone(),
                    addr: addr.clone(),
                };
                self.create_node(node_id, name, addr, token);
                out.push(Effect::Notify(online));
                assert(effects_view(out@) =~= seq![
                    EffectV::Notify(NotifyV::PeerOnline { peer_id: p->ConnectResponse_node_id, peer_name: p->ConnectResponse_name, addr: p->ConnectResponse_addr }),
                ]);
                out
            },
            Packet::Chat { from, content, timestamp, .. } => self.on_chat(from, content, timestamp),
            Packet::Disconnect { .. } => self.on_disconnect(token),
            Packet::System { content } => {
                out.push(Effect::Notify(Notify::Notice { level: NoticeLevel::Info, content }));
                assert(effects_view(out@) =~= seq![info(p->System_content)]);
                out
            },
            Packet::Keepalive { .. } => {
                assert(effects_view(out@) =~= Seq::<EffectV>::empty());
                out
            },
        }
    }
}

/// When connection `t` closes, exactly the peers connected under `t` are
/// dropped: every other peer is kept as it was, and no peer appears.
pub proof fn lemma_closed_token_drops_its_peers(before: App, after: App, t: usize, k: Seq<char>)
    requires
        before.wf(),
        after.wf(),
        after.nodes() == without_token(before.nodes(), t),
    ensures
        match before.node(k) {
            Some(n) => after.node(k) == if n.token == t {
                None
            } else {
                Some(n)
            },
            None => after.node(k) is None,
        },
{
    let s = before.nodes();
    let f = after.nodes();
    let pred = |n: Node| n.token != t;
    assert(f == s.filter(pred));
    if has_node(f, k) {
        let j = node_index(f, k);
        lemma_node_at(f, j);
        s.lemma_filter_pred(pred, j);
        s.lemma_filter_contains_rev(pred, f[j]);
        let i = choose|i: int| 0 <= i < s.len() && s[i] == f[j];
        lemma_node_at(s, i);
    } else {
        if has_node(s, k) {
            let i = node_index(s, k);
            lemma_node_at(s, i);
            if s[i].token != t {
                s.lemma_filter_contains(pred, i);
                let j = choose|j: int| 0 <= j < f.len() && f[j] == s[i];
                assert(f[j].node_id@ == k);
            }
        }
    }
}

/// `after` is `before` with `msg` recorded in the conversation with `k`.
pub open spec fn added(before: HistoryManager, after: HistoryManager, k: Seq<char>, msg: MessageInfoV) -> bool {
    &&& after.wf()
    &&& after.has(k)
    &&& after.messages(k).len() > 0
    &&& after.messages(k).last()@ == msg
    &&& after.messages(k).drop_last() == {
        let b = before.messages(k);
        if b.len() >= crate::history::HISTORY_LIMIT {
            b.drop_first()
        } else {
            b
        }
    }
    &&& forall|j: Seq<char>| j != k ==> #[trigger] after.has(j) == before.has(j) && after.messages(j) == before.messages(j)
}

} // verus!
