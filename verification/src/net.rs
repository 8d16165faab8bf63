//! The packet protocol of the event-driven network layer: the packets, the
//! tokens of the connections, the state of each connection, and the
//! receive buffers that packets are cut from.

use vstd::prelude::*;

verus! {

/// A packet exchanged between two applications.
#[derive(Debug)]
pub enum Packet {
    /// First packet of an outbound connection.
    ConnectRequest { node_id: String, name: String, addr: String },
    /// Answer to a connection request.
    ConnectResponse { node_id: String, name: String, addr: String },
    /// A chat message; `to` is `None` for a broadcast.
    Chat { from: String, to: Option<String>, content: String, timestamp: u64 },
    /// The connection ends.
    Disconnect { reason: String },
    /// System information.
    System { content: String },
    /// Liveness probe.
    Keepalive { timestamp: u64 },
}

/// [`Packet`] as a value.
pub enum PacketV {
    ConnectRequest { node_id: Seq<char>, name: Seq<char>, addr: Seq<char> },
    ConnectResponse { node_id: Seq<char>, name: Seq<char>, addr: Seq<char> },
    Chat { from: Seq<char>, to: Option<Seq<char>>, content: Seq<char>, timestamp: u64 },
    Disconnect { reason: Seq<char> },
    System { content: Seq<char> },
    Keepalive { timestamp: u64 },
}

impl View for Packet {
    type V = PacketV;

    open spec fn view(&self) -> PacketV {
        match self {
            Packet::ConnectRequest { node_id, name, addr } => PacketV::ConnectRequest {
                node_id: node_id@,
                name: name@,
                addr: addr@,
            },
            Packet::ConnectResponse { node_id, name, addr } => PacketV::ConnectResponse {
                node_id: node_id@,
                name: name@,
                addr: addr@,
            },
            Packet::Chat { from, to, content, timestamp } => PacketV::Chat {
                from: from@,
                to: crate::event::opt_text(*to),
                content: content@,
                timestamp: *timestamp,
            },
            Packet::Disconnect { reason } => PacketV::Disconnect { reason: reason@ },
            Packet::System { content } => PacketV::System { content: content@ },
            Packet::Keepalive { timestamp } => PacketV::Keepalive { timestamp: *timestamp },
        }
    }
}

/// Token of the listening socket; connections never get it.
pub const LISTENER_TOKEN: usize = 0;

/// The tokens of the connections: those in use, and those released and
/// ready to be given out again (most recently released first).
pub struct TokenPool {
    next_token: usize,
    free_tokens: Vec<usize>,
    live: Vec<usize>,
}

/// No element occurs twice in `s`.
pub open spec fn distinct(s: Seq<usize>) -> bool {
    forall|i: int, j: int| 0 <= i < j < s.len() ==> s[i] != s[j]
}

impl TokenPool {
    /// Tokens of live connections.
    pub closed spec fn live(&self) -> Seq<usize> {
        self.live@
    }

    /// Released tokens, in release order.
    pub closed spec fn free(&self) -> Seq<usize> {
        self.free_tokens@
    }

    /// The next never-used token.
    pub closed spec fn next(&self) -> usize {
        self.next_token
    }

    /// Every token handed out is below `next` and above the listener's;
    /// live and free tokens are distinct.
    pub closed spec fn wf(&self) -> bool {
        &&& self.next_token >= 1
        &&& distinct(self.live@)
        &&& distinct(self.free_tokens@)
        &&& forall|i: int| 0 <= i < self.live@.len() ==> 1 <= #[trigger] self.live@[i] < self.next_token
        &&& forall|i: int|
            0 <= i < self.free_tokens@.len() ==> 1 <= #[trigger] self.free_tokens@[i] < self.next_token
        &&& forall|i: int, j: int|
            0 <= i < self.live@.len() && 0 <= j < self.free_tokens@.len() ==> self.live@[i]
                != self.free_tokens@[j]
    }

    /// A pool with no token handed out; the first token is 1.
    pub fn new() -> (r: Self)
        ensures
            r.wf(),
            r.live().len() == 0,
            r.free().len() == 0,
            r.next() == 1,
    {
        TokenPool { next_token: 1, free_tokens: Vec::new(), live: Vec::new() }
    }

    /// Whether a token can be handed out.
    pub fn can_alloc_token(&self) -> (r: bool)
        ensures
            r == (self.free().len() > 0 || self.next() < usize::MAX),
    {
        self.free_tokens.len() > 0 || self.next_token < usize::MAX
    }

    /// Hands out a token for a new connection: the most recently released
    /// one, or else the next never-used one. It is not the listener's and
    /// not in use.
    pub fn alloc_token(&mut self) -> (t: usize)
        requires
            old(self).wf(),
            old(self).free().len() > 0 || old(self).next() < usize::MAX,
        ensures
            final(self).wf(),
            t == if old(self).free().len() > 0 {
                old(self).free().last()
            } else {
                old(self).next()
            },
            t != LISTENER_TOKEN,
            !old(self).live().contains(t),
            final(self).live() == old(self).live().push(t),
    {
        let t = match self.free_tokens.pop() {
            Some(t) => t,
            None => {
                let t = self.next_token;
                self.next_token = self.next_token + 1;
                t
            },
        };
        self.live.push(t);
        proof {
            let ol = old(self).live@;
            let of = old(self).free_tokens@;
            if of.len() > 0 {
                assert(of.last() == of[of.len() - 1]);
                assert forall|i: int| 0 <= i < ol.len() implies ol[i] != t by {
                    assert(ol[i] != of[of.len() - 1]);
                }
            }
            assert(!ol.contains(t));
        }
        t
    }

    /// Whether `t` is the token of a live connection.
    pub fn is_live(&self, t: usize) -> (r: bool)
        ensures
            r == self.live().contains(t),
    {
        let n = self.live.len();
        let mut i: usize = 0;
        while i < n
            invariant
                n == self.live@.len(),
                i <= n,
                forall|j: int| 0 <= j < i ==> self.live@[j] != t,
            decreases n - i,
        {
            if self.live[i] == t {
                return true;
            }
            i = i + 1;
        }
        false
    }

    /// Releases the token of a connection that was removed: a live token
    /// becomes free (and `true` is returned); any other is ignored.
    pub fn release(&mut self, t: usize) -> (r: bool)
        requires
            old(self).wf(),
        ensures
            final(self).wf(),
            r == old(self).live().contains(t),
            r ==> final(self).free() == old(self).free().push(t) && !final(self).live().contains(t)
                && forall|u: usize| u != t ==> (#[trigger] final(self).live().contains(u) == old(self).live().contains(u)),
            !r ==> final(self).free() == old(self).free() && final(self).live() == old(self).live(),
            r ==> exists|i: int|
                0 <= i < old(self).live().len() && old(self).live()[i] == t && #[trigger] old(self).live().remove(i)
                    == final(self).live(),
    {
        let i = match self.position(t) {
            Some(i) => i,
            None => {
                return false;
            },
        };
        let ghost ol = self.live@;
        let ghost of = self.free_tokens@;
        let _ = self.live.remove(i);
        self.free_tokens.push(t);
        proof {
            let nl = self.live@;
            assert(nl == ol.remove(i as int));
            assert forall|u: usize| u != t implies (#[trigger] nl.contains(u) == ol.contains(u)) by {
                if ol.contains(u) {
                    let j = choose|j: int| 0 <= j < ol.len() && ol[j] == u;
                    if j < i {
                        assert(nl[j] == u);
                    } else {
                        assert(j != i);
                        assert(nl[j - 1] == u);
                    }
                }
            }
            assert(!nl.contains(t)) by {
                if nl.contains(t) {
                    let j = choose|j: int| 0 <= j < nl.len() && nl[j] == t;
                    if j < i {
                        assert(ol[j] == t);
                    } else {
                        assert(ol[j + 1] == t);
                    }
                }
            }
            assert(ol.contains(t)) by {
                assert(ol[i as int] == t);
            }
            assert forall|a: int| 0 <= a < of.len() implies of[a] != t by {
                assert(ol[i as int] != of[a]);
            }
            assert(ol.remove(i as int) == nl);
        }
        true
    }

    fn position(&self, t: usize) -> (r: Option<usize>)
        ensures
            r is None ==> !self.live().contains(t),
            r matches Some(i) ==> i < self.live@.len() && self.live@[i as int] == t,
    {
        let n = self.live.len();
        let mut i: usize = 0;
        while i < n
            invariant
                n == self.live@.len(),
                i <= n,
                forall|j: int| 0 <= j < i ==> self.live@[j] != t,
            decreases n - i,
        {
            if self.live[i] == t {
                return Some(i);
            }
            i = i + 1;
        }
        None
    }
}

/// State of a connection.
#[derive(Debug, Clone, Copy, PartialEq, Eq, Structural)]
pub enum ConnState {
    /// An outbound connection not yet established.
    Connecting,
    /// An established connection.
    Connected,
}

/// A connection: its token, its state, and the first bytes to send once an
/// outbound connection is established.
pub struct ConnEntry {
    pub token: usize,
    pub state: ConnState,
    pub pending_hello: Option<Vec<u8>>,
}

/// Optional bytes as a value.
pub open spec fn opt_bytes(o: Option<Vec<u8>>) -> Option<Seq<u8>> {
    match o {
        Some(h) => Some(h@),
        None => None,
    }
}

/// A connection as a value.
pub open spec fn entry_view(e: ConnEntry) -> (usize, ConnState, Option<Seq<u8>>) {
    (e.token, e.state, opt_bytes(e.pending_hello))
}

/// The connection under token `t` in `s`, if any: its state and pending
/// first bytes.
pub open spec fn entry_of(s: Seq<(usize, ConnState, Option<Seq<u8>>)>, t: usize) -> Option<(ConnState, Option<Seq<u8>>)> {
    if exists|i: int| 0 <= i < s.len() && (#[trigger] s[i]).0 == t {
        let i = choose|i: int| 0 <= i < s.len() && (#[trigger] s[i]).0 == t;
        Some((s[i].1, s[i].2))
    } else {
        None
    }
}

/// The table of connections, with the tokens they hold.
pub struct ConnTable {
    pool: TokenPool,
    conns: Vec<ConnEntry>,
}

proof fn lemma_entry_at(s: Seq<(usize, ConnState, Option<Seq<u8>>)>, i: int)
    requires
        0 <= i < s.len(),
        forall|a: int, b: int| 0 <= a < b < s.len() ==> s[a].0 != s[b].0,
    ensures
        entry_of(s, s[i].0) == Some((s[i].1, s[i].2)),
{
    let t = s[i].0;
    assert(exists|j: int| 0 <= j < s.len() && (#[trigger] s[j]).0 == t) by {
        assert(s[i].0 == t);
    }
    let j = choose|j: int| 0 <= j < s.len() && (#[trigger] s[j]).0 == t;
    if j < i {
        assert(s[j].0 != s[i].0);
    } else if j > i {
        assert(s[i].0 != s[j].0);
    }
}

impl ConnTable {
    /// The connections, in the order they were opened.
    pub closed spec fn entries(&self) -> Seq<(usize, ConnState, Option<Seq<u8>>)> {
        self.conns@.map_values(|e: ConnEntry| entry_view(e))
    }

    /// The token pool of the table.
    pub closed spec fn tokens(&self) -> TokenPool {
        self.pool
    }

    /// The connection under token `t`, if any.
    pub open spec fn entry(&self, t: usize) -> Option<(ConnState, Option<Seq<u8>>)> {
        entry_of(self.entries(), t)
    }

    /// One connection per live token, in the pool's order.
    pub closed spec fn wf(&self) -> bool {
        &&& self.pool.wf()
        &&& self.conns@.len() == self.pool.live().len()
        &&& forall|i: int| 0 <= i < self.conns@.len() ==> (#[trigger] self.conns@[i]).token == self.pool.live()[i]
    }

    proof fn lemma_wf_entries(&self)
        requires
            self.wf(),
        ensures
            forall|a: int, b: int| 0 <= a < b < self.entries().len() ==> self.entries()[a].0 != self.entries()[b].0,
            forall|i: int| 0 <= i < self.entries().len() ==> self.entries()[i].0 != LISTENER_TOKEN,
            self.entries().len() == self.conns@.len(),
    {
        assert forall|a: int, b: int| 0 <= a < b < self.entries().len() implies self.entries()[a].0
            != self.entries()[b].0 by {
            assert(self.conns@[a].token == self.pool.live()[a]);
            assert(self.conns@[b].token == self.pool.live()[b]);
        }
        assert forall|i: int| 0 <= i < self.entries().len() implies self.entries()[i].0 != LISTENER_TOKEN by {
            assert(self.conns@[i].token == self.pool.live()[i]);
        }
    }

    /// An empty table; the first token handed out is 1.
    pub fn new() -> (r: Self)
        ensures
            r.wf(),
            r.entries().len() == 0,
            r.tokens().live().len() == 0,
            r.tokens().free().len() == 0,
            r.tokens().next() == 1,
    {
        let r = ConnTable { pool: TokenPool::new(), conns: Vec::new() };
        assert(r.entries() =~= Seq::<(usize, ConnState, Option<Seq<u8>>)>::empty());
        r
    }

    /// Whether a new connection can get a token.
    pub fn can_add(&self) -> (r: bool)
        ensures
            r == (self.tokens().free().len() > 0 || self.tokens().next() < usize::MAX),
    {
        self.pool.can_alloc_token()
    }

    fn add(&mut self, state: ConnState, hello: Option<Vec<u8>>) -> (t: usize)
        requires
            old(self).wf(),
            old(self).tokens().free().len() > 0 || old(self).tokens().next() < usize::MAX,
        ensures
            final(self).wf(),
            t != LISTENER_TOKEN,
            old(self).entry(t) is None,
            final(self).entries() == old(self).entries().push(
                (t, state, opt_bytes(hello)),
            ),
    {
        let ghost e0 = self.entries();
        proof {
            self.lemma_wf_entries();
        }
        let t = self.pool.alloc_token();
        assert(old(self).entry(t) is None) by {
            if exists|i: int| 0 <= i < e0.len() && (#[trigger] e0[i]).0 == t {
                let i = choose|i: int| 0 <= i < e0.len() && (#[trigger] e0[i]).0 == t;
                assert(old(self).conns@[i].token == old(self).pool.live()[i]);
                assert(old(self).pool.live().contains(t));
            }
        }
        let ghost hv = opt_bytes(hello);
        self.conns.push(ConnEntry { token: t, state, pending_hello: hello });
        assert(self.entries() =~= e0.push((t, state, hv)));
        t
    }

    /// Records an accepted connection: it is established at once. Its
    /// token is fresh and not the listener's.
    pub fn accept(&mut self) -> (t: usize)
        requires
            old(self).wf(),
            old(self).tokens().free().len() > 0 || old(self).tokens().next() < usize::MAX,
        ensures
            final(self).wf(),
            t != LISTENER_TOKEN,
            old(self).entry(t) is None,
            final(self).entries() == old(self).entries().push((t, ConnState::Connected, None)),
    {
        self.add(ConnState::Connected, None)
    }

    /// Records an outbound connection being opened, with the bytes to send
    /// once it is established.
    pub fn connect(&mut self, hello: Option<Vec<u8>>) -> (t: usize)
        requires
            old(self).wf(),
            old(self).tokens().free().len() > 0 || old(self).tokens().next() < usize::MAX,
        ensures
            final(self).wf(),
            t != LISTENER_TOKEN,
            old(self).entry(t) is None,
            final(self).entries() == old(self).entries().push(
                (t, ConnState::Connecting, opt_bytes(hello)),
            ),
    {
        self.add(ConnState::Connecting, hello)
    }

    fn find(&self, t: usize) -> (r: Option<usize>)
        requires
            self.wf(),
        ensures
            r is None ==> self.entry(t) is None,
            r matches Some(i) ==> i < self.entries().len() && self.entries()[i as int].0 == t && self.entry(t)
                == Some((self.entries()[i as int].1, self.entries()[i as int].2)),
    {
        proof {
            self.lemma_wf_entries();
        }
        let n = self.conns.len();
        let mut i: usize = 0;
        while i < n
            invariant
                self.wf(),
                n == self.conns@.len(),
                i <= n,
                forall|j: int| 0 <= j < i ==> (#[trigger] self.conns@[j]).token != t,
            decreases n - i,
        {
            if self.conns[i].token == t {
                proof {
                    self.lemma_wf_entries();
                    lemma_entry_at(self.entries(), i as int);
                }
                return Some(i);
            }
            i = i + 1;
        }
        assert(self.entry(t) is None) by {
            let s = self.entries();
            if exists|j: int| 0 <= j < s.len() && (#[trigger] s[j]).0 == t {
                let j = choose|j: int| 0 <= j < s.len() && (#[trigger] s[j]).0 == t;
                assert(self.conns@[j].token == t);
            }
        }
        None
    }

    /// Whether `t` is the token of a connection.
    pub fn contains(&self, t: usize) -> (r: bool)
        requires
            self.wf(),
        ensures
            r == self.entry(t) is Some,
    {
        self.find(t).is_some()
    }

    /// Whether `t` is the token of an outbound connection not yet
    /// established.
    pub fn is_connecting(&self, t: usize) -> (r: bool)
        requires
            self.wf(),
        ensures
            r == (self.entry(t) matches Some(e) && e.0 == ConnState::Connecting),
    {
        match self.find(t) {
            Some(i) => self.conns[i].state == ConnState::Connecting,
            None => false,
        }
    }

    /// An outbound connection is established: it becomes connected and its
    /// pending first bytes are handed out (to be sent).
    pub fn establish(&mut self, t: usize) -> (hello: Option<Vec<u8>>)
        requires
            old(self).wf(),
        ensures
            final(self).wf(),
            match old(self).entry(t) {
                Some(e) => {
                    &&& e.0 == ConnState::Connecting ==> {
                        &&& final(self).entry(t) == Some((ConnState::Connected, None::<Seq<u8>>))
                        &&& match hello {
                            Some(h) => e.1 == Some(h@),
                            None => e.1 is None,
                        }
                    }
                    &&& e.0 == ConnState::Connected ==> hello is None && final(self).entries() == old(self).entries()
                },
                None => hello is None && final(self).entries() == old(self).entries(),
            },
            forall|u: usize| u != t ==> #[trigger] final(self).entry(u) == old(self).entry(u),
            final(self).entries().len() == old(self).entries().len(),
    {
        let ghost e0 = self.entries();
        proof {
            self.lemma_wf_entries();
        }
        match self.find(t) {
            Some(i) => {
                if self.conns[i].state == ConnState::Connecting {
                    let old_entry = self.conns.remove(i);
                    let hello = old_entry.pending_hello;
                    self.conns.insert(i, ConnEntry { token: t, state: ConnState::Connected, pending_hello: None });
                    let ghost e1 = self.entries();
                    assert(e1 =~= e0.update(i as int, (t, ConnState::Connected, None::<Seq<u8>>)));
                    proof {
                        self.lemma_wf_entries();
                        lemma_entry_at(e1, i as int);
                        assert forall|u: usize| u != t implies #[trigger] entry_of(e1, u) == entry_of(e0, u) by {
                            if exists|j: int| 0 <= j < e1.len() && (#[trigger] e1[j]).0 == u {
                                let j = choose|j: int| 0 <= j < e1.len() && (#[trigger] e1[j]).0 == u;
                                lemma_entry_at(e1, j);
                                assert(e0[j] == e1[j]);
                                lemma_entry_at(e0, j);
                            }
                            if exists|j: int| 0 <= j < e0.len() && (#[trigger] e0[j]).0 == u {
                                let j = choose|j: int| 0 <= j < e0.len() && (#[trigger] e0[j]).0 == u;
                                lemma_entry_at(e0, j);
                                assert(e0[j] == e1[j]);
                                lemma_entry_at(e1, j);
                            }
                        }
                    }
                    hello
                } else {
                    None
                }
            },
            None => None,
        }
    }

    /// Removes the connection under `t`, if any (`true` then): its token is
    /// released for reuse. The others stay as they were.
    pub fn remove(&mut self, t: usize) -> (r: bool)
        requires
            old(self).wf(),
        ensures
            final(self).wf(),
            r == old(self).entry(t) is Some,
            final(self).entry(t) is None,
            forall|u: usize| u != t ==> #[trigger] final(self).entry(u) == old(self).entry(u),
            r ==> final(self).tokens().free() == old(self).tokens().free().push(t),
    {
        let ghost e0 = self.entries();
        proof {
            self.lemma_wf_entries();
        }
        match self.find(t) {
            Some(i) => {
                let ghost live0 = self.pool.live();
                let _ = self.conns.remove(i);
                let released = self.pool.release(t);
                assert(live0[i as int] == t);
                proof {
                    let k = choose|k: int|
                        0 <= k < live0.len() && live0[k] == t && #[trigger] live0.remove(k) == self.pool.live();
                    if k != i {
                        assert(live0[k] == live0[i as int]);
                        assert(false);
                    }
                }
                let ghost e1 = self.entries();
                assert(e1 =~= e0.remove(i as int));
                proof {
                    self.lemma_wf_entries();
                    assert forall|u: usize| u != t implies #[trigger] entry_of(e1, u) == entry_of(e0, u) by {
                        if exists|j: int| 0 <= j < e1.len() && (#[trigger] e1[j]).0 == u {
                            let j = choose|j: int| 0 <= j < e1.len() && (#[trigger] e1[j]).0 == u;
                            lemma_entry_at(e1, j);
                            let j0 = if j < i { j } else { j + 1 };
                            assert(e0[j0] == e1[j]);
                            lemma_entry_at(e0, j0);
                        }
                        if exists|j: int| 0 <= j < e0.len() && (#[trigger] e0[j]).0 == u {
                            let j = choose|j: int| 0 <= j < e0.len() && (#[trigger] e0[j]).0 == u;
                            lemma_entry_at(e0, j);
                            assert(j != i);
                            let j1 = if j < i { j } else { j - 1 };
                            assert(e0[j] == e1[j1]);
                            lemma_entry_at(e1, j1);
                        }
                    }
                    if exists|j: int| 0 <= j < e1.len() && (#[trigger] e1[j]).0 == t {
                        let j = choose|j: int| 0 <= j < e1.len() && (#[trigger] e1[j]).0 == t;
                        let j0 = if j < i { j } else { j + 1 };
                        assert(e0[j0] == e1[j]);
                        assert(e0[j0].0 == e0[i as int].0);
                    }
                }
                true
            },
            None => false,
        }
    }
}

/// The receive buffer of each connection: bytes read and not yet cut into
/// packets.
pub struct RecvBuffers {
    bufs: Vec<(usize, Vec<u8>)>,
}

/// The buffer of token `t` in `s` (empty when there is none).
pub open spec fn buffer_of(s: Seq<(usize, Seq<u8>)>, t: usize) -> Seq<u8> {
    if exists|i: int| 0 <= i < s.len() && (#[trigger] s[i]).0 == t {
        s[choose|i: int| 0 <= i < s.len() && (#[trigger] s[i]).0 == t].1
    } else {
        seq![]
    }
}

/// No token has two buffers.
pub open spec fn buffers_distinct(s: Seq<(usize, Seq<u8>)>) -> bool {
    forall|a: int, b: int| 0 <= a < b < s.len() ==> s[a].0 != s[b].0
}

proof fn lemma_buffer_at(s: Seq<(usize, Seq<u8>)>, i: int)
    requires
        0 <= i < s.len(),
        buffers_distinct(s),
    ensures
        buffer_of(s, s[i].0) == s[i].1,
{
    let t = s[i].0;
    assert(exists|j: int| 0 <= j < s.len() && (#[trigger] s[j]).0 == t) by {
        assert(s[i].0 == t);
    }
    let j = choose|j: int| 0 <= j < s.len() && (#[trigger] s[j]).0 == t;
    if j < i {
        assert(s[j].0 != s[i].0);
    } else if j > i {
        assert(s[i].0 != s[j].0);
    }
}

/// The packet frame at the front of `buf`, if it is whole: its body and
/// the number of bytes it takes.
pub open spec fn front_frame(buf: Seq<u8>) -> Option<(Seq<u8>, int)> {
    if buf.len() < 4 {
        None
    } else {
        let len = crate::frame::le_value(buf.subrange(0, 4));
        if buf.len() < 4 + len {
            None
        } else {
            Some((buf.subrange(4, 4 + len as int), 4 + len as int))
        }
    }
}

/// Packets come out of a receive buffer whole and in the order they were
/// written: a framed packet at the front of a buffer is cut as that packet,
/// and what follows it is left in the buffer.
pub proof fn lemma_front_frame_of_packet(body: Seq<u8>, rest: Seq<u8>)
    requires
        body.len() <= u32::MAX,
    ensures
        front_frame(crate::frame::packet_frame(body) + rest) == Some((body, 4 + body.len() as int)),
        (crate::frame::packet_frame(body) + rest).skip(4 + body.len() as int) == rest,
{
    crate::frame::lemma_packet_frame_roundtrip(body, rest);
    let buf = crate::frame::packet_frame(body) + rest;
    assert(buf.skip(4 + body.len() as int) =~= rest);
}

impl RecvBuffers {
    /// The buffers, as (token, bytes).
    pub closed spec fn contents(&self) -> Seq<(usize, Seq<u8>)> {
        self.bufs@.map_values(|b: (usize, Vec<u8>)| (b.0, b.1@))
    }

    /// The bytes waiting on token `t`.
    pub open spec fn buffer(&self, t: usize) -> Seq<u8> {
        buffer_of(self.contents(), t)
    }

    /// One buffer per token.
    pub closed spec fn wf(&self) -> bool {
        buffers_distinct(self.contents())
    }

    /// No bytes waiting.
    pub fn new() -> (r: Self)
        ensures
            r.wf(),
            forall|t: usize| #[trigger] r.buffer(t) == Seq::<u8>::empty(),
    {
        let r = RecvBuffers { bufs: Vec::new() };
        assert(r.contents() =~= Seq::<(usize, Seq<u8>)>::empty());
        r
    }

    fn find(&self, t: usize) -> (r: Option<usize>)
        requires
            self.wf(),
        ensures
            r is None ==> !exists|i: int| 0 <= i < self.contents().len() && (#[trigger] self.contents()[i]).0 == t,
            r is None ==> self.buffer(t) == Seq::<u8>::empty(),
            r matches Some(i) ==> i < self.contents().len() && self.contents()[i as int].0 == t
                && self.buffer(t) == self.contents()[i as int].1,
    {
        let n = self.bufs.len();
        let mut i: usize = 0;
        while i < n
            invariant
                self.wf(),
                n == self.bufs@.len(),
                i <= n,
                forall|j: int| 0 <= j < i ==> (#[trigger] self.bufs@[j]).0 != t,
            decreases n - i,
        {
            if self.bufs[i].0 == t {
                proof {
                    lemma_buffer_at(self.contents(), i as int);
                }
                return Some(i);
            }
            i = i + 1;
        }
        assert(!exists|j: int| 0 <= j < self.contents().len() && (#[trigger] self.contents()[j]).0 == t) by {
            if exists|j: int| 0 <= j < self.contents().len() && (#[trigger] self.contents()[j]).0 == t {
                let j = choose|j: int| 0 <= j < self.contents().len() && (#[trigger] self.contents()[j]).0 == t;
                assert(self.bufs@[j].0 == t);
            }
        }
        None
    }

    proof fn lemma_others(s0: Seq<(usize, Seq<u8>)>, s1: Seq<(usize, Seq<u8>)>, i: int, t: usize)
        requires
            0 <= i < s0.len(),
            s0.len() == s1.len(),
            s0[i].0 == t,
            s1[i].0 == t,
            forall|j: int| 0 <= j < s0.len() && j != i ==> s0[j] == s1[j],
            buffers_distinct(s0),
        ensures
            buffers_distinct(s1),
            forall|u: usize| u != t ==> #[trigger] buffer_of(s1, u) == buffer_of(s0, u),
            buffer_of(s1, t) == s1[i].1,
    {
        assert forall|a: int, b: int| 0 <= a < b < s1.len() implies s1[a].0 != s1[b].0 by {
            assert(s0[a].0 != s0[b].0);
        }
        lemma_buffer_at(s1, i);
        assert forall|u: usize| u != t implies #[trigger] buffer_of(s1, u) == buffer_of(s0, u) by {
            if exists|j: int| 0 <= j < s1.len() && (#[trigger] s1[j]).0 == u {
                let j = choose|j: int| 0 <= j < s1.len() && (#[trigger] s1[j]).0 == u;
                lemma_buffer_at(s1, j);
                assert(s0[j] == s1[j]);
                lemma_buffer_at(s0, j);
            }
            if exists|j: int| 0 <= j < s0.len() && (#[trigger] s0[j]).0 == u {
                let j = choose|j: int| 0 <= j < s0.len() && (#[trigger] s0[j]).0 == u;
                lemma_buffer_at(s0, j);
                assert(s0[j] == s1[j]);
                lemma_buffer_at(s1, j);
            }
        }
    }

    /// Appends bytes read on `t` to its buffer.
    pub fn append(&mut self, t: usize, data: &[u8])
        requires
            old(self).wf(),
        ensures
            final(self).wf(),
            final(self).buffer(t) == old(self).buffer(t) + data@,
            forall|u: usize| u != t ==> #[trigger] final(self).buffer(u) == old(self).buffer(u),
    {
        let ghost s0 = self.contents();
        match self.find(t) {
            Some(i) => {
                let (k, mut b) = self.bufs.remove(i);
                b.extend_from_slice(data);
                self.bufs.insert(i, (k, b));
                proof {
                    let s1 = self.contents();
                    assert(s1.len() == s0.len());
                    assert forall|j: int| 0 <= j < s0.len() && j != i implies s0[j] == s1[j] by {}
                    Self::lemma_others(s0, s1, i as int, t);
                }
            },
            None => {
                let mut b: Vec<u8> = Vec::new();
                b.extend_from_slice(data);
                assert(b@ =~= data@);
                self.bufs.push((t, b));
                proof {
                    let s1 = self.contents();
                    let last = s0.len() as int;
                    assert(s1 =~= s0.push((t, data@)));
                    assert forall|a: int, c: int| 0 <= a < c < s1.len() implies s1[a].0 != s1[c].0 by {
                        if c == last {
                            assert(s1[a] == s0[a]);
                        }
                    }
                    lemma_buffer_at(s1, last);
                    assert(data@ =~= Seq::<u8>::empty() + data@);
                    assert forall|u: usize| u != t implies #[trigger] buffer_of(s1, u) == buffer_of(s0, u) by {
                        if exists|j: int| 0 <= j < s1.len() && (#[trigger] s1[j]).0 == u {
                            let j = choose|j: int| 0 <= j < s1.len() && (#[trigger] s1[j]).0 == u;
                            lemma_buffer_at(s1, j);
                            assert(j != last);
                            assert(s0[j] == s1[j]);
                            lemma_buffer_at(s0, j);
                        }
                        if exists|j: int| 0 <= j < s0.len() && (#[trigger] s0[j]).0 == u {
                            let j = choose|j: int| 0 <= j < s0.len() && (#[trigger] s0[j]).0 == u;
                            lemma_buffer_at(s0, j);
                            assert(s0[j] == s1[j]);
                            lemma_buffer_at(s1, j);
                        }
                    }
                }
            },
        }
    }

    /// The whole packet frame at the front of the buffer of `t`, if there
    /// is one: its body and the number of bytes it takes (which stay in the
    /// buffer until [`RecvBuffers::consume`]).
    pub fn peek_frame(&self, t: usize) -> (r: Option<(Vec<u8>, usize)>)
        requires
            self.wf(),
        ensures
            match front_frame(self.buffer(t)) {
                Some((body, n)) => r matches Some((b, m)) && b@ == body && m == n,
                None => r is None,
            },
    {
        match self.find(t) {
            Some(i) => crate::frame::decode_packet_frame(self.bufs[i].1.as_slice()),
            None => None,
        }
    }

    /// Drops the first `n` bytes of the buffer of `t`.
    pub fn consume(&mut self, t: usize, n: usize)
        requires
            old(self).wf(),
            n <= old(self).buffer(t).len(),
        ensures
            final(self).wf(),
            final(self).buffer(t) == old(self).buffer(t).skip(n as int),
            forall|u: usize| u != t ==> #[trigger] final(self).buffer(u) == old(self).buffer(u),
    {
        let ghost s0 = self.contents();
        match self.find(t) {
            Some(i) => {
                let (k, b) = self.bufs.remove(i);
                let rest = crate::frame::copy_range(b.as_slice(), n, b.len());
                self.bufs.insert(i, (k, rest));
                proof {
                    let s1 = self.contents();
                    assert(s1.len() == s0.len());
                    assert forall|j: int| 0 <= j < s0.len() && j != i implies s0[j] == s1[j] by {}
                    Self::lemma_others(s0, s1, i as int, t);
                    assert(s1[i as int].1 =~= s0[i as int].1.skip(n as int));
                }
            },
            None => {
                assert(old(self).buffer(t).skip(n as int) =~= Seq::<u8>::empty());
            },
        }
    }

    /// Forgets the buffer of a connection that ended.
    pub fn remove(&mut self, t: usize)
        requires
            old(self).wf(),
        ensures
            final(self).wf(),
            final(self).buffer(t) == Seq::<u8>::empty(),
            forall|u: usize| u != t ==> #[trigger] final(self).buffer(u) == old(self).buffer(u),
    {
        let ghost s0 = self.contents();
        match self.find(t) {
            Some(i) => {
                let _ = self.bufs.remove(i);
                proof {
                    let s1 = self.contents();
                    assert(s1 =~= s0.remove(i as int));
                    assert forall|a: int, c: int| 0 <= a < c < s1.len() implies s1[a].0 != s1[c].0 by {
                        let a0 = if a < i { a } else { a + 1 };
                        let c0 = if c < i { c } else { c + 1 };
                        assert(s1[a] == s0[a0] && s1[c] == s0[c0]);
                    }
                    if exists|j: int| 0 <= j < s1.len() && (#[trigger] s1[j]).0 == t {
                        let j = choose|j: int| 0 <= j < s1.len() && (#[trigger] s1[j]).0 == t;
                        let j0 = if j < i { j } else { j + 1 };
                        assert(s1[j] == s0[j0]);
                        assert(s0[j0].0 == s0[i as int].0);
                    }
                    assert forall|u: usize| u != t implies #[trigger] buffer_of(s1, u) == buffer_of(s0, u) by {
                        if exists|j: int| 0 <= j < s1.len() && (#[trigger] s1[j]).0 == u {
                            let j = choose|j: int| 0 <= j < s1.len() && (#[trigger] s1[j]).0 == u;
                            lemma_buffer_at(s1, j);
                            let j0 = if j < i { j } else { j + 1 };
                            assert(s0[j0] == s1[j]);
                            lemma_buffer_at(s0, j0);
                        }
                        if exists|j: int| 0 <= j < s0.len() && (#[trigger] s0[j]).0 == u {
                            let j = choose|j: int| 0 <= j < s0.len() && (#[trigger] s0[j]).0 == u;
                            lemma_buffer_at(s0, j);
                            assert(j != i);
                            let j1 = if j < i { j } else { j - 1 };
                            assert(s0[j] == s1[j1]);
                            lemma_buffer_at(s1, j1);
                        }
                    }
                }
            },
            None => {},
        }
    }
}

} // verus!
