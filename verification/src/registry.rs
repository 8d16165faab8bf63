//! Peer registry: the nodes this node has connected to, kept across
//! sessions, keyed by node id.

use vstd::prelude::*;
use crate::order::{text_lt, str_lt, lemma_text_lt_irreflexive, lemma_text_lt_total, lemma_text_lt_transitive};
use crate::text::str_is;

verus! {

/// Default listening ports, tried in order at startup. A peer listening on
/// one of them is recorded by IP only, and found again by probing them.
pub const DEFAULT_PORTS: [u16; 5] = [9000, 9001, 9002, 9003, 9004];

/// `p` is one of [`DEFAULT_PORTS`].
pub open spec fn is_default_port(p: u16) -> bool {
    9000 <= p <= 9004
}

/// Whether `p` is one of [`DEFAULT_PORTS`].
pub fn default_port(p: u16) -> (r: bool)
    ensures
        r == is_default_port(p),
{
    let mut i: usize = 0;
    while i < 5
        invariant
            i <= 5,
            forall|j: int| 0 <= j < i ==> DEFAULT_PORTS@[j] != p,
            DEFAULT_PORTS@ == seq![9000u16, 9001, 9002, 9003, 9004],
        decreases 5 - i,
    {
        if DEFAULT_PORTS[i] == p {
            return true;
        }
        i = i + 1;
    }
    false
}

/// The ports to try, in order, for listening: the requested one, or, where
/// none was requested (`0`), each of [`DEFAULT_PORTS`].
pub fn candidate_ports(requested: u16) -> (r: Vec<u16>)
    ensures
        requested != 0 ==> r@ == seq![requested],
        requested == 0 ==> r@ == DEFAULT_PORTS@,
{
    if requested != 0 {
        vec![requested]
    } else {
        let mut r: Vec<u16> = Vec::new();
        let mut i: usize = 0;
        while i < 5
            invariant
                i <= 5,
                r@ == DEFAULT_PORTS@.take(i as int),
            decreases 5 - i,
        {
            r.push(DEFAULT_PORTS[i]);
            assert(r@ =~= DEFAULT_PORTS@.take(i + 1));
            i = i + 1;
        }
        assert(DEFAULT_PORTS@.take(5) =~= DEFAULT_PORTS@);
        r
    }
}

/// A text that parsed as a socket address: the address's own text, the
/// text of its IP, and its port.
#[derive(Debug, Clone)]
pub struct SocketParts {
    pub text: String,
    pub ip: String,
    pub port: u16,
}

/// The address under which a peer's self-reported listening address is
/// recorded: the bare IP when its port is a default port, otherwise the
/// text as given.
pub open spec fn normalized_addr(addr: Seq<char>, parsed: Option<SocketParts>) -> Seq<char> {
    match parsed {
        Some(p) => if is_default_port(p.port) {
            p.ip@
        } else {
            addr
        },
        None => addr,
    }
}

/// Normalises a peer's `listen_addr` for the registry; `parsed` is what
/// parsing `addr_str` as a socket address gave.
pub fn normalize_peer_addr(addr_str: &str, parsed: Option<SocketParts>) -> (r: String)
    ensures
        r@ == normalized_addr(addr_str@, parsed),
{
    match parsed {
        Some(p) => {
            if default_port(p.port) {
                p.ip
            } else {
                String::from_str(addr_str)
            }
        },
        None => String::from_str(addr_str),
    }
}

/// A node this node has connected to at least once.
#[derive(Debug)]
pub struct KnownPeer {
    pub node_id: String,
    pub username: String,
    /// `"ip:port"`, or just `"ip"` for a peer on a default port.
    pub address: String,
}

impl Clone for KnownPeer {
    fn clone(&self) -> (r: Self)
        ensures
            r == *self,
    {
        KnownPeer {
            node_id: self.node_id.clone(),
            username: self.username.clone(),
            address: self.address.clone(),
        }
    }
}

/// The peers are in strictly increasing order of node id.
pub open spec fn sorted_ids(s: Seq<KnownPeer>) -> bool {
    forall|i: int, j: int| 0 <= i < j < s.len() ==> text_lt(#[trigger] s[i].node_id@, #[trigger] s[j].node_id@)
}

/// Some peer of `s` has node id `k`.
pub open spec fn has_id(s: Seq<KnownPeer>, k: Seq<char>) -> bool {
    exists|i: int| 0 <= i < s.len() && (#[trigger] s[i]).node_id@ == k
}

/// An index of `s` holding a peer with node id `k` (when there is one).
pub open spec fn index_of(s: Seq<KnownPeer>, k: Seq<char>) -> int {
    choose|i: int| 0 <= i < s.len() && (#[trigger] s[i]).node_id@ == k
}

/// The peer of `s` with node id `k`, if any.
pub open spec fn lookup(s: Seq<KnownPeer>, k: Seq<char>) -> Option<KnownPeer> {
    if has_id(s, k) {
        Some(s[index_of(s, k)])
    } else {
        None
    }
}

/// The last peer of `list` with node id `k`, if any.
pub open spec fn last_with(list: Seq<KnownPeer>, k: Seq<char>) -> Option<KnownPeer>
    decreases list.len(),
{
    if list.len() == 0 {
        None
    } else if list.last().node_id@ == k {
        Some(list.last())
    } else {
        last_with(list.drop_last(), k)
    }
}

/// In a sorted list, the peer found under an id is the one at its index.
proof fn lemma_lookup_at(s: Seq<KnownPeer>, i: int)
    requires
        sorted_ids(s),
        0 <= i < s.len(),
    ensures
        lookup(s, s[i].node_id@) == Some(s[i]),
{
    let k = s[i].node_id@;
    assert(has_id(s, k));
    let j = index_of(s, k);
    assert(0 <= j < s.len() && s[j].node_id@ == k);
    if j < i {
        assert(text_lt(s[j].node_id@, s[i].node_id@));
        lemma_text_lt_irreflexive(k);
        assert(false);
    } else if j > i {
        assert(text_lt(s[i].node_id@, s[j].node_id@));
        lemma_text_lt_irreflexive(k);
        assert(false);
    }
}

/// In a sorted list, the peers other than the last are found as in the
/// whole list, and the last one's id is not found among them.
proof fn lemma_lookup_drop_last(s: Seq<KnownPeer>, k: Seq<char>)
    requires
        sorted_ids(s),
        s.len() > 0,
    ensures
        sorted_ids(s.drop_last()),
        k == s.last().node_id@ ==> lookup(s.drop_last(), k) is None,
        k != s.last().node_id@ ==> lookup(s.drop_last(), k) == lookup(s, k),
{
    let d = s.drop_last();
    let n = s.len() - 1;
    assert forall|i: int, j: int| 0 <= i < j < d.len() implies text_lt(#[trigger] d[i].node_id@, #[trigger] d[j].node_id@) by {
        assert(d[i] == s[i] && d[j] == s[j]);
    }
    if has_id(d, k) {
        let j = choose|j: int| 0 <= j < d.len() && (#[trigger] d[j]).node_id@ == k;
        assert(s[j] == d[j]);
        lemma_lookup_at(d, j);
        lemma_lookup_at(s, j);
        if k == s.last().node_id@ {
            assert(text_lt(s[j].node_id@, s[n].node_id@));
            lemma_text_lt_irreflexive(k);
        }
    } else if k != s.last().node_id@ && has_id(s, k) {
        let j = choose|j: int| 0 <= j < s.len() && (#[trigger] s[j]).node_id@ == k;
        assert(j != n);
        assert(d[j] == s[j]);
    }
}

/// The last peer found under each id of a sorted list is the one found.
proof fn lemma_last_with_sorted(s: Seq<KnownPeer>, k: Seq<char>)
    requires
        sorted_ids(s),
    ensures
        last_with(s, k) == lookup(s, k),
    decreases s.len(),
{
    if s.len() > 0 {
        lemma_lookup_drop_last(s, k);
        if s.last().node_id@ == k {
            lemma_lookup_at(s, s.len() - 1);
        } else {
            lemma_last_with_sorted(s.drop_last(), k);
        }
    }
}

/// Two sorted lists in which every id finds the same peer are the same.
proof fn lemma_sorted_lookup_unique(s: Seq<KnownPeer>, t: Seq<KnownPeer>)
    requires
        sorted_ids(s),
        sorted_ids(t),
        forall|k: Seq<char>| lookup(s, k) == lookup(t, k),
    ensures
        s == t,
    decreases s.len() + t.len(),
{
    if s.len() == 0 {
        if t.len() > 0 {
            lemma_lookup_at(t, 0);
            assert(lookup(s, t[0].node_id@) is None);
        }
        assert(s =~= t);
    } else if t.len() == 0 {
        lemma_lookup_at(s, 0);
        assert(lookup(t, s[0].node_id@) is None);
    } else {
        let a = s.last();
        let b = t.last();
        lemma_lookup_at(s, s.len() - 1);
        lemma_lookup_at(t, t.len() - 1);
        assert(has_id(t, a.node_id@));
        let j = index_of(t, a.node_id@);
        lemma_lookup_at(t, j);
        assert(has_id(s, b.node_id@));
        let i = index_of(s, b.node_id@);
        lemma_lookup_at(s, i);
        lemma_text_lt_irreflexive(a.node_id@);
        lemma_text_lt_irreflexive(b.node_id@);
        if j < t.len() - 1 {
            assert(text_lt(a.node_id@, b.node_id@));
            if i < s.len() - 1 {
                assert(text_lt(b.node_id@, a.node_id@));
                lemma_text_lt_transitive(a.node_id@, b.node_id@, a.node_id@);
            }
        }
        assert(a == b);
        assert forall|k: Seq<char>| lookup(s.drop_last(), k) == lookup(t.drop_last(), k) by {
            lemma_lookup_drop_last(s, k);
            lemma_lookup_drop_last(t, k);
        }
        lemma_lookup_drop_last(s, a.node_id@);
        lemma_lookup_drop_last(t, a.node_id@);
        lemma_sorted_lookup_unique(s.drop_last(), t.drop_last());
        assert(s =~= s.drop_last().push(a));
        assert(t =~= t.drop_last().push(b));
    }
}

/// The registry: known peers, at most one per node id, and the file that
/// keeps them.
pub struct PeerRegistry {
    path: String,
    peers: Vec<KnownPeer>,
}

impl PeerRegistry {
    /// The recorded peers, in increasing order of node id.
    pub closed spec fn entries(&self) -> Seq<KnownPeer> {
        self.peers@
    }

    /// The file the registry is kept in.
    pub closed spec fn spec_path(&self) -> Seq<char> {
        self.path@
    }

    /// Well-formedness: at most one peer per node id, in increasing order.
    pub closed spec fn wf(&self) -> bool {
        sorted_ids(self.peers@)
    }

    /// The peer recorded under `id`, if any.
    pub open spec fn known(&self, id: Seq<char>) -> Option<KnownPeer> {
        lookup(self.entries(), id)
    }

    /// An empty registry kept in `path`.
    pub fn new(path: String) -> (r: Self)
        ensures
            r.wf(),
            r.spec_path() == path@,
            r.entries().len() == 0,
            forall|k: Seq<char>| r.known(k) is None,
    {
        PeerRegistry { path, peers: Vec::new() }
    }

    /// A registry kept in `path`, filled from the list read from that file
    /// (`None` when the file is absent or unreadable): when several entries
    /// share a node id the last one is kept.
    pub fn load(path: String, saved: Option<Vec<KnownPeer>>) -> (r: Self)
        ensures
            r.wf(),
            r.spec_path() == path@,
            forall|k: Seq<char>|
                r.known(k) == match saved {
                    Some(list) => last_with(list@, k),
                    None => None,
                },
    {
        let mut reg = PeerRegistry::new(path);
        match saved {
            None => reg,
            Some(list) => {
                let mut i: usize = 0;
                while i < list.len()
                    invariant
                        reg.wf(),
                        reg.spec_path() == path@,
                        i <= list@.len(),
                        forall|k: Seq<char>| reg.known(k) == last_with(list@.take(i as int), k),
                    decreases list@.len() - i,
                {
                    let p = list[i].clone();
                    reg.upsert(p);
                    assert(list@.take(i + 1).drop_last() =~= list@.take(i as int));
                    i = i + 1;
                }
                assert(list@.take(list@.len() as int) =~= list@);
                reg
            },
        }
    }

    /// The path of the registry file.
    pub fn path(&self) -> (r: &String)
        ensures
            r@ == self.spec_path(),
    {
        &self.path
    }

    /// Number of recorded peers.
    pub fn len(&self) -> (r: usize)
        ensures
            r == self.entries().len(),
    {
        self.peers.len()
    }

    /// Inserts `peer`, or replaces the peer recorded under its node id.
    pub fn upsert(&mut self, peer: KnownPeer)
        requires
            old(self).wf(),
        ensures
            final(self).wf(),
            final(self).spec_path() == old(self).spec_path(),
            forall|k: Seq<char>|
                #[trigger] final(self).known(k) == if k == peer.node_id@ {
                    Some(peer)
                } else {
                    old(self).known(k)
                },
            final(self).entries().len() == old(self).entries().len() + if old(self).known(
                peer.node_id@,
            ) is None {
                1int
            } else {
                0int
            },
    {
        let ghost old_s = self.peers@;
        let ghost id = peer.node_id@;
        let n = self.peers.len();
        let mut i: usize = 0;
        while i < n && str_lt(self.peers[i].node_id.as_str(), peer.node_id.as_str())
            invariant
                n == self.peers@.len(),
                self.peers@ == old_s,
                sorted_ids(old_s),
                id == peer.node_id@,
                i <= n,
                forall|x: int| 0 <= x < i ==> text_lt(#[trigger] old_s[x].node_id@, id),
            decreases n - i,
        {
            i = i + 1;
        }
        if i < n && str_is(self.peers[i].node_id.as_str(), peer.node_id.as_str()) {
            proof {
                lemma_lookup_at(old_s, i as int);
            }
            self.peers.set(i, peer);
            let ghost s = self.peers@;
            assert(s == old_s.update(i as int, peer));
            assert(sorted_ids(s)) by {
                assert forall|a: int, b: int| 0 <= a < b < s.len() implies text_lt(
                    #[trigger] s[a].node_id@,
                    #[trigger] s[b].node_id@,
                ) by {
                    assert(old_s[a].node_id@ == s[a].node_id@);
                    assert(old_s[b].node_id@ == s[b].node_id@);
                }
            }
            assert forall|k: Seq<char>| #[trigger] lookup(s, k) == if k == id {
                Some(peer)
            } else {
                lookup(old_s, k)
            } by {
                assert(s[i as int].node_id@ == id);
                lemma_lookup_at(s, i as int);
                if has_id(s, k) {
                    let j = choose|j: int| 0 <= j < s.len() && (#[trigger] s[j]).node_id@ == k;
                    lemma_lookup_at(s, j);
                    if j != i {
                        lemma_lookup_at(old_s, j);
                    }
                } else {
                    assert(s[i as int].node_id@ == id);
                    if has_id(old_s, k) {
                        let j = choose|j: int|
                            0 <= j < old_s.len() && (#[trigger] old_s[j]).node_id@ == k;
                        assert(s[j] == old_s[j]);
                    }
                }
            }
        } else {
            proof {
                if i < n {
                    lemma_text_lt_total(old_s[i as int].node_id@, id);
                    assert(text_lt(id, old_s[i as int].node_id@));
                    assert forall|x: int| i <= x < n implies text_lt(id, #[trigger] old_s[x].node_id@) by {
                        if x > i {
                            lemma_text_lt_transitive(id, old_s[i as int].node_id@, old_s[x].node_id@);
                        }
                    }
                }
                lemma_text_lt_irreflexive(id);
                assert(!has_id(old_s, id)) by {
                    if has_id(old_s, id) {
                        let j = choose|j: int| 0 <= j < old_s.len() && (#[trigger] old_s[j]).node_id@ == id;
                        if j < i {
                            assert(text_lt(old_s[j].node_id@, id));
                        } else {
                            assert(text_lt(id, old_s[j].node_id@));
                        }
                    }
                }
            }
            self.peers.insert(i, peer);
            let ghost s = self.peers@;
            assert(s == old_s.insert(i as int, peer));
            assert(sorted_ids(s)) by {
                assert forall|a: int, b: int| 0 <= a < b < s.len() implies text_lt(
                    #[trigger] s[a].node_id@,
                    #[trigger] s[b].node_id@,
                ) by {
                    if a < i && b > i {
                        assert(s[b] == old_s[b - 1]);
                        lemma_text_lt_transitive(s[a].node_id@, id, s[b].node_id@);
                    } else if b > i {
                        assert(s[b] == old_s[b - 1]);
                        if a > i {
                            assert(s[a] == old_s[a - 1]);
                        }
                    }
                }
            }
            assert forall|k: Seq<char>| #[trigger] lookup(s, k) == if k == id {
                Some(peer)
            } else {
                lookup(old_s, k)
            } by {
                assert(s[i as int].node_id@ == id);
                lemma_lookup_at(s, i as int);
                if has_id(s, k) {
                    let j = choose|j: int| 0 <= j < s.len() && (#[trigger] s[j]).node_id@ == k;
                    lemma_lookup_at(s, j);
                    if j < i {
                        lemma_lookup_at(old_s, j);
                    } else if j > i {
                        assert(s[j] == old_s[j - 1]);
                        lemma_lookup_at(old_s, j - 1);
                    }
                } else {
                    assert(s[i as int].node_id@ == id);
                    if has_id(old_s, k) {
                        let j = choose|j: int|
                            0 <= j < old_s.len() && (#[trigger] old_s[j]).node_id@ == k;
                        if j < i {
                            assert(s[j] == old_s[j]);
                        } else {
                            assert(s[j + 1] == old_s[j]);
                        }
                    }
                }
            }
        }
    }

    /// The peer recorded under `node_id`, if any.
    pub fn get(&self, node_id: &str) -> (r: Option<&KnownPeer>)
        requires
            self.wf(),
        ensures
            r is Some == self.known(node_id@) is Some,
            r is Some ==> *r->0 == self.known(node_id@)->0,
    {
        let n = self.peers.len();
        let mut i: usize = 0;
        while i < n
            invariant
                self.wf(),
                n == self.peers@.len(),
                i <= n,
                forall|x: int| 0 <= x < i ==> (#[trigger] self.peers@[x]).node_id@ != node_id@,
            decreases n - i,
        {
            if str_is(self.peers[i].node_id.as_str(), node_id) {
                proof {
                    lemma_lookup_at(self.peers@, i as int);
                }
                return Some(&self.peers[i]);
            }
            i = i + 1;
        }
        None
    }

    /// All recorded peers, in increasing order of node id.
    pub fn all(&self) -> (r: Vec<&KnownPeer>)
        requires
            self.wf(),
        ensures
            r@.len() == self.entries().len(),
            forall|i: int| 0 <= i < r@.len() ==> *#[trigger] r@[i] == self.entries()[i],
            sorted_ids(self.entries()),
            forall|i: int|
                0 <= i < r@.len() ==> self.known((#[trigger] r@[i]).node_id@) == Some(*r@[i]),
            forall|k: Seq<char>|
                #[trigger] self.known(k) is Some ==> exists|i: int|
                    0 <= i < r@.len() && (*r@[i]).node_id@ == k,
    {
        let mut r: Vec<&KnownPeer> = Vec::new();
        let n = self.peers.len();
        let mut i: usize = 0;
        while i < n
            invariant
                n == self.peers@.len(),
                i <= n,
                r@.len() == i,
                forall|x: int| 0 <= x < i ==> *#[trigger] r@[x] == self.peers@[x],
            decreases n - i,
        {
            r.push(&self.peers[i]);
            i = i + 1;
        }
        assert forall|x: int| 0 <= x < r@.len() implies self.known(
            (#[trigger] r@[x]).node_id@,
        ) == Some(*r@[x]) by {
            lemma_lookup_at(self.peers@, x);
        }
        assert forall|k: Seq<char>| #[trigger] self.known(k) is Some implies exists|x: int|
            0 <= x < r@.len() && (*r@[x]).node_id@ == k by {
            let x = choose|x: int| 0 <= x < self.peers@.len() && (#[trigger] self.peers@[x]).node_id@ == k;
            assert(*r@[x] == self.peers@[x]);
        }
        r
    }
}

/// Loading what was saved gives the registry back: a well-formed registry
/// whose every id finds what [`PeerRegistry::load`] makes of the list of
/// `r`'s entries (the list that [`PeerRegistry::all`] hands out for saving)
/// has the same entries as `r`, in the same order.
pub proof fn lemma_registry_reload(r: PeerRegistry, loaded: PeerRegistry)
    requires
        r.wf(),
        loaded.wf(),
        forall|k: Seq<char>| loaded.known(k) == last_with(r.entries(), k),
    ensures
        loaded.entries() == r.entries(),
        forall|k: Seq<char>| loaded.known(k) == r.known(k),
{
    assert forall|k: Seq<char>| lookup(loaded.entries(), k) == lookup(r.entries(), k) by {
        assert(loaded.known(k) == last_with(r.entries(), k));
        lemma_last_with_sorted(r.entries(), k);
    }
    lemma_sorted_lookup_unique(loaded.entries(), r.entries());
}

/// Index of the last `c` in `s`, if any.
pub open spec fn last_index_of(s: Seq<char>, c: char) -> Option<int>
    decreases s.len(),
{
    if s.len() == 0 {
        None
    } else if s.last() == c {
        Some(s.len() - 1)
    } else {
        last_index_of(s.drop_last(), c)
    }
}

/// Why a start-up peer argument was refused.
#[derive(Debug, Clone, Copy, PartialEq, Eq)]
pub enum PeerArgError {
    /// There is no `:` in the argument.
    MissingColon,
    /// Nothing follows the last `:`.
    EmptyNodeId,
}

/// Splits a start-up peer argument `ip:port:node_id` (or
/// `[ipv6]:port:node_id`) at its last `:` into the address text, still to
/// be parsed as a socket address, and the node id.
pub fn parse_peer_arg(arg: &str) -> (r: Result<(String, String), PeerArgError>)
    ensures
        match last_index_of(arg@, ':') {
            None => r == Err::<(String, String), PeerArgError>(PeerArgError::MissingColon),
            Some(i) => if i + 1 == arg@.len() {
                r == Err::<(String, String), PeerArgError>(PeerArgError::EmptyNodeId)
            } else {
                r matches Ok((addr, id)) && addr@ == arg@.subrange(0, i) && id@ == arg@.subrange(
                    i + 1,
                    arg@.len() as int,
                )
            },
        },
{
    let cs = crate::text::chars_of(arg);
    let n = cs.len();
    let mut j: usize = n;
    assert(arg@.subrange(0, n as int) =~= arg@);
    while j > 0 && cs[j - 1] != ':'
        invariant
            cs@ == arg@,
            n == cs@.len(),
            j <= n,
            last_index_of(arg@, ':') == last_index_of(arg@.subrange(0, j as int), ':'),
        decreases j,
    {
        assert(arg@.subrange(0, j as int).drop_last() =~= arg@.subrange(0, j - 1));
        j = j - 1;
    }
    if j == 0 {
        assert(arg@.subrange(0, 0) =~= Seq::<char>::empty());
        return Err(PeerArgError::MissingColon);
    }
    let i = j - 1;
    assert(last_index_of(arg@.subrange(0, j as int), ':') == Some(i as int));
    if j == n {
        return Err(PeerArgError::EmptyNodeId);
    }
    let addr = crate::text::string_from_chars(cs.as_slice(), 0, i);
    let id = crate::text::string_from_chars(cs.as_slice(), j, n);
    Ok((addr, id))
}

/// The second step for a start-up peer argument: its address text
/// `addr_text`, where parsing it as a socket address gave `parsed` (or
/// failed with the message `parse_error`), is taken as the address's own
/// text, or refused with `Invalid address '<addr_text>': <parse_error>`.
pub fn accept_peer_addr(addr_text: &str, parsed: Option<SocketParts>, parse_error: &str) -> (r: Result<
    String,
    String,
>)
    ensures
        match parsed {
            Some(p) => r matches Ok(a) && a@ == p.text@,
            None => r matches Err(e) && e@ == "Invalid address '"@ + addr_text@ + "': "@ + parse_error@,
        },
{
    match parsed {
        Some(p) => Ok(p.text),
        None => {
            let s = crate::text::cat(String::from_str("Invalid address '"), addr_text);
            let s = crate::text::cat(s, "': ");
            Err(crate::text::cat(s, parse_error))
        },
    }
}

/// The message for a refused start-up peer argument.
pub fn peer_arg_error_text(e: PeerArgError, arg: &str) -> (r: String)
    ensures
        e == PeerArgError::MissingColon ==> r@ == "Invalid format. Expected: ip:port:node_id or [ipv6]:port:node_id"@,
        e == PeerArgError::EmptyNodeId ==> r@ == "node_id cannot be empty in '"@ + arg@ + "'"@,
{
    match e {
        PeerArgError::MissingColon => String::from_str("Invalid format. Expected: ip:port:node_id or [ipv6]:port:node_id"),
        PeerArgError::EmptyNodeId => crate::text::cat(crate::text::cat(String::from_str("node_id cannot be empty in '"), arg), "'"),
    }
}

} // verus!
