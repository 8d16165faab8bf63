//! Chat history: for each peer, the latest messages exchanged with it.

use vstd::prelude::*;
use std::collections::VecDeque;
use crate::api::MessageInfo;
use crate::text::str_is;

verus! {

/// Most messages kept per peer; the oldest is dropped first.
pub const HISTORY_LIMIT: usize = 128;

/// The last `n` elements of `s` (all of them when it has fewer).
pub open spec fn last_n<T>(s: Seq<T>, n: int) -> Seq<T> {
    if s.len() > n {
        s.subrange(s.len() - n, s.len() as int)
    } else {
        s
    }
}

/// The messages of `s` older than `ts`.
pub open spec fn older_than(s: Seq<MessageInfo>, ts: u64) -> Seq<MessageInfo> {
    s.filter(|m: MessageInfo| m.timestamp < ts)
}

/// The answer to a history query on the messages `s`: the latest `limit`
/// of them, among those older than `before` when it is given, oldest first.
pub open spec fn page(s: Seq<MessageInfo>, before: Option<u64>, limit: u32) -> Seq<MessageInfo> {
    let candidates = match before {
        Some(ts) => older_than(s, ts),
        None => s,
    };
    last_n(candidates, limit as int)
}

/// A conversation: the peer's id and its messages, oldest first.
pub type Conversation = (String, VecDeque<MessageInfo>);

/// Index in `s` of the conversation with peer `k`.
pub open spec fn conv_index(s: Seq<Conversation>, k: Seq<char>) -> int {
    choose|i: int| 0 <= i < s.len() && (#[trigger] s[i]).0@ == k
}

/// `s` has a conversation with peer `k`.
pub open spec fn has_conv(s: Seq<Conversation>, k: Seq<char>) -> bool {
    exists|i: int| 0 <= i < s.len() && (#[trigger] s[i]).0@ == k
}

/// The messages of `s` with peer `k` (none when there is no conversation).
pub open spec fn conv_msgs(s: Seq<Conversation>, k: Seq<char>) -> Seq<MessageInfo> {
    if has_conv(s, k) {
        s[conv_index(s, k)].1@
    } else {
        seq![]
    }
}

/// At most one conversation per peer, each within the limit.
pub open spec fn convs_wf(s: Seq<Conversation>) -> bool {
    &&& forall|i: int, j: int| 0 <= i < j < s.len() ==> (#[trigger] s[i]).0@ != (#[trigger] s[j]).0@
    &&& forall|i: int| 0 <= i < s.len() ==> (#[trigger] s[i]).1@.len() <= HISTORY_LIMIT
}

proof fn lemma_conv_at(s: Seq<Conversation>, i: int)
    requires
        convs_wf(s),
        0 <= i < s.len(),
    ensures
        has_conv(s, s[i].0@),
        conv_index(s, s[i].0@) == i,
        conv_msgs(s, s[i].0@) == s[i].1@,
{
    let k = s[i].0@;
    assert(has_conv(s, k));
    let j = conv_index(s, k);
    assert(0 <= j < s.len() && s[j].0@ == k);
    if j < i {
        assert(s[j].0@ != s[i].0@);
    } else if j > i {
        assert(s[i].0@ != s[j].0@);
    }
}

/// In-memory chat history, per peer.
pub struct HistoryManager {
    chats: Vec<Conversation>,
}

impl HistoryManager {
    /// The conversations.
    pub closed spec fn convs(&self) -> Seq<Conversation> {
        self.chats@
    }

    /// Well-formedness: one conversation per peer, each within the limit.
    pub closed spec fn wf(&self) -> bool {
        convs_wf(self.chats@)
    }

    /// The kept messages with peer `k`, oldest first.
    pub open spec fn messages(&self, k: Seq<char>) -> Seq<MessageInfo> {
        conv_msgs(self.convs(), k)
    }

    /// There is a conversation with peer `k`.
    pub open spec fn has(&self, k: Seq<char>) -> bool {
        has_conv(self.convs(), k)
    }

    /// Builds the history from what was saved: for each peer, its latest
    /// [`HISTORY_LIMIT`] messages. The saved list holds one entry per peer.
    pub fn new(saved: Vec<(String, Vec<MessageInfo>)>) -> (r: Self)
        requires
            forall|i: int, j: int|
                0 <= i < j < saved@.len() ==> (#[trigger] saved@[i]).0@ != (#[trigger] saved@[j]).0@,
        ensures
            r.wf(),
            forall|k: Seq<char>|
                #[trigger] r.has(k) == exists|i: int| 0 <= i < saved@.len() && (#[trigger] saved@[i]).0@ == k,
            forall|i: int|
                0 <= i < saved@.len() ==> #[trigger] r.messages(saved@[i].0@) == last_n(
                    saved@[i].1@,
                    HISTORY_LIMIT as int,
                ),
    {
        let mut chats: Vec<Conversation> = Vec::new();
        let n = saved.len();
        let mut i: usize = 0;
        while i < n
            invariant
                n == saved@.len(),
                i <= n,
                chats@.len() == i,
                forall|a: int, b: int|
                    0 <= a < b < saved@.len() ==> (#[trigger] saved@[a]).0@ != (#[trigger] saved@[b]).0@,
                forall|t: int|
                    0 <= t < i ==> (#[trigger] chats@[t]).0@ == saved@[t].0@ && chats@[t].1@
                        == last_n(saved@[t].1@, HISTORY_LIMIT as int),
            decreases n - i,
        {
            let msgs = &saved[i].1;
            let m = msgs.len();
            let start = if m > HISTORY_LIMIT {
                m - HISTORY_LIMIT
            } else {
                0
            };
            let mut buf: VecDeque<MessageInfo> = VecDeque::new();
            let mut j = start;
            while j < m
                invariant
                    m == msgs@.len(),
                    start <= j <= m,
                    buf@ == msgs@.subrange(start as int, j as int),
                decreases m - j,
            {
                buf.push_back(msgs[j].clone());
                j = j + 1;
            }
            assert(buf@ =~= last_n(msgs@, HISTORY_LIMIT as int));
            chats.push((saved[i].0.clone(), buf));
            i = i + 1;
        }
        let r = HistoryManager { chats };
        assert(convs_wf(r.chats@)) by {
            assert forall|a: int, b: int| 0 <= a < b < r.chats@.len() implies (#[trigger] r.chats@[a]).0@
                != (#[trigger] r.chats@[b]).0@ by {
                assert(saved@[a].0@ != saved@[b].0@);
            }
        }
        assert forall|k: Seq<char>| #[trigger] r.has(k) == exists|i: int|
            0 <= i < saved@.len() && (#[trigger] saved@[i]).0@ == k by {
            if r.has(k) {
                let t = conv_index(r.chats@, k);
                assert(saved@[t].0@ == k);
            }
            if exists|i: int| 0 <= i < saved@.len() && (#[trigger] saved@[i]).0@ == k {
                let t = choose|i: int| 0 <= i < saved@.len() && (#[trigger] saved@[i]).0@ == k;
                assert(r.chats@[t].0@ == k);
            }
        }
        assert forall|t: int| 0 <= t < saved@.len() implies #[trigger] r.messages(saved@[t].0@)
            == last_n(saved@[t].1@, HISTORY_LIMIT as int) by {
            lemma_conv_at(r.chats@, t);
        }
        r
    }
    fn find(&self, peer_id: &str) -> (r: Option<usize>)
        requires
            self.wf(),
        ensures
            r is None ==> !self.has(peer_id@),
            r matches Some(i) ==> i < self.chats@.len() && self.chats@[i as int].0@ == peer_id@,
    {
        let n = self.chats.len();
        let mut i: usize = 0;
        while i < n
            invariant
                n == self.chats@.len(),
                i <= n,
                forall|t: int| 0 <= t < i ==> (#[trigger] self.chats@[t]).0@ != peer_id@,
            decreases n - i,
        {
            if str_is(self.chats[i].0.as_str(), peer_id) {
                return Some(i);
            }
            i = i + 1;
        }
        None
    }

    /// Records a message exchanged with `peer_id`, dropping the oldest one
    /// of that conversation when it is full.
    pub fn add_message(&mut self, peer_id: &str, msg: MessageInfo)
        requires
            old(self).wf(),
        ensures
            final(self).wf(),
            final(self).has(peer_id@),
            final(self).messages(peer_id@) == {
                let b = old(self).messages(peer_id@);
                (if b.len() >= HISTORY_LIMIT {
                    b.drop_first()
                } else {
                    b
                }).push(msg)
            },
            forall|k: Seq<char>|
                k != peer_id@ ==> #[trigger] final(self).has(k) == old(self).has(k)
                    && final(self).messages(k) == old(self).messages(k),
    {
        let ghost old_s = self.chats@;
        match self.find(peer_id) {
            Some(i) => {
                proof {
                    lemma_conv_at(old_s, i as int);
                }
                let (k, mut buf) = self.chats.remove(i);
                if buf.len() >= HISTORY_LIMIT {
                    let _ = buf.pop_front();
                }
                buf.push_back(msg);
                self.chats.insert(i, (k, buf));
                let ghost s = self.chats@;
                assert(s == old_s.update(i as int, s[i as int]));
                assert(convs_wf(s)) by {
                    assert forall|a: int, b: int| 0 <= a < b < s.len() implies (#[trigger] s[a]).0@
                        != (#[trigger] s[b]).0@ by {
                        assert(old_s[a].0@ != old_s[b].0@);
                    }
                }
                proof {
                    lemma_conv_at(s, i as int);
                }
                assert forall|k: Seq<char>| k != peer_id@ implies #[trigger] has_conv(s, k)
                    == has_conv(old_s, k) && conv_msgs(s, k) == conv_msgs(old_s, k) by {
                    if has_conv(s, k) {
                        let j = conv_index(s, k);
                        lemma_conv_at(s, j);
                        lemma_conv_at(old_s, j);
                    }
                    if has_conv(old_s, k) {
                        let j = conv_index(old_s, k);
                        lemma_conv_at(old_s, j);
                        assert(s[j].0@ == k);
                    }
                }
            },
            None => {
                let mut buf: VecDeque<MessageInfo> = VecDeque::new();
                buf.push_back(msg);
                self.chats.push((String::from_str(peer_id), buf));
                let ghost s = self.chats@;
                let ghost last = (s.len() - 1) as int;
                assert(convs_wf(s)) by {
                    assert forall|a: int, b: int| 0 <= a < b < s.len() implies (#[trigger] s[a]).0@
                        != (#[trigger] s[b]).0@ by {
                        if b == last {
                            assert(s[a] == old_s[a]);
                        }
                    }
                }
                proof {
                    lemma_conv_at(s, last);
                }
                assert(old(self).messages(peer_id@) == Seq::<MessageInfo>::empty());
                assert(s[last].1@ =~= seq![msg]);
                assert forall|k: Seq<char>| k != peer_id@ implies #[trigger] has_conv(s, k)
                    == has_conv(old_s, k) && conv_msgs(s, k) == conv_msgs(old_s, k) by {
                    if has_conv(s, k) {
                        let j = conv_index(s, k);
                        lemma_conv_at(s, j);
                        lemma_conv_at(old_s, j);
                    }
                    if has_conv(old_s, k) {
                        let j = conv_index(old_s, k);
                        lemma_conv_at(old_s, j);
                        assert(s[j] == old_s[j]);
                    }
                }
            },
        }
    }

    /// A page of the history with `peer_id`: the latest `limit` messages,
    /// among those older than `before` when it is given, oldest first.
    pub fn get_history(&self, peer_id: &str, before: Option<u64>, limit: u32) -> (r: Vec<MessageInfo>)
        requires
            self.wf(),
        ensures
            r@ == page(self.messages(peer_id@), before, limit),
    {
        let i = match self.find(peer_id) {
            Some(i) => i,
            None => {
                return Vec::new();
            },
        };
        proof {
            lemma_conv_at(self.chats@, i as int);
        }
        let buf = &self.chats[i].1;
        let ghost s = buf@;
        let ghost cands = match before {
            Some(ts) => older_than(s, ts),
            None => s,
        };
        let mut picked: Vec<MessageInfo> = Vec::new();
        let n = buf.len();
        let mut j: usize = 0;
        while j < n
            invariant
                n == s.len(),
                s == buf@,
                j <= n,
                picked@ == match before {
                    Some(ts) => older_than(s.take(j as int), ts),
                    None => s.take(j as int),
                },
            decreases n - j,
        {
            reveal_with_fuel(Seq::<_>::filter, 1);
            assert(s.take(j + 1).drop_last() =~= s.take(j as int));
            let m = buf[j].clone();
            match before {
                Some(ts) => {
                    if m.timestamp < ts {
                        picked.push(m);
                    }
                },
                None => {
                    picked.push(m);
                },
            }
            assert(picked@ =~= match before {
                Some(ts) => older_than(s.take(j + 1), ts),
                None => s.take(j + 1),
            });
            j = j + 1;
        }
        assert(s.take(n as int) =~= s);
        let len = picked.len();
        let lim = limit as usize;
        let from = if len > lim {
            len - lim
        } else {
            0
        };
        let mut r: Vec<MessageInfo> = Vec::new();
        let mut k = from;
        while k < len
            invariant
                len == picked@.len(),
                from <= k <= len,
                r@ == picked@.subrange(from as int, k as int),
            decreases len - k,
        {
            r.push(picked[k].clone());
            k = k + 1;
        }
        assert(r@ =~= last_n(cands, limit as int));
        r
    }

    /// What is saved for `peer_id`: its kept messages, oldest first, when
    /// there is a conversation with it.
    pub fn persist(&self, peer_id: &str) -> (r: Option<Vec<MessageInfo>>)
        requires
            self.wf(),
        ensures
            r is Some <==> self.has(peer_id@),
            r matches Some(v) ==> v@ == self.messages(peer_id@),
    {
        match self.find(peer_id) {
            Some(_) => {
                let r = self.get_history(peer_id, None, u32::MAX);
                proof {
                    lemma_conv_at_any(self.chats@, peer_id@);
                }
                Some(r)
            },
            None => None,
        }
    }

    /// What is saved for every peer: each conversation's peer and its kept
    /// messages, oldest first, one entry per conversation.
    pub fn persist_all(&self) -> (r: Vec<(String, Vec<MessageInfo>)>)
        requires
            self.wf(),
        ensures
            forall|k: Seq<char>|
                #[trigger] self.has(k) == exists|i: int| 0 <= i < r@.len() && (#[trigger] r@[i]).0@ == k,
            forall|i: int| 0 <= i < r@.len() ==> (#[trigger] r@[i]).1@ == self.messages(r@[i].0@),
            forall|i: int, j: int| 0 <= i < j < r@.len() ==> (#[trigger] r@[i]).0@ != (#[trigger] r@[j]).0@,
    {
        let mut r: Vec<(String, Vec<MessageInfo>)> = Vec::new();
        let n = self.chats.len();
        let mut i: usize = 0;
        while i < n
            invariant
                self.wf(),
                n == self.chats@.len(),
                i <= n,
                r@.len() == i,
                forall|t: int| 0 <= t < i ==> (#[trigger] r@[t]).0@ == self.chats@[t].0@,
                forall|t: int| 0 <= t < i ==> (#[trigger] r@[t]).1@ == self.messages(self.chats@[t].0@),
            decreases n - i,
        {
            let k = self.chats[i].0.clone();
            let msgs = self.get_history(k.as_str(), None, u32::MAX);
            proof {
                lemma_conv_at(self.chats@, i as int);
            }
            r.push((k, msgs));
            i = i + 1;
        }
        assert forall|k: Seq<char>| #[trigger] self.has(k) == exists|i: int|
            0 <= i < r@.len() && (#[trigger] r@[i]).0@ == k by {
            if self.has(k) {
                let t = conv_index(self.chats@, k);
                assert(r@[t].0@ == k);
            }
            if exists|i: int| 0 <= i < r@.len() && (#[trigger] r@[i]).0@ == k {
                let t = choose|i: int| 0 <= i < r@.len() && (#[trigger] r@[i]).0@ == k;
                assert(self.chats@[t].0@ == k);
            }
        }
        r
    }
}

/// No conversation holds more than [`HISTORY_LIMIT`] messages.
pub proof fn lemma_history_bounded(h: HistoryManager, k: Seq<char>)
    requires
        h.wf(),
    ensures
        h.messages(k).len() <= HISTORY_LIMIT,
{
    lemma_conv_at_any(h.convs(), k);
}

/// A history query without a time bound, asking for at least one message,
/// ends with the latest message added: what [`HistoryManager::add_message`]
/// appends, [`HistoryManager::get_history`] gives back last, after the
/// `limit - 1` messages before it.
pub proof fn lemma_page_latest(s: Seq<MessageInfo>, m: MessageInfo, limit: u32)
    requires
        limit >= 1,
    ensures
        page(s.push(m), None, limit).len() == if s.len() + 1 > limit {
            limit as int
        } else {
            s.len() + 1 as int
        },
        page(s.push(m), None, limit).last() == m,
        page(s.push(m), None, limit).drop_last() == page(s, None, (limit - 1) as u32),
{
    let t = s.push(m);
    if t.len() > limit {
        assert(t.subrange(t.len() - limit, t.len() as int).drop_last() =~= last_n(s, limit - 1));
    } else {
        assert(t.drop_last() =~= s);
    }
}

proof fn lemma_conv_at_any(s: Seq<Conversation>, k: Seq<char>)
    requires
        convs_wf(s),
    ensures
        conv_msgs(s, k).len() <= HISTORY_LIMIT,
{
    if has_conv(s, k) {
        let i = conv_index(s, k);
        lemma_conv_at(s, i);
    }
}

} // verus!
