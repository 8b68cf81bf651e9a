//! The local store of gossip messages, kept in creation-time order.

use vstd::prelude::*;

use crate::gossip::message::{message_check, GossipMessage, GossipMessageView};
use crate::seqs::{lemma_filter_pairwise, lemma_filter_take_step, page};
use crate::text::str_eq;

verus! {

/// Creation times never decrease along `s`.
pub open spec fn chronological(s: Seq<GossipMessageView>) -> bool {
    forall|i: int, j: int| 0 <= i < j < s.len() ==> #[trigger] s[i].created_at <= #[trigger] s[j].created_at
}

/// No two messages of `s` share an id.
pub open spec fn ids_unique(s: Seq<GossipMessageView>) -> bool {
    forall|i: int, j: int| 0 <= i < j < s.len() ==> #[trigger] s[i].id != #[trigger] s[j].id
}

/// Some message of `s` has this id.
pub open spec fn has_id(s: Seq<GossipMessageView>, id: Seq<char>) -> bool {
    exists|i: int| 0 <= i < s.len() && s[i].id == id
}

/// Where a message created at `t` goes: after every message created at or
/// before `t`.
pub open spec fn insert_position(s: Seq<GossipMessageView>, t: u64) -> int
    decreases s.len(),
{
    if s.len() == 0 {
        0
    } else if s.last().created_at <= t {
        s.len() as int
    } else {
        insert_position(s.drop_last(), t)
    }
}

/// The store after `INSERT OR IGNORE` of `m`: unchanged if its id is known,
/// otherwise `m` placed in creation order after the messages of equal time.
pub open spec fn store_insert(s: Seq<GossipMessageView>, m: GossipMessageView) -> Seq<GossipMessageView> {
    if has_id(s, m.id) {
        s
    } else {
        s.insert(insert_position(s, m.created_at), m)
    }
}

/// The messages of `topic` in creation order.
pub open spec fn in_topic(s: Seq<GossipMessageView>, topic: Seq<char>) -> Seq<GossipMessageView> {
    s.filter(|m: GossipMessageView| m.topic == topic)
}

/// The replies to `parent` in creation order.
pub open spec fn replies_to(s: Seq<GossipMessageView>, parent: Seq<char>) -> Seq<GossipMessageView> {
    s.filter(|m: GossipMessageView| m.parent_id == Some(parent))
}

/// A page of a topic, newest first.
pub open spec fn topic_page(s: Seq<GossipMessageView>, topic: Seq<char>, limit: usize, offset: usize) -> Seq<
    GossipMessageView,
> {
    page(in_topic(s, topic).reverse(), offset as int, limit as int)
}

proof fn lemma_insert_position_bounds(s: Seq<GossipMessageView>, t: u64)
    ensures
        0 <= insert_position(s, t) <= s.len(),
    decreases s.len(),
{
    if s.len() > 0 {
        lemma_insert_position_bounds(s.drop_last(), t);
    }
}

proof fn lemma_insert_position(s: Seq<GossipMessageView>, t: u64)
    requires
        chronological(s),
    ensures
        0 <= insert_position(s, t) <= s.len(),
        forall|j: int| 0 <= j < insert_position(s, t) ==> #[trigger] s[j].created_at <= t,
        forall|j: int| insert_position(s, t) <= j < s.len() ==> #[trigger] s[j].created_at > t,
    decreases s.len(),
{
    if s.len() > 0 {
        if s.last().created_at <= t {
            assert forall|j: int| 0 <= j < s.len() implies #[trigger] s[j].created_at <= t by {
                if j < s.len() - 1 {
                    assert(s[j].created_at <= s[s.len() - 1].created_at);
                }
            }
        } else {
            let d = s.drop_last();
            assert forall|i: int, j: int| 0 <= i < j < d.len() implies #[trigger] d[i].created_at <= #[trigger] d[j].created_at by {
                assert(d[i] == s[i]);
                assert(d[j] == s[j]);
            }
            lemma_insert_position(d, t);
            assert forall|j: int| 0 <= j < insert_position(s, t) implies #[trigger] s[j].created_at <= t by {
                assert(s[j] == d[j]);
            }
            assert forall|j: int| insert_position(s, t) <= j < s.len() implies #[trigger] s[j].created_at > t by {
                if j < d.len() {
                    assert(s[j] == d[j]);
                }
            }
        }
    }
}

/// The local store of gossip messages.
pub struct MessageStore {
    messages: Vec<GossipMessage>,
}

impl View for MessageStore {
    type V = Seq<GossipMessageView>;

    closed spec fn view(&self) -> Seq<GossipMessageView> {
        self.messages@.map_values(|m: GossipMessage| m@)
    }
}

impl MessageStore {
    /// The stored messages are in creation order and have distinct ids.
    #[verifier::type_invariant]
    closed spec fn well_formed(&self) -> bool {
        chronological(self@) && ids_unique(self@)
    }

    /// An empty store.
    pub fn new() -> (r: MessageStore)
        ensures
            r@ == Seq::<GossipMessageView>::empty(),
    {
        let r = MessageStore { messages: Vec::new() };
        assert(r@ =~= Seq::<GossipMessageView>::empty());
        r
    }

    fn has_id_exec(&self, id: &str) -> (r: bool)
        ensures
            r == has_id(self@, id@),
    {
        let n = self.messages.len();
        let mut i: usize = 0;
        while i < n
            invariant
                n == self@.len(),
                i <= n,
                forall|j: int| 0 <= j < i ==> self@[j].id != id@,
            decreases n - i,
        {
            if str_eq(self.messages[i].id.as_str(), id) {
                assert(self@[i as int].id == id@);
                return true;
            }
            i = i + 1;
        }
        false
    }

    /// Store `msg` unless a message with its id is already stored.
    pub fn insert(&mut self, msg: &GossipMessage)
        ensures
            final(self)@ == store_insert(old(self)@, msg@),
    {
        proof {
            use_type_invariant(&*self);
        }
        if self.has_id_exec(msg.id.as_str()) {
            return;
        }
        let ghost s = self@;
        let t = msg.created_at;
        let mut i = self.messages.len();
        assert(s.take(i as int) =~= s);
        while i > 0 && self.messages[i - 1].created_at > t
            invariant
                s == self@,
                i <= s.len(),
                insert_position(s, t) == insert_position(s.take(i as int), t),
            decreases i,
        {
            assert(s.take(i as int).drop_last() =~= s.take(i - 1));
            i = i - 1;
        }
        proof {
            lemma_insert_position(s, t);
            assert(insert_position(s, t) == i);
        }
        let c = msg.clone();
        let mut ms = Vec::new();
        std::mem::swap(&mut ms, &mut self.messages);
        ms.insert(i, c);
        proof {
            let n = s.insert(i as int, msg@);
            assert(ms@.map_values(|m: GossipMessage| m@) =~= n);
            assert forall|a: int, b: int| 0 <= a < b < n.len() implies #[trigger] n[a].created_at <= #[trigger] n[b].created_at by {
                if b < i {
                } else if b == i {
                } else if a < i {
                    assert(n[b] == s[b - 1]);
                } else if a == i {
                    assert(n[b] == s[b - 1]);
                } else {
                    assert(n[a] == s[a - 1]);
                    assert(n[b] == s[b - 1]);
                }
            }
            assert forall|a: int, b: int| 0 <= a < b < n.len() implies #[trigger] n[a].id != #[trigger] n[b].id by {
                if a == i {
                    assert(n[b] == s[b - 1]);
                } else if b == i {
                    assert(n[a] == s[a]);
                } else {
                    let a2 = if a < i { a } else { a - 1 };
                    let b2 = if b < i { b } else { b - 1 };
                    assert(n[a] == s[a2]);
                    assert(n[b] == s[b2]);
                }
            }
        }
        self.messages = ms;
    }

    fn matching(&self, topic: Option<&str>, parent: Option<&str>) -> (r: Vec<GossipMessage>)
        requires
            topic is Some != parent is Some,
        ensures
            topic matches Some(t) ==> r@.map_values(|m: GossipMessage| m@) == in_topic(self@, t@),
            parent matches Some(p) ==> r@.map_values(|m: GossipMessage| m@) == replies_to(self@, p@),
    {
        let ghost pred = match topic {
            Some(t) => |m: GossipMessageView| m.topic == t@,
            None => |m: GossipMessageView| m.parent_id == Some(parent->0@),
        };
        let n = self.messages.len();
        let mut out: Vec<GossipMessage> = Vec::new();
        let mut i: usize = 0;
        while i < n
            invariant
                n == self@.len(),
                i <= n,
                topic is Some != parent is Some,
                pred == (match topic {
                    Some(t) => |m: GossipMessageView| m.topic == t@,
                    None => |m: GossipMessageView| m.parent_id == Some(parent->0@),
                }),
                out@.map_values(|m: GossipMessage| m@) == self@.take(i as int).filter(pred),
            decreases n - i,
        {
            let m = &self.messages[i];
            let keep = match topic {
                Some(t) => str_eq(m.topic.as_str(), t),
                None => match (&m.parent_id, parent) {
                    (Some(pid), Some(p)) => str_eq(pid.as_str(), p),
                    _ => false,
                },
            };
            proof {
                lemma_filter_take_step(self@, pred, i as int);
                assert(self@[i as int] == m@);
            }
            if keep {
                let c = m.clone();
                let ghost prev = out@;
                out.push(c);
                assert(out@.map_values(|m: GossipMessage| m@) =~= prev.map_values(|m: GossipMessage| m@).push(c@));
            }
            i = i + 1;
        }
        assert(self@.take(n as int) =~= self@);
        out
    }

    /// A page of the messages of `topic`, newest first: `limit` of them
    /// after skipping the `offset` newest.
    pub fn list_topic(&self, topic: &str, limit: usize, offset: usize) -> (r: Vec<GossipMessage>)
        ensures
            r@.map_values(|m: GossipMessage| m@) == topic_page(self@, topic@, limit, offset),
    {
        let all = self.matching(Some(topic), None);
        let ghost rev = in_topic(self@, topic@).reverse();
        let n = all.len();
        let lo = if offset < n {
            offset
        } else {
            n
        };
        let hi = if limit < n - lo {
            lo + limit
        } else {
            n
        };
        let mut out: Vec<GossipMessage> = Vec::new();
        let mut k = lo;
        while k < hi
            invariant
                n == all@.len(),
                rev == all@.map_values(|m: GossipMessage| m@).reverse(),
                lo <= k <= hi <= n,
                out@.map_values(|m: GossipMessage| m@) == rev.subrange(lo as int, k as int),
            decreases hi - k,
        {
            let c = all[n - 1 - k].clone();
            let ghost prev = out@;
            out.push(c);
            assert(out@.map_values(|m: GossipMessage| m@) =~= prev.map_values(|m: GossipMessage| m@).push(c@));
            assert(rev.subrange(lo as int, k + 1) =~= rev.subrange(lo as int, k as int).push(rev[k as int]));
            k = k + 1;
        }
        out
    }

    /// The replies to `parent_id`, oldest first.
    pub fn list_replies(&self, parent_id: &str) -> (r: Vec<GossipMessage>)
        ensures
            r@.map_values(|m: GossipMessage| m@) == replies_to(self@, parent_id@),
    {
        self.matching(None, Some(parent_id))
    }

    /// Number of messages of `topic`.
    pub fn message_count(&self, topic: &str) -> (r: usize)
        ensures
            r == in_topic(self@, topic@).len(),
    {
        let all = self.matching(Some(topic), None);
        all.len()
    }

    /// Remove the message with id `id`, if stored.
    pub fn delete(&mut self, id: &str)
        ensures
            final(self)@ == old(self)@.filter(|m: GossipMessageView| m.id != id@),
    {
        proof {
            use_type_invariant(&*self);
        }
        let ghost s = self@;
        let ghost pred = |m: GossipMessageView| m.id != id@;
        let n = self.messages.len();
        let mut kept: Vec<GossipMessage> = Vec::new();
        let mut i: usize = 0;
        while i < n
            invariant
                n == s.len(),
                s == self@,
                i <= n,
                pred == (|m: GossipMessageView| m.id != id@),
                kept@.map_values(|m: GossipMessage| m@) == s.take(i as int).filter(pred),
            decreases n - i,
        {
            let keep = !str_eq(self.messages[i].id.as_str(), id);
            proof {
                lemma_filter_take_step(s, pred, i as int);
            }
            if keep {
                let c = self.messages[i].clone();
                let ghost prev = kept@;
                kept.push(c);
                assert(kept@.map_values(|m: GossipMessage| m@) =~= prev.map_values(|m: GossipMessage| m@).push(c@));
            }
            i = i + 1;
        }
        proof {
            assert(s.take(n as int) =~= s);
            lemma_filter_pairwise(s, pred, |a: GossipMessageView, b: GossipMessageView| a.created_at <= b.created_at);
            lemma_filter_pairwise(s, pred, |a: GossipMessageView, b: GossipMessageView| a.id != b.id);
            let f = s.filter(pred);
            assert forall|a: int, b: int| 0 <= a < b < f.len() implies #[trigger] f[a].created_at <= #[trigger] f[b].created_at by {
                assert((|a: GossipMessageView, b: GossipMessageView| a.created_at <= b.created_at)(f[a], f[b]));
            }
            assert forall|a: int, b: int| 0 <= a < b < f.len() implies #[trigger] f[a].id != #[trigger] f[b].id by {
                assert((|a: GossipMessageView, b: GossipMessageView| a.id != b.id)(f[a], f[b]));
            }
        }
        self.messages = kept;
    }
}


/// Take in a message received on a subscribed topic: one whose signature
/// does not verify against its author is dropped; any other is stored.
/// Returns whether the message was taken in (and is to be forwarded).
pub fn receive_message(store: &mut MessageStore, msg: &GossipMessage) -> (r: bool)
    ensures
        r == (message_check(msg@) is Ok),
        r ==> final(store)@ == store_insert(old(store)@, msg@),
        !r ==> final(store)@ == old(store)@,
{
    match msg.verify() {
        Err(_) => false,
        Ok(()) => {
            store.insert(msg);
            true
        },
    }
}


/// Storing a message is idempotent: storing it a second time (as happens
/// when the same message arrives again over gossip) changes nothing.
pub proof fn law_insert_is_idempotent(s: Seq<GossipMessageView>, m: GossipMessageView)
    ensures
        store_insert(store_insert(s, m), m) == store_insert(s, m),
        has_id(store_insert(s, m), m.id),
{
    if !has_id(s, m.id) {
        let p = insert_position(s, m.created_at);
        lemma_insert_position_bounds(s, m.created_at);
        let t = s.insert(p, m);
        assert(t[p] == m);
        assert(has_id(t, m.id));
    }
}

} // verus!
