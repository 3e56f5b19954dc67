use crate::channel::{log_view, messages_after, Channel, Message};
use crate::hub::lemma_push_contains;
use crate::server::ChannelKey;
use crate::{ID, TANTIVY_COMMIT_THRESHOLD};
use std::collections::HashMap;
use vstd::prelude::*;
use vstd::std_specs::iter::IteratorSpec;

verus! {

broadcast use vstd::std_specs::hash::group_hash_axioms;

/// Pending-commit bookkeeping of one channel's index.
#[derive(Clone, Copy, Debug, PartialEq, Eq, Structural)]
pub struct Pending {
    /// Messages added to the index writer since the last commit.
    pub count: u8,
    /// ID of the last message added.
    pub last_id: ID,
}

/// What to do with a new message's index entry.
#[derive(Clone, Copy, Debug, PartialEq, Eq, Structural)]
pub enum IndexAction {
    /// Add the document in memory only, and write the journal with the message's ID if the
    /// channel has no journal yet.
    Add { message_id: ID },
    /// Add the document, commit the writer, and write the journal with the message's ID.
    AddAndCommit { message_id: ID },
}

/// A channel whose index is to be committed and journaled with `last_id`.
#[derive(Clone, Copy, Debug, PartialEq, Eq, Structural)]
pub struct Flush {
    pub key: ChannelKey,
    pub last_id: ID,
}

/// Pending counter after one more message, given the counter `p` before and threshold `t`.
pub open spec fn next_count(p: int, t: int) -> int {
    if p >= t {
        0
    } else {
        p + 1
    }
}

/// The action for a message with ID `id` arriving at pending counter `p`, threshold `t`.
pub open spec fn action_for(p: int, t: int, id: ID) -> IndexAction {
    if p >= t {
        IndexAction::AddAndCommit { message_id: id }
    } else {
        IndexAction::Add { message_id: id }
    }
}

/// The journal's content after an action is carried out.
pub open spec fn journal_after(journal: Option<ID>, a: IndexAction) -> Option<ID> {
    match a {
        IndexAction::AddAndCommit { message_id } => Some(message_id),
        IndexAction::Add { message_id } => if journal is None {
            Some(message_id)
        } else {
            journal
        },
    }
}

/// Pending counter and journal after the messages `ids` arrive, one by one, with no search in
/// between, starting from counter `p` and journal `j`.
pub open spec fn run(p: int, j: Option<ID>, ids: Seq<ID>, t: int) -> (int, Option<ID>)
    decreases ids.len(),
{
    if ids.len() == 0 {
        (p, j)
    } else {
        let (p0, j0) = run(p, j, ids.drop_last(), t);
        (next_count(p0, t), journal_after(j0, action_for(p0, t, ids.last())))
    }
}

/// With threshold `t`, the first `k <= t` messages of a channel that has no pending messages
/// and no journal are only held in memory: the counter is `k` and the journal holds the first
/// message's ID.
pub proof fn lemma_no_commit_before_threshold(ids: Seq<ID>, t: int, k: int)
    requires
        0 <= k <= t,
        k <= ids.len(),
    ensures
        run(0, None, ids.take(k), t) == (k, if k == 0 {
            None::<ID>
        } else {
            Some(ids[0])
        }),
    decreases k,
{
    if k > 0 {
        assert(ids.take(k).drop_last() == ids.take(k - 1));
        lemma_no_commit_before_threshold(ids, t, k - 1);
    }
}

/// With threshold `t`, the message after the first `t` of a channel that has no pending
/// messages and no journal commits: the counter is back to 0 and the journal holds that
/// message's ID.
pub proof fn lemma_commit_at_threshold(ids: Seq<ID>, t: int)
    requires
        0 <= t,
        ids.len() == t + 1,
    ensures
        run(0, None, ids, t) == (0int, Some(ids[t])),
{
    lemma_no_commit_before_threshold(ids, t, t);
    assert(ids.drop_last() == ids.take(t));
}

/// Decisions of the indexer: per channel, how many messages wait for a commit and which was
/// last. The index itself and the journal files are handled by the caller, who carries out
/// the actions returned.
pub struct MessageServer {
    pending_messages: HashMap<ID, HashMap<ID, Pending>>,
    commit_threshold: u8,
}

impl MessageServer {
    /// The bookkeeping of channel `key`, if any.
    pub closed spec fn entry(&self, key: ChannelKey) -> Option<Pending> {
        if self.pending_messages@.contains_key(key.hub_id)
            && self.pending_messages@[key.hub_id]@.contains_key(key.channel_id) {
            Some(self.pending_messages@[key.hub_id]@[key.channel_id])
        } else {
            None
        }
    }

    /// The pending counter of channel `key` (0 without bookkeeping).
    pub open spec fn count(&self, key: ChannelKey) -> int {
        match self.entry(key) {
            Some(p) => p.count as int,
            None => 0,
        }
    }

    /// The commit threshold.
    pub closed spec fn threshold(&self) -> int {
        self.commit_threshold as int
    }

    /// An indexer with the default commit threshold and no bookkeeping.
    pub fn new() -> (r: Self)
        ensures
            r.threshold() == TANTIVY_COMMIT_THRESHOLD,
            forall|key: ChannelKey| r.entry(key).is_none(),
    {
        Self::with_threshold(TANTIVY_COMMIT_THRESHOLD)
    }

    /// An indexer with commit threshold `threshold` and no bookkeeping.
    pub fn with_threshold(threshold: u8) -> (r: Self)
        ensures
            r.threshold() == threshold,
            forall|key: ChannelKey| r.entry(key).is_none(),
    {
        MessageServer { pending_messages: HashMap::new(), commit_threshold: threshold }
    }

    /// The commit threshold.
    pub fn commit_threshold(&self) -> (r: u8)
        ensures
            r == self.threshold(),
    {
        self.commit_threshold
    }

    /// The bookkeeping of a channel, if any.
    pub fn pending(&self, hub_id: ID, channel_id: ID) -> (r: Option<Pending>)
        ensures
            r == self.entry(ChannelKey { hub_id, channel_id }),
    {
        match self.pending_messages.get(&hub_id) {
            Some(inner) => match inner.get(&channel_id) {
                Some(p) => Some(*p),
                None => None,
            },
            None => None,
        }
    }

    fn set_entry(&mut self, key: ChannelKey, p: Pending)
        ensures
            final(self).entry(key) == Some(p),
            forall|k2: ChannelKey| k2 != key ==> #[trigger] final(self).entry(k2) == old(self).entry(k2),
            final(self).threshold() == old(self).threshold(),
    {
        let mut inner = match self.pending_messages.remove(&key.hub_id) {
            Some(m) => m,
            None => HashMap::new(),
        };
        inner.insert(key.channel_id, p);
        self.pending_messages.insert(key.hub_id, inner);
        assert forall|k2: ChannelKey| k2 != key implies #[trigger] self.entry(k2) == old(self).entry(
            k2,
        ) by {
            if k2.hub_id == key.hub_id {
                assert(k2.channel_id != key.channel_id);
            }
        }
    }

    /// Records a new message of a channel. With `p` messages pending, `p` at or above the
    /// threshold commits (the counter returns to 0); otherwise the message waits in memory and
    /// the counter becomes `p + 1`.
    pub fn new_message(&mut self, hub_id: ID, channel_id: ID, message_id: ID) -> (r: IndexAction)
        ensures
            ({
                let key = ChannelKey { hub_id, channel_id };
                &&& r == action_for(old(self).count(key), old(self).threshold(), message_id)
                &&& final(self).count(key) == next_count(old(self).count(key), old(self).threshold())
                &&& final(self).entry(key) matches Some(p) && p.last_id == message_id
                &&& forall|k2: ChannelKey| k2 != key ==> #[trigger] final(self).entry(k2) == old(self).entry(k2)
                &&& final(self).threshold() == old(self).threshold()
            }),
    {
        let key = ChannelKey { hub_id, channel_id };
        let count: u8 = match self.pending(hub_id, channel_id) {
            Some(p) => p.count,
            None => 0,
        };
        if count >= self.commit_threshold {
            self.set_entry(key, Pending { count: 0, last_id: message_id });
            IndexAction::AddAndCommit { message_id }
        } else {
            self.set_entry(key, Pending { count: count + 1, last_id: message_id });
            IndexAction::Add { message_id }
        }
    }

    /// Before a search of a channel: when messages are pending, the index is to be committed
    /// and journaled with the last one's ID, and the counter returns to 0.
    pub fn before_search(&mut self, hub_id: ID, channel_id: ID) -> (r: Option<ID>)
        ensures
            ({
                let key = ChannelKey { hub_id, channel_id };
                &&& match old(self).entry(key) {
                    Some(p) => if p.count >= 1 {
                        &&& r == Some(p.last_id)
                        &&& final(self).entry(key) == Some(Pending { count: 0, last_id: p.last_id })
                    } else {
                        r is None && final(self).entry(key) == old(self).entry(key)
                    },
                    None => r is None && final(self).entry(key) is None,
                }
                &&& forall|k2: ChannelKey| k2 != key ==> #[trigger] final(self).entry(k2) == old(self).entry(k2)
                &&& final(self).threshold() == old(self).threshold()
            }),
    {
        let key = ChannelKey { hub_id, channel_id };
        match self.pending(hub_id, channel_id) {
            Some(p) => {
                if p.count >= 1 {
                    self.set_entry(key, Pending { count: 0, last_id: p.last_id });
                    Some(p.last_id)
                } else {
                    None
                }
            },
            None => None,
        }
    }

    /// On shutdown: the channels with pending messages, each to be journaled with its last
    /// message's ID before its writer is committed.
    pub fn stopped(&self) -> (r: Vec<Flush>)
        ensures
            forall|f: Flush|
                r@.contains(f) <==> (self.entry(f.key) matches Some(p) && p.count >= 1
                    && p.last_id == f.last_id),
    {
        let mut r: Vec<Flush> = Vec::new();
        let ghost hubs = vstd::std_specs::hash::spec_keys_iter(&self.pending_messages).remaining().unref();
        let ghost mut seen: int = 0;
        for h in it: self.pending_messages.keys()
            invariant
                seen == it.index(),
                hubs == it.seq().unref(),
                hubs.to_set() == self.pending_messages@.dom(),
                forall|f: Flush|
                    r@.contains(f) <==> (hubs.take(seen).contains(f.key.hub_id) && (self.entry(
                        f.key,
                    ) matches Some(p) && p.count >= 1 && p.last_id == f.last_id)),
        {
            assert(hubs[seen] == *h);
            match self.pending_messages.get(h) {
                Some(inner) => {
                    flushes_of_hub(*h, inner, &mut r);
                },
                None => {},
            }
            assert(hubs.take(seen + 1) == hubs.take(seen).push(*h));
            assert forall|x: ID| hubs.take(seen + 1).contains(x) <==> (hubs.take(seen).contains(x) || x == *h) by {
                lemma_push_contains(hubs.take(seen), *h, x);
            }
            proof {
                seen = seen + 1;
            }
        }
        assert forall|f: Flush| self.entry(f.key) is Some implies hubs.take(seen).contains(
            f.key.hub_id,
        ) by {
            assert(hubs.take(seen) == hubs);
            assert(hubs.to_set().contains(f.key.hub_id));
        }
        r
    }
}

/// Appends to `out` a flush for each channel of hub `h` in `inner` with pending messages.
fn flushes_of_hub(h: ID, inner: &HashMap<ID, Pending>, out: &mut Vec<Flush>)
    ensures
        forall|f: Flush|
            final(out)@.contains(f) <==> (old(out)@.contains(f) || (f.key.hub_id == h
                && inner@.contains_key(f.key.channel_id) && inner@[f.key.channel_id].count >= 1
                && inner@[f.key.channel_id].last_id == f.last_id)),
{
    let ghost chans = vstd::std_specs::hash::spec_keys_iter(inner).remaining().unref();
    let ghost mut seen: int = 0;
    for c in it: inner.keys()
        invariant
            seen == it.index(),
            chans == it.seq().unref(),
            chans.to_set() == inner@.dom(),
            forall|f: Flush|
                out@.contains(f) <==> (old(out)@.contains(f) || (f.key.hub_id == h
                    && chans.take(seen).contains(f.key.channel_id) && inner@.contains_key(
                    f.key.channel_id,
                ) && inner@[f.key.channel_id].count >= 1 && inner@[f.key.channel_id].last_id
                    == f.last_id)),
    {
        assert(chans[seen] == *c);
        let ghost before = out@;
        match inner.get(c) {
            Some(p) => {
                if p.count >= 1 {
                    out.push(Flush { key: ChannelKey { hub_id: h, channel_id: *c }, last_id: p.last_id });
                }
            },
            None => {},
        }
        assert(chans.take(seen + 1) == chans.take(seen).push(*c));
        assert forall|f: Flush|
            out@.contains(f) <==> (old(out)@.contains(f) || (f.key.hub_id == h
                && chans.take(seen + 1).contains(f.key.channel_id) && inner@.contains_key(
                f.key.channel_id,
            ) && inner@[f.key.channel_id].count >= 1 && inner@[f.key.channel_id].last_id
                == f.last_id)) by {
            lemma_push_contains(chans.take(seen), *c, f.key.channel_id);
            if out@ != before {
                lemma_push_contains(before, out@.last(), f);
                assert(out@ == before.push(out@.last()));
            }
        }
        proof {
            seen = seen + 1;
        }
    }
    assert(chans.take(seen) == chans);
}

/// What catching up an index after a restart takes: the messages to add, and the ID to
/// journal once they are committed (none when nothing was added).
#[derive(Debug)]
pub struct CatchUp {
    pub messages: Vec<Message>,
    pub journal: Option<ID>,
}

/// The catch-up for a channel whose journal holds `last_id`: every message after it.
pub fn catch_up(channel: &Channel, last_id: ID) -> (r: CatchUp)
    ensures
        log_view(r.messages@) == messages_after(channel.log(), last_id),
        r.journal == if r.messages@.len() == 0 {
            None::<ID>
        } else {
            Some(r.messages@.last().id)
        },
{
    let messages = channel.get_all_messages_from(last_id);
    let n = messages.len();
    let journal = if n == 0 {
        None
    } else {
        Some(messages[n - 1].id)
    };
    CatchUp { messages, journal }
}

/// Number of bytes of a journal: one little-endian `u128`.
pub const JOURNAL_LEN: usize = 16;

/// `256` to the power `k`.
pub open spec fn pow256(k: nat) -> nat
    decreases k,
{
    if k == 0 {
        1
    } else {
        256 * pow256((k - 1) as nat)
    }
}

/// The number whose little-endian bytes are `b`.
pub open spec fn le_value(b: Seq<u8>) -> nat
    decreases b.len(),
{
    if b.len() == 0 {
        0
    } else {
        le_value(b.drop_last()) + pow256((b.len() - 1) as nat) * (b.last() as nat)
    }
}

proof fn lemma_pow256_positive(k: nat)
    ensures
        pow256(k) >= 1,
    decreases k,
{
    if k > 0 {
        lemma_pow256_positive((k - 1) as nat);
    }
}

proof fn lemma_le_value_bound(b: Seq<u8>)
    ensures
        le_value(b) < pow256(b.len()),
    decreases b.len(),
{
    if b.len() > 0 {
        lemma_le_value_bound(b.drop_last());
        let p = pow256((b.len() - 1) as nat);
        let x = b.last() as int;
        let v = le_value(b.drop_last()) as int;
        assert(v + p * x < 256 * p) by (nonlinear_arith)
            requires
                v < p,
                0 <= x <= 255,
        ;
    }
}

/// The journal's bytes for message ID `id`: its 16 little-endian bytes.
pub fn encode_journal(id: ID) -> (r: Vec<u8>)
    ensures
        r@.len() == JOURNAL_LEN,
        le_value(r@) == id,
{
    let mut r: Vec<u8> = Vec::new();
    let mut v: u128 = id;
    let mut i: usize = 0;
    assert(le_value(r@) == 0);
    assert(pow256(0) == 1);
    while i < JOURNAL_LEN
        invariant
            i <= JOURNAL_LEN,
            r@.len() == i,
            id == le_value(r@) + pow256(i as nat) * v,
        decreases JOURNAL_LEN - i,
    {
        let byte = (v % 256) as u8;
        let next = v / 256;
        let ghost p = pow256(i as nat);
        assert(p * v == p * byte + (256 * p) * next) by (nonlinear_arith)
            requires
                v == 256 * next + byte,
        ;
        let ghost before = r@;
        r.push(byte);
        assert(r@.drop_last() == before);
        assert(le_value(r@) == le_value(before) + p * byte);
        assert(pow256((i + 1) as nat) == 256 * p);
        v = next;
        i = i + 1;
    }
    proof {
        lemma_le_value_bound(r@);
        reveal_with_fuel(pow256, 17);
        assert(pow256(16) == 0x1_0000_0000_0000_0000_0000_0000_0000_0000);
        lemma_pow256_positive(16);
        if v > 0 {
            assert(pow256(16) * v >= pow256(16)) by (nonlinear_arith)
                requires
                    v >= 1,
                    pow256(16) >= 1,
            ;
        }
    }
    r
}

/// The message ID in a journal's bytes: the little-endian value of the first 16 of them;
/// `None` when there are fewer.
pub fn decode_journal(bytes: &[u8]) -> (r: Option<ID>)
    ensures
        r == if bytes@.len() < JOURNAL_LEN {
            None::<ID>
        } else {
            Some(le_value(bytes@.take(JOURNAL_LEN as int)) as ID)
        },
        bytes@.len() >= JOURNAL_LEN ==> le_value(bytes@.take(JOURNAL_LEN as int)) <= u128::MAX,
{
    if bytes.len() < JOURNAL_LEN {
        return None;
    }
    let mut acc: u128 = 0;
    let mut pw: u128 = 1;
    let mut i: usize = 0;
    assert(bytes@.take(0) =~= Seq::<u8>::empty());
    proof {
        reveal_with_fuel(pow256, 17);
    }
    while i < JOURNAL_LEN
        invariant
            bytes@.len() >= JOURNAL_LEN,
            i <= JOURNAL_LEN,
            acc == le_value(bytes@.take(i as int)),
            i < JOURNAL_LEN ==> pw == pow256(i as nat),
            pow256(16) == 0x1_0000_0000_0000_0000_0000_0000_0000_0000,
        decreases JOURNAL_LEN - i,
    {
        proof {
            lemma_le_value_bound(bytes@.take(i as int));
            lemma_pow256_bound_steps(i as nat);
        }
        let b = bytes[i] as u128;
        assert(acc + b * pw < 256 * pw) by (nonlinear_arith)
            requires
                acc < pw,
                b <= 255,
        ;
        assert(bytes@.take(i + 1).drop_last() == bytes@.take(i as int));
        assert(bytes@.take(i + 1).last() == bytes@[i as int]);
        assert(le_value(bytes@.take(i + 1)) == le_value(bytes@.take(i as int)) + pow256(i as nat)
            * (bytes@[i as int] as nat));
        assert(b * pw == pow256(i as nat) * (bytes@[i as int] as nat)) by (nonlinear_arith)
            requires
                pw == pow256(i as nat),
                b == bytes@[i as int],
        ;
        acc = acc + b * pw;
        if i + 1 < JOURNAL_LEN {
            proof {
                lemma_pow256_bound_steps((i + 1) as nat);
            }
            assert(pow256((i + 1) as nat) == 256 * pw);
            pw = pw * 256;
        }
        i = i + 1;
    }
    Some(acc)
}

proof fn lemma_pow256_bound_steps(i: nat)
    requires
        i < 16,
    ensures
        256 * pow256(i) <= pow256(16),
    decreases 16 - i,
{
    if i + 1 < 16 {
        lemma_pow256_bound_steps(i + 1);
        lemma_pow256_positive(i);
        assert(256 * pow256(i) <= 256 * (256 * pow256(i))) by (nonlinear_arith)
            requires
                pow256(i) >= 1,
        ;
    }
}

/// A journal written for message ID `id` reads back as `id`.
pub proof fn lemma_journal_round_trip(bytes: Seq<u8>, id: ID)
    requires
        bytes.len() == JOURNAL_LEN,
        le_value(bytes) == id,
    ensures
        le_value(bytes.take(JOURNAL_LEN as int)) == id,
{
    assert(bytes.take(JOURNAL_LEN as int) == bytes);
}

} // verus!
