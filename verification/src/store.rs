//! Time-indexed record store: two append-only partitions of serialized
//! records, each kept ordered by a microsecond-timestamp score, with range
//! query by score and full-partition purge.
//!
//! This is the in-memory form of the store; durable deployments keep the same
//! two partitions in an external sorted-set store and feed its range-query
//! results to the same summary logic.

use vstd::prelude::*;
use crate::codec::{encode_record, spec_encode};
use crate::models::{ProcessorPaymentsRequest, ServerPayment};
use crate::router::RouteOutcome;

verus! {

/// One element of a partition: a serialized record keyed by its score (the
/// record's `requested_at` in microseconds).
#[derive(PartialEq, Eq, Debug)]
pub struct StoredEntry {
    pub score: u64,
    pub payload: Vec<u8>,
}

/// Whether `score` lies inside the (inclusive) window; an absent bound leaves
/// that side of the window open.
pub open spec fn in_range(score: u64, min: Option<u64>, max: Option<u64>) -> bool {
    &&& match min {
        Option::Some(m) => m <= score,
        Option::None => true,
    }
    &&& match max {
        Option::Some(m) => score <= m,
        Option::None => true,
    }
}

/// The entries of `s` whose score lies inside the window, in their stored
/// order.
pub open spec fn spec_range(s: Seq<StoredEntry>, min: Option<u64>, max: Option<u64>) -> Seq<
    StoredEntry,
>
    decreases s.len(),
{
    if s.len() == 0 {
        Seq::empty()
    } else {
        let prefix = spec_range(s.drop_last(), min, max);
        if in_range(s.last().score, min, max) {
            prefix.push(s.last())
        } else {
            prefix
        }
    }
}

/// Entries sorted by score, non-strictly: equal scores keep their insertion
/// order.
pub open spec fn sorted_by_score(s: Seq<StoredEntry>) -> bool {
    forall|i: int, j: int| 0 <= i < j < s.len() ==> s[i].score <= s[j].score
}

/// Index at which an entry of score `score` is inserted into `s`: after every
/// entry with a score at most `score`, so that equal scores keep arrival
/// order.
pub open spec fn spec_insert_pos(s: Seq<StoredEntry>, score: u64) -> int
    decreases s.len(),
{
    if s.len() == 0 {
        0
    } else if s[0].score > score {
        0
    } else {
        1 + spec_insert_pos(s.drop_first(), score)
    }
}

proof fn lemma_insert_pos_properties(s: Seq<StoredEntry>, score: u64)
    ensures
        0 <= spec_insert_pos(s, score) <= s.len(),
        forall|k: int| 0 <= k < spec_insert_pos(s, score) ==> s[k].score <= score,
        spec_insert_pos(s, score) < s.len() ==> s[spec_insert_pos(s, score)].score > score,
    decreases s.len(),
{
    if s.len() > 0 && s[0].score <= score {
        lemma_insert_pos_properties(s.drop_first(), score);
        assert forall|k: int| 0 <= k < spec_insert_pos(s, score) implies s[k].score <= score by {
            if k > 0 {
                assert(s[k] == s.drop_first()[k - 1]);
            }
        }
    }
}

/// The two partitions of the record store, each ordered by score.
pub struct RecordStore {
    pub default_set: Vec<StoredEntry>,
    pub fallback_set: Vec<StoredEntry>,
}

impl RecordStore {
    /// The contents of one partition, in stored order.
    pub open spec fn partition(self, p: ServerPayment) -> Seq<StoredEntry> {
        match p {
            ServerPayment::Default => self.default_set@,
            ServerPayment::Fallback => self.fallback_set@,
        }
    }

    /// Both partitions are ordered by score.
    pub open spec fn wf(self) -> bool {
        &&& sorted_by_score(self.default_set@)
        &&& sorted_by_score(self.fallback_set@)
    }

    /// An empty store: both partitions exist and hold nothing.
    pub fn new() -> (s: Self)
        ensures
            s.wf(),
            s.partition(ServerPayment::Default) == Seq::<StoredEntry>::empty(),
            s.partition(ServerPayment::Fallback) == Seq::<StoredEntry>::empty(),
    {
        RecordStore { default_set: Vec::new(), fallback_set: Vec::new() }
    }

    /// Append `payload` to partition `p` at score `score`, keeping the
    /// partition ordered; an entry with an already-present score goes after
    /// its equals. The other partition is untouched.
    pub fn insert(&mut self, p: ServerPayment, payload: Vec<u8>, score: u64)
        requires
            old(self).wf(),
        ensures
            final(self).wf(),
            final(self).partition(p) == old(self).partition(p).insert(
                spec_insert_pos(old(self).partition(p), score),
                (StoredEntry { score, payload }),
            ),
            ({
                let before = old(self).partition(p);
                let after = final(self).partition(p);
                let pos = spec_insert_pos(before, score);
                &&& 0 <= pos <= before.len()
                &&& after.len() == before.len() + 1
                &&& after[pos].score == score
                &&& after[pos].payload == payload
                &&& forall|k: int| 0 <= k < pos ==> after[k] == before[k]
                &&& forall|k: int| pos < k < after.len() ==> after[k] == before[k - 1]
            }),
            forall|q: ServerPayment|
                q != p ==> final(self).partition(q) == old(self).partition(q),
    {
        let ghost s = self.partition(p);
        proof {
            lemma_insert_pos_properties(s, score);
        }
        let set: &mut Vec<StoredEntry> = match p {
            ServerPayment::Default => &mut self.default_set,
            ServerPayment::Fallback => &mut self.fallback_set,
        };
        let mut i: usize = 0;
        while i < set.len() && set[i].score <= score
            invariant
                0 <= i <= set@.len(),
                set@ == s,
                forall|k: int| 0 <= k < i ==> s[k].score <= score,
            decreases set@.len() - i,
        {
            i = i + 1;
        }
        proof {
            // i is the first index whose score exceeds `score`; so is the
            // spec position, and a first index is unique.
            let pos = spec_insert_pos(s, score);
            if pos < i {
                assert(s[pos].score <= score);
            }
            if i < pos {
                assert(s[i as int].score <= score);
            }
            assert(i as int == pos);
        }
        set.insert(i, StoredEntry { score, payload });
        proof {
            s.insert_ensures(spec_insert_pos(s, score), StoredEntry { score, payload });
            let t = self.partition(p);
            assert(sorted_by_score(s));
            assert forall|a: int, b: int| 0 <= a < b < t.len() implies t[a].score <= t[b].score by {
                let pos = spec_insert_pos(s, score);
                if a < pos && b == pos {
                    assert(t[a] == s[a]);
                } else if a == pos && b > pos {
                    assert(t[b] == s[b - 1]);
                } else if a < pos && b > pos {
                    assert(t[a] == s[a] && t[b] == s[b - 1]);
                } else if a < pos && b < pos {
                    assert(t[a] == s[a] && t[b] == s[b]);
                } else if a > pos && b > pos {
                    assert(t[a] == s[a - 1] && t[b] == s[b - 1]);
                }
            }
        }
    }

    /// The serialized records of partition `p` whose score lies inside the
    /// inclusive window `[min, max]`, in stored order; an absent bound leaves
    /// that side open.
    pub fn range_query(&self, p: ServerPayment, min: Option<u64>, max: Option<u64>) -> (out: Vec<
        Vec<u8>,
    >)
        ensures
            out@.len() == spec_range(self.partition(p), min, max).len(),
            forall|k: int|
                0 <= k < out@.len() ==> out@[k]@ == spec_range(self.partition(p), min, max)[k].payload@,
    {
        let set: &Vec<StoredEntry> = match p {
            ServerPayment::Default => &self.default_set,
            ServerPayment::Fallback => &self.fallback_set,
        };
        let ghost s = set@;
        let mut out: Vec<Vec<u8>> = Vec::new();
        let mut i: usize = 0;
        while i < set.len()
            invariant
                0 <= i <= s.len(),
                set@ == s,
                out@.len() == spec_range(s.take(i as int), min, max).len(),
                forall|k: int|
                    0 <= k < out@.len() ==> out@[k]@ == spec_range(s.take(i as int), min, max)[k].payload@,
            decreases s.len() - i,
        {
            proof {
                assert(s.take(i + 1).drop_last() =~= s.take(i as int));
                assert(s.take(i + 1).last() == s[i as int]);
            }
            let matches_min = match min {
                Option::Some(m) => m <= set[i].score,
                Option::None => true,
            };
            let matches_max = match max {
                Option::Some(m) => set[i].score <= m,
                Option::None => true,
            };
            if matches_min && matches_max {
                out.push(vstd::slice::slice_to_vec(set[i].payload.as_slice()));
            }
            i = i + 1;
        }
        proof {
            assert(s.take(s.len() as int) =~= s);
        }
        out
    }

    /// Remove every entry of partition `p`; the other partition is untouched.
    /// Purging is unconditional: an already-empty partition stays empty.
    pub fn purge(&mut self, p: ServerPayment)
        requires
            old(self).wf(),
        ensures
            final(self).wf(),
            final(self).partition(p) == Seq::<StoredEntry>::empty(),
            forall|q: ServerPayment|
                q != p ==> final(self).partition(q) == old(self).partition(q),
    {
        match p {
            ServerPayment::Default => self.default_set.clear(),
            ServerPayment::Fallback => self.fallback_set.clear(),
        }
    }

    /// Remove every entry of both partitions, whatever they held.
    pub fn purge_all(&mut self)
        requires
            old(self).wf(),
        ensures
            final(self).wf(),
            final(self).partition(ServerPayment::Default) == Seq::<StoredEntry>::empty(),
            final(self).partition(ServerPayment::Fallback) == Seq::<StoredEntry>::empty(),
    {
        self.default_set.clear();
        self.fallback_set.clear();
    }

    /// Write the end of one routing attempt: a `Stored` outcome appends the
    /// serialized record to the partition of the processor that accepted it,
    /// scored by the record's own timestamp; a `Dropped` outcome writes
    /// nothing at all.
    pub fn record_route_outcome(
        &mut self,
        outcome: RouteOutcome,
        record: &ProcessorPaymentsRequest,
    )
        requires
            old(self).wf(),
        ensures
            final(self).wf(),
            match outcome {
                RouteOutcome::Stored(p) => ({
                    let before = old(self).partition(p);
                    let after = final(self).partition(p);
                    let pos = spec_insert_pos(before, record.requested_at.micros);
                    &&& after.len() == before.len() + 1
                    &&& after[pos].score == record.requested_at.micros
                    &&& after[pos].payload@ == spec_encode(*record)
                    &&& forall|k: int| 0 <= k < pos ==> after[k] == before[k]
                    &&& forall|k: int| pos < k < after.len() ==> after[k] == before[k - 1]
                    &&& forall|q: ServerPayment|
                        q != p ==> final(self).partition(q) == old(self).partition(q)
                }),
                RouteOutcome::Dropped => *final(self) == *old(self),
            },
    {
        match outcome {
            RouteOutcome::Stored(p) => {
                let ghost before = self.partition(p);
                let ghost score = record.requested_at.micros;
                let payload = encode_record(record);
                self.insert(p, payload, record.requested_at.micros);
                proof {
                    lemma_insert_pos_properties(before, score);
                    let pos = spec_insert_pos(before, score);
                    let after = self.partition(p);
                    assert(after == before.insert(pos, StoredEntry { score, payload }));
                    assert(after[pos] == StoredEntry { score, payload });
                    assert(forall|k: int| 0 <= k < pos ==> after[k] == before[k]);
                    assert(forall|k: int| pos < k < after.len() ==> after[k] == before[k - 1]);
                }
            },
            RouteOutcome::Dropped => {},
        }
    }
}

} // verus!
