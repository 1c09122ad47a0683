//! In-memory models of the two durable stores.
//!
//! The heartbeat store is an append-only record of `(service_name, timestamp)`
//! pairs; the snapshot store holds at most one hourly count per
//! `(service_name, hour_bucket)` pair, maintained by read-check-then-upsert.
//! Every component of the core reads and writes the stores only through the
//! contracts here, so the aggregation, retention and windowing logic is
//! verified against exactly the store semantics it assumes.

use crate::time::MAX_TIME;
use vstd::prelude::*;

verus! {

/// A single timestamped liveness signal for a named service.  Immutable once
/// created; destroyed only by the retention sweep.
pub struct HeartbeatEvent {
    /// The prefixed canonical service name.
    pub name: String,
    /// Seconds since the Unix epoch at which the signal was observed.
    pub timestamp: i64,
}

/// A durable count of heartbeats observed for one service in one hour bucket.
pub struct StatusSnapshot {
    /// The prefixed canonical service name.
    pub name: String,
    /// The hour bucket, as a timestamp truncated to the hour.
    pub timestamp: i64,
    /// How many heartbeats were observed for this service in this hour.
    pub count: i32,
}

/// Whether snapshot `e` is keyed by `(name, bucket)`.
pub open spec fn snap_matches(e: StatusSnapshot, name: Seq<char>, bucket: int) -> bool {
    e.name@ == name && e.timestamp == bucket
}

/// Whether two snapshots share their `(service_name, hour_bucket)` key.
pub open spec fn same_key(a: StatusSnapshot, b: StatusSnapshot) -> bool {
    a.name@ == b.name@ && a.timestamp == b.timestamp
}

/// At most one snapshot per `(service_name, hour_bucket)` pair.
pub open spec fn snapshot_keys_unique(s: Seq<StatusSnapshot>) -> bool {
    forall|i: int, j: int| 0 <= i < j < s.len() ==> !same_key(s[i], s[j])
}

/// The count stored for `(name, bucket)`: the latest matching record, which
/// by key uniqueness is the only one.
pub open spec fn spec_lookup(s: Seq<StatusSnapshot>, name: Seq<char>, bucket: int) -> Option<int>
    decreases s.len(),
{
    if s.len() == 0 {
        None
    } else if snap_matches(s.last(), name, bucket) {
        Some(s.last().count as int)
    } else {
        spec_lookup(s.drop_last(), name, bucket)
    }
}

/// The events of `s` whose timestamp is at or after `cutoff`, in order.
pub open spec fn kept_events(s: Seq<HeartbeatEvent>, cutoff: int) -> Seq<HeartbeatEvent>
    decreases s.len(),
{
    if s.len() == 0 {
        Seq::empty()
    } else if s.last().timestamp >= cutoff {
        kept_events(s.drop_last(), cutoff).push(s.last())
    } else {
        kept_events(s.drop_last(), cutoff)
    }
}

/// The snapshots of `s` whose hour bucket is at or after `cutoff`, in order.
pub open spec fn kept_snapshots(s: Seq<StatusSnapshot>, cutoff: int) -> Seq<StatusSnapshot>
    decreases s.len(),
{
    if s.len() == 0 {
        Seq::empty()
    } else if s.last().timestamp >= cutoff {
        kept_snapshots(s.drop_last(), cutoff).push(s.last())
    } else {
        kept_snapshots(s.drop_last(), cutoff)
    }
}

proof fn lemma_lookup_only_match(s: Seq<StatusSnapshot>, name: Seq<char>, bucket: int, k: int)
    requires
        0 <= k < s.len(),
        snap_matches(s[k], name, bucket),
        forall|j: int| 0 <= j < s.len() && j != k ==> !snap_matches(s[j], name, bucket),
    ensures
        spec_lookup(s, name, bucket) == Some(s[k].count as int),
    decreases s.len(),
{
    if k < s.len() - 1 {
        assert(!snap_matches(s.last(), name, bucket));
        assert(s.drop_last()[k] == s[k]);
        lemma_lookup_only_match(s.drop_last(), name, bucket, k);
    }
}

proof fn lemma_lookup_none(s: Seq<StatusSnapshot>, name: Seq<char>, bucket: int)
    requires
        forall|j: int| 0 <= j < s.len() ==> !snap_matches(s[j], name, bucket),
    ensures
        spec_lookup(s, name, bucket) is None,
    decreases s.len(),
{
    if s.len() > 0 {
        lemma_lookup_none(s.drop_last(), name, bucket);
    }
}

proof fn lemma_lookup_update_other(
    s: Seq<StatusSnapshot>,
    k: int,
    v: StatusSnapshot,
    name: Seq<char>,
    bucket: int,
)
    requires
        0 <= k < s.len(),
        same_key(v, s[k]),
        !snap_matches(v, name, bucket),
    ensures
        spec_lookup(s.update(k, v), name, bucket) == spec_lookup(s, name, bucket),
    decreases s.len(),
{
    let s2 = s.update(k, v);
    if k == s.len() - 1 {
        assert(s2.last() == v);
        assert(!snap_matches(s.last(), name, bucket));
        assert(s2.drop_last() =~= s.drop_last());
    } else {
        assert(s2.last() == s.last());
        if !snap_matches(s.last(), name, bucket) {
            assert(s2.drop_last() =~= s.drop_last().update(k, v));
            lemma_lookup_update_other(s.drop_last(), k, v, name, bucket);
        }
    }
}

proof fn lemma_lookup_push_matching(
    s: Seq<StatusSnapshot>,
    v: StatusSnapshot,
    name: Seq<char>,
    bucket: int,
)
    requires
        snap_matches(v, name, bucket),
    ensures
        spec_lookup(s.push(v), name, bucket) == Some(v.count as int),
{
    assert(s.push(v).last() == v);
}

proof fn lemma_lookup_push_other(
    s: Seq<StatusSnapshot>,
    v: StatusSnapshot,
    name: Seq<char>,
    bucket: int,
)
    requires
        !snap_matches(v, name, bucket),
    ensures
        spec_lookup(s.push(v), name, bucket) == spec_lookup(s, name, bucket),
{
    assert(s.push(v).last() == v);
    assert(s.push(v).drop_last() =~= s);
}

/// What the retention filter keeps: exactly the records at or after the
/// cutoff, each of them present in the original store.
pub proof fn lemma_kept_events_contains(s: Seq<HeartbeatEvent>, cutoff: int)
    ensures
        forall|e: HeartbeatEvent| #[trigger]
            kept_events(s, cutoff).contains(e) ==> s.contains(e) && e.timestamp >= cutoff,
        forall|e: HeartbeatEvent|
            s.contains(e) && e.timestamp >= cutoff ==> #[trigger] kept_events(s, cutoff).contains(e),
    decreases s.len(),
{
    if s.len() > 0 {
        let s0 = s.drop_last();
        let ks = kept_events(s, cutoff);
        let ks0 = kept_events(s0, cutoff);
        lemma_kept_events_contains(s0, cutoff);
        if s.last().timestamp >= cutoff {
            assert(ks == ks0.push(s.last()));
        } else {
            assert(ks == ks0);
        }
        assert forall|e: HeartbeatEvent| #[trigger] ks.contains(e) implies s.contains(e)
            && e.timestamp >= cutoff by {
            let i = choose|i: int| 0 <= i < ks.len() && ks[i] == e;
            if s.last().timestamp >= cutoff && i == ks.len() - 1 {
                assert(s[s.len() - 1] == e);
            } else {
                assert(ks0[i] == e);
                assert(ks0.contains(e));
                let q = choose|q: int| 0 <= q < s0.len() && s0[q] == e;
                assert(s[q] == e);
            }
        }
        assert forall|e: HeartbeatEvent| s.contains(e) && e.timestamp >= cutoff implies #[trigger]
            ks.contains(e) by {
            let q = choose|q: int| 0 <= q < s.len() && s[q] == e;
            if q == s.len() - 1 {
                assert(s.last() == e);
                assert(ks[ks.len() - 1] == e);
            } else {
                assert(s0[q] == e);
                assert(s0.contains(e));
                assert(ks0.contains(e));
                let i = choose|i: int| 0 <= i < ks0.len() && ks0[i] == e;
                assert(ks[i] == e);
            }
        }
    }
}

/// What the retention filter keeps: exactly the records at or after the
/// cutoff, each of them present in the original store.
pub proof fn lemma_kept_snapshots_contains(s: Seq<StatusSnapshot>, cutoff: int)
    ensures
        forall|e: StatusSnapshot| #[trigger]
            kept_snapshots(s, cutoff).contains(e) ==> s.contains(e) && e.timestamp >= cutoff,
        forall|e: StatusSnapshot|
            s.contains(e) && e.timestamp >= cutoff ==> #[trigger] kept_snapshots(
                s,
                cutoff,
            ).contains(e),
    decreases s.len(),
{
    if s.len() > 0 {
        let s0 = s.drop_last();
        let ks = kept_snapshots(s, cutoff);
        let ks0 = kept_snapshots(s0, cutoff);
        lemma_kept_snapshots_contains(s0, cutoff);
        if s.last().timestamp >= cutoff {
            assert(ks == ks0.push(s.last()));
        } else {
            assert(ks == ks0);
        }
        assert forall|e: StatusSnapshot| #[trigger] ks.contains(e) implies s.contains(e)
            && e.timestamp >= cutoff by {
            let i = choose|i: int| 0 <= i < ks.len() && ks[i] == e;
            if s.last().timestamp >= cutoff && i == ks.len() - 1 {
                assert(s[s.len() - 1] == e);
            } else {
                assert(ks0[i] == e);
                assert(ks0.contains(e));
                let q = choose|q: int| 0 <= q < s0.len() && s0[q] == e;
                assert(s[q] == e);
            }
        }
        assert forall|e: StatusSnapshot| s.contains(e) && e.timestamp >= cutoff implies #[trigger]
            ks.contains(e) by {
            let q = choose|q: int| 0 <= q < s.len() && s[q] == e;
            if q == s.len() - 1 {
                assert(s.last() == e);
                assert(ks[ks.len() - 1] == e);
            } else {
                assert(s0[q] == e);
                assert(s0.contains(e));
                assert(ks0.contains(e));
                let i = choose|i: int| 0 <= i < ks0.len() && ks0[i] == e;
                assert(ks[i] == e);
            }
        }
    }
}

/// The retention filter never introduces a duplicate snapshot key.
pub proof fn lemma_kept_snapshots_unique(s: Seq<StatusSnapshot>, cutoff: int)
    requires
        snapshot_keys_unique(s),
    ensures
        snapshot_keys_unique(kept_snapshots(s, cutoff)),
    decreases s.len(),
{
    if s.len() > 0 {
        let s0 = s.drop_last();
        let ks0 = kept_snapshots(s0, cutoff);
        lemma_kept_snapshots_unique(s0, cutoff);
        if s.last().timestamp >= cutoff {
            lemma_kept_snapshots_contains(s0, cutoff);
            let ks = kept_snapshots(s, cutoff);
            assert forall|i: int, j: int| 0 <= i < j < ks.len() implies !same_key(ks[i], ks[j]) by {
                if j == ks.len() - 1 {
                    assert(ks0.contains(ks0[i]));
                    let q = choose|q: int| 0 <= q < s0.len() && s0[q] == ks[i];
                    assert(!same_key(s[q], s[s.len() - 1]));
                } else {
                    assert(!same_key(ks0[i], ks0[j]));
                }
            }
        }
    }
}

/// The append-only record of raw heartbeat events, in arrival order.
pub struct HeartbeatStore {
    events: Vec<HeartbeatEvent>,
}

impl View for HeartbeatStore {
    type V = Seq<HeartbeatEvent>;

    closed spec fn view(&self) -> Seq<HeartbeatEvent> {
        self.events@
    }
}

impl HeartbeatStore {
    /// Every recorded timestamp lies in the range the library is defined on.
    pub open spec fn wf(&self) -> bool {
        forall|i: int| 0 <= i < self@.len() ==> 0 <= #[trigger] self@[i].timestamp <= MAX_TIME
    }

    /// An empty store.
    pub fn new() -> (s: HeartbeatStore)
        ensures
            s@ == Seq::<HeartbeatEvent>::empty(),
            s.wf(),
    {
        HeartbeatStore { events: Vec::new() }
    }

    /// Number of stored events.
    pub fn len(&self) -> (n: usize)
        ensures
            n == self@.len(),
    {
        self.events.len()
    }

    /// The event at position `i`, in arrival order.
    pub fn get(&self, i: usize) -> (e: &HeartbeatEvent)
        requires
            i < self@.len(),
        ensures
            *e == self@[i as int],
    {
        &self.events[i]
    }

    /// Append one liveness signal.
    pub fn insert(&mut self, name: String, timestamp: i64)
        requires
            old(self).wf(),
            0 <= timestamp <= MAX_TIME,
        ensures
            final(self)@ == old(self)@.push((HeartbeatEvent { name, timestamp })),
            final(self).wf(),
    {
        self.events.push(HeartbeatEvent { name, timestamp });
        proof {
            assert forall|i: int| 0 <= i < self@.len() implies 0 <= #[trigger] self@[i].timestamp
                <= MAX_TIME by {
                if i < old(self)@.len() {
                    assert(0 <= old(self)@[i].timestamp <= MAX_TIME);
                }
            }
        }
    }

    /// The events at or after `cutoff`, in arrival order.
    pub fn query_since(&self, cutoff: i64) -> (r: Vec<HeartbeatEvent>)
        ensures
            r@ == kept_events(self@, cutoff as int),
    {
        let mut out: Vec<HeartbeatEvent> = Vec::new();
        let n = self.events.len();
        let mut i: usize = 0;
        while i < n
            invariant
                i <= n,
                n == self.events@.len(),
                out@ == kept_events(self.events@.subrange(0, i as int), cutoff as int),
            decreases n - i,
        {
            proof {
                assert(self.events@.subrange(0, i + 1 as int).drop_last() =~= self.events@.subrange(
                    0,
                    i as int,
                ));
            }
            if self.events[i].timestamp >= cutoff {
                out.push(
                    HeartbeatEvent {
                        name: self.events[i].name.clone(),
                        timestamp: self.events[i].timestamp,
                    },
                );
            }
            i = i + 1;
        }
        proof {
            assert(self.events@.subrange(0, n as int) =~= self.events@);
        }
        out
    }

    /// Delete every event strictly older than `cutoff`; returns how many were
    /// removed, for observability only.
    pub fn delete_before(&mut self, cutoff: i64) -> (removed: usize)
        requires
            old(self).wf(),
        ensures
            final(self)@ == kept_events(old(self)@, cutoff as int),
            final(self).wf(),
            removed == old(self)@.len() - final(self)@.len(),
    {
        let kept = self.query_since(cutoff);
        proof {
            lemma_kept_events_contains(self@, cutoff as int);
            assert forall|i: int| 0 <= i < kept@.len() implies 0 <= #[trigger] kept@[i].timestamp
                <= MAX_TIME by {
                assert(kept@.contains(kept@[i]));
                let q = choose|q: int| 0 <= q < self@.len() && self@[q] == kept@[i];
            }
            lemma_kept_events_len(self@, cutoff as int);
        }
        let removed = self.events.len() - kept.len();
        self.events = kept;
        removed
    }
}

/// The retention filter cannot grow the store.
pub proof fn lemma_kept_events_len(s: Seq<HeartbeatEvent>, cutoff: int)
    ensures
        kept_events(s, cutoff).len() <= s.len(),
    decreases s.len(),
{
    if s.len() > 0 {
        lemma_kept_events_len(s.drop_last(), cutoff);
    }
}

/// The retention filter cannot grow the store.
proof fn lemma_kept_snapshots_len(s: Seq<StatusSnapshot>, cutoff: int)
    ensures
        kept_snapshots(s, cutoff).len() <= s.len(),
    decreases s.len(),
{
    if s.len() > 0 {
        lemma_kept_snapshots_len(s.drop_last(), cutoff);
    }
}

/// The durable hourly counts, at most one record per
/// `(service_name, hour_bucket)` pair.
pub struct SnapshotStore {
    snaps: Vec<StatusSnapshot>,
}

impl View for SnapshotStore {
    type V = Seq<StatusSnapshot>;

    closed spec fn view(&self) -> Seq<StatusSnapshot> {
        self.snaps@
    }
}

impl SnapshotStore {
    /// The uniqueness invariant: at most one snapshot per key, enforced by
    /// `upsert`, not by a storage-level constraint.
    pub open spec fn wf(&self) -> bool {
        snapshot_keys_unique(self@)
    }

    /// An empty store.
    pub fn new() -> (s: SnapshotStore)
        ensures
            s@ == Seq::<StatusSnapshot>::empty(),
            s.wf(),
    {
        SnapshotStore { snaps: Vec::new() }
    }

    /// Number of stored snapshots.
    pub fn len(&self) -> (n: usize)
        ensures
            n == self@.len(),
    {
        self.snaps.len()
    }

    /// The snapshot at position `i`.
    pub fn get(&self, i: usize) -> (e: &StatusSnapshot)
        requires
            i < self@.len(),
        ensures
            *e == self@[i as int],
    {
        &self.snaps[i]
    }

    /// The count stored for `(name, bucket)`, if any.
    pub fn find(&self, name: &String, bucket: i64) -> (r: Option<i32>)
        requires
            self.wf(),
        ensures
            match r {
                Some(c) => spec_lookup(self@, name@, bucket as int) == Some(c as int),
                None => spec_lookup(self@, name@, bucket as int) is None,
            },
    {
        let n = self.snaps.len();
        let mut i: usize = 0;
        while i < n
            invariant
                i <= n,
                n == self.snaps@.len(),
                self.wf(),
                forall|j: int| 0 <= j < i ==> !snap_matches(self.snaps@[j], name@, bucket as int),
            decreases n - i,
        {
            if self.snaps[i].name == *name && self.snaps[i].timestamp == bucket {
                proof {
                    assert forall|j: int|
                        0 <= j < self.snaps@.len() && j != i implies !snap_matches(
                        self.snaps@[j],
                        name@,
                        bucket as int,
                    ) by {
                        if j > i {
                            assert(!same_key(self.snaps@[i as int], self.snaps@[j]));
                        }
                    }
                    lemma_lookup_only_match(self.snaps@, name@, bucket as int, i as int);
                }
                return Some(self.snaps[i].count);
            }
            i = i + 1;
        }
        proof {
            lemma_lookup_none(self.snaps@, name@, bucket as int);
        }
        None
    }

    /// Insert or update the count for `(name, bucket)`: afterwards that key
    /// stores exactly `count` and every other key is untouched.
    pub fn upsert(&mut self, name: &String, bucket: i64, count: i32)
        requires
            old(self).wf(),
        ensures
            final(self).wf(),
            forall|n: Seq<char>, b: int|
                #[trigger] spec_lookup(final(self)@, n, b) == (if n == name@ && b == bucket {
                    Some(count as int)
                } else {
                    spec_lookup(old(self)@, n, b)
                }),
            final(self)@.len() <= old(self)@.len() + 1,
    {
        let n = self.snaps.len();
        let mut i: usize = 0;
        while i < n
            invariant
                i <= n,
                n == self.snaps@.len(),
                *self == *old(self),
                old(self).wf(),
                forall|j: int| 0 <= j < i ==> !snap_matches(self.snaps@[j], name@, bucket as int),
            decreases n - i,
        {
            if self.snaps[i].name == *name && self.snaps[i].timestamp == bucket {
                let ghost prev = self.snaps@;
                let updated = StatusSnapshot {
                    name: self.snaps[i].name.clone(),
                    timestamp: bucket,
                    count,
                };
                self.snaps[i] = updated;
                proof {
                    assert(same_key(updated, prev[i as int]));
                    assert forall|nn: Seq<char>, b: int| #[trigger]
                        spec_lookup(self.snaps@, nn, b) == (if nn == name@ && b == bucket {
                            Some(count as int)
                        } else {
                            spec_lookup(prev, nn, b)
                        }) by {
                        if nn == name@ && b == bucket {
                            assert forall|j: int|
                                0 <= j < self.snaps@.len() && j != i implies !snap_matches(
                                self.snaps@[j],
                                nn,
                                b,
                            ) by {
                                if j > i {
                                    assert(!same_key(prev[i as int], prev[j]));
                                }
                            }
                            assert(snap_matches(self.snaps@[i as int], nn, b));
                            lemma_lookup_only_match(self.snaps@, nn, b, i as int);
                        } else {
                            lemma_lookup_update_other(prev, i as int, updated, nn, b);
                        }
                    }
                    assert forall|p: int, q: int| 0 <= p < q < self.snaps@.len() implies !same_key(
                        self.snaps@[p],
                        self.snaps@[q],
                    ) by {
                        assert(same_key(prev[p], self.snaps@[p]) && same_key(
                            prev[q],
                            self.snaps@[q],
                        ));
                        assert(!same_key(prev[p], prev[q]));
                    }
                }
                return ;
            }
            i = i + 1;
        }
        let ghost prev = self.snaps@;
        let added = StatusSnapshot { name: name.clone(), timestamp: bucket, count };
        self.snaps.push(added);
        proof {
            assert(snap_matches(added, name@, bucket as int));
            assert forall|nn: Seq<char>, b: int| #[trigger]
                spec_lookup(self.snaps@, nn, b) == (if nn == name@ && b == bucket {
                    Some(count as int)
                } else {
                    spec_lookup(prev, nn, b)
                }) by {
                if nn == name@ && b == bucket {
                    lemma_lookup_push_matching(prev, added, nn, b);
                } else {
                    lemma_lookup_push_other(prev, added, nn, b);
                }
            }
            assert forall|p: int, q: int| 0 <= p < q < self.snaps@.len() implies !same_key(
                self.snaps@[p],
                self.snaps@[q],
            ) by {
                if q == self.snaps@.len() - 1 {
                    assert(!snap_matches(prev[p], name@, bucket as int));
                } else {
                    assert(!same_key(prev[p], prev[q]));
                }
            }
        }
    }

    /// Delete every snapshot whose hour bucket is strictly older than
    /// `cutoff`; returns how many were removed, for observability only.
    pub fn delete_before(&mut self, cutoff: i64) -> (removed: usize)
        requires
            old(self).wf(),
        ensures
            final(self)@ == kept_snapshots(old(self)@, cutoff as int),
            final(self).wf(),
            removed == old(self)@.len() - final(self)@.len(),
    {
        let mut out: Vec<StatusSnapshot> = Vec::new();
        let n = self.snaps.len();
        let mut i: usize = 0;
        while i < n
            invariant
                i <= n,
                n == self.snaps@.len(),
                out@ == kept_snapshots(self.snaps@.subrange(0, i as int), cutoff as int),
            decreases n - i,
        {
            proof {
                assert(self.snaps@.subrange(0, i + 1 as int).drop_last() =~= self.snaps@.subrange(
                    0,
                    i as int,
                ));
            }
            if self.snaps[i].timestamp >= cutoff {
                out.push(
                    StatusSnapshot {
                        name: self.snaps[i].name.clone(),
                        timestamp: self.snaps[i].timestamp,
                        count: self.snaps[i].count,
                    },
                );
            }
            i = i + 1;
        }
        proof {
            assert(self.snaps@.subrange(0, n as int) =~= self.snaps@);
            lemma_kept_snapshots_unique(self@, cutoff as int);
            lemma_kept_snapshots_len(self@, cutoff as int);
        }
        let removed = self.snaps.len() - out.len();
        self.snaps = out;
        removed
    }
}

} // verus!
