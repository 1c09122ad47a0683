//! The aggregator: raw heartbeat density to durable hourly counts.
//!
//! Every run recomputes, for each configured service and for the current and
//! previous hour buckets, the full count of matching heartbeats in the
//! lookback window, and upserts it.  Because every write is a full recompute
//! and never an increment, a run is idempotent and tolerates heartbeats
//! arriving in any order relative to aggregation runs.

use crate::config::{Config, ConfigService};
use crate::store::{
    kept_events, spec_lookup, HeartbeatEvent, HeartbeatStore, SnapshotStore, StatusSnapshot,
};
use crate::time::{hour_bucket, spec_hour_bucket, LOOKBACK_SECONDS, MAX_TIME, SECONDS_PER_HOUR};
use vstd::prelude::*;

verus! {

/// Whether event `e` counts towards service `name` in hour `bucket`.
pub open spec fn event_matches(e: HeartbeatEvent, name: Seq<char>, bucket: int) -> bool {
    e.name@ == name && spec_hour_bucket(e.timestamp as int) == bucket
}

/// How many heartbeats of `events` belong to service `name` in hour `bucket`.
pub open spec fn spec_count(events: Seq<HeartbeatEvent>, name: Seq<char>, bucket: int) -> int
    decreases events.len(),
{
    if events.len() == 0 {
        0
    } else {
        spec_count(events.drop_last(), name, bucket) + (if event_matches(
            events.last(),
            name,
            bucket,
        ) {
            1int
        } else {
            0int
        })
    }
}

/// Whether some configured service carries the canonical name `n`.
pub open spec fn spec_service_named(services: Seq<ConfigService>, n: Seq<char>) -> bool {
    exists|i: int| 0 <= i < services.len() && (#[trigger] services[i]).spec_prefixed_name() == n
}

/// The two buckets an aggregator run at `now` refreshes: the current hour and
/// the previous one.
pub open spec fn is_target_bucket(now: int, b: int) -> bool {
    b == spec_hour_bucket(now) || b == spec_hour_bucket(now) - (SECONDS_PER_HOUR as int)
}

/// What one aggregator run at `now` leaves in the snapshot store: for every
/// configured service and both target buckets exactly the recomputed count —
/// zero included — and every other record untouched.
pub open spec fn aggregated(
    services: Seq<ConfigService>,
    events: Seq<HeartbeatEvent>,
    now: int,
    pre: Seq<StatusSnapshot>,
    post: Seq<StatusSnapshot>,
) -> bool {
    forall|n: Seq<char>, b: int|
        #[trigger] spec_lookup(post, n, b) == (if spec_service_named(services, n)
            && is_target_bucket(now, b) {
            Some(spec_count(events, n, b))
        } else {
            spec_lookup(pre, n, b)
        })
}

/// Count the heartbeats for `name` in `bucket` by a full scan of `events`.
pub fn count_heartbeats(events: &Vec<HeartbeatEvent>, name: &String, bucket: i64) -> (c: usize)
    requires
        forall|k: int| 0 <= k < events@.len() ==> 0 <= #[trigger] events@[k].timestamp,
    ensures
        c == spec_count(events@, name@, bucket as int),
        c <= events@.len(),
{
    let n = events.len();
    let mut c: usize = 0;
    let mut i: usize = 0;
    while i < n
        invariant
            i <= n,
            n == events@.len(),
            forall|k: int| 0 <= k < events@.len() ==> 0 <= #[trigger] events@[k].timestamp,
            c == spec_count(events@.subrange(0, i as int), name@, bucket as int),
            c <= i,
        decreases n - i,
    {
        proof {
            assert(events@.subrange(0, i + 1 as int).drop_last() =~= events@.subrange(0, i as int));
        }
        if events[i].name == *name && hour_bucket(events[i].timestamp) == bucket {
            c = c + 1;
        }
        i = i + 1;
    }
    proof {
        assert(events@.subrange(0, n as int) =~= events@);
    }
    c
}

proof fn lemma_named_extend(services: Seq<ConfigService>, i: int, n: Seq<char>)
    requires
        0 <= i < services.len(),
    ensures
        spec_service_named(services.subrange(0, i + 1), n) <==> (spec_service_named(
            services.subrange(0, i),
            n,
        ) || services[i].spec_prefixed_name() == n),
{
    let s1 = services.subrange(0, i + 1);
    let s0 = services.subrange(0, i);
    if spec_service_named(s1, n) {
        let k = choose|k: int| 0 <= k < s1.len() && (#[trigger] s1[k]).spec_prefixed_name() == n;
        if k < i {
            assert(s0[k] == s1[k]);
            assert(spec_service_named(s0, n));
        } else {
            assert(s1[k] == services[i]);
        }
    }
    if spec_service_named(s0, n) {
        let k = choose|k: int| 0 <= k < s0.len() && (#[trigger] s0[k]).spec_prefixed_name() == n;
        assert(s1[k] == s0[k]);
        assert(spec_service_named(s1, n));
    }
    if services[i].spec_prefixed_name() == n {
        assert(s1[i] == services[i]);
        assert(spec_service_named(s1, n));
    }
}

/// Refresh the current and previous hour buckets for every configured
/// service, each count fully recomputed from `events`.
pub fn run_aggregation(
    services: &Vec<ConfigService>,
    events: &Vec<HeartbeatEvent>,
    store: &mut SnapshotStore,
    now: i64,
)
    requires
        0 <= now <= MAX_TIME,
        old(store).wf(),
        events@.len() <= 0x7fff_ffff,
        forall|k: int| 0 <= k < events@.len() ==> 0 <= #[trigger] events@[k].timestamp,
    ensures
        final(store).wf(),
        aggregated(services@, events@, now as int, old(store)@, final(store)@),
{
    let b0 = hour_bucket(now);
    let b1 = b0 - SECONDS_PER_HOUR;
    let n = services.len();
    let mut i: usize = 0;
    while i < n
        invariant
            i <= n,
            n == services@.len(),
            store.wf(),
            0 <= now <= MAX_TIME,
            b0 == spec_hour_bucket(now as int),
            b1 == b0 - SECONDS_PER_HOUR,
            events@.len() <= 0x7fff_ffff,
            forall|k: int| 0 <= k < events@.len() ==> 0 <= #[trigger] events@[k].timestamp,
            aggregated(
                services@.subrange(0, i as int),
                events@,
                now as int,
                old(store)@,
                store@,
            ),
        decreases n - i,
    {
        let name = services[i].prefixed_name();
        let ghost snaps_before = store@;
        let c0 = count_heartbeats(events, &name, b0);
        store.upsert(&name, b0, c0 as i32);
        let ghost snaps_mid = store@;
        let c1 = count_heartbeats(events, &name, b1);
        store.upsert(&name, b1, c1 as i32);
        proof {
            let svc1 = services@.subrange(0, i + 1 as int);
            assert forall|nn: Seq<char>, b: int| #[trigger]
                spec_lookup(store@, nn, b) == (if spec_service_named(svc1, nn)
                    && is_target_bucket(now as int, b) {
                    Some(spec_count(events@, nn, b))
                } else {
                    spec_lookup(old(store)@, nn, b)
                }) by {
                lemma_named_extend(services@, i as int, nn);
                assert(spec_lookup(snaps_mid, nn, b) == (if nn == name@ && b == b0 {
                    Some(c0 as int)
                } else {
                    spec_lookup(snaps_before, nn, b)
                }));
                assert(spec_lookup(store@, nn, b) == (if nn == name@ && b == b1 {
                    Some(c1 as int)
                } else {
                    spec_lookup(snaps_mid, nn, b)
                }));
                assert(spec_lookup(snaps_before, nn, b) == (if spec_service_named(
                    services@.subrange(0, i as int),
                    nn,
                ) && is_target_bucket(now as int, b) {
                    Some(spec_count(events@, nn, b))
                } else {
                    spec_lookup(old(store)@, nn, b)
                }));
            }
        }
        i = i + 1;
    }
    proof {
        assert(services@.subrange(0, n as int) =~= services@);
    }
}

/// One aggregator run as the background job performs it: read the lookback
/// window back from the heartbeat store, then recompute and upsert both
/// target buckets for every configured service.
pub fn collect_status(
    config: &Config,
    heartbeats: &HeartbeatStore,
    store: &mut SnapshotStore,
    now: i64,
)
    requires
        0 <= now <= MAX_TIME,
        heartbeats.wf(),
        heartbeats@.len() <= 0x7fff_ffff,
        old(store).wf(),
    ensures
        final(store).wf(),
        aggregated(
            config.services@,
            kept_events(heartbeats@, now as int - LOOKBACK_SECONDS as int),
            now as int,
            old(store)@,
            final(store)@,
        ),
{
    let cutoff = now - LOOKBACK_SECONDS;
    let recent = heartbeats.query_since(cutoff);
    proof {
        crate::store::lemma_kept_events_contains(heartbeats@, cutoff as int);
        assert forall|k: int| 0 <= k < recent@.len() implies 0 <= #[trigger]
            recent@[k].timestamp by {
            assert(recent@.contains(recent@[k]));
            let q = choose|q: int| 0 <= q < heartbeats@.len() && heartbeats@[q] == recent@[k];
        }
        crate::store::lemma_kept_events_len(heartbeats@, cutoff as int);
    }
    run_aggregation(&config.services, &recent, store, now);
}

/// Law: aggregation is idempotent.  Two aggregator runs in immediate
/// succession over the same heartbeats leave exactly the counts the first run
/// left, for every service and every hour bucket.
pub proof fn lemma_aggregation_idempotent(
    services: Seq<ConfigService>,
    events: Seq<HeartbeatEvent>,
    now: int,
    s0: Seq<StatusSnapshot>,
    s1: Seq<StatusSnapshot>,
    s2: Seq<StatusSnapshot>,
)
    requires
        aggregated(services, events, now, s0, s1),
        aggregated(services, events, now, s1, s2),
    ensures
        forall|n: Seq<char>, b: int| #[trigger] spec_lookup(s2, n, b) == spec_lookup(s1, n, b),
{
    assert forall|n: Seq<char>, b: int| #[trigger]
        spec_lookup(s2, n, b) == spec_lookup(s1, n, b) by {
        assert(spec_lookup(s1, n, b) == (if spec_service_named(services, n) && is_target_bucket(
            now,
            b,
        ) {
            Some(spec_count(events, n, b))
        } else {
            spec_lookup(s0, n, b)
        }));
    }
}

proof fn lemma_count_zero(events: Seq<HeartbeatEvent>, name: Seq<char>, bucket: int)
    requires
        forall|j: int| 0 <= j < events.len() ==> !event_matches(#[trigger] events[j], name, bucket),
    ensures
        spec_count(events, name, bucket) == 0,
    decreases events.len(),
{
    if events.len() > 0 {
        lemma_count_zero(events.drop_last(), name, bucket);
    }
}

/// Law: zero-fill.  A configured service with no heartbeat in the current
/// hour still receives a snapshot for that hour after an aggregator run, with
/// count zero — it is not simply absent.
pub proof fn lemma_zero_fill(
    services: Seq<ConfigService>,
    events: Seq<HeartbeatEvent>,
    now: int,
    pre: Seq<StatusSnapshot>,
    post: Seq<StatusSnapshot>,
    k: int,
)
    requires
        aggregated(services, events, now, pre, post),
        0 <= k < services.len(),
        forall|j: int|
            0 <= j < events.len() ==> !event_matches(
                #[trigger] events[j],
                services[k].spec_prefixed_name(),
                spec_hour_bucket(now),
            ),
    ensures
        spec_lookup(post, services[k].spec_prefixed_name(), spec_hour_bucket(now)) == Some(0int),
{
    let name = services[k].spec_prefixed_name();
    lemma_count_zero(events, name, spec_hour_bucket(now));
    assert(spec_service_named(services, name));
}

} // verus!
