//! The retention sweeper: bounded history in both stores.
//!
//! Once a day every heartbeat event and every snapshot older than the
//! retention horizon (3 days) is deleted.  The two deletions are independent
//! bulk operations; deletes only target data far outside the aggregator's
//! lookback, so the sweep tolerates arbitrary interleaving with the other
//! components.

use crate::store::{
    kept_events, kept_snapshots, lemma_kept_events_contains, lemma_kept_snapshots_contains,
    HeartbeatEvent, HeartbeatStore, SnapshotStore, StatusSnapshot,
};
use crate::time::{MAX_TIME, RETENTION_SECONDS};
use vstd::prelude::*;

verus! {

/// One retention sweep as the background job performs it: delete everything
/// older than the horizon from both stores.  Returns how many events and how
/// many snapshots were removed, for observability only.
pub fn clean_database(
    heartbeats: &mut HeartbeatStore,
    snapshots: &mut SnapshotStore,
    now: i64,
) -> (removed: (usize, usize))
    requires
        0 <= now <= MAX_TIME,
        old(heartbeats).wf(),
        old(snapshots).wf(),
    ensures
        final(heartbeats).wf(),
        final(snapshots).wf(),
        final(heartbeats)@ == kept_events(
            old(heartbeats)@,
            now as int - (RETENTION_SECONDS as int),
        ),
        final(snapshots)@ == kept_snapshots(
            old(snapshots)@,
            now as int - (RETENTION_SECONDS as int),
        ),
        removed.0 == old(heartbeats)@.len() - final(heartbeats)@.len(),
        removed.1 == old(snapshots)@.len() - final(snapshots)@.len(),
{
    let cutoff = now - RETENTION_SECONDS;
    let removed_events = heartbeats.delete_before(cutoff);
    let removed_snapshots = snapshots.delete_before(cutoff);
    (removed_events, removed_snapshots)
}

/// Law: retention.  After a sweep at `now`, a heartbeat event remains exactly
/// when it already existed and is no older than the horizon, and likewise for
/// snapshots: nothing older survives, and nothing newer is touched.
pub proof fn lemma_retention(events: Seq<HeartbeatEvent>, snaps: Seq<StatusSnapshot>, now: int)
    ensures
        forall|e: HeartbeatEvent| #[trigger]
            kept_events(events, now - (RETENTION_SECONDS as int)).contains(e) <==> (events.contains(
                e,
            ) && e.timestamp >= now - (RETENTION_SECONDS as int)),
        forall|e: StatusSnapshot| #[trigger]
            kept_snapshots(snaps, now - (RETENTION_SECONDS as int)).contains(e) <==> (
            snaps.contains(e) && e.timestamp >= now - (RETENTION_SECONDS as int)),
{
    lemma_kept_events_contains(events, now - (RETENTION_SECONDS as int));
    lemma_kept_snapshots_contains(snaps, now - (RETENTION_SECONDS as int));
}

} // verus!
