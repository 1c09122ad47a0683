//! The window view builder: the last 48 hours per service, gap-aware.
//!
//! A pure read over the snapshot store: for every configured service, the
//! hourly samples from the current-hour pivot backwards.  An hour with no
//! snapshot row is an explicit gap (`None`), never zero — zero means a
//! snapshot recorded no heartbeats, a gap means nothing was recorded at all.
//! The all-gap tail at the old end is trimmed; interior gaps are preserved.

use crate::config::Config;
use crate::store::{spec_lookup, SnapshotStore, StatusSnapshot};
use crate::time::{
    format_hour, hour_bucket, hour_label_of, spec_hour_bucket, MAX_TIME, SECONDS_PER_HOUR,
    WINDOW_HOURS,
};
use vstd::prelude::*;

verus! {

/// One rendered service: the canonical prefixed name, the configured
/// description, and the trimmed hourly samples from the pivot backwards.
pub struct Service {
    pub name: String,
    pub desc: String,
    pub stat: Vec<Option<i32>>,
}

/// The whole window view: the pivot hour used for alignment, and one entry
/// per configured service, in configuration order.
pub struct Response {
    pub pivot: String,
    pub services: Vec<Service>,
}

/// The stored count for window slot `i`: the hour `i` hours before the pivot.
pub open spec fn spec_slot(
    snaps: Seq<StatusSnapshot>,
    name: Seq<char>,
    pivot: int,
    i: int,
) -> Option<int> {
    spec_lookup(snaps, name, pivot - i * (SECONDS_PER_HOUR as int))
}

/// A sample as the mathematical count it renders.
pub open spec fn opt_count(o: Option<i32>) -> Option<int> {
    match o {
        Some(c) => Some(c as int),
        None => None,
    }
}

/// `stat` is the correctly trimmed window for `name` at `pivot`: every kept
/// slot carries exactly the stored count for its hour — a gap where no row
/// exists — every slot beyond the kept length is a gap, and the window never
/// ends in a gap.
pub open spec fn spec_window_view(
    snaps: Seq<StatusSnapshot>,
    name: Seq<char>,
    pivot: int,
    stat: Seq<Option<i32>>,
) -> bool {
    &&& stat.len() <= WINDOW_HOURS
    &&& forall|i: int|
        0 <= i < stat.len() ==> opt_count(#[trigger] stat[i]) == spec_slot(snaps, name, pivot, i)
    &&& forall|i: int| stat.len() <= i < WINDOW_HOURS ==> spec_slot(snaps, name, pivot, i) is None
    &&& stat.len() > 0 ==> stat[stat.len() - 1] is Some
}

/// The trimmed hourly samples for one service: one slot per hour from the
/// pivot backwards, trailing gaps removed.
pub fn compute_stat(store: &SnapshotStore, name: &String, pivot: i64) -> (stat: Vec<Option<i32>>)
    requires
        store.wf(),
        0 <= pivot <= MAX_TIME,
    ensures
        spec_window_view(store@, name@, pivot as int, stat@),
{
    let mut stat: Vec<Option<i32>> = Vec::new();
    let mut i: usize = 0;
    while i < WINDOW_HOURS
        invariant
            i <= WINDOW_HOURS,
            store.wf(),
            0 <= pivot <= MAX_TIME,
            stat@.len() == i,
            forall|j: int|
                0 <= j < i ==> opt_count(#[trigger] stat@[j]) == spec_slot(
                    store@,
                    name@,
                    pivot as int,
                    j,
                ),
        decreases WINDOW_HOURS - i,
    {
        let b = pivot - (i as i64) * SECONDS_PER_HOUR;
        stat.push(store.find(name, b));
        i = i + 1;
    }
    while stat.len() > 0 && stat[stat.len() - 1].is_none()
        invariant
            stat@.len() <= WINDOW_HOURS,
            forall|j: int|
                0 <= j < stat@.len() ==> opt_count(#[trigger] stat@[j]) == spec_slot(
                    store@,
                    name@,
                    pivot as int,
                    j,
                ),
            forall|j: int|
                stat@.len() <= j < WINDOW_HOURS ==> spec_slot(store@, name@, pivot as int, j)
                    is None,
        decreases stat@.len(),
    {
        stat.pop();
    }
    stat
}

/// The whole rolling-window view at `now`: the pivot hour label and, for
/// every configured service in configuration order, its prefixed name, its
/// description and its trimmed samples.
pub fn build_response(config: &Config, store: &SnapshotStore, now: i64) -> (r: Response)
    requires
        store.wf(),
        0 <= now <= MAX_TIME,
    ensures
        r.pivot@ == hour_label_of(spec_hour_bucket(now as int)),
        r.services@.len() == config.services@.len(),
        forall|k: int|
            0 <= k < config.services@.len() ==> (#[trigger] r.services@[k]).name@
                == config.services@[k].spec_prefixed_name(),
        forall|k: int|
            0 <= k < config.services@.len() ==> (#[trigger] r.services@[k]).desc@
                == config.services@[k].spec_description(),
        forall|k: int|
            0 <= k < config.services@.len() ==> spec_window_view(
                store@,
                config.services@[k].spec_prefixed_name(),
                spec_hour_bucket(now as int),
                (#[trigger] r.services@[k]).stat@,
            ),
{
    let pivot = hour_bucket(now);
    let n = config.services.len();
    let mut services: Vec<Service> = Vec::new();
    let mut k: usize = 0;
    while k < n
        invariant
            k <= n,
            n == config.services@.len(),
            store.wf(),
            0 <= now <= MAX_TIME,
            pivot == spec_hour_bucket(now as int),
            0 <= pivot <= MAX_TIME,
            services@.len() == k,
            forall|j: int|
                0 <= j < k ==> (#[trigger] services@[j]).name@
                    == config.services@[j].spec_prefixed_name(),
            forall|j: int|
                0 <= j < k ==> (#[trigger] services@[j]).desc@
                    == config.services@[j].spec_description(),
            forall|j: int|
                0 <= j < k ==> spec_window_view(
                    store@,
                    config.services@[j].spec_prefixed_name(),
                    spec_hour_bucket(now as int),
                    (#[trigger] services@[j]).stat@,
                ),
        decreases n - k,
    {
        let entry = &config.services[k];
        let name = entry.prefixed_name();
        let stat = compute_stat(store, &name, pivot);
        services.push(Service { name, desc: entry.get_description().clone(), stat });
        k = k + 1;
    }
    Response { pivot: format_hour(pivot), services }
}

/// Law: gap versus zero.  The view never renders a count for an hour without
/// a snapshot row: a slot whose hour has no stored record is an explicit gap.
pub proof fn lemma_gap_is_absent(
    snaps: Seq<StatusSnapshot>,
    name: Seq<char>,
    pivot: int,
    stat: Seq<Option<i32>>,
    i: int,
)
    requires
        spec_window_view(snaps, name, pivot, stat),
        0 <= i < stat.len(),
        spec_slot(snaps, name, pivot, i) is None,
    ensures
        stat[i] is None,
{
}

} // verus!
