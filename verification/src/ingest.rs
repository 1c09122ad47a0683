//! The push receiver: token-authenticated heartbeats.
//!
//! A caller-supplied token is resolved against the configured push services;
//! on a match one heartbeat event is recorded with the canonical prefixed
//! name.  An unknown token is an expected outcome, not an error, and performs
//! no store write.

use crate::config::{Config, ConfigService};
use crate::store::HeartbeatStore;
use crate::time::MAX_TIME;
use vstd::prelude::*;

verus! {

/// The outcome of an ingest call.
#[derive(Debug, PartialEq, Eq, Structural)]
pub enum IngestOutcome {
    /// The token matched a configured push service; one heartbeat was recorded.
    Accepted,
    /// No configured push service carries the token; nothing was written.
    NotFound,
}

/// The canonical name of the push service the token designates: the first
/// push entry whose token matches, with the producer-kind prefix.
pub open spec fn spec_token_name(services: Seq<ConfigService>, token: Seq<char>) -> Option<
    Seq<char>,
>
    decreases services.len(),
{
    if services.len() == 0 {
        None
    } else if services[0].spec_token() == Some(token) {
        Some(services[0].spec_prefixed_name())
    } else {
        spec_token_name(services.drop_first(), token)
    }
}

proof fn lemma_token_first_match(services: Seq<ConfigService>, token: Seq<char>, k: int)
    requires
        0 <= k < services.len(),
        services[k].spec_token() == Some(token),
        forall|j: int| 0 <= j < k ==> (#[trigger] services[j]).spec_token() != Some(token),
    ensures
        spec_token_name(services, token) == Some(services[k].spec_prefixed_name()),
    decreases k,
{
    if k > 0 {
        lemma_token_first_match(services.drop_first(), token, k - 1);
    }
}

proof fn lemma_token_no_match(services: Seq<ConfigService>, token: Seq<char>)
    requires
        forall|j: int|
            0 <= j < services.len() ==> (#[trigger] services[j]).spec_token() != Some(token),
    ensures
        spec_token_name(services, token) is None,
    decreases services.len(),
{
    if services.len() > 0 {
        lemma_token_no_match(services.drop_first(), token);
    }
}

/// Resolve a caller-supplied token to the canonical prefixed name of the
/// first configured push service carrying it.
pub fn resolve_token(services: &Vec<ConfigService>, token: &String) -> (r: Option<String>)
    ensures
        match r {
            Some(n) => spec_token_name(services@, token@) == Some(n@),
            None => spec_token_name(services@, token@) is None,
        },
{
    let n = services.len();
    let mut i: usize = 0;
    while i < n
        invariant
            i <= n,
            n == services@.len(),
            forall|j: int| 0 <= j < i ==> (#[trigger] services@[j]).spec_token() != Some(token@),
        decreases n - i,
    {
        let matched = match &services[i] {
            ConfigService::Push { token: t, .. } => *t == *token,
            ConfigService::Poll { .. } => false,
        };
        if matched {
            proof {
                lemma_token_first_match(services@, token@, i as int);
            }
            return Some(services[i].prefixed_name());
        }
        i = i + 1;
    }
    proof {
        lemma_token_no_match(services@, token@);
    }
    None
}

/// Record one push heartbeat at `now` for the service the token designates,
/// or report that no configured service matches and write nothing.
pub fn ingest(config: &Config, store: &mut HeartbeatStore, token: &String, now: i64) -> (r:
    IngestOutcome)
    requires
        0 <= now <= MAX_TIME,
        old(store).wf(),
    ensures
        final(store).wf(),
        spec_token_name(config.services@, token@) is None ==> (r == IngestOutcome::NotFound
            && final(store)@ == old(store)@),
        spec_token_name(config.services@, token@) matches Some(n) ==> {
            &&& r == IngestOutcome::Accepted
            &&& final(store)@.len() == old(store)@.len() + 1
            &&& final(store)@[old(store)@.len() as int].name@ == n
            &&& final(store)@[old(store)@.len() as int].timestamp == now
            &&& forall|j: int| 0 <= j < old(store)@.len() ==> final(store)@[j] == old(store)@[j]
        },
{
    match resolve_token(&config.services, token) {
        Some(name) => {
            store.insert(name, now);
            IngestOutcome::Accepted
        },
        None => IngestOutcome::NotFound,
    }
}

} // verus!
