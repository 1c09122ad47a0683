//! The poll producer: container-runtime heartbeats.
//!
//! On each tick the runtime collaborator reports the current containers; for
//! every reported container whose first name matches a configured poll
//! service and whose state is `running`, one heartbeat event is recorded with
//! the canonical prefixed name.  Non-running or unmatched containers are
//! skipped silently.

use crate::config::{Config, ConfigService};
use crate::store::HeartbeatStore;
use crate::time::MAX_TIME;
use vstd::prelude::*;
use vstd::string::StringExecFns;

verus! {

/// What the container runtime reports for one container: its names, in the
/// runtime's order, and its state.  Reported rows lacking either field never
/// reach the core.
pub struct ContainerInfo {
    pub names: Vec<String>,
    pub state: String,
}

/// The canonical name of the first poll entry configured for `container`.
pub open spec fn spec_container_name(services: Seq<ConfigService>, container: Seq<char>) -> Option<
    Seq<char>,
>
    decreases services.len(),
{
    if services.len() == 0 {
        None
    } else if services[0].spec_container() == Some(container) {
        Some(services[0].spec_prefixed_name())
    } else {
        spec_container_name(services.drop_first(), container)
    }
}

/// Whether a reported container produces a heartbeat: it has at least one
/// name, its first name matches a configured poll service, and its state is
/// `running`.
pub open spec fn spec_polled(services: Seq<ConfigService>, c: ContainerInfo) -> bool {
    c.names@.len() > 0 && c.state@ == "running"@ && spec_container_name(services, c.names@[0]@)
        is Some
}

/// The canonical names, in report order, of the heartbeats one poll tick over
/// `containers` produces.
pub open spec fn spec_polled_names(
    services: Seq<ConfigService>,
    containers: Seq<ContainerInfo>,
) -> Seq<Seq<char>>
    decreases containers.len(),
{
    if containers.len() == 0 {
        Seq::empty()
    } else {
        let rest = spec_polled_names(services, containers.drop_last());
        if spec_polled(services, containers.last()) {
            rest.push(spec_container_name(services, containers.last().names@[0]@).unwrap())
        } else {
            rest
        }
    }
}

proof fn lemma_container_first_match(services: Seq<ConfigService>, container: Seq<char>, k: int)
    requires
        0 <= k < services.len(),
        services[k].spec_container() == Some(container),
        forall|j: int| 0 <= j < k ==> (#[trigger] services[j]).spec_container() != Some(container),
    ensures
        spec_container_name(services, container) == Some(services[k].spec_prefixed_name()),
    decreases k,
{
    if k > 0 {
        lemma_container_first_match(services.drop_first(), container, k - 1);
    }
}

proof fn lemma_container_no_match(services: Seq<ConfigService>, container: Seq<char>)
    requires
        forall|j: int|
            0 <= j < services.len() ==> (#[trigger] services[j]).spec_container() != Some(container),
    ensures
        spec_container_name(services, container) is None,
    decreases services.len(),
{
    if services.len() > 0 {
        lemma_container_no_match(services.drop_first(), container);
    }
}

/// Resolve a reported container name to the canonical prefixed name of the
/// first configured poll service for it.
pub fn resolve_container(services: &Vec<ConfigService>, container: &String) -> (r: Option<String>)
    ensures
        match r {
            Some(n) => spec_container_name(services@, container@) == Some(n@),
            None => spec_container_name(services@, container@) is None,
        },
{
    let n = services.len();
    let mut i: usize = 0;
    while i < n
        invariant
            i <= n,
            n == services@.len(),
            forall|j: int|
                0 <= j < i ==> (#[trigger] services@[j]).spec_container() != Some(container@),
        decreases n - i,
    {
        let matched = match &services[i] {
            ConfigService::Poll { container: c, .. } => *c == *container,
            ConfigService::Push { .. } => false,
        };
        if matched {
            proof {
                lemma_container_first_match(services@, container@, i as int);
            }
            return Some(services[i].prefixed_name());
        }
        i = i + 1;
    }
    proof {
        lemma_container_no_match(services@, container@);
    }
    None
}

/// One poll tick over the runtime's report: record one heartbeat at `now` for
/// every configured container reported `running`, and nothing for the rest.
pub fn check_containers(
    config: &Config,
    containers: &Vec<ContainerInfo>,
    store: &mut HeartbeatStore,
    now: i64,
) -> (inserted: usize)
    requires
        0 <= now <= MAX_TIME,
        old(store).wf(),
    ensures
        final(store).wf(),
        final(store)@.len() == old(store)@.len() + spec_polled_names(
            config.services@,
            containers@,
        ).len(),
        forall|j: int| 0 <= j < old(store)@.len() ==> final(store)@[j] == old(store)@[j],
        forall|j: int|
            0 <= j < spec_polled_names(config.services@, containers@).len() ==> {
                let appended = final(store)@[old(store)@.len() + j];
                &&& appended.name@ == (#[trigger] spec_polled_names(config.services@, containers@)[j])
                &&& appended.timestamp == now
            },
        inserted == spec_polled_names(config.services@, containers@).len(),
{
    let running = String::from_str("running");
    let n = containers.len();
    let ghost base = old(store)@.len() as int;
    let mut inserted: usize = 0;
    let mut i: usize = 0;
    while i < n
        invariant
            i <= n,
            n == containers@.len(),
            0 <= now <= MAX_TIME,
            running@ == "running"@,
            store.wf(),
            base == old(store)@.len(),
            store@.len() == old(store)@.len() + spec_polled_names(
                config.services@,
                containers@.subrange(0, i as int),
            ).len(),
            inserted == spec_polled_names(config.services@, containers@.subrange(0, i as int)).len(),
            inserted <= i,
            forall|j: int| 0 <= j < old(store)@.len() ==> store@[j] == old(store)@[j],
            forall|j: int|
                0 <= j < spec_polled_names(config.services@, containers@.subrange(0, i as int)).len()
                    ==> ((#[trigger] store@[base + j]).name@ == spec_polled_names(
                    config.services@,
                    containers@.subrange(0, i as int),
                )[j] && store@[base + j].timestamp == now),
        decreases n - i,
    {
        let ghost sub1 = containers@.subrange(0, i + 1 as int);
        let ghost sub0 = containers@.subrange(0, i as int);
        proof {
            assert(sub1.drop_last() =~= sub0);
            assert(sub1.last() == containers@[i as int]);
        }
        if containers[i].names.len() > 0 {
            match resolve_container(&config.services, &containers[i].names[0]) {
                Some(name) => {
                    let ghost nm = name@;
                    if containers[i].state == running {
                        let ghost prior = store@;
                        store.insert(name, now);
                        inserted = inserted + 1;
                        proof {
                            assert(spec_polled(config.services@, containers@[i as int]));
                            let names0 = spec_polled_names(config.services@, sub0);
                            let names1 = spec_polled_names(config.services@, sub1);
                            assert(names1 == names0.push(nm));
                            assert(store@.last().name@ == nm);
                            assert(store@.last().timestamp == now);
                            assert forall|j: int|
                                0 <= j < names1.len() implies ((#[trigger] store@[base + j]).name@
                                == names1[j] && store@[base + j].timestamp == now) by {
                                if j < names0.len() {
                                    assert(store@[base + j] == prior[base + j]);
                                } else {
                                    assert(base + j == store@.len() - 1);
                                    assert(store@[base + j] == store@.last());
                                }
                            }
                        }
                    } else {
                        proof {
                            assert(!spec_polled(config.services@, containers@[i as int]));
                            assert(spec_polled_names(config.services@, sub1) == spec_polled_names(
                                config.services@,
                                sub0,
                            ));
                        }
                    }
                },
                None => {
                    proof {
                        assert(!spec_polled(config.services@, containers@[i as int]));
                        assert(spec_polled_names(config.services@, sub1) == spec_polled_names(
                            config.services@,
                            sub0,
                        ));
                    }
                },
            }
        } else {
            proof {
                assert(!spec_polled(config.services@, containers@[i as int]));
                assert(spec_polled_names(config.services@, sub1) == spec_polled_names(
                    config.services@,
                    sub0,
                ));
            }
        }
        i = i + 1;
    }
    proof {
        assert(containers@.subrange(0, n as int) =~= containers@);
    }
    inserted
}

/// Law: poll filtering.  A reported container whose state is not `running`
/// produces no heartbeat; a named, configured container reported `running`
/// produces exactly one heartbeat, under the canonical prefixed name.
pub proof fn lemma_poll_filtering(services: Seq<ConfigService>, c: ContainerInfo)
    ensures
        c.state@ != "running"@ ==> spec_polled_names(services, seq![c]).len() == 0,
        spec_polled(services, c) ==> spec_polled_names(services, seq![c]) =~= seq![
            spec_container_name(services, c.names@[0]@).unwrap(),
        ],
{
    let s = seq![c];
    assert(s.len() == 1);
    assert(s.last() == c);
    assert(s.drop_last() =~= Seq::<ContainerInfo>::empty());
    assert(spec_polled_names(services, s.drop_last()) =~= Seq::<Seq<char>>::empty());
    if spec_polled(services, c) {
        assert(spec_polled_names(services, s) == Seq::<Seq<char>>::empty().push(
            spec_container_name(services, c.names@[0]@).unwrap(),
        ));
    }
}

} // verus!
