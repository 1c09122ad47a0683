//! The static list of monitored services.
//!
//! Each entry is either a push service, which proves liveness by calling in
//! with a secret token, or a poll service, a container whose runtime state is
//! queried periodically.  The configuration is loaded once at startup, outside
//! the core, and is read-only here.  Service names are namespaced by producer
//! kind: the same logical service always yields the same prefixed name across
//! both producers and the aggregator.

use crate::error::Error;
use vstd::prelude::*;
use vstd::string::StringExecFns;

verus! {

/// One monitored target: a push service (token-authenticated heartbeats) or a
/// poll service (a container polled for its runtime state).
pub enum ConfigService {
    Push { name: String, description: String, token: String },
    Poll { name: String, description: String, container: String },
}

impl ConfigService {
    /// The configured display name.
    pub open spec fn spec_name(&self) -> Seq<char> {
        match self {
            ConfigService::Push { name, .. } => name@,
            ConfigService::Poll { name, .. } => name@,
        }
    }

    /// The configured description.
    pub open spec fn spec_description(&self) -> Seq<char> {
        match self {
            ConfigService::Push { description, .. } => description@,
            ConfigService::Poll { description, .. } => description@,
        }
    }

    /// The secret token, for a push service.
    pub open spec fn spec_token(&self) -> Option<Seq<char>> {
        match self {
            ConfigService::Push { token, .. } => Some(token@),
            ConfigService::Poll { .. } => None,
        }
    }

    /// The container identifier, for a poll service.
    pub open spec fn spec_container(&self) -> Option<Seq<char>> {
        match self {
            ConfigService::Push { .. } => None,
            ConfigService::Poll { container, .. } => Some(container@),
        }
    }

    /// The canonical service name: the display name prefixed by producer kind,
    /// so that push- and poll-sourced services sharing a configured name never
    /// collide in the stores.
    pub open spec fn spec_prefixed_name(&self) -> Seq<char> {
        match self {
            ConfigService::Push { name, .. } => "push:"@ + name@,
            ConfigService::Poll { name, .. } => "poll:"@ + name@,
        }
    }

    /// The configured display name.
    pub fn get_name(&self) -> (n: &String)
        ensures
            n@ == self.spec_name(),
    {
        match self {
            ConfigService::Push { name, .. } => name,
            ConfigService::Poll { name, .. } => name,
        }
    }

    /// The configured description.
    pub fn get_description(&self) -> (d: &String)
        ensures
            d@ == self.spec_description(),
    {
        match self {
            ConfigService::Push { description, .. } => description,
            ConfigService::Poll { description, .. } => description,
        }
    }

    /// The canonical prefixed service name used in both stores.
    pub fn prefixed_name(&self) -> (n: String)
        ensures
            n@ == self.spec_prefixed_name(),
    {
        match self {
            ConfigService::Push { name, .. } => String::from_str("push:").concat(name.as_str()),
            ConfigService::Poll { name, .. } => String::from_str("poll:").concat(name.as_str()),
        }
    }
}

/// Two entries clash when both are push services with the same token.
pub open spec fn token_clash(a: ConfigService, b: ConfigService) -> bool {
    a.spec_token() is Some && a.spec_token() == b.spec_token()
}

/// Two entries clash when both are poll services with the same container.
pub open spec fn container_clash(a: ConfigService, b: ConfigService) -> bool {
    a.spec_container() is Some && a.spec_container() == b.spec_container()
}

/// Tokens are unique across the push entries.
pub open spec fn tokens_unique(services: Seq<ConfigService>) -> bool {
    forall|i: int, j: int|
        0 <= i < j < services.len() ==> !token_clash(services[i], services[j])
}

/// Container identifiers are unique across the poll entries.
pub open spec fn containers_unique(services: Seq<ConfigService>) -> bool {
    forall|i: int, j: int|
        0 <= i < j < services.len() ==> !container_clash(services[i], services[j])
}

/// The whole configuration: where to listen, where the durable store lives,
/// and the ordered list of monitored services.
pub struct Config {
    pub bind_addr: String,
    pub bind_port: u16,
    pub db_url: String,
    pub services: Vec<ConfigService>,
}

impl Config {
    /// Validity check run once after loading: tokens must be unique across
    /// push entries and container identifiers unique across poll entries.
    pub fn verify(&self) -> (r: Result<(), Error>)
        ensures
            r is Ok <==> tokens_unique(self.services@) && containers_unique(self.services@),
    {
        let n = self.services.len();
        let mut i: usize = 0;
        while i < n
            invariant
                i <= n,
                n == self.services@.len(),
                forall|p: int, q: int|
                    0 <= p < q < i ==> !token_clash(self.services@[p], self.services@[q]),
            decreases n - i,
        {
            let mut j: usize = 0;
            while j < i
                invariant
                    j <= i < n,
                    n == self.services@.len(),
                    forall|q: int|
                        0 <= q < j ==> !token_clash(self.services@[q], self.services@[i as int]),
                decreases i - j,
            {
                if clashing_tokens(&self.services[j], &self.services[i]) {
                    assert(token_clash(self.services@[j as int], self.services@[i as int]));
                    return Err(Error::new(String::from_str("duplicated token among push services")));
                }
                j = j + 1;
            }
            i = i + 1;
        }

        let mut i: usize = 0;
        while i < n
            invariant
                i <= n,
                n == self.services@.len(),
                tokens_unique(self.services@),
                forall|p: int, q: int|
                    0 <= p < q < i ==> !container_clash(self.services@[p], self.services@[q]),
            decreases n - i,
        {
            let mut j: usize = 0;
            while j < i
                invariant
                    j <= i < n,
                    n == self.services@.len(),
                    tokens_unique(self.services@),
                    forall|q: int|
                        0 <= q < j ==> !container_clash(self.services@[q], self.services@[i as int]),
                decreases i - j,
            {
                if clashing_containers(&self.services[j], &self.services[i]) {
                    assert(container_clash(self.services@[j as int], self.services@[i as int]));
                    return Err(Error::new(String::from_str(
                        "duplicated container among poll services",
                    )));
                }
                j = j + 1;
            }
            i = i + 1;
        }

        Ok(())
    }

    /// The listen address used when the configuration names none.
    pub fn default_bind_addr() -> (s: String)
        ensures
            s@ == "0.0.0.0"@,
    {
        String::from_str("0.0.0.0")
    }

    /// The listen port used when the configuration names none.
    pub fn default_bind_port() -> (p: u16)
        ensures
            p == 3000,
    {
        3000
    }
}

/// Decide whether two entries are push services with the same token.
fn clashing_tokens(a: &ConfigService, b: &ConfigService) -> (r: bool)
    ensures
        r == token_clash(*a, *b),
{
    match (a, b) {
        (ConfigService::Push { token: ta, .. }, ConfigService::Push { token: tb, .. }) => *ta == *tb,
        _ => false,
    }
}

/// Decide whether two entries are poll services with the same container.
fn clashing_containers(a: &ConfigService, b: &ConfigService) -> (r: bool)
    ensures
        r == container_clash(*a, *b),
{
    match (a, b) {
        (ConfigService::Poll { container: ca, .. }, ConfigService::Poll { container: cb, .. }) => {
            *ca == *cb
        },
        _ => false,
    }
}

} // verus!
