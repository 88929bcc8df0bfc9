//! The run's configuration: validated once, then shared read-only by the
//! generator and the drivers.

use crate::keyspace::{keyspace_error, Keyspace, KeyspaceError, KeyspaceSettings};
use crate::sampling::{
    table_new, table_sample, table_weights, weight_error, WeightError, WeightTable,
};
use vstd::prelude::*;

verus! {

/// The wire protocol that the drivers speak.
#[derive(Clone, Copy, Debug, PartialEq, Eq, Structural)]
pub enum Protocol {
    Ping,
    Redis,
    Http1,
    Http2,
    Momento,
    PubSubMomento,
}

impl Protocol {
    /// True for the protocols of the managed cache service, which asks for
    /// an authentication token.
    pub open spec fn authenticated(self) -> bool {
        self is Momento || self is PubSubMomento
    }

    /// Whether the protocol asks for an authentication token.
    pub fn needs_authentication(self) -> (out: bool)
        ensures
            out == self.authenticated(),
    {
        match self {
            Protocol::Momento | Protocol::PubSubMomento => true,
            _ => false,
        }
    }
}

/// How a rate limiter spreads its tokens over time.
#[derive(Clone, Copy, Debug, PartialEq, Eq, Structural)]
pub enum RatelimitModel {
    /// Tokens arrive at a fixed interval.
    Smooth,
    /// Tokens arrive at varying intervals that average to the rate.
    Burst,
}

/// Verbosity of the debug log.
#[derive(Clone, Copy, Debug, PartialEq, Eq, Structural)]
pub enum Level {
    Error,
    Warn,
    Info,
    Debug,
    Trace,
}

/// Process-wide options.
#[derive(Clone, Copy, Debug, PartialEq, Eq, Structural)]
pub struct General {
    pub threads: u32,
    pub interval_secs: u64,
    pub windows: Option<u32>,
    pub protocol: Protocol,
}

/// Options of the connections to each endpoint.
#[derive(Clone, Copy, Debug, PartialEq, Eq, Structural)]
pub struct Connection {
    pub poolsize: u32,
    pub timeout_ms: u64,
    pub ratelimit: Option<u32>,
    pub reconnect: Option<u32>,
    pub ratelimit_model: RatelimitModel,
}

/// Options of the requests.
#[derive(Clone, Copy, Debug, PartialEq, Eq, Structural)]
pub struct Request {
    pub timeout_ms: u64,
    pub ratelimit: Option<u32>,
    pub ratelimit_model: RatelimitModel,
}

/// Transport security options.
pub struct Tls {
    pub ca: Option<String>,
    pub cert: Option<String>,
    pub key: Option<String>,
    pub verify: bool,
}

/// Options of the debug log.
pub struct Debug {
    pub log_level: Level,
    pub log_file: Option<String>,
    pub log_backup: Option<String>,
    pub log_max_size: u64,
    pub log_queue_depth: usize,
    pub log_single_message_size: usize,
}

/// Options of the long-horizon latency dump.
pub struct Waterfall {
    pub file: Option<String>,
    pub resolution_ms: u64,
}

/// Everything a run is configured with, as loaded and before validation.
pub struct Settings {
    pub general: General,
    pub debug: Debug,
    pub waterfall: Waterfall,
    pub connection: Connection,
    pub request: Request,
    pub tls: Option<Tls>,
    pub endpoints: Vec<String>,
    pub keyspaces: Vec<KeyspaceSettings>,
}

/// Why a configuration is rejected.
#[derive(Clone, Copy, Debug, PartialEq, Eq, Structural)]
pub enum ConfigError {
    /// The keyspace at `index` is rejected for the reason given.
    Keyspace { index: usize, error: KeyspaceError },
    /// The keyspace weights do not make a sampler; an empty list of
    /// keyspaces is reported here as [`WeightError::NoItem`].
    KeyspaceWeights(WeightError),
    /// No target endpoint is configured.
    NoEndpoints,
    /// No worker thread is configured.
    ZeroThreads,
    /// No connection per endpoint is configured.
    ZeroPoolsize,
    /// A rate limit of zero operations per second is configured.
    ZeroRatelimit,
}

/// The selection weights of a list of configured keyspaces, in order.
pub open spec fn settings_weights(keyspaces: Seq<KeyspaceSettings>) -> Seq<usize> {
    keyspaces.map_values(|k: KeyspaceSettings| k.weight)
}

/// The selection weights of a list of keyspaces, in order.
pub open spec fn keyspace_weights(keyspaces: Seq<Keyspace>) -> Seq<usize> {
    keyspaces.map_values(|k: Keyspace| k.weight)
}

/// True when `index` is the first keyspace of the list that is rejected.
pub open spec fn is_first_rejected(keyspaces: Seq<KeyspaceSettings>, index: int) -> bool {
    &&& 0 <= index < keyspaces.len()
    &&& keyspace_error(keyspaces[index]) is Some
    &&& forall|j: int| 0 <= j < index ==> keyspace_error(#[trigger] keyspaces[j]) is None
}

/// True when a rate limit is configured as zero.
pub open spec fn is_zero_rate(rate: Option<u32>) -> bool {
    rate == Some(0u32)
}

/// The first reason to reject a configuration, or none. Keyspaces are
/// checked first, in order; then their weights, the endpoints, the thread
/// and pool counts, and the rate limits.
pub open spec fn config_error(s: Settings) -> Option<ConfigError> {
    if exists|i: int| is_first_rejected(s.keyspaces@, i) {
        let index = choose|i: int| is_first_rejected(s.keyspaces@, i);
        Some(
            ConfigError::Keyspace {
                index: index as usize,
                error: keyspace_error(s.keyspaces@[index])->0,
            },
        )
    } else if weight_error(settings_weights(s.keyspaces@)) is Some {
        Some(ConfigError::KeyspaceWeights(weight_error(settings_weights(s.keyspaces@))->0))
    } else if s.endpoints.len() == 0 {
        Some(ConfigError::NoEndpoints)
    } else if s.general.threads == 0 {
        Some(ConfigError::ZeroThreads)
    } else if s.connection.poolsize == 0 {
        Some(ConfigError::ZeroPoolsize)
    } else if is_zero_rate(s.connection.ratelimit) || is_zero_rate(s.connection.reconnect)
        || is_zero_rate(s.request.ratelimit) {
        Some(ConfigError::ZeroRatelimit)
    } else {
        None
    }
}

/// At most one keyspace is the first rejected one.
pub proof fn lemma_first_rejected_unique(keyspaces: Seq<KeyspaceSettings>, index: int)
    requires
        is_first_rejected(keyspaces, index),
    ensures
        (choose|i: int| is_first_rejected(keyspaces, i)) == index,
{
    let other = choose|i: int| is_first_rejected(keyspaces, i);
    assert(is_first_rejected(keyspaces, other));
    if other < index {
        assert(keyspace_error(keyspaces[other]) is None);
    } else if index < other {
        assert(keyspace_error(keyspaces[index]) is None);
    }
}

/// A validated configuration with its keyspace sampler.
pub struct Config {
    pub general: General,
    pub debug: Debug,
    pub waterfall: Waterfall,
    pub connection: Connection,
    pub request: Request,
    pub tls: Option<Tls>,
    pub endpoints: Vec<String>,
    pub keyspaces: Vec<Keyspace>,
    pub keyspace_dist: WeightTable,
}

impl Config {
    /// The invariant that construction establishes.
    pub open spec fn wf(&self) -> bool {
        &&& forall|i: int| 0 <= i < self.keyspaces.len() ==> (#[trigger] self.keyspaces@[i]).wf()
        &&& table_weights(self.keyspace_dist) == keyspace_weights(self.keyspaces@)
        &&& self.keyspaces.len() > 0
        &&& self.endpoints.len() > 0
        &&& self.general.threads >= 1
        &&& self.connection.poolsize >= 1
        &&& !is_zero_rate(self.connection.ratelimit)
        &&& !is_zero_rate(self.connection.reconnect)
        &&& !is_zero_rate(self.request.ratelimit)
    }

    /// True when this configuration holds exactly what `s` configures.
    pub open spec fn built_from(&self, s: Settings) -> bool {
        &&& self.general == s.general
        &&& self.debug == s.debug
        &&& self.waterfall == s.waterfall
        &&& self.connection == s.connection
        &&& self.request == s.request
        &&& self.tls == s.tls
        &&& self.endpoints == s.endpoints
        &&& self.keyspaces.len() == s.keyspaces.len()
        &&& forall|i: int|
            0 <= i < self.keyspaces.len() ==> (#[trigger] self.keyspaces@[i]).built_from(
                s.keyspaces@[i],
            )
    }

    /// Validates the settings and builds every sampler.
    pub fn new(s: Settings) -> (out: Result<Config, ConfigError>)
        ensures
            match out {
                Ok(c) => config_error(s) is None && c.wf() && c.built_from(s),
                Err(e) => config_error(s) == Some(e),
            },
    {
        let Settings { general, debug, waterfall, connection, request, tls, endpoints, keyspaces } =
            s;
        let ghost all = keyspaces@;
        let mut rest = keyspaces;
        let mut built: Vec<Keyspace> = Vec::new();
        let mut weights: Vec<usize> = Vec::new();
        while rest.len() > 0
            invariant
                all == s.keyspaces@,
                built.len() + rest.len() == all.len(),
                weights.len() == built.len(),
                rest@ == all.subrange(built.len() as int, all.len() as int),
                forall|j: int|
                    0 <= j < built.len() ==> {
                        &&& keyspace_error(#[trigger] all[j]) is None
                        &&& built@[j].wf()
                        &&& built@[j].built_from(all[j])
                        &&& weights@[j] == all[j].weight
                    },
            decreases rest.len(),
        {
            let ghost index = built.len() as int;
            let k = rest.remove(0);
            assert(k == all[index]);
            match Keyspace::new(k) {
                Ok(keyspace) => {
                    weights.push(keyspace.weight);
                    built.push(keyspace);
                    assert(rest@ =~= all.subrange(built.len() as int, all.len() as int));
                },
                Err(error) => {
                    proof {
                        assert(is_first_rejected(all, index));
                        lemma_first_rejected_unique(all, index);
                    }
                    return Err(ConfigError::Keyspace { index: built.len(), error });
                },
            }
        }
        proof {
            assert forall|i: int| 0 <= i < built.len() implies (#[trigger] built@[i]).wf()
                && built@[i].built_from(all[i]) && weights@[i] == built@[i].weight by {
                assert(keyspace_error(all[i]) is None);
            }
            assert(weights@ =~= settings_weights(all));
            assert(weights@ =~= keyspace_weights(built@));
            if exists|i: int| is_first_rejected(all, i) {
                let i = choose|i: int| is_first_rejected(all, i);
                assert(keyspace_error(all[i]) is None);
            }
        }
        let keyspace_dist = match table_new(weights) {
            Ok(t) => t,
            Err(e) => {
                return Err(ConfigError::KeyspaceWeights(e));
            },
        };
        if endpoints.len() == 0 {
            return Err(ConfigError::NoEndpoints);
        }
        if general.threads == 0 {
            return Err(ConfigError::ZeroThreads);
        }
        if connection.poolsize == 0 {
            return Err(ConfigError::ZeroPoolsize);
        }
        if rate_is_zero(connection.ratelimit) || rate_is_zero(connection.reconnect) || rate_is_zero(
            request.ratelimit,
        ) {
            return Err(ConfigError::ZeroRatelimit);
        }
        Ok(
            Config {
                general,
                debug,
                waterfall,
                connection,
                request,
                tls,
                endpoints,
                keyspaces: built,
                keyspace_dist,
            },
        )
    }

    /// The process-wide options.
    pub fn general(&self) -> (out: &General)
        ensures
            *out == self.general,
    {
        &self.general
    }

    /// The options of the debug log.
    pub fn debug(&self) -> (out: &Debug)
        ensures
            *out == self.debug,
    {
        &self.debug
    }

    /// The options of the long-horizon latency dump.
    pub fn waterfall(&self) -> (out: &Waterfall)
        ensures
            *out == self.waterfall,
    {
        &self.waterfall
    }

    /// The transport security options, if any.
    pub fn tls(&self) -> (out: Option<&Tls>)
        ensures
            out is Some <==> self.tls is Some,
            out matches Some(t) ==> *t == self.tls->0,
    {
        self.tls.as_ref()
    }

    /// The options of the connections.
    pub fn connection(&self) -> (out: &Connection)
        ensures
            *out == self.connection,
    {
        &self.connection
    }

    /// The options of the requests.
    pub fn request(&self) -> (out: &Request)
        ensures
            *out == self.request,
    {
        &self.request
    }

    /// The target endpoints, as `host:port`.
    pub fn endpoints(&self) -> (out: &Vec<String>)
        ensures
            *out == self.endpoints,
    {
        &self.endpoints
    }

    /// The keyspaces.
    pub fn keyspaces(&self) -> (out: &Vec<Keyspace>)
        ensures
            *out == self.keyspaces,
    {
        &self.keyspaces
    }

    /// Draws one keyspace, by weight.
    pub fn choose_keyspace(&self, rng: &mut rand_xoshiro::Xoshiro256Plus) -> (out: &Keyspace)
        requires
            self.wf(),
        ensures
            out.wf(),
            exists|i: int|
                0 <= i < self.keyspaces.len() && *out == #[trigger] self.keyspaces@[i]
                    && self.keyspaces@[i].weight > 0,
    {
        let idx = table_sample(&self.keyspace_dist, rng);
        &self.keyspaces[idx]
    }
}

/// Decides [`is_zero_rate`].
pub fn rate_is_zero(rate: Option<u32>) -> (out: bool)
    ensures
        out == is_zero_rate(rate),
{
    match rate {
        Some(r) => r == 0,
        None => false,
    }
}

} // verus!
