//! Wiring of a run: the rate limiters and latency heatmaps that a
//! configuration asks for, the driver tasks to launch, and the size of the
//! work queue.

use crate::config::{Config, Protocol, RatelimitModel};
use crate::driver::DriverSettings;
use vstd::prelude::*;

verus! {

/// Declares `ratelimit::Ratelimiter` as a type whose tokens, which refill
/// with the clock, are not visible to contracts.
#[verifier::external_type_specification]
#[verifier::external_body]
pub struct ExRatelimiter(ratelimit::Ratelimiter);

/// Tokens that a bucket can hold.
pub const CAPACITY: u64 = 1;

/// Tokens added per refill.
pub const QUANTUM: u64 = 1;

/// The smallest bucket width of a latency histogram, as a power of two.
pub const HISTOGRAM_MIN: u32 = 0;

/// The range of the smallest buckets of a latency histogram, as a power of
/// two.
pub const HISTOGRAM_RANGE: u32 = 10;

/// The largest latency that a histogram holds, as a power of two.
pub const HISTOGRAM_MAX: u32 = 30;

/// The width of one time slice of the latency heatmaps, in milliseconds.
pub const SLICE_MS: u64 = 1000;

/// The smallest capacity of the work queue.
pub const QUEUE_MIN: usize = 1024;

/// Queue slots per driver task.
pub const QUEUE_PER_TASK: usize = 16;

/// The parameters of a token bucket.
#[derive(Clone, Copy, Debug, PartialEq, Eq, Structural)]
pub struct LimiterPlan {
    pub capacity: u64,
    pub quantum: u64,
    pub rate: u64,
    pub model: RatelimitModel,
}

/// The parameters of a latency heatmap.
#[derive(Clone, Copy, Debug, PartialEq, Eq, Structural)]
pub struct HeatmapPlan {
    pub span_ns: u64,
    pub resolution_ns: u64,
}

/// Why the parts of a run cannot be built.
#[derive(Clone, Copy, Debug, PartialEq, Eq, Structural)]
pub enum BuildError {
    /// The reporting interval is zero seconds.
    ZeroInterval,
    /// The reporting interval, or the interval times the number of windows,
    /// is too long to be held in nanoseconds.
    SpanTooLong,
    /// The waterfall is asked for with a resolution of zero.
    ZeroResolution,
    /// The waterfall is asked for with no window to cover.
    ZeroWindows,
}

/// The token bucket for a configured rate: none without a rate; else one
/// token of capacity, refilled one at a time, `rate` times per second.
pub open spec fn limiter_plan(rate: Option<u32>, model: RatelimitModel) -> Option<LimiterPlan> {
    match rate {
        Some(r) => Some(
            LimiterPlan { capacity: CAPACITY, quantum: QUANTUM, rate: r as u64, model },
        ),
        None => None,
    }
}

/// True when a heatmap of this span and slice width can be held: the slice
/// is not empty and the span with two slices more fits in 64 bits.
pub open spec fn heatmap_fits(span_ns: int, resolution_ns: int) -> bool {
    resolution_ns > 0 && span_ns + 2 * resolution_ns <= u64::MAX
}

/// The span of the response-latency heatmap, in nanoseconds: the reporting
/// interval.
pub open spec fn latency_span(config: &Config) -> int {
    config.general.interval_secs * 1_000_000_000
}

/// True when the configuration asks for a waterfall: a file to write it to
/// and a number of windows.
pub open spec fn wants_waterfall(config: &Config) -> bool {
    config.waterfall.file is Some && config.general.windows is Some
}

/// The span of the waterfall, in nanoseconds: the reporting interval times
/// the number of windows.
pub open spec fn waterfall_span(config: &Config) -> int {
    config.general.interval_secs * config.general.windows->0 * 1_000_000_000
}

/// The slice width of the waterfall, in nanoseconds.
pub open spec fn waterfall_resolution(config: &Config) -> int {
    config.waterfall.resolution_ms * 1_000_000
}

/// The layout of the response-latency heatmap: the reporting interval in
/// slices of a second.
pub open spec fn latency_plan(config: &Config) -> HeatmapPlan {
    HeatmapPlan {
        span_ns: latency_span(config) as u64,
        resolution_ns: (SLICE_MS * 1_000_000) as u64,
    }
}

/// The layout of the waterfall: the reporting interval times the number of
/// windows, in slices of the configured resolution.
pub open spec fn waterfall_plan(config: &Config) -> HeatmapPlan {
    HeatmapPlan {
        span_ns: waterfall_span(config) as u64,
        resolution_ns: waterfall_resolution(config) as u64,
    }
}

/// The shape of a latency heatmap laid out by `plan`: buckets of width one
/// up to 2^10, and values up to 2^30.
pub open spec fn latency_shape(plan: HeatmapPlan) -> HeatmapShape {
    heatmap_shape(HISTOGRAM_MIN, HISTOGRAM_RANGE, HISTOGRAM_MAX, plan)
}

/// True when `limiter` is the token bucket for a configured rate: absent
/// without a rate; else of capacity one, refilled one token at a time,
/// `rate` times per second, spread as the model says.
pub open spec fn limiter_is_for(
    limiter: Option<ratelimit::Ratelimiter>,
    rate: Option<u32>,
    model: RatelimitModel,
) -> bool {
    match limiter {
        Some(l) => rate is Some && limiter_made_with(l) == limiter_shape(
            limiter_plan(rate, model)->0,
        ),
        None => rate is None,
    }
}

/// The first reason why the heatmaps of a configuration cannot be built, or
/// none.
pub open spec fn build_error(config: &Config) -> Option<BuildError> {
    if config.general.interval_secs == 0 {
        Some(BuildError::ZeroInterval)
    } else if !heatmap_fits(latency_span(config), SLICE_MS * 1_000_000) {
        Some(BuildError::SpanTooLong)
    } else if wants_waterfall(config) && config.waterfall.resolution_ms == 0 {
        Some(BuildError::ZeroResolution)
    } else if wants_waterfall(config) && config.general.windows == Some(0u32) {
        Some(BuildError::ZeroWindows)
    } else if wants_waterfall(config) && !heatmap_fits(
        waterfall_span(config),
        waterfall_resolution(config),
    ) {
        Some(BuildError::SpanTooLong)
    } else {
        None
    }
}

/// Nanoseconds per second.
pub const SECOND_NS: u64 = 1_000_000_000;

/// What a token bucket was made with: its capacity, the tokens added per
/// refill, the nanoseconds between refills, and how the refills are spread.
#[derive(Clone, Copy, Debug, PartialEq, Eq, Structural)]
pub struct LimiterShape {
    pub capacity: u64,
    pub quantum: u64,
    pub tick_ns: u64,
    pub model: RatelimitModel,
}

/// What a latency heatmap was made with: the three histogram parameters,
/// the width of a time slice, and the number of slices it holds.
#[derive(Clone, Copy, Debug, PartialEq, Eq, Structural)]
pub struct HeatmapShape {
    pub min: u32,
    pub range: u32,
    pub max: u32,
    pub resolution_ns: u64,
    pub slices: u64,
}

/// What a token bucket was made with, as it was last set through this
/// module.
pub uninterp spec fn limiter_made_with(limiter: ratelimit::Ratelimiter) -> LimiterShape;

/// What a heatmap was made with.
pub uninterp spec fn heatmap_made_with(heatmap: heatmap::Heatmap) -> HeatmapShape;

/// The shape of the token bucket for a plan: the plan's capacity, quantum
/// and model, and a refill every `10^9 / (rate / quantum)` nanoseconds.
pub open spec fn limiter_shape(plan: LimiterPlan) -> LimiterShape {
    LimiterShape {
        capacity: plan.capacity,
        quantum: plan.quantum,
        tick_ns: (SECOND_NS as int / (plan.rate as int / plan.quantum as int)) as u64,
        model: plan.model,
    }
}

/// The shape of the heatmap for a plan: the histogram parameters, the
/// plan's slice width, and as many slices as cover the span, rounded up,
/// and one more.
pub open spec fn heatmap_shape(min: u32, range: u32, max: u32, plan: HeatmapPlan) -> HeatmapShape {
    HeatmapShape {
        min,
        range,
        max,
        resolution_ns: plan.resolution_ns,
        slices: ((plan.span_ns + plan.resolution_ns - 1) / plan.resolution_ns as int + 1) as u64,
    }
}

/// A heatmap over a span that is not empty holds at least two slices.
pub proof fn lemma_two_slices(plan: HeatmapPlan)
    requires
        plan.span_ns >= 1,
        heatmap_fits(plan.span_ns as int, plan.resolution_ns as int),
    ensures
        heatmap_shape(HISTOGRAM_MIN, HISTOGRAM_RANGE, HISTOGRAM_MAX, plan).slices >= 2,
{
    let span = plan.span_ns as int;
    let res = plan.resolution_ns as int;
    assert((span + res - 1) / res >= 1) by (nonlinear_arith)
        requires
            span >= 1,
            res >= 1,
    ;
    assert((span + res - 1) / res <= span) by (nonlinear_arith)
        requires
            span >= 1,
            res >= 1,
    ;
}

/// Creates a token bucket with `ratelimit::Ratelimiter::new`.
///
/// Trusted: the bucket holds the capacity and quantum given, refills every
/// `10^9 / (rate / quantum)` nanoseconds, and starts with the smooth
/// strategy. A rate below the quantum, on which the constructor divides by
/// zero, is excluded.
#[verifier::external_body]
pub(crate) fn limiter_new(capacity: u64, quantum: u64, rate: u64) -> (out: ratelimit::Ratelimiter)
    requires
        quantum >= 1,
        rate >= quantum,
    ensures
        limiter_made_with(out) == (LimiterShape {
            capacity,
            quantum,
            tick_ns: (SECOND_NS as int / (rate as int / quantum as int)) as u64,
            model: RatelimitModel::Smooth,
        }),
{
    ratelimit::Ratelimiter::new(capacity, quantum, rate)
}

/// Sets the refill strategy of a token bucket with
/// `Ratelimiter::set_strategy`: fixed intervals for the smooth model,
/// uniformly varying intervals for the burst model.
///
/// Trusted: the strategy is stored and nothing else of the bucket changes.
#[verifier::external_body]
pub(crate) fn limiter_set_model(limiter: ratelimit::Ratelimiter, model: RatelimitModel) -> (out:
    ratelimit::Ratelimiter)
    ensures
        limiter_made_with(out) == (LimiterShape {
            capacity: limiter_made_with(limiter).capacity,
            quantum: limiter_made_with(limiter).quantum,
            tick_ns: limiter_made_with(limiter).tick_ns,
            model,
        }),
{
    limiter.set_strategy(
        match model {
            RatelimitModel::Smooth => ratelimit::Refill::Smooth,
            RatelimitModel::Burst => ratelimit::Refill::Uniform,
        },
    );
    limiter
}

/// Creates a heatmap with `heatmap::Heatmap::new`, started at the current
/// instant.
///
/// Trusted: the constructor returns a heatmap whenever the histogram
/// parameters are in order, which is the only thing it tests; the heatmap
/// holds those parameters and the slice width given, and one slice for
/// every slice width that it takes to reach the span and one slice width
/// more. Excluded are an empty slice, on which it does not return, a span
/// that overflows while the slices are laid out, and histograms wider than
/// 32 bits or with more than 2^15 buckets per power of two.
#[verifier::external_body]
pub(crate) fn heatmap_new(m: u32, r: u32, n: u32, plan: HeatmapPlan) -> (out: Option<
    heatmap::Heatmap,
>)
    requires
        m < r <= 16,
        r <= n <= 32,
        heatmap_fits(plan.span_ns as int, plan.resolution_ns as int),
    ensures
        out is Some,
        out matches Some(h) ==> heatmap_made_with(h) == heatmap_shape(m, r, n, plan),
{
    heatmap::Heatmap::new(
        m,
        r,
        n,
        heatmap::Duration::from_nanos(plan.span_ns),
        heatmap::Duration::from_nanos(plan.resolution_ns),
        None,
        None,
    ).ok()
}

/// Computes [`limiter_plan`].
pub fn plan_limiter(rate: Option<u32>, model: RatelimitModel) -> (out: Option<LimiterPlan>)
    ensures
        out == limiter_plan(rate, model),
{
    match rate {
        Some(r) => Some(
            LimiterPlan { capacity: CAPACITY, quantum: QUANTUM, rate: r as u64, model },
        ),
        None => None,
    }
}

/// Lays out a heatmap of `span` times `factor` seconds in slices of
/// `resolution_ms` milliseconds, if it can be held.
pub fn plan_heatmap(span_secs: u64, factor: u32, resolution_ms: u64) -> (out: Option<HeatmapPlan>)
    ensures
        out is Some <==> heatmap_fits(
            span_secs * factor * 1_000_000_000,
            resolution_ms * 1_000_000,
        ),
        out matches Some(plan) ==> plan.span_ns == span_secs * factor * 1_000_000_000
            && plan.resolution_ns == resolution_ms * 1_000_000,
{
    if resolution_ms == 0 {
        return None;
    }
    let seconds = match span_secs.checked_mul(factor as u64) {
        Some(s) => s,
        None => {
            proof {
                assert(span_secs * factor * 1_000_000_000 > u64::MAX) by (nonlinear_arith)
                    requires
                        span_secs * factor > u64::MAX,
                ;
            }
            return None;
        },
    };
    let span_ns = match seconds.checked_mul(1_000_000_000) {
        Some(s) => s,
        None => {
            return None;
        },
    };
    let resolution_ns = match resolution_ms.checked_mul(1_000_000) {
        Some(r) => r,
        None => {
            return None;
        },
    };
    let twice = match resolution_ns.checked_mul(2) {
        Some(t) => t,
        None => {
            return None;
        },
    };
    match span_ns.checked_add(twice) {
        Some(_) => Some(HeatmapPlan { span_ns, resolution_ns }),
        None => None,
    }
}

/// The parts of a run that are built once and then shared: the rate
/// limiters of the three domains and the latency heatmaps.
pub struct Builder {
    pub config: Config,
    pub connect_ratelimit: Option<ratelimit::Ratelimiter>,
    pub reconnect_ratelimit: Option<ratelimit::Ratelimiter>,
    pub request_ratelimit: Option<ratelimit::Ratelimiter>,
    pub connect_heatmap: heatmap::Heatmap,
    pub request_heatmap: heatmap::Heatmap,
    pub request_waterfall: Option<heatmap::Heatmap>,
}

impl Builder {
    /// Builds the limiters and heatmaps of a configuration. A limiter
    /// exists for each domain with a configured rate, made for that rate and
    /// the domain's model. The two latency heatmaps cover the reporting
    /// interval in slices of a second. The waterfall exists when the
    /// configuration asks for it, and covers the interval times the number
    /// of windows in slices of the configured resolution.
    pub fn new(config: Config) -> (out: Result<Builder, BuildError>)
        requires
            config.wf(),
        ensures
            match out {
                Ok(b) => {
                    &&& build_error(&config) is None
                    &&& b.config == config
                    &&& limiter_is_for(
                        b.connect_ratelimit,
                        config.connection.ratelimit,
                        config.connection.ratelimit_model,
                    )
                    &&& limiter_is_for(
                        b.reconnect_ratelimit,
                        config.connection.reconnect,
                        config.connection.ratelimit_model,
                    )
                    &&& limiter_is_for(
                        b.request_ratelimit,
                        config.request.ratelimit,
                        config.request.ratelimit_model,
                    )
                    &&& heatmap_made_with(b.connect_heatmap) == latency_shape(latency_plan(&config))
                    &&& heatmap_made_with(b.request_heatmap) == latency_shape(latency_plan(&config))
                    &&& b.request_waterfall is Some <==> wants_waterfall(&config)
                    &&& b.request_waterfall matches Some(w) ==> heatmap_made_with(w)
                        == latency_shape(waterfall_plan(&config))
                    &&& heatmap_made_with(b.connect_heatmap).slices >= 2
                    &&& heatmap_made_with(b.request_heatmap).slices >= 2
                    &&& b.request_waterfall matches Some(w) ==> heatmap_made_with(w).slices >= 2
                },
                Err(e) => build_error(&config) == Some(e),
            },
    {
        if config.general.interval_secs == 0 {
            return Err(BuildError::ZeroInterval);
        }
        let latency = match plan_heatmap(config.general.interval_secs, 1, SLICE_MS) {
            Some(plan) => plan,
            None => {
                return Err(BuildError::SpanTooLong);
            },
        };
        let waterfall = match (&config.waterfall.file, config.general.windows) {
            (Some(_), Some(windows)) => {
                if config.waterfall.resolution_ms == 0 {
                    return Err(BuildError::ZeroResolution);
                }
                if windows == 0 {
                    return Err(BuildError::ZeroWindows);
                }
                match plan_heatmap(
                    config.general.interval_secs,
                    windows,
                    config.waterfall.resolution_ms,
                ) {
                    Some(plan) => Some(plan),
                    None => {
                        return Err(BuildError::SpanTooLong);
                    },
                }
            },
            _ => None,
        };
        proof {
            lemma_two_slices(latency);
            if waterfall is Some {
                assert(waterfall->0.span_ns >= 1) by (nonlinear_arith)
                    requires
                        waterfall->0.span_ns == config.general.interval_secs
                            * config.general.windows->0 * 1_000_000_000,
                        config.general.interval_secs >= 1,
                        config.general.windows->0 >= 1,
                ;
                lemma_two_slices(waterfall->0);
            }
        }
        let connect_ratelimit = make_limiter(
            config.connection.ratelimit,
            config.connection.ratelimit_model,
        );
        let reconnect_ratelimit = make_limiter(
            config.connection.reconnect,
            config.connection.ratelimit_model,
        );
        let request_ratelimit = make_limiter(
            config.request.ratelimit,
            config.request.ratelimit_model,
        );
        let connect_heatmap = heatmap_new(
            HISTOGRAM_MIN,
            HISTOGRAM_RANGE,
            HISTOGRAM_MAX,
            latency,
        ).unwrap();
        let request_heatmap = heatmap_new(
            HISTOGRAM_MIN,
            HISTOGRAM_RANGE,
            HISTOGRAM_MAX,
            latency,
        ).unwrap();
        let request_waterfall = match waterfall {
            Some(plan) => heatmap_new(HISTOGRAM_MIN, HISTOGRAM_RANGE, HISTOGRAM_MAX, plan),
            None => None,
        };
        Ok(
            Builder {
                config,
                connect_ratelimit,
                reconnect_ratelimit,
                request_ratelimit,
                connect_heatmap,
                request_heatmap,
                request_waterfall,
            },
        )
    }
}

/// Creates the token bucket for a configured rate, if there is one: of
/// capacity one, refilled one token at a time, `rate` times per second,
/// spread as the model says.
pub fn make_limiter(rate: Option<u32>, model: RatelimitModel) -> (out: Option<
    ratelimit::Ratelimiter,
>)
    requires
        rate != Some(0u32),
    ensures
        limiter_is_for(out, rate, model),
{
    match plan_limiter(rate, model) {
        Some(plan) => {
            let limiter = limiter_new(plan.capacity, plan.quantum, plan.rate);
            Some(limiter_set_model(limiter, plan.model))
        },
        None => None,
    }
}


/// One driver task to launch: the connection it is in the pool of its
/// endpoint, and the position of that endpoint in the configuration.
#[derive(Clone, Copy, Debug, PartialEq, Eq, Structural)]
pub struct TaskPlan {
    pub connection: usize,
    pub endpoint: usize,
}

/// The driver tasks of a run and their common parameters.
pub struct Launch {
    pub settings: DriverSettings,
    pub tasks: Vec<TaskPlan>,
}

/// The tasks of a pool: one per connection and endpoint, all endpoints of
/// the first connection first.
pub open spec fn task_plans(poolsize: nat, endpoints: nat) -> Seq<TaskPlan> {
    Seq::new(
        poolsize * endpoints,
        |i: int|
            TaskPlan {
                connection: (i / endpoints as int) as usize,
                endpoint: (i % endpoints as int) as usize,
            },
    )
}

/// The parameters that the drivers of a configuration share. Timeouts are
/// configured in milliseconds; a request timeout too long to be held in
/// nanoseconds is the longest that can.
pub open spec fn driver_settings(config: &Config) -> DriverSettings {
    DriverSettings {
        protocol: config.general.protocol,
        connect_timeout_ms: config.connection.timeout_ms,
        request_timeout_ns: if config.request.timeout_ms * 1_000_000 > u64::MAX {
            u64::MAX
        } else {
            (config.request.timeout_ms * 1_000_000) as u64
        },
    }
}

/// Computes [`driver_settings`].
pub fn settings_of(config: &Config) -> (out: DriverSettings)
    ensures
        out == driver_settings(config),
{
    let request_timeout_ns = match config.request.timeout_ms.checked_mul(1_000_000) {
        Some(ns) => ns,
        None => u64::MAX,
    };
    DriverSettings {
        protocol: config.general.protocol,
        connect_timeout_ms: config.connection.timeout_ms,
        request_timeout_ns,
    }
}

/// Why the tasks of a run cannot be launched.
#[derive(Clone, Copy, Debug, PartialEq, Eq, Structural)]
pub enum LaunchError {
    /// The protocol asks for an authentication token and none is given.
    MissingToken,
    /// There are more connections to open than a machine word counts.
    TooManyTasks,
}

/// The first reason why the tasks of a configuration cannot be launched, or
/// none. `token_present` says whether an authentication token was given.
pub open spec fn launch_error(config: &Config, token_present: bool) -> Option<LaunchError> {
    if config.general.protocol.authenticated() && !token_present {
        Some(LaunchError::MissingToken)
    } else if config.connection.poolsize * config.endpoints.len() > usize::MAX {
        Some(LaunchError::TooManyTasks)
    } else {
        None
    }
}

/// Lays out the driver tasks of a pool: one task per connection of the pool
/// and endpoint.
pub fn plan_tasks(config: &Config) -> (out: Launch)
    requires
        config.wf(),
        config.connection.poolsize * config.endpoints.len() <= usize::MAX,
    ensures
        out.settings == driver_settings(config),
        out.tasks@ == task_plans(config.connection.poolsize as nat, config.endpoints.len() as nat),
{
    let poolsize = config.connection.poolsize as usize;
    let endpoints = config.endpoints.len();
    let ghost plans = task_plans(poolsize as nat, endpoints as nat);
    let mut tasks: Vec<TaskPlan> = Vec::new();
    let mut connection: usize = 0;
    while connection < poolsize
        invariant
            connection <= poolsize,
            endpoints > 0,
            poolsize * endpoints <= usize::MAX,
            plans == task_plans(poolsize as nat, endpoints as nat),
            tasks.len() == connection * endpoints,
            forall|i: int| 0 <= i < tasks.len() ==> tasks@[i] == plans[i],
        decreases poolsize - connection,
    {
        let mut endpoint: usize = 0;
        while endpoint < endpoints
            invariant
                connection < poolsize,
                endpoint <= endpoints,
                endpoints > 0,
                poolsize * endpoints <= usize::MAX,
                plans == task_plans(poolsize as nat, endpoints as nat),
                tasks.len() == connection * endpoints + endpoint,
                forall|i: int| 0 <= i < tasks.len() ==> tasks@[i] == plans[i],
            decreases endpoints - endpoint,
        {
            proof {
                let i = (connection * endpoints + endpoint) as int;
                let e = endpoints as int;
                assert(i / e == connection && i % e == endpoint) by (nonlinear_arith)
                    requires
                        i == connection * e + endpoint,
                        0 <= endpoint < e,
                        connection >= 0,
                ;
                assert(i < poolsize * e) by (nonlinear_arith)
                    requires
                        i == connection * e + endpoint,
                        0 <= endpoint < e,
                        0 <= connection < poolsize,
                ;
            }
            tasks.push(TaskPlan { connection, endpoint });
            endpoint = endpoint + 1;
        }
        assert((connection + 1) * endpoints == connection * endpoints + endpoints)
            by (nonlinear_arith);
        connection = connection + 1;
    }
    assert(tasks@ =~= plans);
    Launch { settings: settings_of(config), tasks }
}

/// Plans the driver tasks of a run: one task per connection of the pool and
/// endpoint. Nothing is planned, and so nothing launched or counted, when
/// the protocol asks for an authentication token and none is present, or
/// when the pool is too large to count.
pub fn launch_tasks(config: &Config, token_present: bool) -> (out: Result<Launch, LaunchError>)
    requires
        config.wf(),
    ensures
        match out {
            Ok(launch) => {
                &&& launch_error(config, token_present) is None
                &&& launch.settings == driver_settings(config)
                &&& launch.tasks@ == task_plans(
                    config.connection.poolsize as nat,
                    config.endpoints.len() as nat,
                )
            },
            Err(e) => launch_error(config, token_present) == Some(e),
        },
{
    if config.general.protocol.needs_authentication() && !token_present {
        return Err(LaunchError::MissingToken);
    }
    match (config.connection.poolsize as usize).checked_mul(config.endpoints.len()) {
        Some(_) => Ok(plan_tasks(config)),
        None => Err(LaunchError::TooManyTasks),
    }
}

/// Plans the publisher tasks of a run: none unless the protocol is the
/// publishing one; else as [`launch_tasks`].
pub fn launch_publishers(config: &Config, token_present: bool) -> (out: Result<
    Option<Launch>,
    LaunchError,
>)
    requires
        config.wf(),
    ensures
        match out {
            Ok(None) => !(config.general.protocol is PubSubMomento),
            Ok(Some(launch)) => {
                &&& config.general.protocol is PubSubMomento
                &&& launch_error(config, token_present) is None
                &&& launch.settings == driver_settings(config)
                &&& launch.tasks@ == task_plans(
                    config.connection.poolsize as nat,
                    config.endpoints.len() as nat,
                )
            },
            Err(e) => config.general.protocol is PubSubMomento && launch_error(
                config,
                token_present,
            ) == Some(e),
        },
{
    match config.general.protocol {
        Protocol::PubSubMomento => match launch_tasks(config, token_present) {
            Ok(launch) => Ok(Some(launch)),
            Err(e) => Err(e),
        },
        _ => Ok(None),
    }
}

/// The capacity of the work queue for a number of driver tasks: sixteen
/// slots per task, at least 1024, at most what a machine word holds.
pub open spec fn queue_capacity(tasks: nat) -> nat {
    let wanted = QUEUE_PER_TASK as nat * tasks;
    if wanted < QUEUE_MIN {
        QUEUE_MIN as nat
    } else if wanted > usize::MAX {
        usize::MAX as nat
    } else {
        wanted
    }
}

/// Computes [`queue_capacity`].
pub fn queue_size(tasks: usize) -> (out: usize)
    ensures
        out == queue_capacity(tasks as nat),
        out >= QUEUE_MIN,
{
    match tasks.checked_mul(QUEUE_PER_TASK) {
        Some(wanted) => if wanted < QUEUE_MIN {
            QUEUE_MIN
        } else {
            wanted
        },
        None => usize::MAX,
    }
}

} // verus!
