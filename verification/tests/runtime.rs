use rpc_perf::config::{
    Config, Connection, General, Level, Protocol, RatelimitModel, Request, Settings, Waterfall,
};
use rpc_perf::keyspace::{Command, FieldType, KeyDistributionModel, KeyspaceSettings, Verb};
use rpc_perf::runtime::{
    launch_publishers, launch_tasks, make_limiter, plan_heatmap, plan_limiter, plan_tasks,
    queue_size, settings_of, BuildError, Builder, HeatmapPlan, LaunchError, LimiterPlan, TaskPlan,
};

fn settings() -> Settings {
    Settings {
        general: General { threads: 4, interval_secs: 60, windows: Some(5), protocol: Protocol::Redis },
        debug: rpc_perf::config::Debug {
            log_level: Level::Info,
            log_file: None,
            log_backup: None,
            log_max_size: 0,
            log_queue_depth: 0,
            log_single_message_size: 0,
        },
        waterfall: Waterfall { file: None, resolution_ms: 1000 },
        connection: Connection {
            poolsize: 2,
            timeout_ms: 250,
            ratelimit: Some(10),
            reconnect: None,
            ratelimit_model: RatelimitModel::Smooth,
        },
        request: Request { timeout_ms: 200, ratelimit: Some(100), ratelimit_model: RatelimitModel::Burst },
        tls: None,
        endpoints: vec!["a:1".to_string(), "b:2".to_string(), "c:3".to_string()],
        keyspaces: vec![KeyspaceSettings {
            length: 8,
            weight: 1,
            cardinality: 10,
            ttl: 0,
            batch_size: 1,
            key_type: FieldType::U32,
            key_distribution: KeyDistributionModel::Uniform,
            commands: vec![Command::new(Verb::Get, 1)],
            inner_keys: Vec::new(),
            values: Vec::new(),
        }],
    }
}

fn config(s: Settings) -> Config {
    match Config::new(s) {
        Ok(c) => c,
        Err(e) => panic!("configuration was rejected: {:?}", e),
    }
}

fn error_of(s: Settings) -> BuildError {
    match Builder::new(config(s)) {
        Ok(_) => panic!("the run was built"),
        Err(e) => e,
    }
}

#[test]
fn builds_a_limiter_for_each_configured_rate() {
    let b = Builder::new(config(settings())).ok().unwrap();
    assert!(b.connect_ratelimit.is_some());
    assert!(b.reconnect_ratelimit.is_none());
    assert!(b.request_ratelimit.is_some());
    assert_eq!(b.request_ratelimit.unwrap().rate(), 100);
    assert_eq!(b.connect_ratelimit.unwrap().rate(), 10);
}

#[test]
fn builds_the_latency_heatmaps() {
    let b = Builder::new(config(settings())).ok().unwrap();
    assert_eq!(b.request_heatmap.slices(), 61);
    assert_eq!(b.connect_heatmap.slices(), 61);
    assert_eq!(b.request_heatmap.buckets(), 11264);
    assert!(b.request_waterfall.is_none());
}

#[test]
fn builds_the_waterfall_when_asked() {
    let mut s = settings();
    s.waterfall = Waterfall { file: Some("waterfall.png".to_string()), resolution_ms: 500 };
    let b = Builder::new(config(s)).ok().unwrap();
    assert_eq!(b.request_waterfall.unwrap().slices(), 601);
    let mut s = settings();
    s.waterfall = Waterfall { file: Some("waterfall.png".to_string()), resolution_ms: 500 };
    s.general.windows = None;
    assert!(Builder::new(config(s)).ok().unwrap().request_waterfall.is_none());
}

#[test]
fn rejects_a_waterfall_without_resolution() {
    let mut s = settings();
    s.waterfall = Waterfall { file: Some("waterfall.png".to_string()), resolution_ms: 0 };
    assert_eq!(error_of(s), BuildError::ZeroResolution);
}

#[test]
fn rejects_spans_that_cannot_be_held() {
    let mut s = settings();
    s.general.interval_secs = u64::MAX / 1_000_000_000;
    assert_eq!(error_of(s), BuildError::SpanTooLong);
    let mut s = settings();
    s.general.interval_secs = 1 << 40;
    s.general.windows = Some(1 << 30);
    s.waterfall = Waterfall { file: Some("waterfall.png".to_string()), resolution_ms: 1000 };
    assert_eq!(error_of(s), BuildError::SpanTooLong);
}

#[test]
fn limiter_plans_hold_one_token() {
    assert_eq!(plan_limiter(None, RatelimitModel::Smooth), None);
    assert_eq!(
        plan_limiter(Some(250), RatelimitModel::Burst),
        Some(LimiterPlan { capacity: 1, quantum: 1, rate: 250, model: RatelimitModel::Burst })
    );
    assert!(make_limiter(None, RatelimitModel::Smooth).is_none());
    assert_eq!(make_limiter(Some(7), RatelimitModel::Smooth).unwrap().rate(), 7);
}

#[test]
fn heatmap_plans_are_in_nanoseconds() {
    assert_eq!(
        plan_heatmap(60, 1, 1000),
        Some(HeatmapPlan { span_ns: 60_000_000_000, resolution_ns: 1_000_000_000 })
    );
    assert_eq!(
        plan_heatmap(60, 5, 250),
        Some(HeatmapPlan { span_ns: 300_000_000_000, resolution_ns: 250_000_000 })
    );
    assert_eq!(plan_heatmap(0, 1, 1), Some(HeatmapPlan { span_ns: 0, resolution_ns: 1_000_000 }));
    assert_eq!(plan_heatmap(60, 1, 0), None);
    assert_eq!(plan_heatmap(u64::MAX, 2, 1), None);
    assert_eq!(plan_heatmap(18_446_744_073, 1, 1), Some(HeatmapPlan {
        span_ns: 18_446_744_073_000_000_000,
        resolution_ns: 1_000_000,
    }));
    assert_eq!(plan_heatmap(18_446_744_073, 1, 400_000), None);
}

#[test]
fn launches_one_task_per_connection_and_endpoint() {
    let c = config(settings());
    let launch = launch_tasks(&c, false).ok().unwrap();
    assert_eq!(plan_tasks(&c).tasks, launch.tasks);
    assert_eq!(
        launch.tasks,
        vec![
            TaskPlan { connection: 0, endpoint: 0 },
            TaskPlan { connection: 0, endpoint: 1 },
            TaskPlan { connection: 0, endpoint: 2 },
            TaskPlan { connection: 1, endpoint: 0 },
            TaskPlan { connection: 1, endpoint: 1 },
            TaskPlan { connection: 1, endpoint: 2 },
        ]
    );
    assert_eq!(launch.settings.protocol, Protocol::Redis);
    assert_eq!(launch.settings.connect_timeout_ms, 250);
    assert_eq!(launch.settings.request_timeout_ns, 200_000_000);
}

#[test]
fn driver_settings_cap_the_request_timeout() {
    let mut s = settings();
    s.request.timeout_ms = u64::MAX;
    let c = config(s);
    assert_eq!(settings_of(&c).request_timeout_ns, u64::MAX);
}

#[test]
fn launches_publishers_only_for_the_publishing_protocol() {
    let c = config(settings());
    assert!(launch_publishers(&c, false).ok().unwrap().is_none());
    assert!(launch_publishers(&c, true).ok().unwrap().is_none());
    let mut s = settings();
    s.general.protocol = Protocol::PubSubMomento;
    let c = config(s);
    let launch = launch_publishers(&c, true).ok().unwrap().unwrap();
    assert_eq!(launch.tasks.len(), 6);
    assert_eq!(launch.settings.protocol, Protocol::PubSubMomento);
    assert_eq!(launch_publishers(&c, false).err(), Some(LaunchError::MissingToken));
}

#[test]
fn the_queue_holds_sixteen_items_per_task() {
    assert_eq!(queue_size(0), 1024);
    assert_eq!(queue_size(1), 1024);
    assert_eq!(queue_size(64), 1024);
    assert_eq!(queue_size(65), 1040);
    assert_eq!(queue_size(1000), 16000);
    assert_eq!(queue_size(usize::MAX), usize::MAX);
}

#[test]
fn a_missing_token_launches_nothing() {
    for protocol in [Protocol::Momento, Protocol::PubSubMomento] {
        let mut s = settings();
        s.general.protocol = protocol;
        let c = config(s);
        assert_eq!(launch_tasks(&c, false).err(), Some(LaunchError::MissingToken));
        assert_eq!(launch_tasks(&c, true).ok().unwrap().tasks.len(), 6);
    }
    for protocol in [Protocol::Ping, Protocol::Redis, Protocol::Http1, Protocol::Http2] {
        let mut s = settings();
        s.general.protocol = protocol;
        let c = config(s);
        assert_eq!(launch_tasks(&c, false).ok().unwrap().tasks.len(), 6);
    }
}

#[test]
fn limiters_differ_by_rate_and_model() {
    let slow = make_limiter(Some(2), RatelimitModel::Smooth).unwrap();
    let fast = make_limiter(Some(1000), RatelimitModel::Burst).unwrap();
    assert_eq!(slow.rate(), 2);
    assert_eq!(fast.rate(), 1000);
    let started = std::time::Instant::now();
    let mut tokens = 0;
    while started.elapsed() < std::time::Duration::from_millis(300) {
        if fast.try_wait().is_ok() {
            tokens += 1;
        }
    }
    assert!(100 <= tokens && tokens <= 700, "tokens {}", tokens);
}

#[test]
fn heatmaps_round_the_span_up_to_whole_slices() {
    let mut s = settings();
    s.general.interval_secs = 1;
    s.general.windows = Some(1);
    s.waterfall = Waterfall { file: Some("w".to_string()), resolution_ms: 300 };
    let b = Builder::new(config(s)).ok().unwrap();
    assert_eq!(b.request_waterfall.unwrap().slices(), 5);
    assert_eq!(b.request_heatmap.slices(), 2);
    assert_eq!(b.request_heatmap.resolution().as_nanos(), 1_000_000_000);
}

#[test]
fn rejects_an_interval_of_zero() {
    let mut s = settings();
    s.general.interval_secs = 0;
    assert_eq!(error_of(s), BuildError::ZeroInterval);
}

#[test]
fn rejects_a_waterfall_without_windows() {
    let mut s = settings();
    s.general.windows = Some(0);
    s.waterfall = Waterfall { file: Some("w".to_string()), resolution_ms: 500 };
    assert_eq!(error_of(s), BuildError::ZeroWindows);
    let mut s = settings();
    s.general.windows = Some(0);
    assert!(Builder::new(config(s)).is_ok());
}

#[test]
fn every_heatmap_built_holds_two_slices_or_more() {
    let mut s = settings();
    s.general.interval_secs = 1;
    s.general.windows = Some(1);
    s.waterfall = Waterfall { file: Some("w".to_string()), resolution_ms: 60_000 };
    let b = Builder::new(config(s)).ok().unwrap();
    assert_eq!(b.request_heatmap.slices(), 2);
    assert_eq!(b.connect_heatmap.slices(), 2);
    assert_eq!(b.request_waterfall.unwrap().slices(), 2);
}
