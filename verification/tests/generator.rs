use rpc_perf::config::{
    Config, Connection, General, Level, Protocol, RatelimitModel, Request, Settings, Waterfall,
};
use rpc_perf::generator::{convert_ratelimit, Generator, GeneratorAction, Pacing};
use rpc_perf::keyspace::{
    Command, Field, FieldType, KeyDistributionModel, Keyspace, KeyspaceSettings, Verb,
};
use rpc_perf::sampling::{seed_for, task_rng};
use rpc_perf::workload::{
    batch_len, build_request, inner_key_list, key_list, ClientRequest, ClientWorkItem, Get, Put,
    WorkKind,
};

fn keyspace(commands: Vec<Command>) -> KeyspaceSettings {
    KeyspaceSettings {
        length: 8,
        weight: 1,
        cardinality: 10,
        ttl: 0,
        batch_size: 3,
        key_type: FieldType::U32,
        key_distribution: KeyDistributionModel::Uniform,
        commands,
        inner_keys: vec![Field::new(4, 100, FieldType::U32, 1)],
        values: vec![Field::new(16, 1, FieldType::Alphanumeric, 1)],
    }
}

fn config(commands: Vec<Command>) -> Config {
    let settings = Settings {
        general: General { threads: 1, interval_secs: 60, windows: None, protocol: Protocol::Redis },
        debug: rpc_perf::config::Debug {
            log_level: Level::Info,
            log_file: None,
            log_backup: None,
            log_max_size: 0,
            log_queue_depth: 0,
            log_single_message_size: 0,
        },
        waterfall: Waterfall { file: None, resolution_ms: 1000 },
        connection: Connection {
            poolsize: 1,
            timeout_ms: 200,
            ratelimit: None,
            reconnect: None,
            ratelimit_model: RatelimitModel::Smooth,
        },
        request: Request { timeout_ms: 200, ratelimit: Some(100), ratelimit_model: RatelimitModel::Smooth },
        tls: None,
        endpoints: vec!["127.0.0.1:6379".to_string()],
        keyspaces: vec![keyspace(commands)],
    };
    match Config::new(settings) {
        Ok(c) => c,
        Err(e) => panic!("configuration was rejected: {:?}", e),
    }
}

fn built(commands: Vec<Command>) -> Keyspace {
    match Keyspace::new(keyspace(commands)) {
        Ok(k) => k,
        Err(e) => panic!("keyspace was rejected: {:?}", e),
    }
}

fn is_key(bytes: &[u8]) -> bool {
    bytes.len() == 8 && bytes.iter().all(|b| b.is_ascii_digit()) && &bytes[..7] == b"0000000"
}

fn is_inner(bytes: &[u8]) -> bool {
    bytes.len() == 4 && bytes.iter().all(|b| b.is_ascii_digit()) && &bytes[..2] == b"00"
}

fn is_value(bytes: &[u8]) -> bool {
    bytes.len() == 16 && bytes.iter().all(|b| b.is_ascii_alphanumeric())
}

#[test]
fn pacing_of_slow_rates_is_one_item_per_tick() {
    assert_eq!(convert_ratelimit(1), Pacing { quanta: 1, interval_ns: 1_000_000_000 });
    assert_eq!(convert_ratelimit(100), Pacing { quanta: 1, interval_ns: 10_000_000 });
    assert_eq!(convert_ratelimit(1000), Pacing { quanta: 1, interval_ns: 1_000_000 });
    assert_eq!(convert_ratelimit(3), Pacing { quanta: 1, interval_ns: 333_333_333 });
}

#[test]
fn pacing_of_fast_rates_keeps_the_interval_at_a_millisecond() {
    assert_eq!(convert_ratelimit(1001), Pacing { quanta: 2, interval_ns: 1_998_001 });
    assert_eq!(convert_ratelimit(2000), Pacing { quanta: 2, interval_ns: 1_000_000 });
    assert_eq!(convert_ratelimit(1_000_000), Pacing { quanta: 1000, interval_ns: 1_000_000 });
    assert_eq!(convert_ratelimit(u32::MAX), Pacing { quanta: 4_294_968, interval_ns: 1_000_000 });
}

#[test]
fn pacing_meets_the_rate_within_a_millionth() {
    for rate in [1u32, 7, 99, 100, 999, 1000, 1001, 1500, 12345, 1_000_003, u32::MAX] {
        let p = convert_ratelimit(rate);
        assert!(p.interval_ns >= 1_000_000);
        let achieved = p.quanta as f64 * 1e9 / p.interval_ns as f64;
        let error = (achieved - rate as f64).abs() / rate as f64;
        assert!(error <= 1e-6, "rate {} achieved {}", rate, achieved);
    }
}

#[test]
fn a_paced_generator_emits_the_rate_over_ten_seconds() {
    let mut g = Generator::new(Some(100));
    let mut clock_ns = 0u64;
    let mut emitted = 0u64;
    loop {
        match g.get_requests(clock_ns < 10_000_000_000) {
            GeneratorAction::WaitTick { interval_ns } => clock_ns += interval_ns,
            GeneratorAction::Emit => emitted += 1,
            GeneratorAction::Exit => break,
        }
    }
    assert!(950 <= emitted && emitted <= 1050, "emitted {}", emitted);
}

#[test]
fn an_unpaced_generator_emits_one_item_at_a_time() {
    let mut g = Generator::new(None);
    assert_eq!(g.pacing, None);
    assert_eq!(g.get_requests(true), GeneratorAction::Emit);
    assert_eq!(g.get_requests(true), GeneratorAction::Emit);
    assert_eq!(g.get_requests(false), GeneratorAction::Exit);
}

#[test]
fn a_paced_generator_waits_then_emits_its_quanta() {
    let mut g = Generator::new(Some(5000));
    assert_eq!(g.pacing, Some(Pacing { quanta: 5, interval_ns: 1_000_000 }));
    for _ in 0..3 {
        assert_eq!(g.get_requests(true), GeneratorAction::WaitTick { interval_ns: 1_000_000 });
        for _ in 0..5 {
            assert_eq!(g.get_requests(true), GeneratorAction::Emit);
        }
    }
    assert_eq!(g.get_requests(true), GeneratorAction::WaitTick { interval_ns: 1_000_000 });
    assert_eq!(g.get_requests(false), GeneratorAction::Exit);
    assert_eq!(g.get_requests(true), GeneratorAction::WaitTick { interval_ns: 1_000_000 });
}

#[test]
fn a_generator_stops_between_the_items_of_a_tick() {
    let mut g = Generator::new(Some(5000));
    assert_eq!(g.get_requests(true), GeneratorAction::WaitTick { interval_ns: 1_000_000 });
    assert_eq!(g.get_requests(true), GeneratorAction::Emit);
    assert_eq!(g.get_requests(true), GeneratorAction::Emit);
    assert_eq!(g.get_requests(false), GeneratorAction::Exit);
    assert_eq!(g.remaining, 0);
}

#[test]
fn generated_items_carry_rising_sequence_numbers() {
    let c = config(vec![Command::new(Verb::Get, 1)]);
    let mut g = Generator::new(None);
    let mut rng = task_rng(1, 0);
    for expected in 0..100u64 {
        match g.generate(&c, &mut rng) {
            ClientWorkItem::Request { request: ClientRequest::Get(Get { key }), sequence } => {
                assert_eq!(sequence, expected);
                assert!(is_key(&key));
            },
            other => panic!("unexpected item {:?}", other),
        }
    }
    assert_eq!(g.sequence, 100);
}

#[test]
fn sequence_numbers_start_over_at_the_largest() {
    let c = config(vec![Command::new(Verb::Get, 1)]);
    let mut g = Generator::new(None);
    g.sequence = u64::MAX;
    let mut rng = task_rng(1, 0);
    match g.generate(&c, &mut rng) {
        ClientWorkItem::Request { sequence, .. } => assert_eq!(sequence, u64::MAX),
        other => panic!("unexpected item {:?}", other),
    }
    assert_eq!(g.sequence, 0);
}

#[test]
fn a_reconnect_command_yields_a_reconnect_item() {
    let c = config(vec![Command::new(Verb::Reconnect, 1)]);
    let mut g = Generator::new(None);
    let mut rng = task_rng(1, 0);
    let item = g.generate(&c, &mut rng);
    assert_eq!(item, ClientWorkItem::Reconnect);
    assert_eq!(item.kind(), WorkKind::Reconnect);
    assert_eq!(g.sequence, 0);
}

#[test]
fn generated_writes_carry_a_value() {
    let c = config(vec![Command::new(Verb::Put, 1)]);
    let mut g = Generator::new(None);
    let mut rng = task_rng(3, 0);
    for _ in 0..100 {
        match g.generate(&c, &mut rng) {
            ClientWorkItem::Request { request: ClientRequest::Put(Put { key, value }), .. } => {
                assert!(is_key(&key));
                assert!(is_value(&value));
            },
            other => panic!("unexpected item {:?}", other),
        }
    }
}

#[test]
fn every_verb_builds_its_request() {
    let k = built(vec![Command::new(Verb::Get, 1)]);
    let mut rng = task_rng(8, 0);
    let verbs = [
        Verb::Get,
        Verb::Put,
        Verb::Delete,
        Verb::HashGet,
        Verb::HashSet,
        Verb::HashDelete,
        Verb::HashExists,
        Verb::HashIncrement,
        Verb::HashMultiGet,
        Verb::ListPushFront,
        Verb::ListPushBack,
        Verb::ListPopFront,
        Verb::ListPopBack,
        Verb::ListRange,
        Verb::ListFetch,
        Verb::ListLength,
        Verb::ListRemove,
        Verb::ListStore,
        Verb::MultiGet,
        Verb::SetAdd,
        Verb::SetMembers,
        Verb::SetRemove,
        Verb::SortedSetAdd,
        Verb::SortedSetMembers,
        Verb::SortedSetIncrement,
        Verb::SortedSetRank,
        Verb::SortedSetRemove,
        Verb::SortedSetScore,
        Verb::Ping,
        Verb::Publish,
        Verb::Reconnect,
    ];
    for verb in verbs {
        let request = build_request(&k, verb, &mut rng).unwrap();
        assert_eq!(request.verb(), Some(verb));
    }
}

#[test]
fn batched_requests_hold_the_batch_size() {
    let k = built(vec![Command::new(Verb::Get, 1)]);
    let mut rng = task_rng(8, 1);
    assert_eq!(batch_len(&k), 3);
    match build_request(&k, Verb::HashMultiGet, &mut rng).unwrap() {
        ClientRequest::HashGet { key, fields } => {
            assert!(is_key(&key));
            assert_eq!(fields.len(), 3);
            assert!(fields.iter().all(|f| is_inner(f)));
        },
        other => panic!("unexpected request {:?}", other),
    }
    match build_request(&k, Verb::MultiGet, &mut rng).unwrap() {
        ClientRequest::MultiGet { keys } => {
            assert_eq!(keys.len(), 3);
            assert!(keys.iter().all(|f| is_key(f)));
        },
        other => panic!("unexpected request {:?}", other),
    }
    match build_request(&k, Verb::SortedSetAdd, &mut rng).unwrap() {
        ClientRequest::SortedSetAdd { key, members } => {
            assert!(is_key(&key));
            assert_eq!(members.len(), 3);
            for (member, score) in members {
                assert!(is_inner(&member));
                assert_eq!(f64::from_bits(score), 1.0);
            }
        },
        other => panic!("unexpected request {:?}", other),
    }
    match build_request(&k, Verb::HashSet, &mut rng).unwrap() {
        ClientRequest::HashSet { key, data } => {
            assert!(is_key(&key));
            assert_eq!(data.len(), 1);
            assert!(is_inner(&data[0].0));
            assert!(is_value(&data[0].1));
        },
        other => panic!("unexpected request {:?}", other),
    }
}

#[test]
fn fixed_parts_of_requests_are_as_documented() {
    let k = built(vec![Command::new(Verb::Get, 1)]);
    let mut rng = task_rng(8, 2);
    match build_request(&k, Verb::HashIncrement, &mut rng).unwrap() {
        ClientRequest::HashIncrement { amount, .. } => assert_eq!(amount, 1),
        other => panic!("unexpected request {:?}", other),
    }
    match build_request(&k, Verb::ListRange, &mut rng).unwrap() {
        ClientRequest::ListRange { start, stop, .. } => {
            assert_eq!(start, 0);
            assert_eq!(stop, -1);
        },
        other => panic!("unexpected request {:?}", other),
    }
    match build_request(&k, Verb::ListPushBack, &mut rng).unwrap() {
        ClientRequest::ListPushBack { truncate, elements, .. } => {
            assert_eq!(truncate, None);
            assert_eq!(elements.len(), 3);
        },
        other => panic!("unexpected request {:?}", other),
    }
    match build_request(&k, Verb::SortedSetIncrement, &mut rng).unwrap() {
        ClientRequest::SortedSetIncrement { amount, .. } => assert_eq!(f64::from_bits(amount), 1.0),
        other => panic!("unexpected request {:?}", other),
    }
}

#[test]
fn a_published_topic_is_the_text_of_a_key() {
    let k = built(vec![Command::new(Verb::Get, 1)]);
    let mut rng = task_rng(8, 3);
    match build_request(&k, Verb::Publish, &mut rng).unwrap() {
        ClientRequest::Publish { topic, message } => {
            assert!(is_key(topic.as_bytes()));
            assert!(is_value(&message));
        },
        other => panic!("unexpected request {:?}", other),
    }
}

#[test]
fn a_request_is_not_built_without_what_it_needs() {
    let mut s = keyspace(vec![Command::new(Verb::Get, 1)]);
    s.inner_keys = Vec::new();
    s.values = Vec::new();
    let k = Keyspace::new(s).ok().unwrap();
    let mut rng = task_rng(8, 4);
    assert_eq!(build_request(&k, Verb::HashGet, &mut rng), None);
    assert_eq!(build_request(&k, Verb::Put, &mut rng), None);
    assert_eq!(build_request(&k, Verb::Publish, &mut rng), None);
    assert_eq!(inner_key_list(&k, &mut rng, 2), None);
    assert!(build_request(&k, Verb::Get, &mut rng).is_some());
    assert_eq!(key_list(&k, &mut rng, 2).len(), 2);
}

#[test]
fn a_batch_size_of_zero_counts_as_one() {
    let mut s = keyspace(vec![Command::new(Verb::Get, 1)]);
    s.batch_size = 0;
    let k = Keyspace::new(s).ok().unwrap();
    assert_eq!(batch_len(&k), 1);
    let mut rng = task_rng(8, 5);
    assert_eq!(inner_key_list(&k, &mut rng, 1).unwrap().len(), 1);
}

#[test]
fn work_items_tell_their_kind() {
    let get = ClientWorkItem::Request {
        request: ClientRequest::Get(Get { key: b"k".to_vec() }),
        sequence: 0,
    };
    assert_eq!(get.kind(), WorkKind::Command(Verb::Get));
    let reconnect = ClientWorkItem::Request { request: ClientRequest::Reconnect, sequence: 1 };
    assert_eq!(reconnect.kind(), WorkKind::Reconnect);
    let replace = ClientWorkItem::Request {
        request: ClientRequest::Replace { key: b"k".to_vec(), value: b"v".to_vec() },
        sequence: 2,
    };
    assert_eq!(replace.kind(), WorkKind::Other);
    let one = ClientRequest::HashGet { key: b"k".to_vec(), fields: vec![b"f".to_vec()] };
    assert_eq!(one.verb(), Some(Verb::HashGet));
    let two = ClientRequest::HashGet {
        key: b"k".to_vec(),
        fields: vec![b"f".to_vec(), b"g".to_vec()],
    };
    assert_eq!(two.verb(), Some(Verb::HashMultiGet));
}

#[test]
fn task_seeds_differ_by_position() {
    assert_eq!(seed_for(10, 0), 10);
    assert_eq!(seed_for(10, 5), 15);
    assert_eq!(seed_for(u64::MAX, 1), 0);
    assert_eq!(seed_for(u64::MAX, 2), 1);
}

#[test]
fn tasks_with_the_same_seed_draw_the_same_keys() {
    let k = built(vec![Command::new(Verb::Get, 1)]);
    let mut a = task_rng(99, 4);
    let mut b = task_rng(99, 4);
    let mut c = task_rng(99, 5);
    let mut same = true;
    for _ in 0..64 {
        let x = k.generate_key(&mut a);
        assert_eq!(x, k.generate_key(&mut b));
        if x != k.generate_key(&mut c) {
            same = false;
        }
    }
    assert!(!same);
}
