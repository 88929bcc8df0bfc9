use rpc_perf::keyspace::{
    within_width, Command, Field, FieldType, KeyDistribution, KeyDistributionModel, Keyspace,
    KeyspaceError, KeyspaceSettings, Verb,
};
use rpc_perf::sampling::{
    check_digits, check_exponent, check_scale, find_scale, task_rng, WeightError,
};

fn zipf(exponent: Option<&str>) -> KeyDistributionModel {
    KeyDistributionModel::Zipf { exponent: exponent.map(|e| e.to_string()) }
}

fn settings(length: usize, cardinality: u32, key_type: FieldType) -> KeyspaceSettings {
    KeyspaceSettings {
        length,
        weight: 1,
        cardinality,
        ttl: 0,
        batch_size: 1,
        key_type,
        key_distribution: KeyDistributionModel::Uniform,
        commands: vec![Command::new(Verb::Get, 1)],
        inner_keys: Vec::new(),
        values: Vec::new(),
    }
}

fn error_of(s: KeyspaceSettings) -> KeyspaceError {
    match Keyspace::new(s) {
        Ok(_) => panic!("keyspace was accepted"),
        Err(e) => e,
    }
}

fn build(s: KeyspaceSettings) -> Keyspace {
    match Keyspace::new(s) {
        Ok(k) => k,
        Err(e) => panic!("keyspace was rejected: {:?}", e),
    }
}

fn is_alphanumeric(bytes: &[u8]) -> bool {
    bytes.iter().all(|b| b.is_ascii_alphanumeric())
}

#[test]
fn rejects_zero_length() {
    assert_eq!(error_of(settings(0, 10, FieldType::Alphanumeric)), KeyspaceError::ZeroLength);
}

#[test]
fn rejects_zero_weight() {
    let mut s = settings(8, 10, FieldType::Alphanumeric);
    s.weight = 0;
    assert_eq!(error_of(s), KeyspaceError::ZeroWeight);
}

#[test]
fn rejects_zero_cardinality() {
    assert_eq!(error_of(settings(8, 0, FieldType::U32)), KeyspaceError::ZeroCardinality);
}

#[test]
fn rejects_numeric_keys_wider_than_the_key() {
    assert_eq!(error_of(settings(2, 101, FieldType::U32)), KeyspaceError::KeyTooNarrow);
    assert!(Keyspace::new(settings(2, 100, FieldType::U32)).is_ok());
    assert!(Keyspace::new(settings(2, 101, FieldType::Alphanumeric)).is_ok());
}

#[test]
fn rejects_bad_command_weights() {
    let mut s = settings(8, 10, FieldType::U32);
    s.commands = Vec::new();
    assert_eq!(error_of(s), KeyspaceError::Commands(WeightError::NoItem));
    let mut s = settings(8, 10, FieldType::U32);
    s.commands = vec![Command::new(Verb::Get, 0), Command::new(Verb::Delete, 0)];
    assert_eq!(error_of(s), KeyspaceError::Commands(WeightError::AllWeightsZero));
    let mut s = settings(8, 10, FieldType::U32);
    s.commands = vec![Command::new(Verb::Get, usize::MAX), Command::new(Verb::Delete, 1)];
    assert_eq!(error_of(s), KeyspaceError::Commands(WeightError::InvalidWeight));
}

#[test]
fn rejects_inner_key_that_cannot_be_rendered() {
    let mut s = settings(8, 10, FieldType::U32);
    s.inner_keys = vec![
        Field::new(4, 10, FieldType::Alphanumeric, 1),
        Field::new(1, 11, FieldType::U32, 1),
        Field::new(0, 1, FieldType::U32, 1),
    ];
    assert_eq!(error_of(s), KeyspaceError::InnerKeyShape(1));
}

#[test]
fn rejects_bad_inner_key_weights() {
    let mut s = settings(8, 10, FieldType::U32);
    s.inner_keys = vec![Field::new(4, 10, FieldType::Alphanumeric, 0)];
    assert_eq!(error_of(s), KeyspaceError::InnerKeys(WeightError::AllWeightsZero));
}

#[test]
fn rejects_hash_command_without_inner_keys() {
    let mut s = settings(8, 10, FieldType::U32);
    s.commands = vec![Command::new(Verb::Get, 1), Command::new(Verb::HashGet, 1)];
    assert_eq!(error_of(s), KeyspaceError::MissingInnerKeys);
}

#[test]
fn rejects_value_that_cannot_be_rendered() {
    let mut s = settings(8, 10, FieldType::U32);
    s.values = vec![Field::new(3, 1001, FieldType::U32, 1)];
    assert_eq!(error_of(s), KeyspaceError::ValueShape(0));
}

#[test]
fn rejects_bad_value_weights() {
    let mut s = settings(8, 10, FieldType::U32);
    s.values = vec![Field::new(4, 10, FieldType::Alphanumeric, 0)];
    assert_eq!(error_of(s), KeyspaceError::Values(WeightError::AllWeightsZero));
}

#[test]
fn rejects_write_without_values() {
    let mut s = settings(8, 10, FieldType::U32);
    s.commands = vec![Command::new(Verb::Put, 1)];
    assert_eq!(error_of(s), KeyspaceError::MissingValues);
}

#[test]
fn reports_the_first_error() {
    let mut s = settings(0, 0, FieldType::U32);
    s.weight = 0;
    s.commands = Vec::new();
    assert_eq!(error_of(s), KeyspaceError::ZeroLength);
}

#[test]
fn read_only_keyspace_needs_no_values() {
    let k = build(settings(8, 10, FieldType::U32));
    let mut rng = task_rng(1, 0);
    assert_eq!(k.generate_value(&mut rng), None);
    assert_eq!(k.generate_inner_key(&mut rng), None);
    assert!(k.choose_value(&mut rng).is_none());
}

#[test]
fn getters_return_what_was_configured() {
    let mut s = settings(8, 10, FieldType::U32);
    s.weight = 3;
    s.ttl = 60;
    s.batch_size = 4;
    let k = build(s);
    assert_eq!(k.length(), 8);
    assert_eq!(k.cardinality(), 10);
    assert_eq!(k.weight(), 3);
    assert_eq!(k.ttl(), 60);
    assert_eq!(k.batch_size(), 4);
}

#[test]
fn numeric_keys_have_the_key_shape() {
    let k = build(settings(8, 10, FieldType::U32));
    let mut rng = task_rng(42, 0);
    let mut seen = [false; 10];
    for _ in 0..2000 {
        let key = k.generate_key(&mut rng);
        assert_eq!(key.len(), 8);
        assert!(key.iter().all(|b| b.is_ascii_digit()));
        assert_eq!(&key[..7], b"0000000");
        let n: usize = String::from_utf8(key).unwrap().parse().unwrap();
        assert!(n < 10);
        seen[n] = true;
    }
    assert!(seen.iter().all(|s| *s));
}

#[test]
fn numeric_keys_fill_the_key_at_full_cardinality() {
    let k = build(settings(2, 100, FieldType::U32));
    let mut rng = task_rng(7, 3);
    for _ in 0..2000 {
        let key = k.generate_key(&mut rng);
        assert_eq!(key.len(), 2);
        let n: usize = String::from_utf8(key).unwrap().parse().unwrap();
        assert!(n < 100);
    }
}

#[test]
fn alphanumeric_keys_have_the_key_shape() {
    let k = build(settings(16, 10, FieldType::Alphanumeric));
    let mut rng = task_rng(42, 1);
    for _ in 0..500 {
        let key = k.generate_key(&mut rng);
        assert_eq!(key.len(), 16);
        assert!(is_alphanumeric(&key));
    }
}

#[test]
fn key_from_sample_renders_the_sample() {
    let k = build(settings(8, 10, FieldType::U32));
    assert_eq!(k.key_from_sample(7), b"00000007".to_vec());
    assert_eq!(k.key_from_sample(0), b"00000000".to_vec());
    assert_eq!(k.key_from_sample(123456789), b"123456789".to_vec());
}

#[test]
fn zipf_keys_render_ranks_from_one_to_the_cardinality() {
    let mut s = settings(2, 20, FieldType::U32);
    s.key_distribution = zipf(Some("1.0"));
    let k = build(s);
    let mut rng = task_rng(5, 0);
    let mut seen = [false; 21];
    for _ in 0..20000 {
        let key = k.generate_key(&mut rng);
        assert_eq!(key.len(), 2);
        let n: usize = String::from_utf8(key).unwrap().parse().unwrap();
        assert!(1 <= n && n <= 20);
        seen[n] = true;
    }
    assert!(!seen[0]);
    assert!(seen[1..].iter().all(|s| *s));
}

#[test]
fn zipf_ranks_follow_the_power_law() {
    let n = 1000usize;
    let mut s = settings(4, 1000, FieldType::U32);
    s.key_distribution = zipf(Some("1.0"));
    let k = build(s);
    let mut rng = task_rng(2024, 0);
    let samples = 1_000_000usize;
    let mut counts = vec![0u64; n + 1];
    for _ in 0..samples {
        let rank = match &k.key_distribution {
            KeyDistribution::Zipf(_) => k.key_distribution.sample(&mut rng),
            KeyDistribution::Uniform { .. } => panic!("a uniform distribution was built"),
        };
        assert!(1 <= rank && rank <= n);
        counts[rank] += 1;
    }
    let harmonic: f64 = (1..=n).map(|k| 1.0 / k as f64).sum();
    for k in 1..=100usize {
        let expected = samples as f64 / (k as f64 * harmonic);
        let observed = counts[k] as f64;
        let tolerance = if k == 1 { 0.3 } else { 0.5 };
        assert!((observed - expected).abs() <= tolerance * expected, "rank {}", k);
    }
    for k in 1..10usize {
        assert!(counts[k] > counts[k + 1], "rank {}", k);
    }
}

#[test]
fn a_steeper_exponent_favours_the_first_rank() {
    let mut flat = settings(4, 1000, FieldType::U32);
    flat.key_distribution = zipf(Some("0.5"));
    let mut steep = settings(4, 1000, FieldType::U32);
    steep.key_distribution = zipf(Some("2"));
    let flat = build(flat);
    let steep = build(steep);
    let mut rng = task_rng(6, 0);
    let mut flat_first = 0u32;
    let mut steep_first = 0u32;
    for _ in 0..20000 {
        if flat.generate_key(&mut rng) == b"0001".to_vec() {
            flat_first += 1;
        }
        if steep.generate_key(&mut rng) == b"0001".to_vec() {
            steep_first += 1;
        }
    }
    assert!(steep_first > 10000);
    assert!(flat_first < 2000);
}

#[test]
fn the_zipf_exponent_defaults_to_one() {
    let mut s = settings(4, 1000, FieldType::U32);
    s.key_distribution = zipf(None);
    let a = build(s);
    let mut s = settings(4, 1000, FieldType::U32);
    s.key_distribution = zipf(Some("1.0"));
    let b = build(s);
    let mut x = task_rng(3, 3);
    let mut y = task_rng(3, 3);
    for _ in 0..200 {
        assert_eq!(a.generate_key(&mut x), b.generate_key(&mut y));
    }
}

#[test]
fn the_same_exponent_written_differently_draws_the_same() {
    let mut rngs = Vec::new();
    let mut spaces = Vec::new();
    for text in ["1.5", "+1.5", "15e-1", "0.15E+1", "1.50"] {
        let mut s = settings(4, 1000, FieldType::U32);
        s.key_distribution = zipf(Some(text));
        spaces.push(build(s));
        rngs.push(task_rng(8, 8));
    }
    for _ in 0..200 {
        let first = spaces[0].generate_key(&mut rngs[0]);
        for i in 1..spaces.len() {
            assert_eq!(spaces[i].generate_key(&mut rngs[i]), first);
        }
    }
}

#[test]
fn rejects_an_exponent_that_is_no_positive_decimal() {
    let rejected = [
        "", ".", "+", "abc", "-1", "1.0.0", "nan", "inf", "infinity", " 1", "1 ", "0", "0.0", "000",
        "0e5", "+0.0e-2", "1e", "1e+", "1e-", "1e100", "1e-100", "1e1.5", "1e5e5", "++1", "+-1",
        "1E--2", "e5", ".e5", "1_0", "0x10", "١",
    ];
    for text in rejected {
        let mut s = settings(4, 1000, FieldType::U32);
        s.key_distribution = zipf(Some(text));
        assert_eq!(error_of(s), KeyspaceError::BadExponent, "exponent {:?}", text);
    }
    let mut s = settings(4, 1000, FieldType::U32);
    s.key_distribution = zipf(Some("1.0000000000000000000000000000000"));
    assert_eq!(error_of(s), KeyspaceError::BadExponent);
}

#[test]
fn accepts_plain_positive_exponents() {
    let tiny = format!("0.{}1", "0".repeat(29));
    assert_eq!(tiny.len(), 32);
    let accepted = [
        "1", "1.", ".5", "0.01", "12.75", "00.1", "+1", "+.5", "1e5", "1E5", "1.5e-3", "1.e2",
        "2e-99", "9e99", "+1.25E+01", "0.5e0", tiny.as_str(),
    ];
    for text in accepted {
        let mut s = settings(4, 1000, FieldType::U32);
        s.key_distribution = zipf(Some(text));
        assert!(Keyspace::new(s).is_ok(), "exponent {:?}", text);
    }
}

#[test]
fn zipf_ranks_must_fit_the_key() {
    let mut s = settings(2, 100, FieldType::U32);
    s.key_distribution = zipf(Some("1.0"));
    assert_eq!(error_of(s), KeyspaceError::KeyTooNarrow);
    let mut s = settings(2, 99, FieldType::U32);
    s.key_distribution = zipf(Some("1.0"));
    assert!(Keyspace::new(s).is_ok());
    let mut s = settings(2, 100, FieldType::Alphanumeric);
    s.key_distribution = zipf(Some("1.0"));
    assert!(Keyspace::new(s).is_ok());
    let mut s = settings(12, u32::MAX, FieldType::U32);
    s.key_distribution = zipf(Some("1.0"));
    assert!(Keyspace::new(s).is_ok());
}

#[test]
fn a_narrow_key_is_reported_before_a_bad_exponent() {
    let mut s = settings(2, 100, FieldType::U32);
    s.key_distribution = zipf(Some("x"));
    assert_eq!(error_of(s), KeyspaceError::KeyTooNarrow);
    let mut s = settings(2, 99, FieldType::U32);
    s.key_distribution = zipf(Some("x"));
    assert_eq!(error_of(s), KeyspaceError::BadExponent);
}

#[test]
fn exponent_text_is_checked_by_its_characters() {
    assert_eq!(check_exponent("1.0"), (true, true));
    assert_eq!(check_exponent("0.0"), (true, false));
    assert_eq!(check_exponent("+0e9"), (true, false));
    assert_eq!(check_exponent("."), (false, false));
    assert_eq!(check_exponent(""), (false, false));
    assert_eq!(check_exponent("1.2.3"), (false, false));
    assert_eq!(check_exponent("1e5"), (true, true));
    assert_eq!(check_exponent("+1.5E-03"), (true, true));
    assert_eq!(check_exponent("1e123"), (false, false));
    assert_eq!(check_exponent("-1"), (false, false));
    assert_eq!(check_exponent("12345678901234567890123456789012"), (true, true));
    assert_eq!(check_exponent("12345678901234567890123456789012e99"), (true, true));
    assert_eq!(check_exponent("123456789012345678901234567890123"), (false, false));
    assert_eq!(check_digits("x12.5y", 1, 5), (true, true));
    assert_eq!(check_digits("x12.5y", 0, 5), (false, true));
    assert_eq!(check_digits("x00y", 1, 3), (true, false));
    assert_eq!(find_scale("12e5", 0), 2);
    assert_eq!(find_scale("12e5", 3), 4);
    assert_eq!(find_scale("125", 0), 3);
    assert!(check_scale("1e-5", 1));
    assert!(check_scale("1e-5", 4));
    assert!(!check_scale("1e-5", 0));
    assert!(!check_scale("1e", 1));
}

#[test]
fn width_is_told_for_counts_up_to_two_to_the_32() {
    assert!(within_width(0, 1));
    assert!(within_width(10, 1));
    assert!(!within_width(11, 1));
    assert!(!within_width(1, 0));
    assert!(within_width(4294967296, 10));
    assert!(!within_width(4294967296, 9));
}

#[test]
fn uniform_samples_stay_below_the_cardinality() {
    let dist = KeyDistribution::Uniform { cardinality: 3 };
    let mut rng = task_rng(9, 9);
    let mut counts = [0u32; 3];
    for _ in 0..3000 {
        counts[dist.sample(&mut rng)] += 1;
    }
    assert!(counts.iter().all(|c| *c > 800));
}

#[test]
fn inner_keys_and_values_come_from_their_descriptors() {
    let mut s = settings(8, 10, FieldType::U32);
    s.commands = vec![Command::new(Verb::HashSet, 1)];
    s.inner_keys = vec![
        Field::new(3, 50, FieldType::U32, 1),
        Field::new(5, 1, FieldType::Alphanumeric, 0),
    ];
    s.values = vec![Field::new(16, 1, FieldType::Alphanumeric, 1)];
    let k = build(s);
    let mut rng = task_rng(11, 0);
    let mut seen = [false; 50];
    for _ in 0..1000 {
        let inner = k.generate_inner_key(&mut rng).unwrap();
        assert_eq!(inner.len(), 3);
        let n: u32 = String::from_utf8(inner).unwrap().parse().unwrap();
        assert!(n < 50);
        seen[n as usize] = true;
        let value = k.generate_value(&mut rng).unwrap();
        assert_eq!(value.len(), 16);
        assert!(is_alphanumeric(&value));
        assert_eq!(*k.choose_value(&mut rng).unwrap(), Field::new(16, 1, FieldType::Alphanumeric, 1));
    }
    assert!(seen.iter().all(|s| *s));
}

#[test]
fn commands_are_chosen_by_weight() {
    let mut s = settings(8, 10, FieldType::U32);
    s.commands = vec![
        Command::new(Verb::Get, 3),
        Command::new(Verb::Delete, 1),
        Command::new(Verb::Ping, 0),
    ];
    let k = build(s);
    let mut rng = task_rng(77, 0);
    let samples = 1_000_000u32;
    let mut gets = 0u32;
    let mut deletes = 0u32;
    for _ in 0..samples {
        match k.choose_command(&mut rng).verb() {
            Verb::Get => gets += 1,
            Verb::Delete => deletes += 1,
            other => panic!("command of weight zero was chosen: {:?}", other),
        }
    }
    let get_share = gets as f64 / samples as f64;
    let delete_share = deletes as f64 / samples as f64;
    assert!((get_share - 0.75).abs() <= 0.02);
    assert!((delete_share - 0.25).abs() <= 0.02);
}

#[test]
fn values_are_chosen_by_weight() {
    let mut s = settings(8, 10, FieldType::U32);
    s.values = vec![
        Field::new(1, 1, FieldType::Alphanumeric, 1),
        Field::new(2, 1, FieldType::Alphanumeric, 4),
    ];
    let k = build(s);
    let mut rng = task_rng(78, 0);
    let samples = 1_000_000u32;
    let mut long = 0u32;
    for _ in 0..samples {
        if k.generate_value(&mut rng).unwrap().len() == 2 {
            long += 1;
        }
    }
    let share = long as f64 / samples as f64;
    assert!((share - 0.8).abs() <= 0.02);
}

#[test]
fn field_shape_check_follows_the_type() {
    assert!(Field::new(0, 0, FieldType::Alphanumeric, 1).is_shape_ok());
    assert!(Field::new(1, 10, FieldType::U32, 1).is_shape_ok());
    assert!(!Field::new(1, 11, FieldType::U32, 1).is_shape_ok());
    assert!(!Field::new(1, 0, FieldType::U32, 1).is_shape_ok());
    assert!(!Field::new(0, 1, FieldType::U32, 1).is_shape_ok());
}

#[test]
fn verbs_know_what_they_need() {
    assert!(Verb::Put.is_write());
    assert!(Verb::HashSet.is_write());
    assert!(Verb::Publish.is_write());
    assert!(!Verb::Get.is_write());
    assert!(Verb::HashGet.needs_inner_key());
    assert!(Verb::SortedSetScore.needs_inner_key());
    assert!(!Verb::Get.needs_inner_key());
    assert!(!Verb::Ping.needs_inner_key());
}

#[test]
fn extreme_exponents_still_yield_ranks() {
    let tiny = format!("0.{}1", "0".repeat(29));
    let huge = "9".repeat(32);
    let largest = format!("{}e99", "9".repeat(32));
    let smallest = format!("0.{}1e-99", "0".repeat(29));
    let texts = [
        tiny.as_str(),
        huge.as_str(),
        largest.as_str(),
        smallest.as_str(),
        "700",
        "0.001",
        "1",
        "+1e0",
        "1.000000001",
        "0.999999999",
        "1e-99",
        "9e99",
    ];
    for text in texts {
        for cardinality in [1u32, 2, 1000, u32::MAX] {
            let mut s = settings(12, cardinality, FieldType::U32);
            s.key_distribution = zipf(Some(text));
            let k = build(s);
            let mut rng = task_rng(1, 1);
            for _ in 0..2000 {
                let key = k.generate_key(&mut rng);
                assert_eq!(key.len(), 12);
                let n: u64 = String::from_utf8(key).unwrap().parse().unwrap();
                assert!(1 <= n && n <= cardinality as u64, "exponent {:?}", text);
            }
        }
    }
}
