use rpc_perf::keyspace::{fits_width, number_bytes};
use rpc_perf::text::zero_padded_decimal;

#[test]
fn pads_small_number_to_width() {
    assert_eq!(zero_padded_decimal(7, 8), b"00000007".to_vec());
}

#[test]
fn renders_zero_as_one_digit() {
    assert_eq!(zero_padded_decimal(0, 1), b"0".to_vec());
    assert_eq!(zero_padded_decimal(0, 0), b"0".to_vec());
    assert_eq!(zero_padded_decimal(0, 3), b"000".to_vec());
}

#[test]
fn renders_number_wider_than_width_in_full() {
    assert_eq!(zero_padded_decimal(12345, 3), b"12345".to_vec());
    assert_eq!(zero_padded_decimal(4294967295, 2), b"4294967295".to_vec());
}

#[test]
fn renders_exact_width_without_padding() {
    assert_eq!(zero_padded_decimal(999, 3), b"999".to_vec());
    assert_eq!(zero_padded_decimal(1000, 4), b"1000".to_vec());
    assert_eq!(zero_padded_decimal(4294967295, 12), b"004294967295".to_vec());
}

#[test]
fn padded_number_reads_back() {
    for n in [0u32, 1, 9, 10, 99, 100, 65535, 4294967295] {
        let bytes = zero_padded_decimal(n, 11);
        assert_eq!(bytes.len(), 11);
        let text = String::from_utf8(bytes).unwrap();
        assert_eq!(text.parse::<u64>().unwrap(), n as u64);
    }
}

#[test]
fn width_check_follows_powers_of_ten() {
    assert!(fits_width(1, 1));
    assert!(fits_width(10, 1));
    assert!(!fits_width(11, 1));
    assert!(fits_width(100, 2));
    assert!(!fits_width(101, 2));
    assert!(fits_width(4294967295, 10));
    assert!(!fits_width(4294967295, 9));
    assert!(fits_width(1_000_000_000, 9));
    assert!(!fits_width(1_000_000_001, 9));
    assert!(fits_width(4294967295, 1000));
}

#[test]
fn width_check_refuses_empty_fields() {
    assert!(!fits_width(0, 1));
    assert!(!fits_width(1, 0));
    assert!(!fits_width(0, 0));
}

#[test]
fn number_bytes_has_field_length() {
    assert_eq!(number_bytes(9, 10, 1), b"9".to_vec());
    assert_eq!(number_bytes(0, 10, 8), b"00000000".to_vec());
    assert_eq!(number_bytes(41, 100, 2), b"41".to_vec());
}
