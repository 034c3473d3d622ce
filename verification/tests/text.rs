use cgroup_harness::text::{append_bytes, bytes_equal, decode_decimal, encode_decimal};

#[test]
fn decimal_numerals_are_written_without_padding() {
    assert_eq!(encode_decimal(0), b"0".to_vec());
    assert_eq!(encode_decimal(7), b"7".to_vec());
    assert_eq!(encode_decimal(10), b"10".to_vec());
    assert_eq!(encode_decimal(8000), b"8000".to_vec());
    assert_eq!(encode_decimal(1_000_000_007), b"1000000007".to_vec());
    assert_eq!(encode_decimal(u64::MAX), b"18446744073709551615".to_vec());
}

#[test]
fn decimal_numerals_are_read_back() {
    assert_eq!(decode_decimal(b"0"), Some(0));
    assert_eq!(decode_decimal(b"8000"), Some(8000));
    assert_eq!(decode_decimal(b"18446744073709551615"), Some(u64::MAX));
}

#[test]
fn leading_zeros_are_accepted() {
    assert_eq!(decode_decimal(b"007"), Some(7));
    assert_eq!(decode_decimal(b"0000"), Some(0));
}

#[test]
fn numerals_with_anything_but_digits_are_refused() {
    assert_eq!(decode_decimal(b""), None);
    assert_eq!(decode_decimal(b"12a"), None);
    assert_eq!(decode_decimal(b"-1"), None);
    assert_eq!(decode_decimal(b"+1"), None);
    assert_eq!(decode_decimal(b" 1"), None);
    assert_eq!(decode_decimal(b"1 "), None);
    assert_eq!(decode_decimal(b"1\n"), None);
}

#[test]
fn numerals_beyond_sixty_four_bits_are_refused() {
    assert_eq!(decode_decimal(b"18446744073709551616"), None);
    assert_eq!(decode_decimal(b"99999999999999999999"), None);
    assert_eq!(decode_decimal(b"184467440737095516150"), None);
}

#[test]
fn every_numeral_reads_back_as_its_number() {
    let samples: [u64; 8] = [0, 1, 9, 10, 99, 100, 10_000, u64::MAX - 1];
    for n in samples {
        assert_eq!(decode_decimal(&encode_decimal(n)), Some(n));
    }
}

#[test]
fn byte_strings_compare_by_content() {
    assert!(bytes_equal(b"", b""));
    assert!(bytes_equal(b"cpu", b"cpu"));
    assert!(!bytes_equal(b"cpu", b"cpuset"));
    assert!(!bytes_equal(b"cpu", b"cpv"));
}

#[test]
fn appending_keeps_what_was_there() {
    let mut out = b"10000".to_vec();
    append_bytes(&mut out, b" 50000");
    assert_eq!(out, b"10000 50000".to_vec());
    append_bytes(&mut out, b"");
    assert_eq!(out, b"10000 50000".to_vec());
}
