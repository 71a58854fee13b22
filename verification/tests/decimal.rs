use rarerankd::decimal::decimal_string;
use rarerankd::decimal::read_i32;
use rarerankd::decimal::read_u64;
use rarerankd::decimal::read_usize;

#[test]
fn numbers_are_written_in_decimal() {
    for n in [0, 5, 9, 10, 99, 100, 1_000_000, 215_041_381_749_581, u64::MAX] {
        assert_eq!(decimal_string(n), n.to_string());
    }
    assert_eq!(decimal_string(u64::MAX), "18446744073709551615");
}

#[test]
fn written_numbers_read_back() {
    for n in [0, 1, 10, 767_430, u64::MAX - 1, u64::MAX] {
        assert_eq!(read_u64(&decimal_string(n)), Some(n));
    }
}

#[test]
fn unsigned_numbers_are_read_as_parse_reads_them() {
    for text in [
        "", "+", "-", "0", "+0", "-0", "007", "+42", "-42", " 1", "1 ", "1_000", "0x10", "++1", "1.0", "é", "٣",
        "18446744073709551615", "18446744073709551616", "+18446744073709551615", "00000000000000000000000000001",
        "99999999999999999999999999",
    ] {
        assert_eq!(read_u64(text), text.parse::<u64>().ok(), "{text}");
        assert_eq!(read_usize(text), text.parse::<usize>().ok(), "{text}");
    }
}

#[test]
fn signed_numbers_are_read_as_parse_reads_them() {
    for text in [
        "", "+", "-", "0", "-0", "+0", "12", "-12", "+12", "--1", "-+1", "2147483647", "2147483648", "-2147483648",
        "-2147483649", "-00000000012", "- 1", "1a", "4294967296", "-99999999999999999999",
    ] {
        assert_eq!(read_i32(text), text.parse::<i32>().ok(), "{text}");
    }
}
