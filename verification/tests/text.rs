use dino_media::numeral::{
    decimal_string, hex_string, parse_thousandths, read_digits, thousandths_string,
};
use dino_media::scan::{find, find_byte, starts_at, trim};

#[test]
fn decimal_strings() {
    assert_eq!(decimal_string(0), "0");
    assert_eq!(decimal_string(7), "7");
    assert_eq!(decimal_string(10), "10");
    assert_eq!(decimal_string(1920), "1920");
    assert_eq!(decimal_string(u64::MAX), "18446744073709551615");
}

#[test]
fn hex_strings() {
    assert_eq!(hex_string(0), "0");
    assert_eq!(hex_string(15), "f");
    assert_eq!(hex_string(16), "10");
    assert_eq!(hex_string(0xdead_beef), "deadbeef");
    assert_eq!(hex_string(u64::MAX), "ffffffffffffffff");
    assert_eq!(hex_string(0x0123_4567_89ab_cdef), format!("{:x}", 0x0123_4567_89ab_cdefu64));
}

#[test]
fn thousandths_strings() {
    assert_eq!(thousandths_string(30_000), "30");
    assert_eq!(thousandths_string(29_970), "29.97");
    assert_eq!(thousandths_string(23_976), "23.976");
    assert_eq!(thousandths_string(500), "0.5");
    assert_eq!(thousandths_string(5), "0.005");
    assert_eq!(thousandths_string(1050), "1.05");
    assert_eq!(thousandths_string(0), "0");
    assert_eq!(thousandths_string(u32::MAX), "4294967.295");
}

#[test]
fn digits_are_read_and_held_at_the_largest_value() {
    assert_eq!(read_digits(b"x123y", 1, 4), Some(123));
    assert_eq!(read_digits(b"x123y", 1, 1), Some(0));
    assert_eq!(read_digits(b"x123y", 0, 4), None);
    assert_eq!(read_digits(b"18446744073709551615", 0, 20), Some(u64::MAX));
    assert_eq!(read_digits(b"18446744073709551616", 0, 20), Some(u64::MAX));
    assert_eq!(read_digits(b"99999999999999999999999", 0, 23), Some(u64::MAX));
}

#[test]
fn decimal_numbers_are_read_into_thousandths() {
    assert_eq!(parse_thousandths(b"23.45"), 23_450);
    assert_eq!(parse_thousandths(b"5"), 5000);
    assert_eq!(parse_thousandths(b"5."), 5000);
    assert_eq!(parse_thousandths(b"00"), 0);
    assert_eq!(parse_thousandths(b"01"), 1000);
    assert_eq!(parse_thousandths(b"0.001"), 1);
    assert_eq!(parse_thousandths(b"0.0019"), 1);
    assert_eq!(parse_thousandths(b"12.3456789"), 12_345);
    assert_eq!(parse_thousandths(b"18446744073709551.615"), u64::MAX);
    assert_eq!(parse_thousandths(b"18446744073709551.614"), u64::MAX - 1);
    assert_eq!(parse_thousandths(b"99999999999999999999"), u64::MAX);
}

#[test]
fn text_that_is_no_decimal_number_reads_as_zero() {
    assert_eq!(parse_thousandths(b""), 0);
    assert_eq!(parse_thousandths(b"."), 0);
    assert_eq!(parse_thousandths(b".5"), 0);
    assert_eq!(parse_thousandths(b"-5"), 0);
    assert_eq!(parse_thousandths(b"+5"), 0);
    assert_eq!(parse_thousandths(b"1e3"), 0);
    assert_eq!(parse_thousandths(b" 5"), 0);
    assert_eq!(parse_thousandths(b"5.1.2"), 0);
    assert_eq!(parse_thousandths(b"N/A"), 0);
    assert_eq!(parse_thousandths(b"5.x"), 0);
}

#[test]
fn find_reports_the_leftmost_occurrence() {
    assert_eq!(find(b"abcabc", b"bc"), Some(1));
    assert_eq!(find(b"abcabc", b"abc"), Some(0));
    assert_eq!(find(b"abcabc", b"cab"), Some(2));
    assert_eq!(find(b"abcabc", b"abcabc"), Some(0));
    assert_eq!(find(b"abcabc", b"abcabcd"), None);
    assert_eq!(find(b"abcabc", b"x"), None);
    assert_eq!(find(b"abc", b""), Some(0));
    assert_eq!(find(b"", b""), Some(0));
    assert_eq!(find(b"", b"a"), None);
    assert_eq!(find(b"aab", b"ab"), Some(1));
}

#[test]
fn starts_at_compares_in_place() {
    assert!(starts_at(b"time=1", b"time=", 0));
    assert!(!starts_at(b"time=1", b"time=", 1));
    assert!(starts_at(b"xtime=", b"time=", 1));
    assert!(!starts_at(b"xtime", b"time=", 1));
    assert!(!starts_at(b"abc", b"c", 3));
    assert!(starts_at(b"abc", b"", 3));
    assert!(!starts_at(b"abc", b"", 4));
}

#[test]
fn find_byte_reports_the_leftmost_index() {
    assert_eq!(find_byte(b"a:b:c", b':'), Some(1));
    assert_eq!(find_byte(b":", b':'), Some(0));
    assert_eq!(find_byte(b"abc", b':'), None);
    assert_eq!(find_byte(b"", b':'), None);
}

#[test]
fn trim_removes_white_space_at_both_ends() {
    assert_eq!(trim(b"  00:01:23.45 "), b"00:01:23.45");
    assert_eq!(trim(b"\t\r\n x y \x0b\x0c"), b"x y");
    assert_eq!(trim(b"abc"), b"abc");
    assert_eq!(trim(b"   "), b"");
    assert_eq!(trim(b""), b"");
    assert_eq!(trim(b"\x1fa\x1f"), b"\x1fa\x1f");
}
