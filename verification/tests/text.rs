use recli::clock::capped_millis;
use recli::marker::{read_int_list, read_pipe_list};
use recli::strings::{decimal, fitted, push_decimal, push_replaced};
use recli::text::{blank, read_i32, read_u32, scan_to, starts_with, trimmed};

#[test]
fn blanks_are_space_and_tab_through_carriage_return() {
    for b in 0u8..=255 {
        let expected = b == b' ' || (9..=13).contains(&b);
        assert_eq!(blank(b), expected, "byte {}", b);
    }
}

#[test]
fn trimmed_drops_blanks_at_both_ends_only() {
    assert_eq!(trimmed(b"  a b \t\r\n"), b"a b");
    assert_eq!(trimmed(b"ab"), b"ab");
    assert_eq!(trimmed(b" \t "), b"");
    assert_eq!(trimmed(b""), b"");
    assert_eq!(trimmed(b"\x0b\x0cx\x0b"), b"x");
}

#[test]
fn starts_with_compares_the_front() {
    assert!(starts_with(b"RECLI_END:0", b"RECLI_END:"));
    assert!(starts_with(b"abc", b""));
    assert!(starts_with(b"abc", b"abc"));
    assert!(!starts_with(b"ab", b"abc"));
    assert!(!starts_with(b"abd", b"abc"));
}

#[test]
fn scan_to_finds_the_first_of_two_bytes() {
    assert_eq!(scan_to(b"ab\rcd\n", 0, b'\n', b'\r'), 2);
    assert_eq!(scan_to(b"ab\rcd\n", 3, b'\n', b'\r'), 5);
    assert_eq!(scan_to(b"abcd", 1, b'\n', b'\r'), 4);
    assert_eq!(scan_to(b"abcd", 4, b'\n', b'\r'), 4);
    assert_eq!(scan_to(b"abcd", 9, b'\n', b'\r'), 4);
    assert_eq!(scan_to(b"a,b", 0, b',', b','), 1);
}

#[test]
fn signed_decimals_read_as_i32() {
    assert_eq!(read_i32(b"0"), Some(0));
    assert_eq!(read_i32(b"127"), Some(127));
    assert_eq!(read_i32(b"-1"), Some(-1));
    assert_eq!(read_i32(b"+42"), Some(42));
    assert_eq!(read_i32(b"-0"), Some(0));
    assert_eq!(read_i32(b"0000000000000000000012"), Some(12));
    assert_eq!(read_i32(b"2147483647"), Some(i32::MAX));
    assert_eq!(read_i32(b"-2147483648"), Some(i32::MIN));
}

#[test]
fn what_is_no_signed_decimal_reads_as_nothing() {
    assert_eq!(read_i32(b""), None);
    assert_eq!(read_i32(b"-"), None);
    assert_eq!(read_i32(b"+"), None);
    assert_eq!(read_i32(b"+-1"), None);
    assert_eq!(read_i32(b"1 "), None);
    assert_eq!(read_i32(b" 1"), None);
    assert_eq!(read_i32(b"1x"), None);
    assert_eq!(read_i32(b"0x10"), None);
    assert_eq!(read_i32(b"2147483648"), None);
    assert_eq!(read_i32(b"-2147483649"), None);
    assert_eq!(read_i32(b"99999999999999999999999999"), None);
}

#[test]
fn unsigned_decimals_read_as_u32() {
    assert_eq!(read_u32(b"0"), Some(0));
    assert_eq!(read_u32(b"+7"), Some(7));
    assert_eq!(read_u32(b"4294967295"), Some(u32::MAX));
    assert_eq!(read_u32(b"4294967296"), None);
    assert_eq!(read_u32(b"-0"), None);
    assert_eq!(read_u32(b"-5"), None);
    assert_eq!(read_u32(b""), None);
    assert_eq!(read_u32(b"12a"), None);
}

#[test]
fn integer_lists_need_every_member() {
    assert_eq!(read_int_list(b"0,1,2"), Some(vec![0, 1, 2]));
    assert_eq!(read_int_list(b" 7 "), Some(vec![7]));
    assert_eq!(read_int_list(b"1, -2 ,+3"), Some(vec![1, -2, 3]));
    assert_eq!(read_int_list(b""), None);
    assert_eq!(read_int_list(b"1,,2"), None);
    assert_eq!(read_int_list(b"1,2,"), None);
    assert_eq!(read_int_list(b",1"), None);
    assert_eq!(read_int_list(b"1;2"), None);
}

#[test]
fn pipe_lists_need_their_brackets() {
    assert_eq!(read_pipe_list(b"[0,1,2]"), Some(vec![0, 1, 2]));
    assert_eq!(read_pipe_list(b"  [ 130 ]  "), Some(vec![130]));
    assert_eq!(read_pipe_list(b"[0,x,2]"), None);
    assert_eq!(read_pipe_list(b"[]"), None);
    assert_eq!(read_pipe_list(b"["), None);
    assert_eq!(read_pipe_list(b"]"), None);
    assert_eq!(read_pipe_list(b"0,1"), None);
    assert_eq!(read_pipe_list(b"[0,1"), None);
    assert_eq!(read_pipe_list(b""), None);
}

#[test]
fn decimal_writes_numbers_without_padding() {
    assert_eq!(decimal(0), "0");
    assert_eq!(decimal(7), "7");
    assert_eq!(decimal(10), "10");
    assert_eq!(decimal(1234567890), "1234567890");
    assert_eq!(decimal(u64::MAX), "18446744073709551615");
    let mut s = "n=".to_string();
    push_decimal(&mut s, 405);
    assert_eq!(s, "n=405");
}

#[test]
fn push_replaced_changes_every_match() {
    let mut s = "<".to_string();
    push_replaced(&mut s, "12:30:05 \u{e9}:", ':', '-');
    assert_eq!(s, "<12-30-05 \u{e9}-");
    let mut t = String::new();
    push_replaced(&mut t, "", ':', '-');
    assert_eq!(t, "");
}

#[test]
fn fitted_cuts_at_a_character_boundary() {
    assert_eq!(fitted("hello", 5), "hello");
    assert_eq!(fitted("hello", 9), "hello");
    assert_eq!(fitted("hello", 3), "hel");
    assert_eq!(fitted("hello", 0), "");
    assert_eq!(fitted("a\u{e9}b", 2), "a");
    assert_eq!(fitted("a\u{e9}b", 3), "a\u{e9}");
    assert_eq!(fitted("\u{1f600}", 3), "");
    assert_eq!(fitted("\u{1f600}", 4), "\u{1f600}");
    assert_eq!(fitted("\u{20ac}\u{20ac}", 5), "\u{20ac}");
}

#[test]
fn a_count_of_milliseconds_is_capped_at_the_greatest_u64() {
    assert_eq!(capped_millis(0), 0);
    assert_eq!(capped_millis(49), 49);
    assert_eq!(capped_millis(u64::MAX as u128), u64::MAX);
    assert_eq!(capped_millis(u64::MAX as u128 + 1), u64::MAX);
    assert_eq!(capped_millis(u128::MAX), u64::MAX);
}
