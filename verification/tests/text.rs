use esp32_netcfg::runtime::{next_tick_deadline, remaining_until};
use esp32_netcfg::text::{
    eq_ignore_ascii_case, find_line_end, parse_u8, parse_unsigned_bytes, parse_usize,
    skip_whitespace, trim_bounds, whitespace_len_at,
};

#[test]
fn decimal_parsing_follows_from_str() {
    assert_eq!(parse_usize(b"0"), Some(0));
    assert_eq!(parse_usize(b"+12"), Some(12));
    assert_eq!(parse_usize(b""), None);
    assert_eq!(parse_usize(b"+"), None);
    assert_eq!(parse_usize(b"1 2"), None);
    assert_eq!(parse_usize(b"-1"), None);
    assert_eq!(parse_u8(b"255"), Some(255));
    assert_eq!(parse_u8(b"256"), None);
    assert_eq!(parse_unsigned_bytes(b"1000", 999), None);
    assert_eq!(parse_unsigned_bytes(b"0999", 999), Some(999));
    assert_eq!(parse_usize(b"184467440737095516150"), None);
}

#[test]
fn trims_unicode_whitespace() {
    let s = b"\t a b \xe3\x80\x80";
    assert_eq!(trim_bounds(s), (2, 5));
    assert_eq!(trim_bounds(b"   "), (3, 3));
    assert_eq!(trim_bounds(b"\xc2\xa0x\xc2\x85"), (2, 3));
    assert_eq!(whitespace_len_at(b"\xe2\x80\xa8", 0), 3);
    assert_eq!(whitespace_len_at(b"x", 0), 0);
    assert_eq!(skip_whitespace(b"  x", 0), 2);
}

#[test]
fn splits_lines_on_lf_or_crlf() {
    assert_eq!(find_line_end(b"ab\r\ncd", 0), (2, 3));
    assert_eq!(find_line_end(b"ab\ncd", 0), (2, 2));
    assert_eq!(find_line_end(b"ab\ncd", 3), (5, 5));
    assert_eq!(find_line_end(b"ab", 0), (2, 2));
}

#[test]
fn compares_ignoring_ascii_case() {
    assert!(eq_ignore_ascii_case(b"Content-Length", b"content-LENGTH"));
    assert!(!eq_ignore_ascii_case(b"abc", b"abcd"));
    assert!(!eq_ignore_ascii_case(b"\xc3\xa9", b"\xc3\x89"));
}

#[test]
fn tick_deadlines() {
    assert_eq!(remaining_until(10, 4), 0);
    assert_eq!(remaining_until(4, 10), 6);
    assert_eq!(remaining_until(7, 7), 0);
    assert_eq!(next_tick_deadline(100, 500), 600);
}
