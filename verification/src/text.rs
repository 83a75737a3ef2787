//! Byte-level text primitives: UTF-8 validation, Unicode whitespace,
//! trimming, line splitting, ASCII case folding and decimal parsing, as the
//! request and command parsers use them.
use vstd::prelude::*;
use vstd::string::StringSliceAdditionalSpecFns;
use vstd::utf8::valid_utf8;

verus! {

pub const ASCII_TAB: u8 = 0x09;

pub const ASCII_LF: u8 = 0x0a;

pub const ASCII_CR: u8 = 0x0d;

pub const ASCII_SPACE: u8 = 0x20;

pub const ASCII_PLUS: u8 = 0x2b;

pub const ASCII_ZERO: u8 = 0x30;

pub const ASCII_NINE: u8 = 0x39;

/// `core::str::from_utf8`: the bytes as a string slice when they are valid
/// UTF-8, `None` otherwise.
#[verifier::external_body]
pub(crate) fn str_from_utf8(bytes: &[u8]) -> (r: Option<&str>)
    ensures
        r is Some <==> valid_utf8(bytes@),
        r matches Some(s) ==> s.spec_bytes() == bytes@,
{
    core::str::from_utf8(bytes).ok()
}

/// Length of the UTF-8 encoding of a `White_Space` character (the
/// characters `char::is_whitespace` accepts) that starts at `i`, or 0 when
/// none starts there.
pub open spec fn ws_len_at(s: Seq<u8>, i: int) -> int {
    if 0 <= i < s.len() && (s[i] == ASCII_SPACE || (ASCII_TAB <= s[i] <= ASCII_CR)) {
        1
    } else if 0 <= i && i + 1 < s.len() && s[i] == 0xc2 && (s[i + 1] == 0x85 || s[i + 1]
        == 0xa0) {
        2
    } else if 0 <= i && i + 2 < s.len() && ((s[i] == 0xe1 && s[i + 1] == 0x9a && s[i + 2]
        == 0x80) || (s[i] == 0xe2 && s[i + 1] == 0x80 && ((0x80 <= s[i + 2] <= 0x8a) || s[i
        + 2] == 0xa8 || s[i + 2] == 0xa9 || s[i + 2] == 0xaf)) || (s[i] == 0xe2 && s[i + 1]
        == 0x81 && s[i + 2] == 0x9f) || (s[i] == 0xe3 && s[i + 1] == 0x80 && s[i + 2] == 0x80)) {
        3
    } else {
        0
    }
}

/// Length of the encoding of a whitespace character that ends just before
/// `j` and starts at or after `lo`, or 0.
pub open spec fn ws_len_before(s: Seq<u8>, lo: int, j: int) -> int {
    if j - 1 >= lo && ws_len_at(s, j - 1) == 1 {
        1
    } else if j - 2 >= lo && ws_len_at(s, j - 2) == 2 {
        2
    } else if j - 3 >= lo && ws_len_at(s, j - 3) == 3 {
        3
    } else {
        0
    }
}

/// Size of the whitespace character that starts at `i`, or 0.
pub fn whitespace_len_at(s: &[u8], i: usize) -> (r: usize)
    ensures
        r == ws_len_at(s@, i as int),
{
    let n = s.len();
    if i < n && (s[i] == ASCII_SPACE || (ASCII_TAB <= s[i] && s[i] <= ASCII_CR)) {
        1
    } else if i < n && n - i > 1 && s[i] == 0xc2 && (s[i + 1] == 0x85 || s[i + 1] == 0xa0) {
        2
    } else if i < n && n - i > 2 && ((s[i] == 0xe1 && s[i + 1] == 0x9a && s[i + 2] == 0x80) || (
    s[i] == 0xe2 && s[i + 1] == 0x80 && ((0x80 <= s[i + 2] && s[i + 2] <= 0x8a) || s[i + 2]
        == 0xa8 || s[i + 2] == 0xa9 || s[i + 2] == 0xaf)) || (s[i] == 0xe2 && s[i + 1] == 0x81
        && s[i + 2] == 0x9f) || (s[i] == 0xe3 && s[i + 1] == 0x80 && s[i + 2] == 0x80)) {
        3
    } else {
        0
    }
}

/// Size of the whitespace character that ends just before `j` and starts at
/// or after `lo`, or 0.
pub fn whitespace_len_before(s: &[u8], lo: usize, j: usize) -> (r: usize)
    requires
        lo <= j <= s@.len(),
    ensures
        r == ws_len_before(s@, lo as int, j as int),
{
    if j - lo >= 1 && whitespace_len_at(s, j - 1) == 1 {
        1
    } else if j - lo >= 2 && whitespace_len_at(s, j - 2) == 2 {
        2
    } else if j - lo >= 3 && whitespace_len_at(s, j - 3) == 3 {
        3
    } else {
        0
    }
}

/// First index from `i` on at which no whitespace character starts.
pub open spec fn skip_ws(s: Seq<u8>, i: int) -> int
    decreases s.len() - i,
{
    if 0 <= i < s.len() && ws_len_at(s, i) > 0 {
        skip_ws(s, i + ws_len_at(s, i))
    } else {
        i
    }
}

/// Smallest end, down from `j` and not below `lo`, that no whitespace
/// character precedes.
pub open spec fn skip_ws_back(s: Seq<u8>, lo: int, j: int) -> int
    decreases j,
{
    if j > lo && ws_len_before(s, lo, j) > 0 {
        skip_ws_back(s, lo, j - ws_len_before(s, lo, j))
    } else {
        j
    }
}

/// `str::trim`: the bytes without leading and trailing whitespace.
pub open spec fn trim(s: Seq<u8>) -> Seq<u8> {
    let a = skip_ws(s, 0);
    s.subrange(a, skip_ws_back(s, a, s.len() as int))
}

/// Skips whitespace from `i` on.
pub fn skip_whitespace(s: &[u8], i: usize) -> (r: usize)
    requires
        i <= s@.len(),
    ensures
        r == skip_ws(s@, i as int),
        i <= r <= s@.len(),
{
    let mut k = i;
    while k < s.len() && whitespace_len_at(s, k) > 0
        invariant
            i <= k <= s@.len(),
            skip_ws(s@, k as int) == skip_ws(s@, i as int),
        decreases s.len() - k,
    {
        k = k + whitespace_len_at(s, k);
    }
    k
}

/// Skips whitespace backwards from `j`, not below `lo`.
pub fn skip_whitespace_back(s: &[u8], lo: usize, j: usize) -> (r: usize)
    requires
        lo <= j <= s@.len(),
    ensures
        r == skip_ws_back(s@, lo as int, j as int),
        lo <= r <= j,
{
    let mut k = j;
    while k > lo && whitespace_len_before(s, lo, k) > 0
        invariant
            lo <= k <= j,
            j <= s@.len(),
            skip_ws_back(s@, lo as int, k as int) == skip_ws_back(s@, lo as int, j as int),
        decreases k,
    {
        k = k - whitespace_len_before(s, lo, k);
    }
    k
}

/// Bounds of `trim(s)` within `s`.
pub fn trim_bounds(s: &[u8]) -> (r: (usize, usize))
    ensures
        r.0 <= r.1 <= s@.len(),
        s@.subrange(r.0 as int, r.1 as int) == trim(s@),
{
    let a = skip_whitespace(s, 0);
    let b = skip_whitespace_back(s, a, s.len());
    (a, b)
}

/// Index of the first `\n` from `i` on, or the length.
pub open spec fn line_break(s: Seq<u8>, i: int) -> int
    decreases s.len() - i,
{
    if i < 0 || i >= s.len() {
        s.len() as int
    } else if s[i] == ASCII_LF {
        i
    } else {
        line_break(s, i + 1)
    }
}

pub proof fn lemma_line_break(s: Seq<u8>, i: int)
    requires
        0 <= i,
    ensures
        i <= line_break(s, i) || i > s.len(),
        line_break(s, i) <= s.len(),
        line_break(s, i) < s.len() ==> s[line_break(s, i)] == ASCII_LF,
        forall|k: int| i <= k < line_break(s, i) ==> s[k] != ASCII_LF,
    decreases s.len() - i,
{
    if i < s.len() && s[i] != ASCII_LF {
        lemma_line_break(s, i + 1);
    }
}

/// End of the line that starts at `i`, as `str::lines` yields it: without
/// its `\n`, and without the `\r` before that `\n`.
pub open spec fn line_end(s: Seq<u8>, i: int) -> int {
    let e = line_break(s, i);
    if e < s.len() && e > i && s[e - 1] == ASCII_CR {
        e - 1
    } else {
        e
    }
}

/// Finds the break of the line that starts at `i`.
pub fn find_line_break(s: &[u8], i: usize) -> (r: usize)
    requires
        i <= s@.len(),
    ensures
        r == line_break(s@, i as int),
        i <= r <= s@.len(),
        r < s@.len() ==> s@[r as int] == ASCII_LF,
{
    let mut k = i;
    while k < s.len() && s[k] != ASCII_LF
        invariant
            i <= k <= s@.len(),
            line_break(s@, k as int) == line_break(s@, i as int),
        decreases s.len() - k,
    {
        k += 1;
    }
    k
}

/// Finds the end of the line that starts at `i`.
pub fn find_line_end(s: &[u8], i: usize) -> (r: (usize, usize))
    requires
        i <= s@.len(),
    ensures
        r.0 == line_end(s@, i as int),
        r.1 == line_break(s@, i as int),
        i <= r.0 <= r.1 <= s@.len(),
{
    let e = find_line_break(s, i);
    if e < s.len() && e > i && s[e - 1] == ASCII_CR {
        (e - 1, e)
    } else {
        (e, e)
    }
}

pub open spec fn ascii_lower(b: u8) -> u8 {
    if 0x41 <= b <= 0x5a {
        (b + 0x20) as u8
    } else {
        b
    }
}

/// `eq_ignore_ascii_case`: same length, and equal bytes once ASCII letters
/// are folded to lower case.
pub open spec fn eq_ascii_case_insensitive(a: Seq<u8>, b: Seq<u8>) -> bool {
    &&& a.len() == b.len()
    &&& forall|i: int| 0 <= i < a.len() ==> ascii_lower(#[trigger] a[i]) == ascii_lower(b[i])
}

pub fn eq_ignore_ascii_case(a: &[u8], b: &[u8]) -> (r: bool)
    ensures
        r == eq_ascii_case_insensitive(a@, b@),
{
    if a.len() != b.len() {
        return false;
    }
    let mut i: usize = 0;
    while i < a.len()
        invariant
            a@.len() == b@.len(),
            i <= a@.len(),
            forall|k: int| 0 <= k < i ==> ascii_lower(#[trigger] a@[k]) == ascii_lower(b@[k]),
        decreases a.len() - i,
    {
        let x = if 0x41 <= a[i] && a[i] <= 0x5a {
            a[i] + 0x20
        } else {
            a[i]
        };
        let y = if 0x41 <= b[i] && b[i] <= 0x5a {
            b[i] + 0x20
        } else {
            b[i]
        };
        if x != y {
            return false;
        }
        i += 1;
    }
    true
}

pub open spec fn is_digit(b: u8) -> bool {
    ASCII_ZERO <= b <= ASCII_NINE
}

/// Value of a run of decimal digits.
pub open spec fn decimal_value(d: Seq<u8>) -> int
    decreases d.len(),
{
    if d.len() == 0 {
        0
    } else {
        decimal_value(d.drop_last()) * 10 + (d.last() - ASCII_ZERO)
    }
}

/// A run of one decimal digit or more, of value at most `max`.
pub open spec fn parse_digit_run(d: Seq<u8>, max: int) -> Option<int> {
    if d.len() == 0 {
        None
    } else if exists|i: int| 0 <= i < d.len() && !is_digit(#[trigger] d[i]) {
        None
    } else if decimal_value(d) > max {
        None
    } else {
        Some(decimal_value(d))
    }
}

/// `FromStr` of an unsigned integer type whose largest value is `max`: an
/// optional `+`, then one decimal digit or more, of value at most `max`.
pub open spec fn parse_unsigned(s: Seq<u8>, max: int) -> Option<int> {
    if s.len() > 0 && s[0] == ASCII_PLUS {
        parse_digit_run(s.subrange(1, s.len() as int), max)
    } else {
        parse_digit_run(s, max)
    }
}

proof fn lemma_decimal_value_nonneg(d: Seq<u8>)
    requires
        forall|i: int| 0 <= i < d.len() ==> is_digit(#[trigger] d[i]),
    ensures
        decimal_value(d) >= 0,
    decreases d.len(),
{
    if d.len() > 0 {
        lemma_decimal_value_nonneg(d.drop_last());
    }
}

/// Digits of `s` from `start` on, read as a value of at most `max`.
fn parse_digits(s: &[u8], start: usize, max: u64) -> (r: Option<u64>)
    requires
        start <= s@.len(),
    ensures
        match r {
            Some(v) => parse_digit_run(s@.subrange(start as int, s@.len() as int), max as int)
                == Some(v as int),
            None => parse_digit_run(s@.subrange(start as int, s@.len() as int), max as int)
                is None,
        },
{
    let ghost d = s@.subrange(start as int, s@.len() as int);
    if start == s.len() {
        return None;
    }
    let mut value: u64 = 0;
    let mut overflow = false;
    let mut i = start;
    while i < s.len()
        invariant
            start <= i <= s@.len(),
            d == s@.subrange(start as int, s@.len() as int),
            forall|k: int| 0 <= k < i - start ==> is_digit(#[trigger] d[k]),
            !overflow ==> value == decimal_value(d.subrange(0, i - start)) && value <= max,
            overflow ==> decimal_value(d.subrange(0, i - start)) > max,
        decreases s.len() - i,
    {
        let b = s[i];
        if b < ASCII_ZERO || b > ASCII_NINE {
            assert(!is_digit(d[i - start]));
            return None;
        }
        let ghost prefix = d.subrange(0, i - start);
        let ghost next = d.subrange(0, i - start + 1);
        proof {
            assert(next.drop_last() =~= prefix);
            assert(next.last() == b);
            assert(forall|k: int| 0 <= k < prefix.len() ==> is_digit(#[trigger] prefix[k]));
            lemma_decimal_value_nonneg(prefix);
        }
        let digit = (b - ASCII_ZERO) as u64;
        if !overflow {
            if (value as u128) * 10 + (digit as u128) > max as u128 {
                overflow = true;
            } else {
                value = value * 10 + digit;
            }
        }
        i += 1;
    }
    assert(d.subrange(0, d.len() as int) =~= d);
    if overflow {
        None
    } else {
        Some(value)
    }
}

/// Unsigned decimal parsing with an optional leading `+`, as `FromStr` does
/// it for an unsigned type whose largest value is `max`.
pub fn parse_unsigned_bytes(s: &[u8], max: u64) -> (r: Option<u64>)
    ensures
        match r {
            Some(v) => parse_unsigned(s@, max as int) == Some(v as int),
            None => parse_unsigned(s@, max as int) is None,
        },
{
    if s.len() > 0 && s[0] == ASCII_PLUS {
        parse_digits(s, 1, max)
    } else {
        assert(s@.subrange(0, s@.len() as int) =~= s@);
        parse_digits(s, 0, max)
    }
}

/// `usize::from_str` on the bytes of a string.
pub fn parse_usize(s: &[u8]) -> (r: Option<usize>)
    ensures
        match r {
            Some(v) => parse_unsigned(s@, usize::MAX as int) == Some(v as int),
            None => parse_unsigned(s@, usize::MAX as int) is None,
        },
{
    match parse_unsigned_bytes(s, usize::MAX as u64) {
        Some(v) => Some(v as usize),
        None => None,
    }
}

/// `u8::from_str` on the bytes of a string.
pub fn parse_u8(s: &[u8]) -> (r: Option<u8>)
    ensures
        match r {
            Some(v) => parse_unsigned(s@, u8::MAX as int) == Some(v as int),
            None => parse_unsigned(s@, u8::MAX as int) is None,
        },
{
    match parse_unsigned_bytes(s, u8::MAX as u64) {
        Some(v) => Some(v as u8),
        None => None,
    }
}

} // verus!
