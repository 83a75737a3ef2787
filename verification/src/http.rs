//! The local HTTP provisioning service: request framing and parsing, form
//! decoding, routing, and the bytes of every response it sends.
use vstd::prelude::*;
use vstd::string::StringSliceAdditionalSpecFns;
use vstd::utf8::{is_char_boundary, valid_utf8};

use crate::bounded::{string32_as_str, string32_new, string64_as_str, string64_new, BoundedBytes, BoundedText};
use crate::wifi::{validate_credentials, WifiConfigError, WifiRuntimeState};
use crate::text::{
    eq_ascii_case_insensitive, eq_ignore_ascii_case, find_line_end, lemma_line_break, line_break, line_end,
    parse_unsigned, parse_usize, skip_whitespace, skip_ws, str_from_utf8, trim, trim_bounds,
    whitespace_len_at, ws_len_at, decimal_value, is_digit, ASCII_CR, ASCII_LF, ASCII_PLUS, ASCII_SPACE, ASCII_ZERO,
};

verus! {

pub const HTTP_PORT: u16 = 8080;

pub const REQUEST_BUFFER_SIZE: usize = 1536;

/// The parts of a request that the service looks at, as UTF-8 bytes of the
/// request it was parsed from.
pub struct HttpRequest<'a> {
    pub method: &'a [u8],
    pub path: &'a [u8],
    pub body: &'a [u8],
}

/// `\r\n\r\n` starts at `i`.
pub open spec fn blank_line_at(b: Seq<u8>, i: int) -> bool {
    &&& 0 <= i
    &&& i + 4 <= b.len()
    &&& b[i] == ASCII_CR
    &&& b[i + 1] == ASCII_LF
    &&& b[i + 2] == ASCII_CR
    &&& b[i + 3] == ASCII_LF
}

/// Index of the first `\r\n\r\n` from `i` on.
pub open spec fn blank_line_from(b: Seq<u8>, i: int) -> Option<int>
    decreases b.len() - i,
{
    if i < 0 || i + 4 > b.len() {
        None
    } else if blank_line_at(b, i) {
        Some(i)
    } else {
        blank_line_from(b, i + 1)
    }
}

/// Length of the header block: the index of the first `\r\n\r\n`.
pub open spec fn header_end(b: Seq<u8>) -> Option<int> {
    blank_line_from(b, 0)
}

proof fn lemma_blank_line_from(b: Seq<u8>, i: int)
    requires
        0 <= i,
    ensures
        blank_line_from(b, i) matches Some(h) ==> i <= h && h + 4 <= b.len() && blank_line_at(b, h),
        blank_line_from(b, i) matches Some(h) ==> forall|k: int|
            i <= k < h ==> !blank_line_at(b, k),
        blank_line_from(b, i) is None ==> forall|k: int| i <= k ==> !blank_line_at(b, k),
    decreases b.len() - i,
{
    if i + 4 <= b.len() && !blank_line_at(b, i) {
        lemma_blank_line_from(b, i + 1);
    }
}

/// Finds the end of the header block.
pub fn find_header_end(buffer: &[u8]) -> (r: Option<usize>)
    ensures
        match r {
            Some(h) => header_end(buffer@) == Some(h as int),
            None => header_end(buffer@) is None,
        },
        r matches Some(h) ==> h + 4 <= buffer.len(),
{
    proof {
        lemma_blank_line_from(buffer@, 0);
    }
    if buffer.len() < 4 {
        return None;
    }
    let mut i: usize = 0;
    while i <= buffer.len() - 4
        invariant
            buffer@.len() >= 4,
            i <= buffer@.len() - 3,
            blank_line_from(buffer@, i as int) == header_end(buffer@),
        decreases buffer.len() - i,
    {
        if buffer[i] == ASCII_CR && buffer[i + 1] == ASCII_LF && buffer[i + 2] == ASCII_CR
            && buffer[i + 3] == ASCII_LF {
            return Some(i);
        }
        i += 1;
    }
    None
}

/// Index of the first `byte` from `i` on.
pub open spec fn index_of_from(s: Seq<u8>, byte: u8, i: int) -> Option<int>
    decreases s.len() - i,
{
    if i < 0 || i >= s.len() {
        None
    } else if s[i] == byte {
        Some(i)
    } else {
        index_of_from(s, byte, i + 1)
    }
}

/// Finds the first `byte` from `i` on.
pub fn find_byte(s: &[u8], byte: u8, i: usize) -> (r: Option<usize>)
    requires
        i <= s@.len(),
    ensures
        match r {
            Some(k) => index_of_from(s@, byte, i as int) == Some(k as int),
            None => index_of_from(s@, byte, i as int) is None,
        },
        r matches Some(k) ==> i <= k < s@.len() && s@[k as int] == byte,
{
    let mut k = i;
    while k < s.len()
        invariant
            i <= k <= s@.len(),
            index_of_from(s@, byte, k as int) == index_of_from(s@, byte, i as int),
        decreases s.len() - k,
    {
        if s[k] == byte {
            return Some(k);
        }
        k += 1;
    }
    None
}

/// `content-length`, as bytes.
pub open spec fn content_length_name() -> Seq<u8> {
    seq![0x63u8, 0x6f, 0x6e, 0x74, 0x65, 0x6e, 0x74, 0x2d, 0x6c, 0x65, 0x6e, 0x67, 0x74, 0x68]
}

/// The `Content-Length` that the header lines from `i` on declare: the value
/// of the first line whose name, before its first `:`, is `content-length`
/// in any ASCII case, parsed after trimming (`None` when it does not parse).
pub open spec fn content_length_from(h: Seq<u8>, i: int) -> Option<int>
    decreases h.len() + 1 - i,
{
    if i < 0 || i >= h.len() {
        None
    } else {
        let line = h.subrange(i, line_end(h, i));
        let named = match index_of_from(line, 0x3a, 0) {
            Some(c) => eq_ascii_case_insensitive(line.subrange(0, c), content_length_name()),
            None => false,
        };
        if named {
            let c = index_of_from(line, 0x3a, 0).unwrap();
            parse_unsigned(trim(line.subrange(c + 1, line.len() as int)), usize::MAX as int)
        } else {
            proof {
                lemma_line_break(h, i);
            }
            content_length_from(h, line_break(h, i) + 1)
        }
    }
}

/// The declared `Content-Length` of a header block.
pub open spec fn header_content_length(h: Seq<u8>) -> Option<int> {
    content_length_from(h, 0)
}

/// Reads the `Content-Length` declared in a header block.
pub fn content_length(header: &[u8]) -> (r: Option<usize>)
    ensures
        match r {
            Some(v) => header_content_length(header@) == Some(v as int),
            None => header_content_length(header@) is None,
        },
{
    let name: [u8; 14] = [0x63, 0x6f, 0x6e, 0x74, 0x65, 0x6e, 0x74, 0x2d, 0x6c, 0x65, 0x6e, 0x67, 0x74, 0x68];
    assert(name@ =~= content_length_name());
    let mut i: usize = 0;
    while i < header.len()
        invariant
            i <= header@.len(),
            name@ == content_length_name(),
            content_length_from(header@, i as int) == header_content_length(header@),
        decreases header.len() - i,
    {
        let (end, brk) = find_line_end(header, i);
        let line = &header[i..end];
        assert(line@ =~= header@.subrange(i as int, line_end(header@, i as int)));
        let colon = find_byte(line, 0x3a, 0);
        let named = match colon {
            Some(c) => eq_ignore_ascii_case(&line[0..c], name.as_slice()),
            None => false,
        };
        if named {
            let c = colon.unwrap();
            let value = &line[c + 1..line.len()];
            let (a, b) = trim_bounds(value);
            assert(value@ =~= line@.subrange(c + 1, line@.len() as int));
            let trimmed = &value[a..b];
            assert(trimmed@ == trim(line@.subrange(c + 1, line@.len() as int)));
            assert(content_length_from(header@, i as int) == parse_unsigned(trimmed@, usize::MAX as int));
            return parse_usize(trimmed);
        }
        assert(content_length_from(header@, i as int) == content_length_from(header@, brk + 1));
        if brk >= header.len() {
            assert(content_length_from(header@, brk + 1) is None);
            return None;
        }
        i = brk + 1;
    }
    None
}

/// What parsing a request finds at each step, used by the statements below.
/// The text of the request line: the first line of the header block.
pub open spec fn request_line(b: Seq<u8>, h: int) -> Seq<u8> {
    let header = b.subrange(0, h);
    header.subrange(0, line_end(header, 0))
}

/// First index from `i` on at which whitespace starts, or the length.
pub open spec fn token_end(s: Seq<u8>, i: int) -> int
    decreases s.len() - i,
{
    if i < 0 || i >= s.len() {
        s.len() as int
    } else if ws_len_at(s, i) > 0 {
        i
    } else {
        token_end(s, i + 1)
    }
}

/// Bounds of the first two whitespace-separated words of `line`, as
/// `split_whitespace` yields them.
pub open spec fn first_two_words(line: Seq<u8>) -> Option<(int, int, int, int)> {
    let m0 = skip_ws(line, 0);
    if m0 >= line.len() {
        None
    } else {
        let m1 = token_end(line, m0);
        let p0 = skip_ws(line, m1);
        if p0 >= line.len() {
            None
        } else {
            Some((m0, m1, p0, token_end(line, p0)))
        }
    }
}

/// Where the body of a request ends: `Content-Length` bytes after the header
/// block (0 when it is missing or does not parse), cut at the buffer's end.
pub open spec fn body_end(b: Seq<u8>, h: int) -> int {
    let cl = match header_content_length(b.subrange(0, h)) {
        Some(v) => v,
        None => 0,
    };
    let start = h + 4;
    let sum = if start + cl > usize::MAX {
        usize::MAX as int
    } else {
        start + cl
    };
    if sum < b.len() {
        sum
    } else {
        b.len() as int
    }
}

/// The request a buffer holds, as bounds of method, path and body; `None`
/// when the buffer is not UTF-8, has no complete header block, or its
/// request line has fewer than two words.
pub open spec fn parsed_request(b: Seq<u8>) -> Option<(int, int, int, int, int, int)> {
    if !valid_utf8(b) {
        None
    } else {
        match header_end(b) {
            None => None,
            Some(h) => {
                let line = request_line(b, h);
                if h == 0 {
                    None
                } else {
                    match first_two_words(line) {
                        None => None,
                        Some((m0, m1, p0, p1)) => Some((m0, m1, p0, p1, h + 4, body_end(b, h))),
                    }
                }
            },
        }
    }
}

/// Parsing `b` takes its body at a character boundary; where it does not,
/// the string slicing of the body fails.
pub open spec fn parse_request_defined(b: Seq<u8>) -> bool {
    parsed_request(b) matches Some(p) ==> is_char_boundary(b, p.5)
}

/// Splits a request into method, path and body.
pub fn parse_request(buffer: &[u8]) -> (r: Result<HttpRequest<'_>, ()>)
    requires
        parse_request_defined(buffer@),
    ensures
        r is Ok <==> parsed_request(buffer@) is Some,
        r matches Ok(req) ==> {
            let (m0, m1, p0, p1, b0, b1) = parsed_request(buffer@).unwrap();
            &&& req.method@ == buffer@.subrange(m0, m1)
            &&& req.path@ == buffer@.subrange(p0, p1)
            &&& req.body@ == buffer@.subrange(b0, b1)
        },
{
    if str_from_utf8(buffer).is_none() {
        return Err(());
    }
    let h = match find_header_end(buffer) {
        Some(h) => h,
        None => return Err(()),
    };
    if h == 0 {
        return Err(());
    }
    let header = &buffer[0..h];
    let (line_len, _) = find_line_end(header, 0);
    let line = &header[0..line_len];
    assert(line@ =~= request_line(buffer@, h as int));
    let m0 = skip_whitespace(line, 0);
    if m0 >= line.len() {
        return Err(());
    }
    let m1 = find_token_end(line, m0);
    let p0 = skip_whitespace(line, m1);
    if p0 >= line.len() {
        return Err(());
    }
    let p1 = find_token_end(line, p0);

    let content_len = match content_length(header) {
        Some(v) => v,
        None => 0,
    };
    let body_start = h + 4;
    let sum = body_start.saturating_add(content_len);
    let body_stop = if sum < buffer.len() {
        sum
    } else {
        buffer.len()
    };
    assert(header@ =~= buffer@.subrange(0, h as int));
    let method = &line[m0..m1];
    let path = &line[p0..p1];
    let body = &buffer[body_start..body_stop];
    assert(method@ =~= buffer@.subrange(m0 as int, m1 as int));
    assert(path@ =~= buffer@.subrange(p0 as int, p1 as int));
    Ok(HttpRequest { method, path, body })
}

/// Finds where the word that starts at `i` ends.
pub fn find_token_end(s: &[u8], i: usize) -> (r: usize)
    requires
        i <= s@.len(),
    ensures
        r == token_end(s@, i as int),
        i <= r <= s@.len(),
{
    let mut k = i;
    while k < s.len() && whitespace_len_at(s, k) == 0
        invariant
            i <= k <= s@.len(),
            token_end(s@, k as int) == token_end(s@, i as int),
        decreases s.len() - k,
    {
        k += 1;
    }
    k
}

/// A request whose header block is not UTF-8 counts as complete; otherwise
/// the buffer must hold the whole declared body.
pub open spec fn request_is_complete(b: Seq<u8>) -> bool {
    match header_end(b) {
        None => false,
        Some(h) => if !valid_utf8(b.subrange(0, h)) {
            true
        } else {
            let cl = match header_content_length(b.subrange(0, h)) {
                Some(v) => v,
                None => 0,
            };
            b.len() >= h + 4 + cl
        },
    }
}

/// A request that declares no body length has no body: it is complete as
/// soon as its header block has arrived. One that declares `v` bytes in a
/// UTF-8 header block is complete exactly when those `v` bytes follow the
/// blank line.
pub proof fn lemma_completeness_follows_declared_length(b: Seq<u8>)
    requires
        header_end(b) is Some,
    ensures
        ({
            let h = header_end(b).unwrap();
            &&& header_content_length(b.subrange(0, h)) is None ==> request_is_complete(b)
            &&& valid_utf8(b.subrange(0, h)) ==> (header_content_length(b.subrange(0, h)) matches Some(
                v,
            ) ==> (request_is_complete(b) <==> b.len() >= h + 4 + v))
        }),
{
    lemma_blank_line_from(b, 0);
}

/// The sum of header length, blank line and declared body length that
/// completeness is judged by fits in a `usize`; where it does not, that
/// addition overflows.
pub open spec fn request_complete_defined(b: Seq<u8>) -> bool {
    match header_end(b) {
        None => true,
        Some(h) => valid_utf8(b.subrange(0, h)) ==> match header_content_length(b.subrange(0, h)) {
            Some(v) => h + 4 + v <= usize::MAX,
            None => true,
        },
    }
}

/// The buffer holds a whole request: header block and declared body.
pub fn request_complete(buffer: &[u8]) -> (r: bool)
    requires
        request_complete_defined(buffer@),
    ensures
        r == request_is_complete(buffer@),
{
    let header_end = match find_header_end(buffer) {
        Some(h) => h,
        None => return false,
    };
    let header = &buffer[0..header_end];
    assert(header@ =~= buffer@.subrange(0, header_end as int));
    if str_from_utf8(header).is_none() {
        return true;
    }
    let content_len = match content_length(header) {
        Some(v) => v,
        None => 0,
    };
    buffer.len() >= header_end + 4 + content_len
}

/// Whether `request_complete` may be asked about `buffer`.
pub fn request_complete_is_defined(buffer: &[u8]) -> (r: bool)
    ensures
        r == request_complete_defined(buffer@),
{
    let header_end = match find_header_end(buffer) {
        Some(h) => h,
        None => return true,
    };
    let header = &buffer[0..header_end];
    assert(header@ =~= buffer@.subrange(0, header_end as int));
    if str_from_utf8(header).is_none() {
        return true;
    }
    match content_length(header) {
        Some(v) => v <= usize::MAX - 4 - header_end,
        None => true,
    }
}

/// Whether `parse_request` may be asked about `buffer`.
pub fn parse_request_is_defined(buffer: &[u8]) -> (r: bool)
    ensures
        r == parse_request_defined(buffer@),
{
    if str_from_utf8(buffer).is_none() {
        return true;
    }
    let h = match find_header_end(buffer) {
        Some(h) => h,
        None => return true,
    };
    if h == 0 {
        return true;
    }
    let header = &buffer[0..h];
    let (line_len, _) = find_line_end(header, 0);
    let line = &header[0..line_len];
    assert(line@ =~= request_line(buffer@, h as int));
    let m0 = skip_whitespace(line, 0);
    if m0 >= line.len() {
        return true;
    }
    let m1 = find_token_end(line, m0);
    let p0 = skip_whitespace(line, m1);
    if p0 >= line.len() {
        return true;
    }
    let content_len = match content_length(header) {
        Some(v) => v,
        None => 0,
    };
    assert(header@ =~= buffer@.subrange(0, h as int));
    let sum = (h + 4).saturating_add(content_len);
    let stop = if sum < buffer.len() {
        sum
    } else {
        buffer.len()
    };
    proof {
        vstd::utf8::is_char_boundary_start_end_of_seq(buffer@);
        if stop < buffer@.len() {
            vstd::utf8::is_char_boundary_iff_not_is_continuation_byte(buffer@, stop as int);
        }
    }
    stop == buffer.len() || !(0x80 <= buffer[stop] && buffer[stop] <= 0xbf)
}

/// Numeric value of an ASCII hexadecimal digit.
pub open spec fn hex_digit_value(byte: u8) -> Option<u8> {
    if 0x30 <= byte <= 0x39 {
        Some((byte - 0x30) as u8)
    } else if 0x61 <= byte <= 0x66 {
        Some((byte - 0x61 + 10) as u8)
    } else if 0x41 <= byte <= 0x46 {
        Some((byte - 0x41 + 10) as u8)
    } else {
        None
    }
}

/// Decodes one hexadecimal digit.
pub fn hex_value(byte: u8) -> (r: Result<u8, ()>)
    ensures
        match hex_digit_value(byte) {
            Some(v) => r == Ok::<u8, ()>(v),
            None => r is Err,
        },
{
    if 0x30 <= byte && byte <= 0x39 {
        Ok(byte - 0x30)
    } else if 0x61 <= byte && byte <= 0x66 {
        Ok(byte - 0x61 + 10)
    } else if 0x41 <= byte && byte <= 0x46 {
        Ok(byte - 0x41 + 10)
    } else {
        Err(())
    }
}

pub const ASCII_PERCENT: u8 = 0x25;

pub const ASCII_AMPERSAND: u8 = 0x26;

pub const ASCII_EQUALS: u8 = 0x3d;

/// Form decoding of `s` from `i` on: `+` is a space, `%` with two more
/// bytes after it is the byte those two hex digits give (`None` when they
/// are not hex digits), and any other byte stands for itself.
pub open spec fn form_decode_from(s: Seq<u8>, i: int) -> Option<Seq<u8>>
    decreases s.len() - i,
{
    if i < 0 || i >= s.len() {
        Some(Seq::empty())
    } else if s[i] == ASCII_PLUS {
        match form_decode_from(s, i + 1) {
            Some(rest) => Some(seq![ASCII_SPACE] + rest),
            None => None,
        }
    } else if s[i] == ASCII_PERCENT && i + 2 < s.len() {
        match (hex_digit_value(s[i + 1]), hex_digit_value(s[i + 2])) {
            (Some(hi), Some(lo)) => match form_decode_from(s, i + 3) {
                Some(rest) => Some(seq![(hi * 16 + lo) as u8] + rest),
                None => None,
            },
            _ => None,
        }
    } else {
        match form_decode_from(s, i + 1) {
            Some(rest) => Some(seq![s[i]] + rest),
            None => None,
        }
    }
}

/// The text a form value decodes to: `None` when the decoding fails, is
/// longer than `capacity` bytes, or is not UTF-8.
pub open spec fn form_value(s: Seq<u8>, capacity: nat) -> Option<Seq<u8>> {
    match form_decode_from(s, 0) {
        Some(d) => if d.len() <= capacity && valid_utf8(d) {
            Some(d)
        } else {
            None
        },
        None => None,
    }
}

pub open spec fn prepend_decoded(prefix: Seq<u8>, rest: Option<Seq<u8>>) -> Option<Seq<u8>> {
    match rest {
        Some(r) => Some(prefix + r),
        None => None,
    }
}

/// Decodes a form value into `output`, which is cleared first and holds the
/// decoded text on success.
pub fn percent_decode<T: BoundedText>(input: &[u8], output: &mut T) -> (r: Result<(), ()>)
    requires
        <T::Scratch as BoundedBytes>::capacity() == T::capacity(),
    ensures
        r is Ok <==> form_value(input@, T::capacity()) is Some,
        r is Ok ==> final(output).contents() == form_value(input@, T::capacity()).unwrap(),
        r is Err ==> final(output).contents() == Seq::<u8>::empty(),
{
    output.clear_text();
    let mut decoded = T::Scratch::empty();
    let mut index: usize = 0;
    while index < input.len()
        invariant
            index <= input@.len(),
            <T::Scratch as BoundedBytes>::capacity() == T::capacity(),
            output.contents() == Seq::<u8>::empty(),
            form_decode_from(input@, 0) == prepend_decoded(decoded.contents(), form_decode_from(input@, index as int)),
        decreases input.len() - index,
    {
        let ghost before = decoded.contents();
        let ghost at = index as int;
        let byte = if input[index] == ASCII_PLUS {
            index += 1;
            ASCII_SPACE
        } else if input[index] == ASCII_PERCENT && input.len() - index > 2 {
            let hi = match hex_value(input[index + 1]) {
                Ok(v) => v,
                Err(()) => return Err(()),
            };
            let lo = match hex_value(input[index + 2]) {
                Ok(v) => v,
                Err(()) => return Err(()),
            };
            index += 3;
            (hi << 4) | lo
        } else {
            let b = input[index];
            index += 1;
            b
        };
        proof {
            if input@[at] == ASCII_PERCENT && at + 2 < input@.len() {
                let hi = hex_digit_value(input@[at + 1]).unwrap();
                let lo = hex_digit_value(input@[at + 2]).unwrap();
                assert((hi << 4) | lo == (hi * 16 + lo) as u8) by (bit_vector)
                    requires
                        hi < 16,
                        lo < 16,
                ;
            }
        }
        match decoded.push_byte(byte) {
            Ok(()) => {},
            Err(_) => {
                proof {
                    assert(form_decode_from(input@, at) == prepend_decoded(seq![byte], form_decode_from(input@, index as int)));
                }
                return Err(());
            },
        }
        proof {
            assert(form_decode_from(input@, at) == prepend_decoded(seq![byte], form_decode_from(input@, index as int)));
            match form_decode_from(input@, index as int) {
                Some(rest) => {
                    assert(before + (seq![byte] + rest) =~= before.push(byte) + rest);
                },
                None => {},
            }
        }
    }
    assert(decoded.contents() + Seq::<u8>::empty() =~= decoded.contents());
    let text = match str_from_utf8(decoded.as_bytes()) {
        Some(text) => text,
        None => return Err(()),
    };
    output.push_text(text)
}

/// `ssid`, as bytes.
pub open spec fn ssid_field_name() -> Seq<u8> {
    seq![0x73u8, 0x73, 0x69, 0x64]
}

/// `password`, as bytes.
pub open spec fn password_field_name() -> Seq<u8> {
    seq![0x70u8, 0x61, 0x73, 0x73, 0x77, 0x6f, 0x72, 0x64]
}

/// End of the `&`-separated piece of a form body that starts at `i`.
pub open spec fn piece_end(body: Seq<u8>, i: int) -> int {
    match index_of_from(body, ASCII_AMPERSAND, i) {
        Some(k) => k,
        None => body.len() as int,
    }
}

/// Name and value of a `name=value` piece; a piece without `=` is a name
/// with an empty value.
pub open spec fn split_pair(pair: Seq<u8>) -> (Seq<u8>, Seq<u8>) {
    match index_of_from(pair, ASCII_EQUALS, 0) {
        Some(k) => (pair.subrange(0, k), pair.subrange(k + 1, pair.len() as int)),
        None => (pair, Seq::empty()),
    }
}

pub proof fn lemma_index_of_from(s: Seq<u8>, byte: u8, i: int)
    requires
        0 <= i,
    ensures
        index_of_from(s, byte, i) matches Some(k) ==> i <= k < s.len() && s[k] == byte,
        index_of_from(s, byte, i) matches Some(k) ==> forall|j: int| i <= j < k ==> s[j] != byte,
        index_of_from(s, byte, i) is None ==> forall|j: int| i <= j < s.len() ==> s[j] != byte,
    decreases s.len() - i,
{
    if i < s.len() && s[i] != byte {
        lemma_index_of_from(s, byte, i + 1);
    }
}

/// Reads the form pieces from `i` on into the fields `ssid` and `password`
/// hold so far: whether every recognised field decoded, and the fields
/// after the pieces were read (a field that failed to decode is left empty
/// and reading stops there).
pub open spec fn form_fields_from(body: Seq<u8>, i: int, ssid: Seq<u8>, password: Seq<u8>) -> (
    bool,
    Seq<u8>,
    Seq<u8>,
)
    decreases body.len() + 1 - i,
{
    if i < 0 || i > body.len() {
        (true, ssid, password)
    } else {
        let e = piece_end(body, i);
        let (name, value) = split_pair(body.subrange(i, e));
        let ok = if name == ssid_field_name() {
            form_value(value, 32) is Some
        } else if name == password_field_name() {
            form_value(value, 64) is Some
        } else {
            true
        };
        let s = if name == ssid_field_name() {
            match form_value(value, 32) {
                Some(d) => d,
                None => Seq::empty(),
            }
        } else {
            ssid
        };
        let p = if name == password_field_name() {
            match form_value(value, 64) {
                Some(d) => d,
                None => Seq::empty(),
            }
        } else {
            password
        };
        if !ok {
            (false, s, p)
        } else if e >= body.len() {
            (true, s, p)
        } else {
            proof {
                lemma_index_of_from(body, ASCII_AMPERSAND, i);
            }
            form_fields_from(body, e + 1, s, p)
        }
    }
}

/// Reads the `ssid` and `password` fields of a submitted form; it fails when
/// a field does not decode or no SSID results.
pub fn parse_wifi_form(
    body: &[u8],
    ssid: &mut heapless::String<32>,
    password: &mut heapless::String<64>,
) -> (r: Result<(), ()>)
    ensures
        ({
            let (ok, s, p) = form_fields_from(body@, 0, old(ssid).contents(), old(password).contents());
            &&& final(ssid).contents() == s
            &&& final(password).contents() == p
            &&& r is Ok <==> ok && s.len() > 0
        }),
{
    let ssid_name: [u8; 4] = [0x73, 0x73, 0x69, 0x64];
    let password_name: [u8; 8] = [0x70, 0x61, 0x73, 0x73, 0x77, 0x6f, 0x72, 0x64];
    assert(ssid_name@ =~= ssid_field_name());
    assert(password_name@ =~= password_field_name());
    let mut i: usize = 0;
    loop
        invariant
            i <= body@.len(),
            ssid_name@ == ssid_field_name(),
            password_name@ == password_field_name(),
            form_fields_from(body@, i as int, ssid.contents(), password.contents())
                == form_fields_from(body@, 0, old(ssid).contents(), old(password).contents()),
        ensures
            form_fields_from(body@, 0, old(ssid).contents(), old(password).contents()) == (
                true,
                ssid.contents(),
                password.contents(),
            ),
        decreases body.len() + 1 - i,
    {
        let ghost s0 = ssid.contents();
        let ghost p0 = password.contents();
        let e = match find_byte(body, ASCII_AMPERSAND, i) {
            Some(k) => k,
            None => body.len(),
        };
        let pair = &body[i..e];
        let (name, value) = match find_byte(pair, ASCII_EQUALS, 0) {
            Some(k) => (&pair[0..k], &pair[k + 1..pair.len()]),
            None => (pair, &pair[pair.len()..pair.len()]),
        };
        proof {
            lemma_index_of_from(body@, ASCII_AMPERSAND, i as int);
            assert(pair@ =~= body@.subrange(i as int, piece_end(body@, i as int)));
            let (n, v) = split_pair(pair@);
            assert(name@ =~= n);
            assert(value@ =~= v);
        }
        if slices_equal(name, ssid_name.as_slice()) {
            if percent_decode(value, ssid).is_err() {
                return Err(());
            }
        } else if slices_equal(name, password_name.as_slice()) {
            if percent_decode(value, password).is_err() {
                return Err(());
            }
        }
        assert(form_fields_from(body@, i as int, s0, p0) == if e >= body.len() {
            (true, ssid.contents(), password.contents())
        } else {
            form_fields_from(body@, e + 1, ssid.contents(), password.contents())
        });
        if e >= body.len() {
            break;
        }
        i = e + 1;
    }
    if string32_as_str(ssid).len() == 0 {
        Err(())
    } else {
        Ok(())
    }
}

/// Byte-wise equality of two slices.
pub fn slices_equal(a: &[u8], b: &[u8]) -> (r: bool)
    ensures
        r == (a@ == b@),
{
    if a.len() != b.len() {
        return false;
    }
    let mut i: usize = 0;
    while i < a.len()
        invariant
            a@.len() == b@.len(),
            i <= a@.len(),
            forall|k: int| 0 <= k < i ==> a@[k] == b@[k],
        decreases a.len() - i,
    {
        if a[i] != b[i] {
            return false;
        }
        i += 1;
    }
    assert(a@ =~= b@);
    true
}

/// Where a parsed request is answered.
#[derive(Clone, Copy, PartialEq, Eq, Structural, Debug)]
pub enum Route {
    /// The setup page.
    ConfigPage,
    /// A submitted Wi-Fi form.
    WifiPost,
    /// Anything else: 404.
    NotFound,
}

pub open spec fn bytes_get() -> Seq<u8> {
    seq![0x47u8, 0x45, 0x54]
}

pub open spec fn bytes_post() -> Seq<u8> {
    seq![0x50u8, 0x4f, 0x53, 0x54]
}

pub open spec fn bytes_root() -> Seq<u8> {
    seq![0x2fu8]
}

pub open spec fn bytes_wifi_path() -> Seq<u8> {
    seq![0x2fu8, 0x77, 0x69, 0x66, 0x69]
}

/// `GET /` and `GET /wifi` show the setup page, `POST /wifi` submits it.
pub open spec fn route_of(method: Seq<u8>, path: Seq<u8>) -> Route {
    if method == bytes_get() && (path == bytes_root() || path == bytes_wifi_path()) {
        Route::ConfigPage
    } else if method == bytes_post() && path == bytes_wifi_path() {
        Route::WifiPost
    } else {
        Route::NotFound
    }
}

/// Chooses how a request is answered.
pub fn route(method: &[u8], path: &[u8]) -> (r: Route)
    ensures
        r == route_of(method@, path@),
{
    let get: [u8; 3] = [0x47, 0x45, 0x54];
    let post: [u8; 4] = [0x50, 0x4f, 0x53, 0x54];
    let root: [u8; 1] = [0x2f];
    let wifi: [u8; 5] = [0x2f, 0x77, 0x69, 0x66, 0x69];
    assert(get@ =~= bytes_get());
    assert(post@ =~= bytes_post());
    assert(root@ =~= bytes_root());
    assert(wifi@ =~= bytes_wifi_path());
    if slices_equal(method, get.as_slice()) && (slices_equal(path, root.as_slice())
        || slices_equal(path, wifi.as_slice())) {
        Route::ConfigPage
    } else if slices_equal(method, post.as_slice()) && slices_equal(path, wifi.as_slice()) {
        Route::WifiPost
    } else {
        Route::NotFound
    }
}

pub const MSG_FORM_INVALID: &'static str = "Wi-Fi form is invalid";

pub const MSG_SAVED: &'static str = "Saved. The device is reconnecting with the new Wi-Fi settings.";

pub const MSG_EMPTY_SSID: &'static str = "SSID cannot be empty";

pub const MSG_SSID_TOO_LONG: &'static str = "SSID is too long";

pub const MSG_PASSWORD_TOO_LONG: &'static str = "Password is too long";

/// The status shown after a form submission: the form's fields are read
/// into empty fields; a form that does not read gives the invalid-form
/// message, otherwise the outcome of submitting the credentials.
pub open spec fn wifi_post_outcome(body: Seq<u8>) -> Result<(Seq<u8>, Seq<u8>), &'static str> {
    let (ok, ssid, password) = form_fields_from(body, 0, Seq::empty(), Seq::empty());
    if !(ok && ssid.len() > 0) {
        Err(MSG_FORM_INVALID)
    } else {
        match validate_credentials(ssid, password) {
            Ok(c) => Ok(c),
            Err(WifiConfigError::EmptySsid) => Err(MSG_EMPTY_SSID),
            Err(WifiConfigError::SsidTooLong) => Err(MSG_SSID_TOO_LONG),
            Err(WifiConfigError::PasswordTooLong) => Err(MSG_PASSWORD_TOO_LONG),
        }
    }
}

/// Handles a submitted Wi-Fi form: valid credentials are put in use and
/// handed to the connection task. Gives the status message to show.
pub fn handle_wifi_post(state: &mut WifiRuntimeState, body: &[u8]) -> (r: &'static str)
    ensures
        match wifi_post_outcome(body@) {
            Ok(c) => r == MSG_SAVED && final(state).current() == Some(c) && final(state).pending()
                == Some(c),
            Err(m) => r == m && final(state).current() == old(state).current()
                && final(state).pending() == old(state).pending(),
        },
{
    let mut ssid = string32_new();
    let mut password = string64_new();
    if parse_wifi_form(body, &mut ssid, &mut password).is_err() {
        return MSG_FORM_INVALID;
    }
    match state.request_station_credentials(string32_as_str(&ssid), string64_as_str(&password)) {
        Ok(()) => MSG_SAVED,
        Err(WifiConfigError::EmptySsid) => MSG_EMPTY_SSID,
        Err(WifiConfigError::SsidTooLong) => MSG_SSID_TOO_LONG,
        Err(WifiConfigError::PasswordTooLong) => MSG_PASSWORD_TOO_LONG,
    }
}

/// Appends `s` to `out`.
pub fn append_bytes(out: &mut Vec<u8>, s: &[u8])
    ensures
        final(out)@ == old(out)@ + s@,
{
    let ghost start = out@;
    let mut i: usize = 0;
    while i < s.len()
        invariant
            i <= s@.len(),
            out@ == start + s@.subrange(0, i as int),
        decreases s.len() - i,
    {
        out.push(s[i]);
        assert(s@.subrange(0, i + 1) =~= s@.subrange(0, i as int).push(s@[i as int]));
        i += 1;
    }
    assert(s@.subrange(0, s@.len() as int) =~= s@);
}

/// How one byte is written inside HTML text or an attribute value.
pub open spec fn escape_byte(b: u8) -> Seq<u8> {
    if b == 0x26 {
        seq![0x26u8, 0x61, 0x6d, 0x70, 0x3b]
    } else if b == 0x3c {
        seq![0x26u8, 0x6c, 0x74, 0x3b]
    } else if b == 0x3e {
        seq![0x26u8, 0x67, 0x74, 0x3b]
    } else if b == 0x22 {
        seq![0x26u8, 0x71, 0x75, 0x6f, 0x74, 0x3b]
    } else if b == 0x27 {
        seq![0x26u8, 0x23, 0x33, 0x39, 0x3b]
    } else {
        seq![b]
    }
}

/// HTML escaping: `&`, `<`, `>`, `"` and `'` become entities, other bytes
/// stay.
pub open spec fn html_escape(s: Seq<u8>) -> Seq<u8>
    decreases s.len(),
{
    if s.len() == 0 {
        Seq::empty()
    } else {
        html_escape(s.drop_last()) + escape_byte(s.last())
    }
}

/// Appends the HTML-escaped `value` to `out`.
pub fn write_escaped(out: &mut Vec<u8>, value: &[u8])
    ensures
        final(out)@ == old(out)@ + html_escape(value@),
{
    let ghost start = out@;
    let mut i: usize = 0;
    while i < value.len()
        invariant
            i <= value@.len(),
            out@ == start + html_escape(value@.subrange(0, i as int)),
        decreases value.len() - i,
    {
        let byte = value[i];
        let ghost before = out@;
        if byte == 0x26 {
            let e: [u8; 5] = [0x26, 0x61, 0x6d, 0x70, 0x3b];
            append_bytes(out, e.as_slice());
            assert(e@ =~= escape_byte(byte));
        } else if byte == 0x3c {
            let e: [u8; 4] = [0x26, 0x6c, 0x74, 0x3b];
            append_bytes(out, e.as_slice());
            assert(e@ =~= escape_byte(byte));
        } else if byte == 0x3e {
            let e: [u8; 4] = [0x26, 0x67, 0x74, 0x3b];
            append_bytes(out, e.as_slice());
            assert(e@ =~= escape_byte(byte));
        } else if byte == 0x22 {
            let e: [u8; 6] = [0x26, 0x71, 0x75, 0x6f, 0x74, 0x3b];
            append_bytes(out, e.as_slice());
            assert(e@ =~= escape_byte(byte));
        } else if byte == 0x27 {
            let e: [u8; 5] = [0x26, 0x23, 0x33, 0x39, 0x3b];
            append_bytes(out, e.as_slice());
            assert(e@ =~= escape_byte(byte));
        } else {
            out.push(byte);
            assert(out@ =~= before + escape_byte(byte));
        }
        proof {
            let next = value@.subrange(0, i + 1);
            assert(next.drop_last() =~= value@.subrange(0, i as int));
            assert(next.last() == byte);
            assert(out@ =~= start + html_escape(next));
        }
        i += 1;
    }
    assert(value@.subrange(0, value@.len() as int) =~= value@);
}

/// Decimal digits of a byte value, without leading zeros.
pub open spec fn u8_decimal(n: u8) -> Seq<u8> {
    if n >= 100 {
        seq![(0x30 + n / 100) as u8, (0x30 + (n / 10) % 10) as u8, (0x30 + n % 10) as u8]
    } else if n >= 10 {
        seq![(0x30 + n / 10) as u8, (0x30 + n % 10) as u8]
    } else {
        seq![(0x30 + n) as u8]
    }
}

/// Dotted-decimal text of an IPv4 address, as `Display` writes it.
pub open spec fn ipv4_text(ip: Seq<u8>) -> Seq<u8> {
    u8_decimal(ip[0]) + seq![0x2eu8] + u8_decimal(ip[1]) + seq![0x2eu8] + u8_decimal(ip[2]) + seq![
        0x2eu8,
    ] + u8_decimal(ip[3])
}

/// Each octet is written as its decimal digits, without leading zeros:
/// the text is one to three ASCII digits whose decimal value is `n`.
pub proof fn lemma_u8_decimal_reads_back(n: u8)
    ensures
        1 <= u8_decimal(n).len() <= 3,
        forall|i: int| 0 <= i < u8_decimal(n).len() ==> is_digit(#[trigger] u8_decimal(n)[i]),
        u8_decimal(n).len() > 1 ==> u8_decimal(n)[0] != ASCII_ZERO,
        decimal_value(u8_decimal(n)) == n,
{
    let d = u8_decimal(n);
    let e = Seq::<u8>::empty();
    assert(decimal_value(e) == 0);
    if n >= 100 {
        let a = seq![d[0]];
        let ab = seq![d[0], d[1]];
        assert(a.drop_last() =~= e);
        assert(ab.drop_last() =~= a);
        assert(d.drop_last() =~= ab);
        assert(decimal_value(a) == d[0] - 0x30);
        assert(decimal_value(ab) == (d[0] - 0x30) * 10 + (d[1] - 0x30));
        assert(decimal_value(d) == ((d[0] - 0x30) * 10 + (d[1] - 0x30)) * 10 + (d[2] - 0x30));
        assert(n as int == (n / 100) * 100 + ((n / 10) % 10) * 10 + n % 10) by (nonlinear_arith);
    } else if n >= 10 {
        let a = seq![d[0]];
        assert(a.drop_last() =~= e);
        assert(d.drop_last() =~= a);
        assert(decimal_value(a) == d[0] - 0x30);
        assert(decimal_value(d) == (d[0] - 0x30) * 10 + (d[1] - 0x30));
        assert(n as int == (n / 10) * 10 + n % 10) by (nonlinear_arith);
    } else {
        assert(d.drop_last() =~= e);
    }
}

/// Appends the decimal digits of `n`.
pub fn write_u8_decimal(out: &mut Vec<u8>, n: u8)
    ensures
        final(out)@ == old(out)@ + u8_decimal(n),
{
    let ghost start = out@;
    if n >= 100 {
        out.push(0x30 + n / 100);
        out.push(0x30 + (n / 10) % 10);
        out.push(0x30 + n % 10);
    } else if n >= 10 {
        out.push(0x30 + n / 10);
        out.push(0x30 + n % 10);
    } else {
        out.push(0x30 + n);
    }
    assert(out@ =~= start + u8_decimal(n));
}

/// Appends an address in dotted-decimal form.
pub fn write_display(out: &mut Vec<u8>, ip: [u8; 4])
    ensures
        final(out)@ == old(out)@ + ipv4_text(ip@),
{
    let ghost start = out@;
    write_u8_decimal(out, ip[0]);
    out.push(0x2e);
    write_u8_decimal(out, ip[1]);
    out.push(0x2e);
    write_u8_decimal(out, ip[2]);
    out.push(0x2e);
    write_u8_decimal(out, ip[3]);
    assert(out@ =~= start + ipv4_text(ip@));
}

/// What the station interface has, for the setup page.
#[derive(Clone, Copy)]
pub enum StaStatus {
    /// An address was configured.
    Address([u8; 4]),
    /// The link is up but no address yet.
    Connecting,
    /// No link.
    NotConnected,
}

pub const PAGE_STATUS_LINE: &'static str = "HTTP/1.0 200 OK\r\nContent-Type: text/html; charset=utf-8\r\nConnection: close\r\n\r\n";

pub const PAGE_HEAD: &'static str = "<!doctype html><html><head><meta charset=\"utf-8\"><meta name=\"viewport\" content=\"width=device-width,initial-scale=1\"><title>Wi-Fi Setup</title><style>body{font-family:system-ui,sans-serif;margin:0;background:#f4f6f8;color:#111827}main{max-width:520px;margin:0 auto;padding:32px 20px}form{display:grid;gap:14px}label{font-size:14px;font-weight:600}input{width:100%;box-sizing:border-box;padding:12px;border:1px solid #cbd5e1;border-radius:6px;font-size:16px}button{padding:12px 16px;border:0;border-radius:6px;background:#0f766e;color:white;font-size:16px;font-weight:700}.status{margin:16px 0;padding:12px;border-radius:6px;background:#e0f2fe}.meta{margin:0 0 20px;color:#4b5563;font-size:14px}</style></head><body><main><h1>Wi-Fi Setup</h1>";

pub const PAGE_AP_ADDRESS: &'static str = "<p class=\"meta\">AP address: ";

pub const PAGE_PORT: &'static str = ":8080";

pub const PAGE_STA_ADDRESS: &'static str = "<br>STA address: ";

pub const PAGE_STA_CONNECTING: &'static str = "<br>STA is connecting";

pub const PAGE_STA_NOT_CONNECTED: &'static str = "<br>STA is not connected";

pub const PAGE_META_END: &'static str = "</p>";

pub const PAGE_STATUS_START: &'static str = "<div class=\"status\">";

pub const PAGE_STATUS_END: &'static str = "</div>";

pub const PAGE_FORM_START: &'static str = "<form method=\"post\" action=\"/wifi\"><label for=\"ssid\">Wi-Fi SSID</label><input id=\"ssid\" name=\"ssid\" maxlength=\"32\" required value=\"";

pub const PAGE_FORM_END: &'static str = "\"><label for=\"password\">Wi-Fi Password</label><input id=\"password\" name=\"password\" type=\"password\" maxlength=\"64\" autocomplete=\"current-password\"><button type=\"submit\">Save and reconnect</button></form></main></body></html>";

pub open spec fn sta_status_text(sta: StaStatus) -> Seq<u8> {
    match sta {
        StaStatus::Address(ip) => PAGE_STA_ADDRESS.spec_bytes() + ipv4_text(ip@)
            + PAGE_PORT.spec_bytes(),
        StaStatus::Connecting => PAGE_STA_CONNECTING.spec_bytes(),
        StaStatus::NotConnected => PAGE_STA_NOT_CONNECTED.spec_bytes(),
    }
}

/// The whole setup page response: status line and headers, the page, the
/// access point's and the station's addresses, the escaped status message
/// when there is one, and the form with the SSID in use (escaped) filled in.
pub open spec fn config_page_bytes(
    ap_ip: Seq<u8>,
    sta: StaStatus,
    message: Option<Seq<u8>>,
    current_ssid: Option<Seq<u8>>,
) -> Seq<u8> {
    PAGE_STATUS_LINE.spec_bytes() + PAGE_HEAD.spec_bytes() + PAGE_AP_ADDRESS.spec_bytes()
        + ipv4_text(ap_ip) + PAGE_PORT.spec_bytes() + sta_status_text(sta)
        + PAGE_META_END.spec_bytes() + match message {
        Some(m) => PAGE_STATUS_START.spec_bytes() + html_escape(m) + PAGE_STATUS_END.spec_bytes(),
        None => Seq::empty(),
    } + PAGE_FORM_START.spec_bytes() + match current_ssid {
        Some(s) => html_escape(s),
        None => Seq::empty(),
    } + PAGE_FORM_END.spec_bytes()
}

pub open spec fn opt_str_bytes(m: Option<&str>) -> Option<Seq<u8>> {
    match m {
        Some(m) => Some(m.spec_bytes()),
        None => None,
    }
}

pub open spec fn current_ssid_of(state: &WifiRuntimeState) -> Option<Seq<u8>> {
    match state.current() {
        Some(c) => Some(c.0),
        None => None,
    }
}

/// The setup page response.
pub fn config_page(
    ap_ip: [u8; 4],
    sta: StaStatus,
    message: Option<&str>,
    state: &WifiRuntimeState,
) -> (r: Vec<u8>)
    ensures
        r@ == config_page_bytes(ap_ip@, sta, opt_str_bytes(message), current_ssid_of(state)),
{
    let mut out: Vec<u8> = Vec::new();
    append_bytes(&mut out, PAGE_STATUS_LINE.as_bytes());
    append_bytes(&mut out, PAGE_HEAD.as_bytes());
    append_bytes(&mut out, PAGE_AP_ADDRESS.as_bytes());
    write_display(&mut out, ap_ip);
    append_bytes(&mut out, PAGE_PORT.as_bytes());
    let ghost before_sta = out@;
    match sta {
        StaStatus::Address(ip) => {
            append_bytes(&mut out, PAGE_STA_ADDRESS.as_bytes());
            write_display(&mut out, ip);
            append_bytes(&mut out, PAGE_PORT.as_bytes());
        },
        StaStatus::Connecting => {
            append_bytes(&mut out, PAGE_STA_CONNECTING.as_bytes());
        },
        StaStatus::NotConnected => {
            append_bytes(&mut out, PAGE_STA_NOT_CONNECTED.as_bytes());
        },
    }
    assert(out@ =~= before_sta + sta_status_text(sta));
    append_bytes(&mut out, PAGE_META_END.as_bytes());
    let ghost before_message = out@;
    if let Some(message) = message {
        append_bytes(&mut out, PAGE_STATUS_START.as_bytes());
        write_escaped(&mut out, message.as_bytes());
        append_bytes(&mut out, PAGE_STATUS_END.as_bytes());
    }
    let ghost message_part = match opt_str_bytes(message) {
        Some(m) => PAGE_STATUS_START.spec_bytes() + html_escape(m) + PAGE_STATUS_END.spec_bytes(),
        None => Seq::<u8>::empty(),
    };
    assert(out@ =~= before_message + message_part);
    append_bytes(&mut out, PAGE_FORM_START.as_bytes());
    let ghost before_ssid = out@;
    if let Some(credentials) = state.current_credentials() {
        write_escaped(&mut out, credentials.ssid().as_bytes());
    }
    let ghost ssid_part = match current_ssid_of(state) {
        Some(s) => html_escape(s),
        None => Seq::<u8>::empty(),
    };
    assert(out@ =~= before_ssid + ssid_part);
    append_bytes(&mut out, PAGE_FORM_END.as_bytes());
    assert(out@ =~= config_page_bytes(ap_ip@, sta, opt_str_bytes(message), current_ssid_of(state)));
    out
}

pub const RESPONSE_400: &'static str = "HTTP/1.0 400 Bad Request\r\n";

pub const RESPONSE_404: &'static str = "HTTP/1.0 404 Not Found\r\n";

pub const RESPONSE_PREFIX: &'static str = "HTTP/1.0 ";

pub const CRLF: &'static str = "\r\n";

pub const TEXT_HEADERS: &'static str = "Content-Type: text/plain\r\nConnection: close\r\n\r\n";

/// A plain-text response: the status line of 400 and 404 is fixed, others
/// are built from `reason`; then the headers and the body.
pub open spec fn text_response_bytes(code: u16, reason: Seq<u8>, body: Seq<u8>) -> Seq<u8> {
    let status = if code == 400 {
        RESPONSE_400.spec_bytes()
    } else if code == 404 {
        RESPONSE_404.spec_bytes()
    } else {
        RESPONSE_PREFIX.spec_bytes() + reason + CRLF.spec_bytes()
    };
    status + TEXT_HEADERS.spec_bytes() + body
}

/// The plain-text response with the given status and body.
pub fn write_text_response(code: u16, reason: &str, body: &str) -> (r: Vec<u8>)
    ensures
        r@ == text_response_bytes(code, reason.spec_bytes(), body.spec_bytes()),
{
    let mut out: Vec<u8> = Vec::new();
    match code {
        400 => append_bytes(&mut out, RESPONSE_400.as_bytes()),
        404 => append_bytes(&mut out, RESPONSE_404.as_bytes()),
        _ => {
            append_bytes(&mut out, RESPONSE_PREFIX.as_bytes());
            append_bytes(&mut out, reason.as_bytes());
            append_bytes(&mut out, CRLF.as_bytes());
        },
    }
    append_bytes(&mut out, TEXT_HEADERS.as_bytes());
    append_bytes(&mut out, body.as_bytes());
    assert(out@ =~= text_response_bytes(code, reason.spec_bytes(), body.spec_bytes()));
    out
}

/// A request that is complete stays complete when more bytes arrive.
pub proof fn lemma_complete_request_stays_complete(b: Seq<u8>, more: Seq<u8>)
    requires
        request_is_complete(b),
    ensures
        request_is_complete(b + more),
{
    let h = header_end(b).unwrap();
    lemma_blank_line_from(b, 0);
    lemma_blank_line_prefix(b, more, 0);
    assert((b + more).subrange(0, h) =~= b.subrange(0, h));
}

/// The first blank line found in `b` is also the first found once bytes are
/// appended.
proof fn lemma_blank_line_prefix(b: Seq<u8>, more: Seq<u8>, i: int)
    requires
        0 <= i,
        blank_line_from(b, i) is Some,
    ensures
        blank_line_from(b + more, i) == blank_line_from(b, i),
    decreases b.len() - i,
{
    if !blank_line_at(b, i) {
        assert(i + 4 <= b.len());
        assert(!blank_line_at(b + more, i));
        lemma_blank_line_prefix(b, more, i + 1);
    } else {
        assert(blank_line_at(b + more, i));
    }
}

/// A byte that HTML treats as markup: `<`, `>`, `"` or `'`.
pub open spec fn is_markup_byte(b: u8) -> bool {
    b == 0x3c || b == 0x3e || b == 0x22 || b == 0x27
}

/// Escaped text holds no markup byte, so it cannot open a tag or leave an
/// attribute value.
pub proof fn lemma_escaped_text_is_inert(s: Seq<u8>)
    ensures
        forall|i: int| 0 <= i < html_escape(s).len() ==> !is_markup_byte(#[trigger] html_escape(s)[i]),
    decreases s.len(),
{
    if s.len() > 0 {
        lemma_escaped_text_is_inert(s.drop_last());
        let front = html_escape(s.drop_last());
        let tail = escape_byte(s.last());
        assert forall|i: int| 0 <= i < html_escape(s).len() implies !is_markup_byte(
            #[trigger] html_escape(s)[i],
        ) by {
            if i < front.len() {
                assert(html_escape(s)[i] == front[i]);
            } else {
                assert(html_escape(s)[i] == tail[i - front.len()]);
            }
        }
    }
}

/// Upper-case hexadecimal digit of a value below 16.
pub open spec fn hex_digit(n: u8) -> u8 {
    if n < 10 {
        (0x30 + n) as u8
    } else {
        (0x41 + n - 10) as u8
    }
}

/// Every byte written as `%` and two hexadecimal digits.
pub open spec fn percent_encode(s: Seq<u8>) -> Seq<u8>
    decreases s.len(),
{
    if s.len() == 0 {
        Seq::empty()
    } else {
        seq![ASCII_PERCENT, hex_digit(s[0] / 16), hex_digit(s[0] % 16)] + percent_encode(
            s.drop_first(),
        )
    }
}

proof fn lemma_form_decode_shift(p: Seq<u8>, s: Seq<u8>, i: int)
    requires
        0 <= i,
    ensures
        form_decode_from(p + s, p.len() + i) == form_decode_from(s, i),
    decreases s.len() - i,
{
    let t = p + s;
    let j = p.len() + i;
    if i < s.len() {
        assert(t[j] == s[i]);
        if i + 1 < s.len() {
            assert(t[j + 1] == s[i + 1]);
        }
        if i + 2 < s.len() {
            assert(t[j + 2] == s[i + 2]);
        }
        lemma_form_decode_shift(p, s, i + 1);
        if i + 2 < s.len() {
            lemma_form_decode_shift(p, s, i + 3);
        }
    }
}

proof fn lemma_percent_encode_len(s: Seq<u8>)
    ensures
        percent_encode(s).len() == 3 * s.len(),
    decreases s.len(),
{
    if s.len() > 0 {
        lemma_percent_encode_len(s.drop_first());
    }
}

/// Form decoding undoes percent-encoding.
pub proof fn lemma_percent_encoding_roundtrip(s: Seq<u8>)
    ensures
        form_decode_from(percent_encode(s), 0) == Some(s),
    decreases s.len(),
{
    if s.len() > 0 {
        let b = s[0];
        let head = seq![ASCII_PERCENT, hex_digit(b / 16), hex_digit(b % 16)];
        let rest = percent_encode(s.drop_first());
        lemma_percent_encoding_roundtrip(s.drop_first());
        lemma_form_decode_shift(head, rest, 0);
        lemma_percent_encode_len(s.drop_first());
        let e = head + rest;
        assert(e[0] == ASCII_PERCENT);
        assert(e[1] == hex_digit(b / 16));
        assert(e[2] == hex_digit(b % 16));
        assert(hex_digit_value(hex_digit(b / 16)) == Some((b / 16) as u8));
        assert(hex_digit_value(hex_digit(b % 16)) == Some((b % 16) as u8));
        assert(((b / 16) * 16 + b % 16) as u8 == b);
        assert(seq![b] + s.drop_first() =~= s);
    }
}

/// The lower-case hexadecimal digit of `n` (below 16).
pub open spec fn hex_digit_lower(n: u8) -> u8 {
    if n < 10 {
        (0x30 + n) as u8
    } else {
        (0x61 + n - 10) as u8
    }
}

/// How one byte is written in a form value: as itself when `mode` is 0,
/// otherwise as `%` and two hexadecimal digits, upper-case when `mode` is 1
/// and lower-case for any other mode.
pub open spec fn encode_byte_as(b: u8, mode: u8) -> Seq<u8> {
    if mode == 0 {
        seq![b]
    } else if mode == 1 {
        seq![ASCII_PERCENT, hex_digit(b / 16), hex_digit(b % 16)]
    } else {
        seq![ASCII_PERCENT, hex_digit_lower(b / 16), hex_digit_lower(b % 16)]
    }
}

/// `s` written byte by byte, the `i`-th byte as `modes[i]` says.
pub open spec fn encode_with(s: Seq<u8>, modes: Seq<u8>) -> Seq<u8>
    decreases s.len(),
{
    if s.len() == 0 {
        Seq::empty()
    } else {
        encode_byte_as(s[0], modes[0]) + encode_with(s.drop_first(), modes.drop_first())
    }
}

/// Only bytes other than `%` and `+` are written as themselves.
pub open spec fn escapes_specials(s: Seq<u8>, modes: Seq<u8>) -> bool {
    &&& modes.len() == s.len()
    &&& forall|i: int| 0 <= i < s.len() && modes[i] == 0 ==> s[i] != ASCII_PERCENT && s[i]
        != ASCII_PLUS
}

/// Form decoding undoes any encoding that writes every `%` and `+` byte
/// as `%` and two hexadecimal digits of either case, and any other byte
/// either so or as itself.
pub proof fn lemma_form_decode_any_encoding(s: Seq<u8>, modes: Seq<u8>)
    requires
        escapes_specials(s, modes),
    ensures
        form_decode_from(encode_with(s, modes), 0) == Some(s),
    decreases s.len(),
{
    if s.len() > 0 {
        let b = s[0];
        let m = modes[0];
        let head = encode_byte_as(b, m);
        let rest = encode_with(s.drop_first(), modes.drop_first());
        assert(escapes_specials(s.drop_first(), modes.drop_first())) by {
            assert forall|i: int|
                0 <= i < s.drop_first().len() && modes.drop_first()[i] == 0 implies s.drop_first()[i]
                != ASCII_PERCENT && s.drop_first()[i] != ASCII_PLUS by {
                assert(modes.drop_first()[i] == modes[i + 1]);
                assert(s.drop_first()[i] == s[i + 1]);
            }
        }
        lemma_form_decode_any_encoding(s.drop_first(), modes.drop_first());
        lemma_form_decode_shift(head, rest, 0);
        let e = head + rest;
        assert(seq![b] + s.drop_first() =~= s);
        if m == 0 {
            assert(b != ASCII_PERCENT && b != ASCII_PLUS);
            assert(e[0] == b);
        } else {
            assert(e[0] == ASCII_PERCENT);
            assert(e.len() >= 3);
            assert(((b / 16) * 16 + b % 16) as u8 == b);
            if m == 1 {
                assert(e[1] == hex_digit(b / 16));
                assert(e[2] == hex_digit(b % 16));
                assert(hex_digit_value(hex_digit(b / 16)) == Some((b / 16) as u8));
                assert(hex_digit_value(hex_digit(b % 16)) == Some((b % 16) as u8));
            } else {
                assert(e[1] == hex_digit_lower(b / 16));
                assert(e[2] == hex_digit_lower(b % 16));
                assert(hex_digit_value(hex_digit_lower(b / 16)) == Some((b / 16) as u8));
                assert(hex_digit_value(hex_digit_lower(b % 16)) == Some((b % 16) as u8));
            }
        }
    }
}

/// A form value encoded as above reads back as the text it encodes, when
/// that text is UTF-8 and fits the field.
pub proof fn lemma_form_value_reads_back(s: Seq<u8>, modes: Seq<u8>, capacity: nat)
    requires
        escapes_specials(s, modes),
        valid_utf8(s),
        s.len() <= capacity,
    ensures
        form_value(encode_with(s, modes), capacity) == Some(s),
{
    lemma_form_decode_any_encoding(s, modes);
}

/// No byte of a percent-encoding is `&` or `=`.
proof fn lemma_percent_encode_plain(s: Seq<u8>)
    ensures
        forall|i: int| 0 <= i < percent_encode(s).len() ==> (#[trigger] percent_encode(s)[i])
            != ASCII_AMPERSAND && percent_encode(s)[i] != ASCII_EQUALS,
    decreases s.len(),
{
    if s.len() > 0 {
        lemma_percent_encode_plain(s.drop_first());
        let head = seq![ASCII_PERCENT, hex_digit(s[0] / 16), hex_digit(s[0] % 16)];
        let rest = percent_encode(s.drop_first());
        assert forall|i: int| 0 <= i < percent_encode(s).len() implies (#[trigger] percent_encode(
            s,
        )[i]) != ASCII_AMPERSAND && percent_encode(s)[i] != ASCII_EQUALS by {
            if i >= 3 {
                assert(percent_encode(s)[i] == rest[i - 3]);
            }
        }
    }
}

/// `index_of_from` finds `j` when the byte is at `j` and nowhere before it.
proof fn lemma_index_of_from_at(s: Seq<u8>, byte: u8, i: int, j: int)
    requires
        0 <= i <= j < s.len(),
        s[j] == byte,
        forall|k: int| i <= k < j ==> s[k] != byte,
    ensures
        index_of_from(s, byte, i) == Some(j),
    decreases j - i,
{
    if i < j {
        lemma_index_of_from_at(s, byte, i + 1, j);
    }
}

/// `index_of_from` finds nothing when the byte does not occur from `i` on.
proof fn lemma_index_of_from_absent(s: Seq<u8>, byte: u8, i: int)
    requires
        0 <= i,
        forall|k: int| i <= k < s.len() ==> s[k] != byte,
    ensures
        index_of_from(s, byte, i) is None,
    decreases s.len() - i,
{
    if i < s.len() {
        lemma_index_of_from_absent(s, byte, i + 1);
    }
}

/// The body of a form that carries `ssid` and `password`, both
/// percent-encoded.
pub open spec fn wifi_form_body(ssid: Seq<u8>, password: Seq<u8>) -> Seq<u8> {
    ssid_field_name() + seq![ASCII_EQUALS] + percent_encode(ssid) + seq![ASCII_AMPERSAND]
        + password_field_name() + seq![ASCII_EQUALS] + percent_encode(password)
}

/// Reading a `name=value` piece whose value is percent-encoded.
proof fn lemma_split_encoded_pair(name: Seq<u8>, value: Seq<u8>)
    requires
        forall|k: int| 0 <= k < name.len() ==> name[k] != ASCII_EQUALS,
    ensures
        split_pair(name + seq![ASCII_EQUALS] + percent_encode(value)) == (name, percent_encode(value)),
{
    let pair = name + seq![ASCII_EQUALS] + percent_encode(value);
    lemma_index_of_from_at(pair, ASCII_EQUALS, 0, name.len() as int);
    assert(pair.subrange(0, name.len() as int) =~= name);
    assert(pair.subrange(name.len() as int + 1, pair.len() as int) =~= percent_encode(value));
}

/// Submitting a form that carries an SSID and a password, percent-encoded,
/// reads back exactly that SSID and password, when the SSID is valid UTF-8
/// of at most 32 bytes and the password valid UTF-8 of at most 64.
pub proof fn lemma_wifi_form_reads_back(ssid: Seq<u8>, password: Seq<u8>)
    requires
        ssid.len() <= 32,
        password.len() <= 64,
        valid_utf8(ssid),
        valid_utf8(password),
    ensures
        form_fields_from(wifi_form_body(ssid, password), 0, Seq::empty(), Seq::empty()) == (
            true,
            ssid,
            password,
        ),
        ssid.len() > 0 ==> wifi_post_outcome(wifi_form_body(ssid, password)) == Ok::<
            (Seq<u8>, Seq<u8>),
            &'static str,
        >((ssid, password)),
{
    let body = wifi_form_body(ssid, password);
    let first = ssid_field_name() + seq![ASCII_EQUALS] + percent_encode(ssid);
    let second = password_field_name() + seq![ASCII_EQUALS] + percent_encode(password);
    assert(body =~= first + seq![ASCII_AMPERSAND] + second);
    lemma_percent_encode_plain(ssid);
    lemma_percent_encode_plain(password);
    lemma_percent_encoding_roundtrip(ssid);
    lemma_percent_encoding_roundtrip(password);
    let amp = first.len() as int;
    assert forall|k: int| 0 <= k < amp implies body[k] != ASCII_AMPERSAND by {
        assert(body[k] == first[k]);
        if k >= 5 {
            assert(first[k] == percent_encode(ssid)[k - 5]);
        }
    }
    lemma_index_of_from_at(body, ASCII_AMPERSAND, 0, amp);
    assert(body.subrange(0, amp) =~= first);
    lemma_split_encoded_pair(ssid_field_name(), ssid);
    assert forall|k: int| amp + 1 <= k < body.len() implies body[k] != ASCII_AMPERSAND by {
        assert(body[k] == second[k - amp - 1]);
        if k - amp - 1 >= 9 {
            assert(second[k - amp - 1] == percent_encode(password)[k - amp - 1 - 9]);
        }
    }
    lemma_index_of_from_absent(body, ASCII_AMPERSAND, amp + 1);
    assert(body.subrange(amp + 1, body.len() as int) =~= second);
    lemma_split_encoded_pair(password_field_name(), password);
    assert(password_field_name() != ssid_field_name()) by {
        assert(password_field_name().len() != ssid_field_name().len());
    }
    assert(form_fields_from(body, amp + 1, ssid, Seq::empty()) == (true, ssid, password));
}


pub const REASON_BAD_REQUEST: &'static str = "Bad Request";

pub const BODY_BAD_REQUEST: &'static str = "bad request";

pub const REASON_NOT_FOUND: &'static str = "Not Found";

pub const BODY_NOT_FOUND: &'static str = "not found";

/// The status message shown after a form submission.
pub open spec fn wifi_post_message(body: Seq<u8>) -> &'static str {
    match wifi_post_outcome(body) {
        Ok(_) => MSG_SAVED,
        Err(m) => m,
    }
}

pub open spec fn bad_request_bytes() -> Seq<u8> {
    text_response_bytes(400, REASON_BAD_REQUEST.spec_bytes(), BODY_BAD_REQUEST.spec_bytes())
}

pub open spec fn not_found_bytes() -> Seq<u8> {
    text_response_bytes(404, REASON_NOT_FOUND.spec_bytes(), BODY_NOT_FOUND.spec_bytes())
}

/// The Wi-Fi form a received request submits, as its body, if it is one.
pub open spec fn submitted_form(received: Option<Seq<u8>>) -> Option<Seq<u8>> {
    match received {
        None => None,
        Some(b) => match parsed_request(b) {
            None => None,
            Some((m0, m1, p0, p1, b0, b1)) => if route_of(b.subrange(m0, m1), b.subrange(p0, p1))
                == Route::WifiPost {
                Some(b.subrange(b0, b1))
            } else {
                None
            },
        },
    }
}

/// The answer to a connection, given the request received (`None` when
/// none could be read) and the SSID in use once it is handled: a request
/// that was not read or does not parse is a bad request; the setup page
/// answers `GET /` and `GET /wifi`, and `POST /wifi` with the outcome of
/// the submitted form; anything else is not found.
pub open spec fn connection_reply(
    received: Option<Seq<u8>>,
    ap_ip: Seq<u8>,
    sta: StaStatus,
    current_ssid: Option<Seq<u8>>,
) -> Seq<u8> {
    match received {
        None => bad_request_bytes(),
        Some(b) => match parsed_request(b) {
            None => bad_request_bytes(),
            Some((m0, m1, p0, p1, b0, b1)) => match route_of(
                b.subrange(m0, m1),
                b.subrange(p0, p1),
            ) {
                Route::ConfigPage => config_page_bytes(ap_ip, sta, None, current_ssid),
                Route::WifiPost => config_page_bytes(
                    ap_ip,
                    sta,
                    Some(wifi_post_message(b.subrange(b0, b1)).spec_bytes()),
                    current_ssid,
                ),
                Route::NotFound => not_found_bytes(),
            },
        },
    }
}

pub open spec fn opt_bytes_view(o: Option<&[u8]>) -> Option<Seq<u8>> {
    match o {
        Some(b) => Some(b@),
        None => None,
    }
}

/// Answers one connection: `received` is the request read from it, or
/// `None` when none could be read. A submitted form changes `state` as
/// `handle_wifi_post` does; nothing else changes it.
pub fn handle_request(
    state: &mut WifiRuntimeState,
    received: Option<&[u8]>,
    ap_ip: [u8; 4],
    sta: StaStatus,
) -> (r: Vec<u8>)
    requires
        received matches Some(b) ==> parse_request_defined(b@),
    ensures
        r@ == connection_reply(opt_bytes_view(received), ap_ip@, sta, current_ssid_of(final(state))),
        match submitted_form(opt_bytes_view(received)) {
            Some(body) => match wifi_post_outcome(body) {
                Ok(c) => final(state).current() == Some(c) && final(state).pending() == Some(c),
                Err(_) => final(state).current() == old(state).current() && final(state).pending()
                    == old(state).pending(),
            },
            None => final(state).current() == old(state).current() && final(state).pending()
                == old(state).pending(),
        },
{
    let buffer = match received {
        Some(b) => b,
        None => return write_text_response(400, REASON_BAD_REQUEST, BODY_BAD_REQUEST),
    };
    let request = match parse_request(buffer) {
        Ok(request) => request,
        Err(()) => return write_text_response(400, REASON_BAD_REQUEST, BODY_BAD_REQUEST),
    };
    match route(request.method, request.path) {
        Route::ConfigPage => config_page(ap_ip, sta, None, state),
        Route::WifiPost => {
            let message = handle_wifi_post(state, request.body);
            config_page(ap_ip, sta, Some(message), state)
        },
        Route::NotFound => write_text_response(404, REASON_NOT_FOUND, BODY_NOT_FOUND),
    }
}

} // verus!
