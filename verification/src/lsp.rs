//! The data side of the language-server client: JSON-RPC framing, the
//! parsing of a frame header, and the symbols and diagnostics read out of
//! the server's answers.
use vstd::prelude::*;
use crate::text::{
    chars_of, concat, decimal, decimal_chars, extend_chars, extend_str, has_prefix, is_ws, lemma_trim_end_take, slice_chars,
    starts_with_chars, string_of, trim, trim_chars, trim_end, trim_start,
};
use crate::weixin::{
    all_digits, char_is_digit, digits_value, is_digit, lemma_decimal_numeral, lemma_digits_value_monotone, numeral_digits,
};

verus! {

/// A place in the code a server pointed to.
#[derive(Debug, Clone)]
pub struct LspSymbol {
    pub name: String,
    pub kind: String,
    pub file_path: String,
    pub line: u32,
    pub column: u32,
}

/// A problem a server reported in a file.
#[derive(Debug, Clone)]
pub struct LspDiagnostic {
    pub file_path: String,
    pub message: String,
    pub severity: String,
    pub line: u32,
}

/// The `file://` URI of a path.
pub open spec fn file_uri_of(path: Seq<char>) -> Seq<char> {
    "file://"@ + path
}

/// The `file://` URI of a path.
pub fn file_uri(path: &str) -> (r: String)
    ensures
        r@ == file_uri_of(path@),
{
    concat("file://", path)
}

/// The header that precedes a JSON-RPC message of `len` bytes.
pub open spec fn frame_header_of(len: nat) -> Seq<char> {
    "Content-Length: "@ + decimal(len) + "\r\n\r\n"@
}

/// Builds the header for a message of `len` bytes.
pub fn frame_header(len: usize) -> (r: String)
    ensures
        r@ == frame_header_of(len as nat),
{
    let mut v = chars_of("Content-Length: ");
    let d = decimal_chars(len as u64);
    extend_chars(&mut v, &d);
    extend_str(&mut v, "\r\n\r\n");
    string_of(&v)
}

/// `s` with every leading copy of `p` removed (`trim_start_matches(p)`).
pub open spec fn strip_all_prefix(s: Seq<char>, p: Seq<char>) -> Seq<char>
    decreases s.len(),
{
    if p.len() > 0 && has_prefix(s, p) {
        strip_all_prefix(s.skip(p.len() as int), p)
    } else {
        s
    }
}

/// The value of an unsigned decimal numeral with an optional leading `+`,
/// when it is at most `max` (`str::parse` of an unsigned integer type).
pub open spec fn parse_bounded_spec(s: Seq<char>, max: nat) -> Option<nat> {
    let d = numeral_digits(s);
    if d.len() > 0 && all_digits(d) && digits_value(d) <= max {
        Some(digits_value(d))
    } else {
        None
    }
}

/// `str::parse::<usize>`.
pub open spec fn parse_usize_spec(s: Seq<char>) -> Option<usize> {
    match parse_bounded_spec(s, usize::MAX as nat) {
        Some(n) => Some(n as usize),
        None => None,
    }
}

/// The body length a frame header announces: the number after
/// `Content-Length: `, trimmed; 0 when it does not parse.
pub open spec fn announced_length(header: Seq<char>) -> usize {
    match parse_usize_spec(trim(strip_all_prefix(header, "Content-Length: "@))) {
        Some(n) => n,
        None => 0,
    }
}

/// Parses an unsigned decimal numeral no larger than `max`.
pub fn parse_bounded(v: &Vec<char>, max: u64) -> (r: Option<u64>)
    ensures
        match r {
            Some(n) => parse_bounded_spec(v@, max as nat) == Some(n as nat),
            None => parse_bounded_spec(v@, max as nat) is None,
        },
{
    let start: usize = if v.len() > 0 && v[0] == '+' { 1 } else { 0 };
    let ghost digits = numeral_digits(v@);
    assert(digits =~= v@.skip(start as int));
    if start == v.len() {
        return None;
    }
    let mut value: u128 = 0;
    let mut i: usize = start;
    while i < v.len()
        invariant
            start <= i <= v.len(),
            start < v.len(),
            digits == numeral_digits(v@),
            digits == v@.skip(start as int),
            forall|k: int| start <= k < i ==> is_digit(#[trigger] v@[k]),
            value == digits_value(v@.subrange(start as int, i as int)),
            value <= max,
        decreases v.len() - i,
    {
        let c = v[i];
        if !char_is_digit(c) {
            proof {
                assert(digits[i - start] == c);
                assert(!all_digits(digits));
            }
            return None;
        }
        proof {
            let pre = v@.subrange(start as int, i + 1);
            assert(pre.drop_last() =~= v@.subrange(start as int, i as int));
            assert(pre.last() == c);
        }
        value = value * 10 + (c as u32 - 48) as u128;
        assert(value == digits_value(v@.subrange(start as int, i + 1)));
        if value > max as u128 {
            proof {
                assert forall|k: int| 0 <= k < (i + 1 - start) implies is_digit(#[trigger] digits.take(i + 1 - start)[k]) by {
                    assert(digits.take(i + 1 - start)[k] == v@[start + k]);
                }
                if all_digits(digits) {
                    lemma_digits_value_monotone(digits, i + 1 - start);
                    assert(digits.take(i + 1 - start) =~= v@.subrange(start as int, i + 1));
                }
            }
            return None;
        }
        i = i + 1;
    }
    proof {
        assert(v@.subrange(start as int, v@.len() as int) =~= digits);
        assert forall|k: int| 0 <= k < digits.len() implies is_digit(#[trigger] digits[k]) by {
            assert(digits[k] == v@[start + k]);
        }
    }
    Some(value as u64)
}

/// Parses a decimal `usize`.
pub fn parse_usize(v: &Vec<char>) -> (r: Option<usize>)
    ensures
        r == parse_usize_spec(v@),
{
    match parse_bounded(v, usize::MAX as u64) {
        Some(n) => Some(n as usize),
        None => None,
    }
}

/// Reads the body length from a frame header line.
pub fn content_length(header: &str) -> (r: usize)
    ensures
        r == announced_length(header@),
{
    let mut v = chars_of(header);
    let p = chars_of("Content-Length: ");
    proof {
        reveal_strlit("Content-Length: ");
    }
    assert(p@.len() == 16);
    while starts_with_chars(&v, &p)
        invariant
            p@ == "Content-Length: "@,
            p@.len() == 16,
            strip_all_prefix(v@, p@) == strip_all_prefix(header@, "Content-Length: "@),
        decreases v@.len(),
    {
        let rest = slice_chars(&v, 16, v.len());
        assert(rest@ =~= v@.skip(16));
        v = rest;
    }
    let t = trim_chars(&v);
    match parse_usize(&t) {
        Some(n) => n,
        None => 0,
    }
}

/// The name of a diagnostic severity code: 1 is an error, 2 a warning,
/// anything else (or none) information.
pub open spec fn severity_text(code: Option<i64>) -> Seq<char> {
    match code {
        Some(1) => "error"@,
        Some(2) => "warn"@,
        _ => "info"@,
    }
}

/// Names a diagnostic severity code.
pub fn severity_name(code: Option<i64>) -> (r: &'static str)
    ensures
        r@ == severity_text(code),
{
    match code {
        Some(1) => "error",
        Some(2) => "warn",
        _ => "info",
    }
}

/// The zero-based line a server sent, as a `u32` (0 when absent).
pub open spec fn raw_line(line: Option<i64>) -> u32 {
    match line {
        Some(l) => l as u32,
        None => 0,
    }
}

fn wire_u32(v: Option<i64>) -> (r: u32)
    ensures
        r == raw_line(v),
{
    match v {
        Some(l) => l as u32,
        None => 0,
    }
}

/// A diagnostic of `path` built from what the server sent: the message
/// (`?` when missing), the severity's name and the one-based line.
pub fn diagnostic_of(path: &str, message: Option<String>, severity: Option<i64>, line: Option<i64>) -> (r: LspDiagnostic)
    requires
        raw_line(line) < u32::MAX,
    ensures
        r.file_path@ == path@,
        r.message@ == (match message { Some(m) => m@, None => "?"@ }),
        r.severity@ == severity_text(severity),
        r.line == raw_line(line) + 1,
{
    LspDiagnostic {
        file_path: path.to_owned(),
        message: match message { Some(m) => m, None => "?".to_owned() },
        severity: severity_name(severity).to_owned(),
        line: wire_u32(line) + 1,
    }
}

/// A location the server pointed to: no name, kind `location`, its URI
/// (empty when missing), the one-based line and the column.
pub fn location_symbol(uri: Option<String>, line: Option<i64>, character: Option<i64>) -> (r: LspSymbol)
    requires
        raw_line(line) < u32::MAX,
    ensures
        r.name@.len() == 0,
        r.kind@ == "location"@,
        r.file_path@ == (match uri { Some(u) => u@, None => ""@ }),
        r.line == raw_line(line) + 1,
        r.column == raw_line(character),
{
    LspSymbol {
        name: String::new(),
        kind: "location".to_owned(),
        file_path: match uri { Some(u) => u, None => "".to_owned() },
        line: wire_u32(line) + 1,
        column: wire_u32(character),
    }
}

/// What a header announces is what it was written with: reading the
/// length back from a frame header gives the length it was built for.
pub proof fn lemma_frame_header_roundtrip(n: usize)
    ensures
        announced_length(frame_header_of(n as nat)) == n,
{
    let d = decimal(n as nat);
    lemma_decimal_numeral(n as nat);
    reveal_strlit("Content-Length: ");
    reveal_strlit("\r\n\r\n");
    let p = "Content-Length: "@;
    let h = frame_header_of(n as nat);
    let r = d + "\r\n\r\n"@;
    assert(h =~= p + r);
    assert(h.take(16) =~= p);
    assert(h.skip(16) =~= r);
    assert(is_digit(d[0]));
    assert(r[0] == d[0]);
    assert(!has_prefix(r, p)) by {
        if has_prefix(r, p) {
            assert(r.take(16)[0] == p[0]);
        }
    }
    assert(strip_all_prefix(r, p) == r);
    assert(strip_all_prefix(h, p) == r);
    assert(trim_start(r) == r);
    assert forall|k: int| d.len() <= k < r.len() implies is_ws(r[k]) by {
        assert(r[k] == "\r\n\r\n"@[k - d.len()]);
    }
    lemma_trim_end_take(r, d.len() as int);
    assert(r.take(d.len() as int) =~= d);
    assert(is_digit(d.last()));
    assert(trim_end(d) == d);
    assert(trim(r) == d);
    assert(numeral_digits(d) == d);
}

} // verus!
