//! ASCII hex listings of small test programs: one line per group of bytes,
//! written as space-separated hex tokens, with `;` starting a comment.

use vstd::prelude::*;
use crate::loader::LoadError;

verus! {

#[verifier::external_type_specification]
#[verifier::external_body]
pub struct ExFromHexError(hex::FromHexError);

pub open spec fn is_hex_digit(c: u8) -> bool {
    (0x30 <= c <= 0x39) || (0x41 <= c <= 0x46) || (0x61 <= c <= 0x66)
}

pub open spec fn hex_digit_value(c: u8) -> int {
    if c <= 0x39 { c - 0x30 } else if c <= 0x46 { c - 0x41 + 10 } else { c - 0x61 + 10 }
}

/// An even number of hex digits, in either case.
pub open spec fn hex_valid(s: Seq<u8>) -> bool {
    s.len() % 2 == 0 && forall|i: int| 0 <= i < s.len() ==> is_hex_digit(#[trigger] s[i])
}

/// The bytes that pairs of hex digits spell, high digit first.
pub open spec fn hex_value(s: Seq<u8>) -> Seq<u8> {
    Seq::new(s.len() / 2, |i: int| (hex_digit_value(s[2 * i]) * 16 + hex_digit_value(s[2 * i + 1])) as u8)
}

pub open spec fn spec_hex(s: Seq<u8>) -> Option<Seq<u8>> {
    if hex_valid(s) { Some(hex_value(s)) } else { None }
}

/// `hex::decode`: succeeds exactly on an even number of hex digits (upper
/// or lower case), giving one byte per pair, high digit first.
#[verifier::external_body]
fn hex_decode(data: &[u8]) -> (r: Result<Vec<u8>, hex::FromHexError>)
    ensures
        r is Ok <==> hex_valid(data@),
        r matches Ok(v) ==> v@ == hex_value(data@),
{
    hex::decode(data)
}

/// ASCII white space: tab, line feed, vertical tab, form feed, carriage
/// return and space.
pub open spec fn is_space(c: u8) -> bool {
    c == 0x20 || (0x09 <= c <= 0x0D)
}

/// The UTF-8 encodings of the three-byte Unicode white space characters:
/// U+1680, U+2000 to U+200A, U+2028, U+2029, U+202F, U+205F and U+3000.
pub open spec fn is_wide_space(a: u8, b: u8, c: u8) -> bool {
    ||| a == 0xE1 && b == 0x9A && c == 0x80
    ||| a == 0xE2 && b == 0x80 && ((0x80 <= c <= 0x8A) || c == 0xA8 || c == 0xA9 || c == 0xAF)
    ||| a == 0xE2 && b == 0x81 && c == 0x9F
    ||| a == 0xE3 && b == 0x80 && c == 0x80
}

/// The length of the Unicode white space character that `s` starts with
/// (ASCII, U+0085 or U+00A0, or a three-byte one), or 0.
pub open spec fn ws_prefix(s: Seq<u8>) -> int {
    if s.len() >= 1 && is_space(s[0]) {
        1
    } else if s.len() >= 2 && s[0] == 0xC2 && (s[1] == 0x85 || s[1] == 0xA0) {
        2
    } else if s.len() >= 3 && is_wide_space(s[0], s[1], s[2]) {
        3
    } else {
        0
    }
}

/// The length of the Unicode white space character that `s` ends with, or 0.
pub open spec fn ws_suffix(s: Seq<u8>) -> int {
    let n = s.len() as int;
    if n >= 1 && is_space(s[n - 1]) {
        1
    } else if n >= 2 && s[n - 2] == 0xC2 && (s[n - 1] == 0x85 || s[n - 1] == 0xA0) {
        2
    } else if n >= 3 && is_wide_space(s[n - 3], s[n - 2], s[n - 1]) {
        3
    } else {
        0
    }
}

/// `s` without its leading Unicode white space, as `str::trim` strips it.
pub open spec fn trim_start(s: Seq<u8>) -> Seq<u8>
    decreases s.len(),
{
    if ws_prefix(s) > 0 { trim_start(s.subrange(ws_prefix(s), s.len() as int)) } else { s }
}

/// `s` without its trailing Unicode white space.
pub open spec fn trim_end(s: Seq<u8>) -> Seq<u8>
    decreases s.len(),
{
    if ws_suffix(s) > 0 { trim_end(s.subrange(0, s.len() - ws_suffix(s))) } else { s }
}

fn wide_space(a: u8, b: u8, c: u8) -> (r: bool)
    ensures
        r == is_wide_space(a, b, c),
{
    (a == 0xE1 && b == 0x9A && c == 0x80) || (a == 0xE2 && b == 0x80 && ((0x80 <= c && c <= 0x8A) || c == 0xA8
        || c == 0xA9 || c == 0xAF)) || (a == 0xE2 && b == 0x81 && c == 0x9F) || (a == 0xE3 && b == 0x80 && c
        == 0x80)
}

fn ws_prefix_at(b: &[u8], start: usize, end: usize) -> (r: usize)
    requires
        start <= end <= b@.len(),
    ensures
        r as int == ws_prefix(b@.subrange(start as int, end as int)),
        r <= end - start,
{
    let ghost t = b@.subrange(start as int, end as int);
    let n = end - start;
    if n >= 1 && (b[start] == 0x20 || (0x09 <= b[start] && b[start] <= 0x0D)) {
        assert(t[0] == b@[start as int]);
        1
    } else if n >= 2 && b[start] == 0xC2 && (b[start + 1] == 0x85 || b[start + 1] == 0xA0) {
        assert(t[0] == b@[start as int] && t[1] == b@[start + 1]);
        2
    } else if n >= 3 && wide_space(b[start], b[start + 1], b[start + 2]) {
        assert(t[0] == b@[start as int] && t[1] == b@[start + 1] && t[2] == b@[start + 2]);
        3
    } else {
        assert(n >= 1 ==> t[0] == b@[start as int]);
        assert(n >= 2 ==> t[1] == b@[start + 1]);
        assert(n >= 3 ==> t[2] == b@[start + 2]);
        0
    }
}

fn ws_suffix_at(b: &[u8], start: usize, end: usize) -> (r: usize)
    requires
        start <= end <= b@.len(),
    ensures
        r as int == ws_suffix(b@.subrange(start as int, end as int)),
        r <= end - start,
{
    let ghost t = b@.subrange(start as int, end as int);
    let n = end - start;
    if n >= 1 && (b[end - 1] == 0x20 || (0x09 <= b[end - 1] && b[end - 1] <= 0x0D)) {
        assert(t[n - 1] == b@[end - 1]);
        1
    } else if n >= 2 && b[end - 2] == 0xC2 && (b[end - 1] == 0x85 || b[end - 1] == 0xA0) {
        assert(t[n - 2] == b@[end - 2] && t[n - 1] == b@[end - 1]);
        2
    } else if n >= 3 && wide_space(b[end - 3], b[end - 2], b[end - 1]) {
        assert(t[n - 3] == b@[end - 3] && t[n - 2] == b@[end - 2] && t[n - 1] == b@[end - 1]);
        3
    } else {
        assert(n >= 1 ==> t[n - 1] == b@[end - 1]);
        assert(n >= 2 ==> t[n - 2] == b@[end - 2]);
        assert(n >= 3 ==> t[n - 3] == b@[end - 3]);
        0
    }
}

/// The part of a line before its first `;`.
pub open spec fn before_comment(s: Seq<u8>) -> Seq<u8>
    decreases s.len(),
{
    if s.len() == 0 {
        s
    } else if s[0] == 0x3B {
        Seq::empty()
    } else {
        seq![s[0]] + before_comment(s.drop_first())
    }
}

pub open spec fn join(a: Option<Seq<u8>>, b: Option<Seq<u8>>) -> Option<Seq<u8>> {
    match (a, b) {
        (Some(x), Some(y)) => Some(x + y),
        _ => None,
    }
}

/// The bytes of the space-separated hex tokens of `s`, `tok` being the
/// start of the current token; `None` when a token is not hex.
pub open spec fn decode_tokens(s: Seq<u8>, tok: Seq<u8>) -> Option<Seq<u8>>
    decreases s.len(),
{
    if s.len() == 0 {
        spec_hex(tok)
    } else if s[0] == 0x20 {
        join(spec_hex(tok), decode_tokens(s.drop_first(), Seq::empty()))
    } else {
        decode_tokens(s.drop_first(), tok.push(s[0]))
    }
}

/// The bytes a listing line holds: trimmed, cut at the comment, split on
/// single spaces (so a double space is an empty token, which decodes to
/// nothing), each token hex-decoded.
pub open spec fn spec_line_program(line: Seq<u8>) -> Option<Seq<u8>> {
    let content = before_comment(trim_end(trim_start(line)));
    if content.len() == 0 { Some(Seq::empty()) } else { decode_tokens(content, Seq::empty()) }
}

/// The bytes of a whole listing, line after line.
pub open spec fn spec_listing_program(lines: Seq<Seq<u8>>) -> Option<Seq<u8>>
    decreases lines.len(),
{
    if lines.len() == 0 {
        Some(Seq::empty())
    } else {
        join(spec_listing_program(lines.drop_last()), spec_line_program(lines.last()))
    }
}

proof fn lemma_join_assoc(a: Seq<u8>, b: Option<Seq<u8>>, c: Option<Seq<u8>>)
    ensures
        join(Some(a), join(b, c)) == join(join(Some(a), b), c),
{
    match (b, c) {
        (Some(x), Some(y)) => {
            assert(a + (x + y) =~= (a + x) + y);
        },
        _ => {},
    }
}

/// The bytes of one listing line.
pub fn decode_listing_line(line: &str) -> (r: Result<Vec<u8>, LoadError>)
    ensures
        match spec_line_program(vstd::string::StringSliceAdditionalSpecFns::spec_bytes(line)) {
            Some(v) => r matches Ok(out) && out@ == v,
            None => r == Err::<Vec<u8>, LoadError>(LoadError::InvalidHex),
        },
{
    let b = line.as_bytes();
    let ghost s = b@;
    let len = b.len();
    // Leading white space.
    assert(s.subrange(0, len as int) =~= s);
    let mut start: usize = 0;
    loop
        invariant
            s == b@,
            len == s.len(),
            start <= len,
            trim_start(s) == trim_start(s.subrange(start as int, len as int)),
        ensures
            start <= len,
            trim_start(s) == s.subrange(start as int, len as int),
        decreases len - start,
    {
        let k = ws_prefix_at(b, start, len);
        if k == 0 {
            break;
        }
        assert(s.subrange(start as int, len as int).subrange(k as int, len - start) =~= s.subrange(start + k, len as int));
        start = start + k;
    }
    let ghost t = s.subrange(start as int, len as int);
    // Trailing white space.
    let mut end: usize = len;
    loop
        invariant
            s == b@,
            len == s.len(),
            start <= end <= len,
            t == s.subrange(start as int, len as int),
            trim_end(t) == trim_end(s.subrange(start as int, end as int)),
        ensures
            start <= end <= len,
            trim_end(t) == s.subrange(start as int, end as int),
        decreases end - start,
    {
        let k = ws_suffix_at(b, start, end);
        if k == 0 {
            break;
        }
        assert(s.subrange(start as int, end as int).subrange(0, (end - start) - k) =~= s.subrange(start as int, end - k));
        end = end - k;
    }
    let ghost u = s.subrange(start as int, end as int);
    assert(trim_end(t) == u);
    // Cut at the comment.
    let mut cut: usize = start;
    while cut < end && b[cut] != 0x3B
        invariant
            s == b@,
            start <= cut <= end <= len,
            len == s.len(),
            u == s.subrange(start as int, end as int),
            before_comment(u) =~= s.subrange(start as int, cut as int) + before_comment(s.subrange(cut as int, end as int)),
        decreases end - cut,
    {
        assert(s.subrange(cut as int, end as int).drop_first() =~= s.subrange(cut + 1, end as int));
        assert(s.subrange(start as int, cut + 1) =~= s.subrange(start as int, cut as int) + seq![s[cut as int]]);
        cut = cut + 1;
    }
    let ghost c = s.subrange(start as int, cut as int);
    assert(before_comment(s.subrange(cut as int, end as int)) =~= Seq::<u8>::empty());
    assert(before_comment(u) =~= c);
    let mut out: Vec<u8> = Vec::new();
    if cut == start {
        return Ok(out);
    }
    // Tokens.
    assert(spec_line_program(s) == decode_tokens(c, Seq::empty()));
    assert(s.subrange(start as int, cut as int) == c);
    let mut tok: Vec<u8> = Vec::new();
    let mut i: usize = start;
    while i < cut
        invariant
            s == b@,
            s == vstd::string::StringSliceAdditionalSpecFns::spec_bytes(line),
            start <= i <= cut <= len,
            len == s.len(),
            c == s.subrange(start as int, cut as int),
            spec_line_program(s) == decode_tokens(c, Seq::empty()),
            decode_tokens(c, Seq::empty()) == join(Some(out@), decode_tokens(s.subrange(i as int, cut as int), tok@)),
        decreases cut - i,
    {
        let ghost rest = s.subrange(i as int, cut as int);
        assert(rest.drop_first() =~= s.subrange(i + 1, cut as int));
        if b[i] == 0x20 {
            assert(decode_tokens(rest, tok@) == join(spec_hex(tok@), decode_tokens(rest.drop_first(), Seq::empty())));
            match hex_decode(tok.as_slice()) {
                Ok(v) => {
                    proof {
                        lemma_join_assoc(out@, Some(v@), decode_tokens(s.subrange(i + 1, cut as int), Seq::empty()));
                    }
                    let mut v = v;
                    out.append(&mut v);
                    tok = Vec::new();
                },
                Err(_) => {
                    return Err(LoadError::InvalidHex);
                },
            }
        } else {
            tok.push(b[i]);
        }
        i = i + 1;
    }
    assert(s.subrange(cut as int, cut as int) =~= Seq::<u8>::empty());
    match hex_decode(tok.as_slice()) {
        Ok(v) => {
            let mut v = v;
            out.append(&mut v);
            Ok(out)
        },
        Err(_) => Err(LoadError::InvalidHex),
    }
}

/// The bytes of a whole listing, its lines in order.
pub fn decode_listing(lines: &Vec<String>) -> (r: Result<Vec<u8>, LoadError>)
    ensures
        match spec_listing_program(lines@.map_values(|l: String| vstd::utf8::encode_utf8(l@))) {
            Some(v) => r matches Ok(out) && out@ == v,
            None => r == Err::<Vec<u8>, LoadError>(LoadError::InvalidHex),
        },
{
    let ghost ls = lines@.map_values(|l: String| vstd::utf8::encode_utf8(l@));
    let mut out: Vec<u8> = Vec::new();
    let mut i: usize = 0;
    while i < lines.len()
        invariant
            i <= lines@.len(),
            ls == lines@.map_values(|l: String| vstd::utf8::encode_utf8(l@)),
            spec_listing_program(ls.subrange(0, i as int)) == Some(out@),
        decreases lines@.len() - i,
    {
        let line = lines[i].as_str();
        let ghost pre = ls.subrange(0, i as int);
        assert(ls.subrange(0, i + 1).drop_last() =~= pre);
        assert(ls.subrange(0, i + 1).last() == vstd::string::StringSliceAdditionalSpecFns::spec_bytes(line));
        match decode_listing_line(line) {
            Ok(v) => {
                let mut v = v;
                out.append(&mut v);
            },
            Err(e) => {
                proof {
                    lemma_listing_none(ls, i as int);
                }
                return Err(e);
            },
        }
        i = i + 1;
    }
    assert(ls.subrange(0, lines@.len() as int) =~= ls);
    Ok(out)
}

/// A line that does not decode spoils the whole listing.
proof fn lemma_listing_none(ls: Seq<Seq<u8>>, i: int)
    requires
        0 <= i < ls.len(),
        spec_line_program(ls[i]) is None,
    ensures
        spec_listing_program(ls) is None,
    decreases ls.len(),
{
    if i == ls.len() - 1 {
    } else {
        lemma_listing_none(ls.drop_last(), i);
    }
}

} // verus!
