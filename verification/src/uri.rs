//! Conversion between local paths and `file:` URIs.
//!
//! Only the `file:` scheme is handled, and there is no host name. Every byte of the path is
//! percent-encoded except RFC 3986 unreserved characters, `/` and `:`. Paths are POSIX paths
//! given as text.

use vstd::prelude::*;
use vstd::utf8::{decode_utf8, encode_scalar, encode_utf8, encode_utf8_decode_utf8, encode_utf8_valid_utf8, is_ascii_chars, is_ascii_chars_encode_utf8, is_continuation_byte, valid_utf8};
use vstd::string::StringSliceAdditionalSpecFns;

use crate::text::{push_char, starts, strip_prefix, char_from_ascii};

verus! {

/// RFC 3986 unreserved: ASCII letters and digits, `-`, `.`, `_`, `~`.
pub open spec fn unreserved(b: u8) -> bool {
    ||| 0x30 <= b <= 0x39
    ||| 0x41 <= b <= 0x5a
    ||| 0x61 <= b <= 0x7a
    ||| b == 0x2d
    ||| b == 0x2e
    ||| b == 0x5f
    ||| b == 0x7e
}

/// Whether a byte is RFC 3986 unreserved.
pub fn is_unreserved(b: u8) -> (r: bool)
    ensures
        r == unreserved(b),
{
    (0x30 <= b && b <= 0x39) || (0x41 <= b && b <= 0x5a) || (0x61 <= b && b <= 0x7a) || b == 0x2d
        || b == 0x2e || b == 0x5f || b == 0x7e
}

/// The upper-case hexadecimal digit of a value below 16.
pub open spec fn hex_upper(v: u8) -> char {
    if v < 10 {
        (('0' as u8) + v) as char
    } else {
        (('A' as u8) + v - 10) as char
    }
}

/// How one byte of a path appears in a URI.
pub open spec fn encode_byte(b: u8) -> Seq<char> {
    if unreserved(b) || b == 0x2f || b == 0x3a {
        seq![b as char]
    } else {
        seq!['%', hex_upper(b / 16), hex_upper(b % 16)]
    }
}

/// How the bytes of a path appear in a URI.
pub open spec fn encode_bytes(bs: Seq<u8>) -> Seq<char>
    decreases bs.len(),
{
    if bs.len() == 0 {
        Seq::empty()
    } else {
        encode_bytes(bs.drop_last()) + encode_byte(bs.last())
    }
}

/// The URI of a path: `file://`, a `/` when the path does not start with one, and the
/// encoded bytes.
pub open spec fn uri_of(path: Seq<char>) -> Seq<char> {
    "file://"@ + (if starts(path, "/"@) { Seq::empty() } else { seq!['/'] }) + encode_bytes(vstd::utf8::encode_utf8(path))
}

fn hex_digit(v: u8) -> (r: char)
    requires
        v < 16,
    ensures
        r == hex_upper(v),
{
    if v < 10 {
        char_from_ascii(48 + v)
    } else {
        char_from_ascii(65 + v - 10)
    }
}

/// Turns a path into a `file:` URI.
pub fn path_to_uri(path: &str) -> (r: String)
    ensures
        r@ == uri_of(path@),
{
    proof {
        reveal_strlit("file://");
        reveal_strlit("/");
    }
    let mut out = "file://".to_owned();
    if !crate::text::starts_with(path, "/") {
        push_char(&mut out, '/');
    }
    let ghost head = out@;
    let bytes = path.as_bytes();
    let mut i: usize = 0;
    while i < bytes.len()
        invariant
            i <= bytes@.len(),
            bytes@ == vstd::utf8::encode_utf8(path@),
            out@ == head + encode_bytes(bytes@.take(i as int)),
        decreases bytes@.len() - i,
    {
        let b = bytes[i];
        let ghost before = out@;
        if is_unreserved(b) || b == 0x2f || b == 0x3a {
            push_char(&mut out, char_from_ascii_or_byte(b));
        } else {
            push_char(&mut out, '%');
            push_char(&mut out, hex_digit(b / 16));
            push_char(&mut out, hex_digit(b % 16));
        }
        assert(bytes@.take(i + 1).drop_last() =~= bytes@.take(i as int));
        assert(out@ =~= head + encode_bytes(bytes@.take(i + 1)));
        i = i + 1;
    }
    assert(bytes@.take(bytes@.len() as int) =~= bytes@);
    out
}

/// The character of a byte that is unreserved, `/` or `:`.
fn char_from_ascii_or_byte(b: u8) -> (r: char)
    requires
        unreserved(b) || b == 0x2f || b == 0x3a,
    ensures
        r == b as char,
{
    char_from_ascii(b)
}

/// The value of a hexadecimal digit byte.
pub open spec fn hex_value(b: u8) -> Option<u8> {
    if 0x30 <= b <= 0x39 {
        Some((b - 0x30) as u8)
    } else if 0x41 <= b <= 0x46 {
        Some((b - 0x41 + 10) as u8)
    } else if 0x61 <= b <= 0x66 {
        Some((b - 0x61 + 10) as u8)
    } else {
        None
    }
}

/// What `u8::from_str_radix(.., 16)` reads from the two bytes after a `%`: two hexadecimal
/// digits, or `+` and one digit.
pub open spec fn hex_pair(x: u8, y: u8) -> Option<u8> {
    if x == 0x2b {
        hex_value(y)
    } else {
        match (hex_value(x), hex_value(y)) {
            (Some(a), Some(b)) => Some((a * 16 + b) as u8),
            _ => None,
        }
    }
}

/// Whether the text after each `%` can be cut out as a two-byte string: the byte three
/// places after a `%` does not continue a multi-byte character.
pub open spec fn percent_cuttable(bs: Seq<u8>) -> bool {
    forall|i: int| 0 <= i && i + 3 < bs.len() && #[trigger] bs[i] == 0x25 ==> !is_continuation_byte(bs[i + 3])
}

/// The bytes of a percent-encoded text from position `i` on, decoded: `%` and two hexadecimal
/// digits stand for one byte; every other byte stands for itself.
pub open spec fn decode_from(bs: Seq<u8>, i: int) -> Seq<u8>
    decreases bs.len() - i,
{
    if i < 0 || i >= bs.len() {
        Seq::empty()
    } else if bs[i] == 0x25 && i + 2 < bs.len() && hex_pair(bs[i + 1], bs[i + 2]) is Some {
        seq![hex_pair(bs[i + 1], bs[i + 2])->0] + decode_from(bs, i + 3)
    } else {
        seq![bs[i]] + decode_from(bs, i + 1)
    }
}

/// What `String::from_utf8_lossy` makes of bytes.
pub uninterp spec fn utf8_lossy(bs: Seq<u8>) -> Seq<char>;

/// `String::from_utf8_lossy`: invalid sequences become U+FFFD; valid UTF-8 is decoded as it is.
#[verifier::external_body]
fn from_utf8_lossy(bs: &[u8]) -> (r: String)
    ensures
        r@ == utf8_lossy(bs@),
        valid_utf8(bs@) ==> r@ == decode_utf8(bs@),
{
    String::from_utf8_lossy(bs).into_owned()
}

fn hex_byte(b: u8) -> (r: Option<u8>)
    ensures
        r == hex_value(b),
{
    if 0x30 <= b && b <= 0x39 {
        Some(b - 0x30)
    } else if 0x41 <= b && b <= 0x46 {
        Some(b - 0x41 + 10)
    } else if 0x61 <= b && b <= 0x66 {
        Some(b - 0x61 + 10)
    } else {
        None
    }
}

fn hex_pair_of(x: u8, y: u8) -> (r: Option<u8>)
    ensures
        r == hex_pair(x, y),
{
    if x == 0x2b {
        hex_byte(y)
    } else {
        match (hex_byte(x), hex_byte(y)) {
            (Some(a), Some(b)) => Some(a * 16 + b),
            _ => None,
        }
    }
}

/// Decodes `%XX` escapes, then reads the bytes as UTF-8 (lossily).
pub fn percent_decode(text: &str) -> (r: String)
    requires
        percent_cuttable(text.spec_bytes()),
    ensures
        r@ == utf8_lossy(decode_from(text.spec_bytes(), 0)),
        valid_utf8(decode_from(text.spec_bytes(), 0)) ==> r@ == decode_utf8(decode_from(text.spec_bytes(), 0)),
{
    let bytes = text.as_bytes();
    let mut out: Vec<u8> = Vec::new();
    let mut i: usize = 0;
    while i < bytes.len()
        invariant
            i <= bytes@.len(),
            bytes@ == text.spec_bytes(),
            decode_from(bytes@, 0) == out@ + decode_from(bytes@, i as int),
        decreases bytes@.len() - i,
    {
        if bytes[i] == 0x25 && bytes.len() - i > 2 {
            if let Some(v) = hex_pair_of(bytes[i + 1], bytes[i + 2]) {
                out.push(v);
                i = i + 3;
                assert(decode_from(bytes@, 0) == out@ + decode_from(bytes@, i as int));
                continue;
            }
        }
        out.push(bytes[i]);
        i = i + 1;
    }
    from_utf8_lossy(out.as_slice())
}

/// The path a `file://` URI points to. Only `file:///path` (no host) and the bare `file://`
/// are read.
pub open spec fn path_part(uri: Seq<char>) -> Option<Seq<char>> {
    if !starts(uri, "file://"@) {
        None
    } else {
        let rest = uri.skip(7);
        if starts(rest, "/"@) {
            Some(rest)
        } else if rest.len() == 0 {
            Some(Seq::empty())
        } else {
            None
        }
    }
}

/// Whether a text can be percent-decoded (see [`percent_cuttable`]).
pub fn is_percent_cuttable(text: &str) -> (r: bool)
    ensures
        r == percent_cuttable(text.spec_bytes()),
{
    let bytes = text.as_bytes();
    let mut i: usize = 0;
    while i < bytes.len()
        invariant
            i <= bytes@.len(),
            bytes@ == text.spec_bytes(),
            forall|j: int| 0 <= j < i && j + 3 < bytes@.len() && #[trigger] bytes@[j] == 0x25 ==> !is_continuation_byte(bytes@[j + 3]),
        decreases bytes@.len() - i,
    {
        if bytes[i] == 0x25 && bytes.len() - i > 3 && 0x80 <= bytes[i + 3] && bytes[i + 3] <= 0xbf {
            return false;
        }
        i = i + 1;
    }
    true
}

/// The path of a `file:` URI whose `%` escapes can be cut out; `None` for other schemes, a
/// URI with a host, and a URI with an escape that cuts into a multi-byte character.
pub open spec fn checked_path(uri: Seq<char>) -> Option<Seq<char>> {
    match path_part(uri) {
        Some(p) => if percent_cuttable(vstd::utf8::encode_utf8(p)) {
            Some(utf8_lossy(decode_from(vstd::utf8::encode_utf8(p), 0)))
        } else {
            None
        },
        None => None,
    }
}

/// Turns a `file:` URI into a path. Other schemes, a URI with a host, and a URI with a `%`
/// escape that cuts into a multi-byte character (a form that cannot be read) give `None`.
pub fn uri_to_path(uri: &str) -> (r: Option<String>)
    ensures
        match r {
            Some(p) => checked_path(uri@) == Some(p@)
                && (valid_utf8(decode_from(vstd::utf8::encode_utf8(path_part(uri@)->0), 0))
                    ==> p@ == decode_utf8(decode_from(vstd::utf8::encode_utf8(path_part(uri@)->0), 0))),
            None => checked_path(uri@) is None,
        },
{
    proof {
        reveal_strlit("file://");
        reveal_strlit("/");
    }
    let rest = match strip_prefix(uri, "file://") {
        Some(r) => r,
        None => return None,
    };
    if !(crate::text::starts_with(rest.as_str(), "/") || rest.as_str().is_empty()) {
        return None;
    }
    if !is_percent_cuttable(rest.as_str()) {
        return None;
    }
    Some(percent_decode(rest.as_str()))
}

/// The bytes of an ASCII text.
pub open spec fn ascii_bytes(cs: Seq<char>) -> Seq<u8> {
    Seq::new(cs.len(), |i: int| cs[i] as u8)
}

proof fn lemma_encode_byte_ascii(b: u8)
    ensures
        is_ascii_chars(encode_byte(b)),
        encode_byte(b).len() > 0,
        decode_from(ascii_bytes(encode_byte(b)), 0) == seq![b],
        forall|t: Seq<u8>| #[trigger] decode_from(ascii_bytes(encode_byte(b)) + t, 0) == seq![b] + decode_from(t, 0),
{
    let e = encode_byte(b);
    if unreserved(b) || b == 0x2f || b == 0x3a {
        assert(ascii_bytes(e) =~= seq![b]);
        assert forall|t: Seq<u8>| #[trigger] decode_from(ascii_bytes(encode_byte(b)) + t, 0) == seq![b] + decode_from(t, 0) by {
            let s = seq![b] + t;
            assert(ascii_bytes(encode_byte(b)) + t =~= s);
            lemma_decode_shift(s, 1);
            assert(s.skip(1) =~= t);
        }
        lemma_decode_shift(seq![b], 1);
        assert(seq![b].skip(1) =~= Seq::<u8>::empty());
    } else {
        let hi = b / 16;
        let lo = b % 16;
        let h = hex_upper(hi) as u8;
        let l = hex_upper(lo) as u8;
        assert(hex_value(h) == Some(hi));
        assert(hex_value(l) == Some(lo));
        assert(h != 0x2b);
        assert(hi * 16 + lo == b);
        assert(hex_pair(h, l) == Some(b));
        assert(ascii_bytes(e) =~= seq![0x25u8, h, l]);
        assert forall|t: Seq<u8>| #[trigger] decode_from(ascii_bytes(encode_byte(b)) + t, 0) == seq![b] + decode_from(t, 0) by {
            let s = seq![0x25u8, h, l] + t;
            assert(ascii_bytes(encode_byte(b)) + t =~= s);
            assert(s[0] == 0x25 && s[1] == h && s[2] == l);
            lemma_decode_shift(s, 3);
            assert(s.skip(3) =~= t);
        }
        let s0 = seq![0x25u8, h, l];
        assert(s0[0] == 0x25 && s0[1] == h && s0[2] == l);
        lemma_decode_shift(s0, 3);
        assert(s0.skip(3) =~= Seq::<u8>::empty());
    }
}

/// Decoding from a position is decoding what follows it.
proof fn lemma_decode_shift(s: Seq<u8>, i: int)
    requires
        0 <= i <= s.len(),
    ensures
        decode_from(s, i) == decode_from(s.skip(i), 0),
    decreases s.len() - i,
{
    let t = s.skip(i);
    if i < s.len() {
        assert(t[0] == s[i]);
        if t.len() > 2 {
            assert(t[1] == s[i + 1] && t[2] == s[i + 2]);
        }
        if s[i] == 0x25 && i + 2 < s.len() && hex_pair(s[i + 1], s[i + 2]) is Some {
            lemma_decode_shift(s, i + 3);
            lemma_decode_shift(t, 3);
            assert(t.skip(3) =~= s.skip(i + 3));
        } else {
            lemma_decode_shift(s, i + 1);
            lemma_decode_shift(t, 1);
            assert(t.skip(1) =~= s.skip(i + 1));
        }
    }
}

/// An encoded path decodes to its bytes, whatever follows it.
proof fn lemma_decode_encoded(bs: Seq<u8>, t: Seq<u8>)
    ensures
        is_ascii_chars(encode_bytes(bs)),
        decode_from(ascii_bytes(encode_bytes(bs)) + t, 0) == bs + decode_from(t, 0),
    decreases bs.len(),
{
    if bs.len() == 0 {
        assert(ascii_bytes(encode_bytes(bs)) + t =~= t);
        assert(bs + decode_from(t, 0) =~= decode_from(t, 0));
    } else {
        let init = bs.drop_last();
        let b = bs.last();
        lemma_encode_byte_ascii(b);
        let tail = ascii_bytes(encode_byte(b)) + t;
        lemma_decode_encoded(init, tail);
        assert(ascii_bytes(encode_bytes(bs)) =~= ascii_bytes(encode_bytes(init)) + ascii_bytes(encode_byte(b)));
        assert(ascii_bytes(encode_bytes(bs)) + t =~= ascii_bytes(encode_bytes(init)) + tail);
        assert(decode_from(tail, 0) == seq![b] + decode_from(t, 0));
        assert(init + (seq![b] + decode_from(t, 0)) =~= bs + decode_from(t, 0));
        assert forall|k: int| 0 <= k < encode_bytes(bs).len() implies '\0' <= #[trigger] encode_bytes(bs)[k] <= '\u{7f}' by {
            let n = encode_bytes(init).len();
            if k < n {
                assert(encode_bytes(bs)[k] == encode_bytes(init)[k]);
            } else {
                assert(encode_bytes(bs)[k] == encode_byte(b)[k - n]);
            }
        }
    }
}

/// The first encoded character of a path that starts with `/` is `/`.
proof fn lemma_encode_starts_with_slash(bs: Seq<u8>)
    requires
        bs.len() > 0,
        bs[0] == 0x2f,
    ensures
        encode_bytes(bs).len() > 0,
        encode_bytes(bs)[0] == '/',
    decreases bs.len(),
{
    if bs.len() == 1 {
        assert(bs.drop_last() =~= Seq::<u8>::empty());
        assert(encode_bytes(bs.drop_last()) =~= Seq::<char>::empty());
        assert(bs.last() == 0x2f);
        assert(Seq::<char>::empty() + encode_byte(0x2f) =~= encode_byte(0x2f));
        assert(encode_bytes(bs) =~= encode_byte(0x2f));
    } else {
        lemma_encode_starts_with_slash(bs.drop_last());
        lemma_encode_byte_ascii(bs.last());
    }
}

/// The URI of a path that starts with `/` reads back as the path: its path part is the
/// encoded bytes, whose escapes can be cut out; they percent-decode to the path's bytes, which
/// are valid UTF-8 and decode to the path itself.
pub proof fn law_uri_round_trip(p: Seq<char>)
    requires
        starts(p, "/"@),
    ensures
        path_part(uri_of(p)) == Some(encode_bytes(encode_utf8(p))),
        percent_cuttable(encode_utf8(encode_bytes(encode_utf8(p)))),
        decode_from(encode_utf8(encode_bytes(encode_utf8(p))), 0) == encode_utf8(p),
        valid_utf8(decode_from(encode_utf8(encode_bytes(encode_utf8(p))), 0)),
        decode_utf8(decode_from(encode_utf8(encode_bytes(encode_utf8(p))), 0)) == p,
        encode_bytes(encode_utf8(p)).len() > 0 && encode_bytes(encode_utf8(p))[0] == '/',
{
    reveal_strlit("/");
    reveal_strlit("file://");
    assert("/"@ =~= seq!['/']);
    let bs = encode_utf8(p);
    let q = encode_bytes(bs);
    assert(p[0] == '/') by {
        assert(p.subrange(0, 1)[0] == p[0]);
    }
    assert(bs =~= seq![0x2fu8] + encode_utf8(p.drop_first())) by {
        assert(('/' as u32) == 0x2f);
        assert((0x2fu32 & 0x7F) as u8 == 0x2f) by (bit_vector);
        assert(encode_scalar('/' as u32) =~= seq![0x2fu8]);
    }
    lemma_encode_starts_with_slash(bs);
    lemma_decode_encoded(bs, Seq::empty());
    is_ascii_chars_encode_utf8(q);
    assert(encode_utf8(q) =~= ascii_bytes(q));
    assert(ascii_bytes(q) + Seq::<u8>::empty() =~= ascii_bytes(q));
    assert(bs + decode_from(Seq::<u8>::empty(), 0) =~= bs);
    let uri = uri_of(p);
    assert(uri =~= "file://"@ + q);
    assert(uri.skip(7) =~= q);
    assert(uri.subrange(0, 7) =~= "file://"@);
    assert(q.subrange(0, 1) =~= "/"@);
    assert forall|i: int| 0 <= i && i + 3 < encode_utf8(q).len() && #[trigger] encode_utf8(q)[i] == 0x25 implies !is_continuation_byte(encode_utf8(q)[i + 3]) by {
        assert(encode_utf8(q)[i + 3] == q[i + 3] as u8);
    }
    encode_utf8_valid_utf8(p);
    encode_utf8_decode_utf8(p);
}

/// A character a URI may carry as it is: unreserved, `/` or `:`.
pub open spec fn uri_safe(c: char) -> bool {
    ||| '0' <= c <= '9'
    ||| 'A' <= c <= 'Z'
    ||| 'a' <= c <= 'z'
    ||| c == '-' || c == '.' || c == '_' || c == '~' || c == '/' || c == ':'
}

/// An upper-case hexadecimal digit.
pub open spec fn upper_hex(c: char) -> bool {
    '0' <= c <= '9' || 'A' <= c <= 'F'
}

/// Whether a text is made only of characters a URI carries as they are and of `%XX` escapes
/// with upper-case hexadecimal digits.
pub open spec fn well_escaped(s: Seq<char>) -> bool
    decreases s.len(),
{
    if s.len() == 0 {
        true
    } else if s[0] == '%' {
        s.len() >= 3 && upper_hex(s[1]) && upper_hex(s[2]) && well_escaped(s.skip(3))
    } else {
        uri_safe(s[0]) && well_escaped(s.drop_first())
    }
}

proof fn lemma_hex_upper(v: u8)
    requires
        v < 16,
    ensures
        upper_hex(hex_upper(v)),
{
}

proof fn lemma_well_escaped_concat(a: Seq<char>, b: Seq<char>)
    requires
        well_escaped(a),
        well_escaped(b),
    ensures
        well_escaped(a + b),
    decreases a.len(),
{
    if a.len() == 0 {
        assert(a + b =~= b);
    } else if a[0] == '%' {
        lemma_well_escaped_concat(a.skip(3), b);
        assert((a + b).skip(3) =~= a.skip(3) + b);
        assert((a + b)[1] == a[1] && (a + b)[2] == a[2]);
    } else {
        lemma_well_escaped_concat(a.drop_first(), b);
        assert((a + b).drop_first() =~= a.drop_first() + b);
    }
}

proof fn lemma_encode_byte_well_escaped(b: u8)
    ensures
        well_escaped(encode_byte(b)),
{
    let e = encode_byte(b);
    if unreserved(b) || b == 0x2f || b == 0x3a {
        assert(uri_safe(b as char));
        assert(b as char != '%');
        assert(e.drop_first() =~= Seq::<char>::empty());
        assert(well_escaped(e.drop_first()));
    } else {
        lemma_hex_upper(b / 16);
        lemma_hex_upper(b % 16);
        assert(e.skip(3) =~= Seq::<char>::empty());
        assert(e[0] == '%' && e[1] == hex_upper(b / 16) && e[2] == hex_upper(b % 16));
        assert(well_escaped(e.skip(3)));
    }
}

proof fn lemma_encode_bytes_well_escaped(bs: Seq<u8>)
    ensures
        well_escaped(encode_bytes(bs)),
    decreases bs.len(),
{
    if bs.len() > 0 {
        lemma_encode_bytes_well_escaped(bs.drop_last());
        lemma_encode_byte_well_escaped(bs.last());
        lemma_well_escaped_concat(encode_bytes(bs.drop_last()), encode_byte(bs.last()));
    }
}

/// The URI of an absolute path is `file://`, the path's first `/`, and then only characters a
/// URI carries as they are (unreserved, `/`, `:`) or `%XX` escapes with upper-case
/// hexadecimal digits.
pub proof fn law_uri_is_well_escaped(p: Seq<char>)
    requires
        starts(p, "/"@),
    ensures
        uri_of(p) == "file://"@ + encode_bytes(encode_utf8(p)),
        encode_bytes(encode_utf8(p)).len() > 0 && encode_bytes(encode_utf8(p))[0] == '/',
        well_escaped(encode_bytes(encode_utf8(p))),
{
    law_uri_round_trip(p);
    reveal_strlit("file://");
    reveal_strlit("/");
    assert(uri_of(p) =~= "file://"@ + encode_bytes(encode_utf8(p)));
    lemma_encode_bytes_well_escaped(encode_utf8(p));
}

} // verus!
