//! LSP `Content-Length` framing. A body is not interpreted; it is read and written as bytes.
//!
//! The header is a sequence of `name: value\r\n` lines ended by an empty `\r\n` line. Only
//! `Content-Length` (compared without regard to ASCII case) is used; every other header is
//! read and dropped. [`scan`] states what a sequence of header lines means.

use vstd::prelude::*;

use crate::decimal::{decimal, decimal_digits, parse_unsigned, parse_usize, lemma_decimal_roundtrip};
use crate::text::{ends, lower, split_first, split_once, str_eq, strip_suffix, to_lower, occurs_at, lemma_find_first};

verus! {

/// `std::io::Error`, carried through unread.
#[verifier::external_type_specification]
#[verifier::external_body]
pub struct ExIoError(std::io::Error);

/// Why a message could not be read.
#[derive(Debug)]
pub enum FramingError {
    /// The stream failed.
    Io(std::io::Error),
    /// A header line does not end with `\r\n`.
    MalformedHeaderLine(String),
    /// A header line has no `: ` separator.
    MalformedHeader(String),
    /// The header has no `Content-Length`.
    MissingContentLength,
    /// The `Content-Length` value is not a number.
    InvalidContentLength(String),
}

/// The body of one message.
#[derive(Debug, Clone, PartialEq, Eq)]
pub struct RawMessage {
    pub body: Vec<u8>,
}

/// What one header line is.
pub ghost enum LineClass {
    /// Not terminated by `\r\n`.
    BadLine(Seq<char>),
    /// No `: ` separator (the line's text without `\r\n`).
    BadHeader(Seq<char>),
    /// `Content-Length` with a value that is not a number (the value).
    BadLength(Seq<char>),
    /// The empty line that ends the header.
    End,
    /// `Content-Length` and its value.
    Length(usize),
    /// Any other header.
    Other,
}

/// The text of a line without its `\r\n`.
pub open spec fn line_text(line: Seq<char>) -> Seq<char> {
    line.take(line.len() - 2)
}

/// What one header line is.
pub open spec fn classify(line: Seq<char>) -> LineClass {
    if !ends(line, "\r\n"@) {
        LineClass::BadLine(line)
    } else if line_text(line).len() == 0 {
        LineClass::End
    } else {
        match split_first(line_text(line), ": "@) {
            None => LineClass::BadHeader(line_text(line)),
            Some((name, value)) => if lower(name) == "content-length"@ {
                match parse_unsigned(value, usize::MAX as nat) {
                    Some(n) => LineClass::Length(n as usize),
                    None => LineClass::BadLength(value),
                }
            } else {
                LineClass::Other
            },
        }
    }
}

/// Where reading the header lines leads.
pub ghost enum HeaderScan {
    /// The stream ended before the first byte of a header: a clean disconnect.
    Eof,
    /// The header is complete and its last `Content-Length` is this.
    Length(usize),
    /// The header is complete but names no `Content-Length`.
    Missing,
    /// A line that does not end with `\r\n`.
    BadLine(Seq<char>),
    /// The stream ended inside the header.
    Cut,
    /// A line without `: `.
    BadHeader(Seq<char>),
    /// A `Content-Length` that is not a number.
    BadLength(Seq<char>),
    /// More lines are needed.
    Open,
}

/// What the header lines `lines` mean, read in order from the start of a message
/// (`at_start`) with the `Content-Length` seen so far `length`. The lines after the first
/// that settles the outcome are not looked at.
pub open spec fn scan(lines: Seq<Seq<char>>, length: Option<usize>, at_start: bool) -> HeaderScan
    decreases lines.len(),
{
    if lines.len() == 0 {
        HeaderScan::Open
    } else if lines[0].len() == 0 {
        if at_start {
            HeaderScan::Eof
        } else {
            HeaderScan::Cut
        }
    } else {
        match classify(lines[0]) {
            LineClass::BadLine(l) => HeaderScan::BadLine(l),
            LineClass::BadHeader(t) => HeaderScan::BadHeader(t),
            LineClass::BadLength(v) => HeaderScan::BadLength(v),
            LineClass::End => match length {
                Some(n) => HeaderScan::Length(n),
                None => HeaderScan::Missing,
            },
            LineClass::Length(n) => scan(lines.drop_first(), Some(n), false),
            LineClass::Other => scan(lines.drop_first(), length, false),
        }
    }
}

/// Whether an error is the one `scan` ends in.
pub open spec fn error_matches(e: FramingError, s: HeaderScan) -> bool {
    match (e, s) {
        (FramingError::MalformedHeaderLine(l), HeaderScan::BadLine(m)) => l@ == m,
        (FramingError::MalformedHeader(l), HeaderScan::BadHeader(m)) => l@ == m,
        (FramingError::MissingContentLength, HeaderScan::Missing) => true,
        (FramingError::InvalidContentLength(v), HeaderScan::BadLength(m)) => v@ == m,
        _ => false,
    }
}

/// Reads one line including its `\n` (`BufRead::read_line`); empty at the end of the stream.
/// What comes back depends on the stream, so nothing is stated of it.
#[verifier::external_body]
fn read_line<R: std::io::BufRead>(reader: &mut R) -> (r: Result<String, std::io::Error>) {
    let mut line = String::new();
    reader.read_line(&mut line).map(|_| line)
}

/// Reads exactly `n` bytes (`Read::read_exact`).
#[verifier::external_body]
fn read_exact<R: std::io::BufRead>(reader: &mut R, n: usize) -> (r: Result<Vec<u8>, std::io::Error>)
    ensures
        r matches Ok(bytes) ==> bytes@.len() == n,
{
    let mut body = vec![0u8; n];
    reader.read_exact(&mut body).map(|_| body)
}

/// Writes all of `bytes` (`Write::write_all`).
#[verifier::external_body]
fn write_all<W: std::io::Write>(writer: &mut W, bytes: &[u8]) -> (r: Result<(), std::io::Error>) {
    writer.write_all(bytes)
}

/// Flushes the stream (`Write::flush`).
#[verifier::external_body]
fn flush<W: std::io::Write>(writer: &mut W) -> (r: Result<(), std::io::Error>) {
    writer.flush()
}

/// The error of a stream that ended too early (`io::Error::from(ErrorKind::UnexpectedEof)`).
/// Nothing in the library reads what is inside it.
#[verifier::external_body]
fn unexpected_eof() -> (r: std::io::Error) {
    std::io::Error::from(std::io::ErrorKind::UnexpectedEof)
}

/// What one header line is.
pub fn classify_line(line: &str) -> (r: Result<Option<Option<usize>>, FramingError>)
    ensures
        match r {
            Ok(None) => classify(line@) == LineClass::End,
            Ok(Some(Some(n))) => classify(line@) == LineClass::Length(n),
            Ok(Some(None)) => classify(line@) == LineClass::Other,
            Err(e) => match classify(line@) {
                LineClass::BadLine(l) => error_matches(e, HeaderScan::BadLine(l)),
                LineClass::BadHeader(t) => error_matches(e, HeaderScan::BadHeader(t)),
                LineClass::BadLength(v) => error_matches(e, HeaderScan::BadLength(v)),
                _ => false,
            },
        },
{
    let text = match strip_suffix(line, "\r\n") {
        Some(t) => t,
        None => return Err(FramingError::MalformedHeaderLine(line.to_owned())),
    };
    proof {
        reveal_strlit("\r\n");
    }
    assert(text@ == line_text(line@));
    if text.as_str().is_empty() {
        return Ok(None);
    }
    match split_once(text.as_str(), ": ") {
        None => Err(FramingError::MalformedHeader(text)),
        Some((name, value)) => {
            let lowered = to_lower(name.as_str());
            if str_eq(lowered.as_str(), "content-length") {
                match parse_usize(value.as_str()) {
                    Some(n) => Ok(Some(Some(n))),
                    None => Err(FramingError::InvalidContentLength(value)),
                }
            } else {
                Ok(Some(None))
            }
        },
    }
}

/// The most header lines one message may have. A bound far beyond any real header, so that
/// reading a header is a loop that ends.
pub const MAX_HEADER_LINES: usize = usize::MAX;

proof fn lemma_scan_step(before: Seq<Seq<char>>, line: Seq<char>, length: Option<usize>, at_start: bool)
    requires
        forall|rest: Seq<Seq<char>>| scan(before + rest, None, true) == scan(rest, length, at_start),
    ensures
        forall|rest: Seq<Seq<char>>| scan(before.push(line) + rest, None, true) == scan(seq![line] + rest, length, at_start),
{
    assert forall|rest: Seq<Seq<char>>| scan(before.push(line) + rest, None, true) == scan(seq![line] + rest, length, at_start) by {
        assert(before.push(line) + rest =~= before + (seq![line] + rest));
    }
}

proof fn lemma_scan_one(line: Seq<char>, rest: Seq<Seq<char>>, length: Option<usize>, at_start: bool)
    ensures
        (seq![line] + rest)[0] == line,
        (seq![line] + rest).drop_first() == rest,
{
    assert((seq![line] + rest).drop_first() =~= rest);
}

/// Reads the header and returns its `Content-Length`; `Ok(None)` when the stream ends before
/// the first byte of a header. The ghost value is the sequence of lines read.
fn read_header<R: std::io::BufRead>(reader: &mut R) -> (r: (Result<Option<usize>, FramingError>, Ghost<Seq<Seq<char>>>))
    ensures
        match r.0 {
            Ok(None) => scan(r.1@, None, true) == HeaderScan::Eof,
            Ok(Some(n)) => scan(r.1@, None, true) == HeaderScan::Length(n),
            Err(FramingError::Io(_)) => scan(r.1@, None, true) == HeaderScan::Open || scan(r.1@, None, true) == HeaderScan::Cut,
            Err(e) => error_matches(e, scan(r.1@, None, true)) || r.1@.len() >= MAX_HEADER_LINES,
        },
{
    let mut content_length: Option<usize> = None;
    let mut at_start = true;
    let mut count: usize = 0;
    let ghost mut lines: Seq<Seq<char>> = Seq::empty();
    assert forall|rest: Seq<Seq<char>>| scan(lines + rest, None, true) == scan(rest, content_length, at_start) by {
        assert(lines + rest =~= rest);
    }
    while count < MAX_HEADER_LINES
        invariant
            lines.len() == count,
            forall|rest: Seq<Seq<char>>| scan(lines + rest, None, true) == scan(rest, content_length, at_start),
        decreases MAX_HEADER_LINES - count,
    {
        let line = match read_line(reader) {
            Ok(l) => l,
            Err(e) => {
                assert(lines + Seq::<Seq<char>>::empty() =~= lines);
                assert(scan(lines + Seq::<Seq<char>>::empty(), None, true) == scan(Seq::<Seq<char>>::empty(), content_length, at_start));
                return (Err(FramingError::Io(e)), Ghost(lines));
            },
        };
        let ghost before = lines;
        let ghost old_length = content_length;
        let ghost old_start = at_start;
        proof {
            lemma_scan_step(before, line@, content_length, at_start);
            lines = lines.push(line@);
            lemma_scan_one(line@, Seq::empty(), content_length, at_start);
            assert(lines =~= lines + Seq::<Seq<char>>::empty());
        }
        if line.as_str().is_empty() {
            if at_start {
                return (Ok(None), Ghost(lines));
            }
            return (Err(FramingError::Io(unexpected_eof())), Ghost(lines));
        }
        at_start = false;
        match classify_line(line.as_str()) {
            Err(e) => return (Err(e), Ghost(lines)),
            Ok(None) => {
                return match content_length {
                    Some(n) => (Ok(Some(n)), Ghost(lines)),
                    None => (Err(FramingError::MissingContentLength), Ghost(lines)),
                };
            },
            Ok(Some(Some(n))) => {
                content_length = Some(n);
            },
            Ok(Some(None)) => {},
        }
        proof {
            assert forall|rest: Seq<Seq<char>>| scan(lines + rest, None, true) == scan(rest, content_length, at_start) by {
                lemma_scan_one(line@, rest, old_length, old_start);
            }
        }
        count = count + 1;
    }
    (Err(FramingError::MalformedHeaderLine(String::new())), Ghost(lines))
}

/// Whether `r` is what reading a message gives when the header lines read are `lines`: the
/// end of the stream before a header is `Ok(None)`; a complete header gives a body of its
/// last `Content-Length`; each malformed header is its own error; an I/O error comes only
/// while the header is still open, when the stream ends inside it, or while the body is read.
pub open spec fn message_read(lines: Seq<Seq<char>>, r: Result<Option<RawMessage>, FramingError>) -> bool {
    let outcome = scan(lines, None, true);
    match r {
        Ok(None) => outcome == HeaderScan::Eof,
        Ok(Some(m)) => outcome == HeaderScan::Length(m.body.len()),
        Err(FramingError::Io(_)) => outcome == HeaderScan::Open || outcome == HeaderScan::Cut || outcome is Length,
        Err(e) => error_matches(e, outcome) || lines.len() >= MAX_HEADER_LINES,
    }
}

/// Reads one message from the stream, and gives back the header lines read, in the order
/// `BufRead::read_line` returned them (the last one empty when the stream ended). The result
/// is the one those lines settle on: `Ok(None)` only when the first line read is empty (a
/// clean end), a body of exactly the last `Content-Length` read, or the error the first bad
/// line makes.
pub fn read_message_traced<R: std::io::BufRead>(reader: &mut R) -> (r: (Result<Option<RawMessage>, FramingError>, Ghost<Seq<Seq<char>>>))
    ensures
        message_read(r.1@, r.0),
{
    let (header, Ghost(lines)) = read_header(reader);
    match header {
        Ok(None) => (Ok(None), Ghost(lines)),
        Ok(Some(n)) => match read_exact(reader, n) {
            Ok(body) => (Ok(Some(RawMessage { body })), Ghost(lines)),
            Err(e) => (Err(FramingError::Io(e)), Ghost(lines)),
        },
        Err(e) => (Err(e), Ghost(lines)),
    }
}

/// Reads one message from the stream. `Ok(None)` on a clean end of the stream before a
/// header. The result is the one the header lines read settle on (see
/// [`read_message_traced`], which also gives those lines back).
pub fn read_message<R: std::io::BufRead>(reader: &mut R) -> (r: Result<Option<RawMessage>, FramingError>)
    ensures
        exists|lines: Seq<Seq<char>>| #[trigger] message_read(lines, r),
{
    let (r, Ghost(lines)) = read_message_traced(reader);
    assert(message_read(lines, r));
    r
}

/// The ASCII bytes of a text.
pub open spec fn ascii(s: Seq<char>) -> Seq<u8> {
    Seq::new(s.len(), |i: int| s[i] as u8)
}

/// The header line that announces a body of `n` bytes.
pub open spec fn length_line(n: nat) -> Seq<char> {
    "Content-Length: "@ + decimal(n) + "\r\n"@
}

/// The bytes of a framed message: its `Content-Length` header, the empty line, the body.
pub open spec fn framed(body: Seq<u8>) -> Seq<u8> {
    ascii(length_line(body.len()) + "\r\n"@) + body
}

/// Appends the ASCII bytes of `s` (each character as its low byte).
fn push_ascii(out: &mut Vec<u8>, s: &str)
    ensures
        final(out)@ == old(out)@ + ascii(s@),
{
    let cs = crate::text::chars_of(s);
    let mut i: usize = 0;
    while i < cs.len()
        invariant
            i <= cs@.len(),
            out@ == old(out)@ + ascii(cs@.take(i as int)),
        decreases cs@.len() - i,
    {
        out.push(cs[i] as u8);
        assert(ascii(cs@.take(i + 1)) =~= ascii(cs@.take(i as int)).push(cs@[i as int] as u8));
        i = i + 1;
    }
    assert(cs@.take(cs@.len() as int) =~= cs@);
}

/// The header of a body of `n` bytes.
fn header_bytes(n: usize) -> (r: Vec<u8>)
    ensures
        r@ == ascii(length_line(n as nat) + "\r\n"@),
{
    let mut out: Vec<u8> = Vec::new();
    push_ascii(&mut out, "Content-Length: ");
    let digits = decimal_digits(n);
    let mut i: usize = 0;
    let ghost head = out@;
    while i < digits.len()
        invariant
            i <= digits@.len(),
            out@ == head + digits@.take(i as int),
        decreases digits@.len() - i,
    {
        out.push(digits[i]);
        assert(digits@.take(i + 1) =~= digits@.take(i as int).push(digits@[i as int]));
        i = i + 1;
    }
    assert(digits@.take(digits@.len() as int) =~= digits@);
    push_ascii(&mut out, "\r\n\r\n");
    proof {
        reveal_strlit("\r\n\r\n");
        reveal_strlit("\r\n");
        let whole = length_line(n as nat) + "\r\n"@;
        assert(whole =~= "Content-Length: "@ + decimal(n as nat) + "\r\n\r\n"@);
        assert(digits@ =~= ascii(decimal(n as nat)));
        assert(out@ =~= ascii(whole));
    }
    out
}

/// The bytes `write_message` sends for a message.
pub fn frame(msg: &RawMessage) -> (r: Vec<u8>)
    ensures
        r@ == framed(msg.body@),
{
    let mut out = header_bytes(msg.body.len());
    let mut i: usize = 0;
    let ghost head = out@;
    while i < msg.body.len()
        invariant
            i <= msg.body@.len(),
            out@ == head + msg.body@.take(i as int),
        decreases msg.body@.len() - i,
    {
        out.push(msg.body[i]);
        assert(msg.body@.take(i + 1) =~= msg.body@.take(i as int).push(msg.body@[i as int]));
        i = i + 1;
    }
    assert(msg.body@.take(msg.body@.len() as int) =~= msg.body@);
    out
}

/// Writes one message: the `Content-Length` header computed from the body, the empty line,
/// the body; then flushes.
pub fn write_message<W: std::io::Write>(writer: &mut W, msg: &RawMessage) -> (r: Result<(), std::io::Error>) {
    let bytes = frame(msg);
    match write_all(writer, bytes.as_slice()) {
        Ok(()) => flush(writer),
        Err(e) => Err(e),
    }
}

proof fn lemma_end_line()
    ensures
        classify("\r\n"@) == LineClass::End,
{
    reveal_strlit("\r\n");
    assert("\r\n"@.subrange(0, 2) =~= "\r\n"@);
    assert(line_text("\r\n"@) =~= Seq::<char>::empty());
}

proof fn lemma_length_text_splits(n: nat)
    ensures
        split_first("Content-Length: "@ + decimal(n), ": "@) == Some(("Content-Length"@, decimal(n))),
{
    reveal_strlit("Content-Length: ");
    reveal_strlit("Content-Length");
    reveal_strlit(": ");
    let text = "Content-Length: "@ + decimal(n);
    assert forall|j: int| 0 <= j < 14 implies !occurs_at(text, ": "@, j) by {
        assert(text[j] == "Content-Length: "@[j]);
        if occurs_at(text, ": "@, j) {
            assert(text.subrange(j, j + 2)[0] == ':');
        }
    }
    assert(occurs_at(text, ": "@, 14)) by {
        assert(text.subrange(14, 16) =~= ": "@);
    }
    lemma_find_first(text, ": "@, 0, 14);
    assert(text.take(14) =~= "Content-Length"@);
    assert(text.skip(16) =~= decimal(n));
}

proof fn lemma_length_line(n: usize)
    ensures
        classify(length_line(n as nat)) == LineClass::Length(n),
{
    reveal_strlit("\r\n");
    reveal_strlit("Content-Length");
    reveal_strlit("content-length");
    let line = length_line(n as nat);
    assert(line.subrange(line.len() - 2, line.len() as int) =~= "\r\n"@);
    let text = line_text(line);
    assert(text =~= "Content-Length: "@ + decimal(n as nat));
    lemma_length_text_splits(n as nat);
    assert(lower("Content-Length"@) =~= "content-length"@);
    crate::decimal::lemma_parse_decimal(n as nat, usize::MAX as nat);
    lemma_decimal_roundtrip(n as nat);
    assert(text.len() > 0);
}

/// A header announcing a body of `n` bytes, followed by the empty line, reads back as `n`.
pub proof fn law_length_header_reads_back(n: usize)
    ensures
        scan(seq![length_line(n as nat), "\r\n"@], None, true) == HeaderScan::Length(n),
{
    lemma_length_line(n);
    lemma_end_line();
    reveal_strlit("\r\n");
    let lines = seq![length_line(n as nat), "\r\n"@];
    assert(length_line(n as nat).len() > 0);
    assert(lines.drop_first() =~= seq!["\r\n"@]);
    assert(seq!["\r\n"@].drop_first() =~= Seq::<Seq<char>>::empty());
    assert("\r\n"@.len() == 2);
    assert(scan(seq!["\r\n"@], Some(n), false) == HeaderScan::Length(n));
    assert(scan(lines, None, true) == scan(seq!["\r\n"@], Some(n), false));
}

} // verus!
