//! Reading the layout of a TypeScript workspace's configuration files (rule R1).
//!
//! tsserver searches only the projects it has loaded: the project of each opened file and the
//! projects reachable from a loaded solution. `textDocument/references` is therefore complete
//! over the whole workspace only when a single project already contains every source. Rule R1
//! deems a workspace folder complete only when all of the following hold:
//!
//! - exactly one `tsconfig.json` / `jsconfig.json` exists under the folder (`node_modules` and
//!   `.git` are skipped), and it sits at the folder root
//! - it has no `extends` (the inherited `exclude` or `allowJs` could narrow the project)
//! - its `files` / `include` / `exclude` contain every source file under the folder, with
//!   tsserver's own matching rules (a wildcard does not match a name starting with `.`)
//! - JavaScript sources exist only if the configuration makes `allowJs` effective
//!
//! Whatever the reader does not understand counts as incomplete: what is lost is only the
//! promise, never an answer. The folder itself is walked and the configuration read by the
//! caller ([`FolderListing`], [`config_to_read`]); everything decided from what was found is
//! here.

use vstd::prelude::*;

use crate::adapter::nextflow::texts;
use crate::text::{chars_of, char_is_space, ends, ends_with, is_space, push_char, starts_with, str_eq, str_in, string_of, trim, trim_str};
use vstd::utf8::encode_utf8;

verus! {

/// Where the comment stripping of a configuration text is.
#[derive(Debug, Clone, Copy, PartialEq, Eq, Structural)]
pub enum StripState {
    /// Outside strings and comments.
    Normal,
    /// Inside a string.
    InString,
    /// Inside a `//` comment.
    Line,
    /// Inside a `/* */` comment; whether the last character read was `*`.
    Block(bool),
}

/// The text with its comments taken out, from the state `st` on: a `//` comment keeps its
/// newline, a `/* */` comment becomes a space, strings are left alone. `None` when a block
/// comment never closes.
pub open spec fn strip_run(s: Seq<char>, st: StripState) -> Option<Seq<char>>
    decreases s.len(),
{
    if s.len() == 0 {
        if st is Block {
            None
        } else {
            Some(Seq::empty())
        }
    } else {
        let c = s[0];
        let r = s.drop_first();
        match st {
            StripState::Normal => if c == '"' {
                prepend(seq![c], strip_run(r, StripState::InString))
            } else if c == '/' && r.len() > 0 && r[0] == '/' {
                strip_run(r, StripState::Line)
            } else if c == '/' && r.len() > 0 && r[0] == '*' {
                strip_run(r.drop_first(), StripState::Block(false))
            } else {
                prepend(seq![c], strip_run(r, StripState::Normal))
            },
            StripState::InString => if c == '\\' && r.len() > 0 {
                prepend(seq![c, r[0]], strip_run(r.drop_first(), StripState::InString))
            } else if c == '"' {
                prepend(seq![c], strip_run(r, StripState::Normal))
            } else {
                prepend(seq![c], strip_run(r, StripState::InString))
            },
            StripState::Line => if c == '\n' {
                prepend(seq!['\n'], strip_run(r, StripState::Normal))
            } else {
                strip_run(r, StripState::Line)
            },
            StripState::Block(after_star) => if after_star && c == '/' {
                prepend(seq![' '], strip_run(r, StripState::Normal))
            } else {
                strip_run(r, StripState::Block(c == '*'))
            },
        }
    }
}

/// `head` before an optional text.
pub open spec fn prepend(head: Seq<char>, rest: Option<Seq<char>>) -> Option<Seq<char>> {
    match rest {
        Some(t) => Some(head + t),
        None => None,
    }
}

/// The first character of `s` that is not whitespace.
pub open spec fn next_non_space(s: Seq<char>) -> Option<char>
    decreases s.len(),
{
    if s.len() == 0 {
        None
    } else if is_space(s[0]) {
        next_non_space(s.drop_first())
    } else {
        Some(s[0])
    }
}

/// The text without the commas that are followed only by whitespace before `}` or `]`
/// (outside strings).
pub open spec fn drop_trailing_commas(s: Seq<char>, in_string: bool) -> Seq<char>
    decreases s.len(),
{
    if s.len() == 0 {
        Seq::empty()
    } else {
        let c = s[0];
        let r = s.drop_first();
        if in_string {
            if c == '\\' && r.len() > 0 {
                seq![c, r[0]] + drop_trailing_commas(r.drop_first(), true)
            } else if c == '"' {
                seq![c] + drop_trailing_commas(r, false)
            } else {
                seq![c] + drop_trailing_commas(r, true)
            }
        } else if c == '"' {
            seq![c] + drop_trailing_commas(r, true)
        } else if c == ',' && (next_non_space(r) == Some('}') || next_non_space(r) == Some(']')) {
            drop_trailing_commas(r, false)
        } else {
            seq![c] + drop_trailing_commas(r, false)
        }
    }
}

/// A configuration text made JSON: its comments and trailing commas taken out. `None` for a
/// block comment that never closes.
pub open spec fn jsonc_to_json(text: Seq<char>) -> Option<Seq<char>> {
    match strip_run(text, StripState::Normal) {
        Some(t) => Some(drop_trailing_commas(t, false)),
        None => None,
    }
}

proof fn lemma_prepend_step(before: Seq<char>, emitted: Seq<char>, out: Seq<char>, x: Option<Seq<char>>, y: Option<Seq<char>>)
    requires
        x == prepend(emitted, y),
        out == before + emitted,
    ensures
        prepend(before, x) == prepend(out, y),
{
    if let Some(t) = y {
        assert(before + (emitted + t) =~= out + t);
    }
}

/// Takes the comments out of a configuration text.
fn strip_comments(cs: &Vec<char>) -> (r: Option<String>)
    ensures
        match r {
            Some(t) => strip_run(cs@, StripState::Normal) == Some(t@),
            None => strip_run(cs@, StripState::Normal) is None,
        },
{
    let mut out = String::new();
    let mut st = StripState::Normal;
    let mut i: usize = 0;
    assert(cs@.skip(0) =~= cs@);
    assert(out@ =~= Seq::<char>::empty());
    while i < cs.len()
        invariant
            i <= cs@.len(),
            strip_run(cs@, StripState::Normal) == prepend(out@, strip_run(cs@.skip(i as int), st)),
        decreases cs@.len() - i,
    {
        let ghost s = cs@.skip(i as int);
        let ghost before = out@;
        let ghost st0 = st;
        let c = cs[i];
        assert(s[0] == c);
        assert(s.drop_first() =~= cs@.skip(i + 1));
        if i + 1 < cs.len() {
            assert(s.drop_first()[0] == cs@[i + 1]);
        }
        let ghost mut emitted: Seq<char> = Seq::empty();
        match st {
            StripState::Normal => {
                if c == '"' {
                    push_char(&mut out, c);
                    proof { emitted = seq![c]; }
                    st = StripState::InString;
                    i = i + 1;
                } else if c == '/' && i + 1 < cs.len() && cs[i + 1] == '/' {
                    st = StripState::Line;
                    i = i + 1;
                } else if c == '/' && i + 1 < cs.len() && cs[i + 1] == '*' {
                    assert(s.drop_first().drop_first() =~= cs@.skip(i + 2));
                    st = StripState::Block(false);
                    i = i + 2;
                } else {
                    push_char(&mut out, c);
                    proof { emitted = seq![c]; }
                    i = i + 1;
                }
            },
            StripState::InString => {
                if c == '\\' && i + 1 < cs.len() {
                    assert(s.drop_first().drop_first() =~= cs@.skip(i + 2));
                    push_char(&mut out, c);
                    push_char(&mut out, cs[i + 1]);
                    proof { emitted = seq![c, cs@[i + 1]]; }
                    i = i + 2;
                } else if c == '"' {
                    push_char(&mut out, c);
                    proof { emitted = seq![c]; }
                    st = StripState::Normal;
                    i = i + 1;
                } else {
                    push_char(&mut out, c);
                    proof { emitted = seq![c]; }
                    i = i + 1;
                }
            },
            StripState::Line => {
                if c == '\n' {
                    push_char(&mut out, '\n');
                    proof { emitted = seq!['\n']; }
                    st = StripState::Normal;
                }
                i = i + 1;
            },
            StripState::Block(after_star) => {
                if after_star && c == '/' {
                    push_char(&mut out, ' ');
                    proof { emitted = seq![' ']; }
                    st = StripState::Normal;
                } else {
                    st = StripState::Block(c == '*');
                }
                i = i + 1;
            },
        }
        proof {
            assert(out@ =~= before + emitted);
            if let Some(t) = strip_run(cs@.skip(i as int), st) {
                assert(Seq::<char>::empty() + t =~= t);
            }
            assert(strip_run(s, st0) == prepend(emitted, strip_run(cs@.skip(i as int), st)));
            lemma_prepend_step(before, emitted, out@, strip_run(s, st0), strip_run(cs@.skip(i as int), st));
        }
    }
    assert(cs@.skip(i as int) =~= Seq::<char>::empty());
    if let StripState::Block(_) = st {
        return None;
    }
    assert(out@ + Seq::<char>::empty() =~= out@);
    Some(out)
}

/// The first character from `i` on that is not whitespace.
fn next_non_space_from(cs: &Vec<char>, i: usize) -> (r: Option<char>)
    requires
        i <= cs@.len(),
    ensures
        r == next_non_space(cs@.skip(i as int)),
    decreases cs@.len() - i,
{
    if i == cs.len() {
        assert(cs@.skip(i as int) =~= Seq::<char>::empty());
        return None;
    }
    assert(cs@.skip(i as int).drop_first() =~= cs@.skip(i + 1));
    if char_is_space(cs[i]) {
        next_non_space_from(cs, i + 1)
    } else {
        Some(cs[i])
    }
}

/// Takes out the commas followed only by whitespace before `}` or `]`.
fn remove_trailing_commas(cs: &Vec<char>) -> (r: String)
    ensures
        r@ == drop_trailing_commas(cs@, false),
{
    let mut out = String::new();
    let mut in_string = false;
    let mut i: usize = 0;
    assert(cs@.skip(0) =~= cs@);
    assert(out@ =~= Seq::<char>::empty());
    while i < cs.len()
        invariant
            i <= cs@.len(),
            drop_trailing_commas(cs@, false) == out@ + drop_trailing_commas(cs@.skip(i as int), in_string),
        decreases cs@.len() - i,
    {
        let ghost s = cs@.skip(i as int);
        let ghost before = out@;
        let ghost was = in_string;
        let c = cs[i];
        assert(s[0] == c);
        assert(s.drop_first() =~= cs@.skip(i + 1));
        if i + 1 < cs.len() {
            assert(s.drop_first()[0] == cs@[i + 1]);
            assert(s.drop_first().drop_first() =~= cs@.skip(i + 2));
        }
        let ghost mut emitted: Seq<char> = Seq::empty();
        if in_string {
            if c == '\\' && i + 1 < cs.len() {
                push_char(&mut out, c);
                push_char(&mut out, cs[i + 1]);
                proof { emitted = seq![c, cs@[i + 1]]; }
                i = i + 2;
            } else {
                push_char(&mut out, c);
                proof { emitted = seq![c]; }
                if c == '"' {
                    in_string = false;
                }
                i = i + 1;
            }
        } else if c == '"' {
            push_char(&mut out, c);
            proof { emitted = seq![c]; }
            in_string = true;
            i = i + 1;
        } else if c == ',' {
            let next = next_non_space_from(cs, i + 1);
            if !(next == Some('}') || next == Some(']')) {
                push_char(&mut out, c);
                proof { emitted = seq![c]; }
            }
            i = i + 1;
        } else {
            push_char(&mut out, c);
            proof { emitted = seq![c]; }
            i = i + 1;
        }
        proof {
            assert(out@ =~= before + emitted);
            assert(drop_trailing_commas(s, was) == emitted + drop_trailing_commas(cs@.skip(i as int), in_string));
            assert(before + (emitted + drop_trailing_commas(cs@.skip(i as int), in_string)) =~= out@ + drop_trailing_commas(cs@.skip(i as int), in_string));
        }
    }
    assert(cs@.skip(i as int) =~= Seq::<char>::empty());
    assert(out@ + Seq::<char>::empty() =~= out@);
    out
}

/// Makes a configuration text JSON: its comments and trailing commas taken out. `None` for a
/// block comment that never closes.
pub fn strip_jsonc(text: &str) -> (r: Option<String>)
    ensures
        match r {
            Some(t) => jsonc_to_json(text@) == Some(t@),
            None => jsonc_to_json(text@) is None,
        },
{
    let cs = chars_of(text);
    let stripped = match strip_comments(&cs) {
        Some(t) => t,
        None => return None,
    };
    let ts = chars_of(stripped.as_str());
    Some(remove_trailing_commas(&ts))
}

/// A segment kept by [`path_segments`]: not empty and not `.`.
pub open spec fn kept(seg: Seq<char>) -> Seq<Seq<char>> {
    if seg.len() == 0 || seg == seq!['.'] {
        Seq::empty()
    } else {
        seq![seg]
    }
}

/// The segments of `s` split at `/`, after `cur` (the segment being read), without the empty
/// ones and `.`.
pub open spec fn segments_from(s: Seq<char>, cur: Seq<char>) -> Seq<Seq<char>>
    decreases s.len(),
{
    if s.len() == 0 {
        kept(cur)
    } else if s[0] == '/' {
        kept(cur) + segments_from(s.drop_first(), Seq::empty())
    } else {
        segments_from(s.drop_first(), cur.push(s[0]))
    }
}

/// The segments of a path written with `/`, without the empty ones and `.`.
pub open spec fn path_segments(s: Seq<char>) -> Seq<Seq<char>> {
    segments_from(s, Seq::empty())
}

/// The pieces of `s` split at `/` (`str::split('/')`), after `cur`.
pub open spec fn pieces_from(s: Seq<char>, cur: Seq<char>) -> Seq<Seq<char>>
    decreases s.len(),
{
    if s.len() == 0 {
        seq![cur]
    } else if s[0] == '/' {
        seq![cur] + pieces_from(s.drop_first(), Seq::empty())
    } else {
        pieces_from(s.drop_first(), cur.push(s[0]))
    }
}

/// `str::split('/')`.
pub open spec fn slash_pieces(s: Seq<char>) -> Seq<Seq<char>> {
    pieces_from(s, Seq::empty())
}

/// Splits at `/`, keeping every piece (`keep_all`) or only those [`kept`] names.
fn split_slashes(cs: &Vec<char>, keep_all: bool) -> (r: Vec<String>)
    ensures
        keep_all ==> texts(r@) == slash_pieces(cs@),
        !keep_all ==> texts(r@) == path_segments(cs@),
{
    let mut out: Vec<String> = Vec::new();
    let mut cur = String::new();
    let mut i: usize = 0;
    assert(cs@.skip(0) =~= cs@);
    assert(texts(out@) =~= Seq::<Seq<char>>::empty());
    assert(cur@ =~= Seq::<char>::empty());
    while i < cs.len()
        invariant
            i <= cs@.len(),
            keep_all ==> slash_pieces(cs@) == texts(out@) + pieces_from(cs@.skip(i as int), cur@),
            !keep_all ==> path_segments(cs@) == texts(out@) + segments_from(cs@.skip(i as int), cur@),
        decreases cs@.len() - i,
    {
        let ghost s = cs@.skip(i as int);
        let ghost before = texts(out@);
        let c = cs[i];
        assert(s[0] == c);
        assert(s.drop_first() =~= cs@.skip(i + 1));
        if c == '/' {
            let piece = cur;
            cur = String::new();
            assert(cur@ =~= Seq::<char>::empty());
            if keep_all || !(piece.as_str().is_empty() || is_dot(&piece)) {
                let ghost pv = piece@;
                out.push(piece);
                assert(texts(out@) =~= before + seq![pv]);
                proof {
                    if keep_all {
                        assert(before + (seq![pv] + pieces_from(s.drop_first(), cur@)) =~= texts(out@) + pieces_from(s.drop_first(), cur@));
                    } else {
                        assert(before + (seq![pv] + segments_from(s.drop_first(), cur@)) =~= texts(out@) + segments_from(s.drop_first(), cur@));
                    }
                }
            } else {
                assert(Seq::<Seq<char>>::empty() + segments_from(s.drop_first(), cur@) =~= segments_from(s.drop_first(), cur@));
            }
        } else {
            push_char(&mut cur, c);
        }
        i = i + 1;
    }
    assert(cs@.skip(i as int) =~= Seq::<char>::empty());
    let ghost before = texts(out@);
    if keep_all || !(cur.as_str().is_empty() || is_dot(&cur)) {
        let ghost pv = cur@;
        out.push(cur);
        assert(texts(out@) =~= before + seq![pv]);
    } else {
        assert(before + Seq::<Seq<char>>::empty() =~= before);
    }
    out
}

/// Whether a segment is `.`.
fn is_dot(s: &String) -> (r: bool)
    ensures
        r == (s@ == seq!['.']),
{
    proof {
        reveal_strlit(".");
        assert("."@ =~= seq!['.']);
    }
    str_eq(s.as_str(), ".")
}

/// Whether a segment has a wildcard.
pub open spec fn has_wildcard(seg: Seq<char>) -> bool {
    seg.contains('*') || seg.contains('?')
}

/// Whether `c` occurs in `s`.
fn has_char(s: &str, c: char) -> (r: bool)
    ensures
        r == s@.contains(c),
{
    let cs = chars_of(s);
    let mut i: usize = 0;
    while i < cs.len()
        invariant
            i <= cs@.len(),
            cs@ == s@,
            forall|k: int| 0 <= k < i ==> cs@[k] != c,
        decreases cs@.len() - i,
    {
        if cs[i] == c {
            return true;
        }
        i = i + 1;
    }
    false
}

/// A path pattern split into segments: `None` for a pattern this reader does not handle
/// (empty, absolute, with `..` or a backslash). A last segment without a wildcard or an
/// extension names a directory, and takes in everything under it.
pub open spec fn compile_model(p: Seq<char>) -> Option<Seq<Seq<char>>> {
    if p.len() == 0 || p[0] == '/' || p.contains('\\') {
        None
    } else {
        let segs = path_segments(p);
        if segs.len() == 0 || segs.contains(seq!['.', '.']) {
            None
        } else if !has_wildcard(segs.last()) && !segs.last().contains('.') {
            Some(segs + seq![seq!['*', '*'], seq!['*']])
        } else {
            Some(segs)
        }
    }
}

/// Compiles a path pattern.
fn compile(pattern: &str) -> (r: Option<Vec<String>>)
    ensures
        match r {
            Some(segs) => compile_model(pattern@) == Some(texts(segs@)),
            None => compile_model(pattern@) is None,
        },
{
    proof {
        reveal_strlit("..");
        reveal_strlit("**");
        reveal_strlit("*");
        assert(".."@ =~= seq!['.', '.']);
        assert("**"@ =~= seq!['*', '*']);
        assert("*"@ =~= seq!['*']);
    }
    let cs = chars_of(pattern);
    if cs.len() == 0 || cs[0] == '/' || has_char(pattern, '\\') {
        return None;
    }
    let mut segs = split_slashes(&cs, false);
    if segs.len() == 0 {
        return None;
    }
    let mut i: usize = 0;
    while i < segs.len()
        invariant
            i <= segs@.len(),
            forall|k: int| 0 <= k < i ==> texts(segs@)[k] != seq!['.', '.'],
            texts(segs@) == path_segments(pattern@),
            !(pattern@.len() == 0 || pattern@[0] == '/' || pattern@.contains('\\')),
        decreases segs@.len() - i,
    {
        proof {
            reveal_strlit("..");
            assert(".."@ =~= seq!['.', '.']);
        }
        if str_eq(segs[i].as_str(), "..") {
            assert(texts(segs@)[i as int] == seq!['.', '.']);
            assert(texts(segs@).contains(seq!['.', '.']));
            return None;
        }
        i = i + 1;
    }
    assert(!texts(segs@).contains(seq!['.', '.']));
    let last = segs.len() - 1;
    assert(texts(segs@).last() == segs@[last as int]@);
    let directory = !(has_char(segs[last].as_str(), '*') || has_char(segs[last].as_str(), '?')) && !has_char(segs[last].as_str(), '.');
    if directory {
        let ghost before = texts(segs@);
        segs.push("**".to_owned());
        segs.push("*".to_owned());
        assert(texts(segs@) =~= before + seq![seq!['*', '*'], seq!['*']]);
    }
    Some(segs)
}

/// Drops every leading `./`.
pub open spec fn strip_dot_slashes(s: Seq<char>) -> Seq<char>
    decreases s.len(),
{
    if s.len() >= 2 && s[0] == '.' && s[1] == '/' {
        strip_dot_slashes(s.skip(2))
    } else {
        s
    }
}

/// An entry of `files` / `include` / `exclude` as written: trimmed, without leading `./`.
pub open spec fn normalized(entry: Seq<char>) -> Seq<char> {
    strip_dot_slashes(trim(entry))
}

/// Normalizes an entry of `files` / `include` / `exclude`.
fn normalize_entry(entry: &str) -> (r: String)
    ensures
        r@ == normalized(entry@),
{
    let trimmed = trim_str(entry);
    let cs = chars_of(trimmed.as_str());
    let mut i: usize = 0;
    assert(cs@.skip(0) =~= cs@);
    while cs.len() - i >= 2 && cs[i] == '.' && cs[i + 1] == '/'
        invariant
            i <= cs@.len(),
            strip_dot_slashes(cs@) == strip_dot_slashes(cs@.skip(i as int)),
        decreases cs@.len() - i,
    {
        assert(cs@.skip(i as int).skip(2) =~= cs@.skip(i + 2));
        i = i + 2;
    }
    let rest = string_of(vstd::slice::slice_subrange(cs.as_slice(), i, cs.len()));
    assert(cs@.subrange(i as int, cs@.len() as int) =~= cs@.skip(i as int));
    rest
}

/// Whether a name matches a pattern byte by byte: `*` stands for any run of bytes, `?` for
/// one byte.
pub open spec fn wildcard(p: Seq<u8>, n: Seq<u8>) -> bool
    decreases p.len(), n.len() + 1,
{
    if p.len() == 0 {
        n.len() == 0
    } else if p[0] == 0x2a {
        star(p.drop_first(), n, 0)
    } else if p[0] == 0x3f {
        n.len() > 0 && wildcard(p.drop_first(), n.drop_first())
    } else {
        n.len() > 0 && n[0] == p[0] && wildcard(p.drop_first(), n.drop_first())
    }
}

/// Whether the pattern `q` (what follows a `*`) matches `n` with `k` or more of its first
/// bytes skipped.
pub open spec fn star(q: Seq<u8>, n: Seq<u8>, k: int) -> bool
    decreases q.len(), n.len() - k + 2,
{
    if 0 <= k <= n.len() {
        wildcard(q, n.skip(k)) || star(q, n, k + 1)
    } else {
        false
    }
}

fn wildcard_at(p: &[u8], pi: usize, n: &[u8], ni: usize) -> (r: bool)
    requires
        pi <= p@.len(),
        ni <= n@.len(),
    ensures
        r == wildcard(p@.skip(pi as int), n@.skip(ni as int)),
    decreases p@.len() - pi, n@.len() - ni + 1,
{
    let ghost ps = p@.skip(pi as int);
    let ghost ns = n@.skip(ni as int);
    if pi == p.len() {
        return ni == n.len();
    }
    assert(ps.drop_first() =~= p@.skip(pi + 1));
    assert(ps[0] == p@[pi as int]);
    if ni < n.len() {
        assert(ns.drop_first() =~= n@.skip(ni + 1));
        assert(ns[0] == n@[ni as int]);
    }
    if p[pi] == 0x2a {
        star_at(p, pi + 1, n, ni, 0)
    } else if p[pi] == 0x3f {
        ni < n.len() && wildcard_at(p, pi + 1, n, ni + 1)
    } else {
        ni < n.len() && n[ni] == p[pi] && wildcard_at(p, pi + 1, n, ni + 1)
    }
}

fn star_at(p: &[u8], pi: usize, n: &[u8], ni: usize, k: usize) -> (r: bool)
    requires
        pi <= p@.len(),
        ni <= n@.len(),
    ensures
        r == star(p@.skip(pi as int), n@.skip(ni as int), k as int),
    decreases p@.len() - pi, n@.len() - ni - k + 2,
{
    let ghost ns = n@.skip(ni as int);
    if k > n.len() - ni {
        return false;
    }
    assert(ns.skip(k as int) =~= n@.skip(ni + k));
    if wildcard_at(p, pi, n, ni + k) {
        return true;
    }
    if k == n.len() - ni {
        assert(!star(p@.skip(pi as int), ns, k + 1));
        return false;
    }
    star_at(p, pi, n, ni, k + 1)
}

/// Whether a name matches one segment of a pattern: literally without a wildcard; with one,
/// never a name starting with `.`, never a minified `.min.js` unless the pattern names it,
/// and otherwise by [`wildcard`].
pub open spec fn matches_segment(pattern: Seq<char>, name: Seq<char>) -> bool {
    if !has_wildcard(pattern) {
        pattern == name
    } else if name.len() > 0 && name[0] == '.' {
        false
    } else if pattern.contains('*') && ends(name, ".min.js"@) && !ends(pattern, ".min.js"@) {
        false
    } else {
        wildcard(encode_utf8(pattern), encode_utf8(name))
    }
}

fn matches_segment_exec(pattern: &str, name: &str) -> (r: bool)
    ensures
        r == matches_segment(pattern@, name@),
{
    let star = has_char(pattern, '*');
    if !(star || has_char(pattern, '?')) {
        return str_eq(pattern, name);
    }
    if starts_with(name, ".") {
        proof {
            reveal_strlit(".");
            assert("."@ =~= seq!['.']);
            assert(name@.subrange(0, 1)[0] == name@[0]);
        }
        return false;
    }
    proof {
        reveal_strlit(".");
        assert("."@ =~= seq!['.']);
        if name@.len() > 0 && name@[0] == '.' {
            assert(name@.subrange(0, 1) =~= seq!['.']);
        }
    }
    if star && ends_with(name, ".min.js") && !ends_with(pattern, ".min.js") {
        return false;
    }
    let pb = pattern.as_bytes();
    let nb = name.as_bytes();
    assert(pb@.skip(0) =~= pb@);
    assert(nb@.skip(0) =~= nb@);
    wildcard_at(pb, 0, nb, 0)
}

/// Whether no directory of `dirs` starts with `.`.
pub open spec fn undotted(dirs: Seq<Seq<char>>) -> bool {
    forall|i: int| 0 <= i < dirs.len() ==> !(dirs[i].len() > 0 && #[trigger] dirs[i][0] == '.')
}

/// tsserver's matching of a path (its segments) against a pattern (its segments): `**`
/// stands for any number of directories not starting with `.`, any other segment for one
/// name by [`matches_segment`].
pub open spec fn matches(pattern: Seq<Seq<char>>, path: Seq<Seq<char>>) -> bool
    decreases pattern.len(), path.len() + 1,
{
    if pattern.len() == 0 {
        path.len() == 0
    } else if pattern[0] == seq!['*', '*'] {
        any_depth(pattern.drop_first(), path, 0)
    } else {
        path.len() > 0 && matches_segment(pattern[0], path[0]) && matches(pattern.drop_first(), path.drop_first())
    }
}

/// Whether `rest` (what follows a `**`) matches `path` with `k` or more of its first
/// directories skipped, none of the skipped ones starting with `.`.
pub open spec fn any_depth(rest: Seq<Seq<char>>, path: Seq<Seq<char>>, k: int) -> bool
    decreases rest.len(), path.len() - k + 2,
{
    if 0 <= k <= path.len() {
        (undotted(path.take(k)) && matches(rest, path.skip(k))) || any_depth(rest, path, k + 1)
    } else {
        false
    }
}

fn is_dotted(name: &String) -> (r: bool)
    ensures
        r == (name@.len() > 0 && name@[0] == '.'),
{
    proof {
        reveal_strlit(".");
        assert("."@ =~= seq!['.']);
        if name@.len() > 0 && name@[0] == '.' {
            assert(name@.subrange(0, 1) =~= seq!['.']);
        }
    }
    let r = starts_with(name.as_str(), ".");
    proof {
        if r {
            assert(name@.subrange(0, 1)[0] == name@[0]);
        }
    }
    r
}

fn undotted_range(path: &Vec<String>, from: usize, to: usize) -> (r: bool)
    requires
        from <= to <= path@.len(),
    ensures
        r == undotted(texts(path@).skip(from as int).take(to - from)),
{
    let ghost d = texts(path@).skip(from as int).take(to - from);
    let mut i = from;
    while i < to
        invariant
            from <= i <= to <= path@.len(),
            d == texts(path@).skip(from as int).take(to - from),
            forall|k: int| 0 <= k < i - from ==> !(d[k].len() > 0 && #[trigger] d[k][0] == '.'),
        decreases to - i,
    {
        assert(d[i - from] == path@[i as int]@);
        if is_dotted(&path[i]) {
            return false;
        }
        i = i + 1;
    }
    true
}

fn matches_at(pattern: &Vec<String>, pi: usize, path: &Vec<String>, qi: usize) -> (r: bool)
    requires
        pi <= pattern@.len(),
        qi <= path@.len(),
    ensures
        r == matches(texts(pattern@).skip(pi as int), texts(path@).skip(qi as int)),
    decreases pattern@.len() - pi, path@.len() - qi + 1,
{
    let ghost ps = texts(pattern@).skip(pi as int);
    let ghost qs = texts(path@).skip(qi as int);
    if pi == pattern.len() {
        return qi == path.len();
    }
    assert(ps.drop_first() =~= texts(pattern@).skip(pi + 1));
    assert(ps[0] == pattern@[pi as int]@);
    if qi < path.len() {
        assert(qs.drop_first() =~= texts(path@).skip(qi + 1));
        assert(qs[0] == path@[qi as int]@);
    }
    proof {
        reveal_strlit("**");
        assert("**"@ =~= seq!['*', '*']);
    }
    if str_eq(pattern[pi].as_str(), "**") {
        any_depth_at(pattern, pi + 1, path, qi, 0)
    } else {
        qi < path.len() && matches_segment_exec(pattern[pi].as_str(), path[qi].as_str()) && matches_at(pattern, pi + 1, path, qi + 1)
    }
}

fn any_depth_at(pattern: &Vec<String>, pi: usize, path: &Vec<String>, qi: usize, k: usize) -> (r: bool)
    requires
        pi <= pattern@.len(),
        qi <= path@.len(),
    ensures
        r == any_depth(texts(pattern@).skip(pi as int), texts(path@).skip(qi as int), k as int),
    decreases pattern@.len() - pi, path@.len() - qi - k + 2,
{
    let ghost qs = texts(path@).skip(qi as int);
    if k > path.len() - qi {
        return false;
    }
    assert(qs.skip(k as int) =~= texts(path@).skip(qi + k));
    assert(qs.take(k as int) =~= texts(path@).skip(qi as int).take(k as int));
    if undotted_range(path, qi, qi + k) && matches_at(pattern, pi, path, qi + k) {
        return true;
    }
    if k == path.len() - qi {
        assert(!any_depth(texts(pattern@).skip(pi as int), qs, k + 1));
        return false;
    }
    any_depth_at(pattern, pi, path, qi, k + 1)
}

/// Whether a path (its segments) matches a pattern.
fn matches_exec(pattern: &Vec<String>, path: &Vec<String>) -> (r: bool)
    ensures
        r == matches(texts(pattern@), texts(path@)),
{
    assert(texts(pattern@).skip(0) =~= texts(pattern@));
    assert(texts(path@).skip(0) =~= texts(path@));
    matches_at(pattern, 0, path, 0)
}

/// The configuration files tsserver looks for.
pub const CONFIG_NAMES: [&'static str; 2] = ["tsconfig.json", "jsconfig.json"];

/// Directories that are not part of the workspace's own sources.
pub const SKIPPED_DIRS: [&'static str; 2] = ["node_modules", ".git"];

/// The extensions of TypeScript sources.
pub const TYPESCRIPT_EXTENSIONS: [&'static str; 4] = ["ts", "tsx", "mts", "cts"];

/// The extensions of JavaScript sources.
pub const JAVASCRIPT_EXTENSIONS: [&'static str; 4] = ["js", "jsx", "mjs", "cjs"];

/// tsserver's `exclude` when a configuration writes none (the `outDir` is added to it).
pub const DEFAULT_EXCLUDE: [&'static str; 3] = ["node_modules", "bower_components", "jspm_packages"];

/// The `include` when a configuration writes neither `files` nor `include`.
pub const DEFAULT_INCLUDE: &'static str = "**/*";

/// Whether `t` is one of `options`.
pub open spec fn one_of<const N: usize>(t: Seq<char>, options: [&'static str; N]) -> bool {
    exists|i: int| 0 <= i < N && options@[i]@ == t
}

/// The model of a [`ProjectScope`]: the files listed, and the compiled `include` and
/// `exclude` patterns.
pub ghost struct ScopeModel {
    pub files: Seq<Seq<char>>,
    pub inclusions: Seq<Seq<Seq<char>>>,
    pub exclusions: Seq<Seq<Seq<char>>>,
}

/// A configuration's `files` / `include` / `exclude`, compiled for tsserver's matching.
#[derive(Debug)]
pub struct ProjectScope {
    files: Vec<String>,
    inclusions: Vec<Vec<String>>,
    exclusions: Vec<Vec<String>>,
}

/// The characters of each pattern's segments.
pub open spec fn patterns_view(ps: Seq<Vec<String>>) -> Seq<Seq<Seq<char>>> {
    Seq::new(ps.len(), |i: int| texts(ps[i]@))
}

impl View for ProjectScope {
    type V = ScopeModel;

    closed spec fn view(&self) -> ScopeModel {
        ScopeModel { files: texts(self.files@), inclusions: patterns_view(self.inclusions@), exclusions: patterns_view(self.exclusions@) }
    }
}

/// Whether a source (relative to the folder, joined by `/`) belongs to the project: listed in
/// `files`, or matched by an `include` pattern and by no `exclude` pattern (which also drops
/// everything under a directory it matches).
pub open spec fn takes_in(sc: ScopeModel, source: Seq<char>) -> bool {
    let segs = slash_pieces(source);
    &&& source.len() > 0
    &&& sc.files.contains(source) || {
        &&& exists|i: int| 0 <= i < sc.inclusions.len() && matches(#[trigger] sc.inclusions[i], segs)
        &&& !exists|i: int, end: int| 0 <= i < sc.exclusions.len() && 1 <= end <= segs.len() && #[trigger] matches(sc.exclusions[i], segs.take(end))
    }
}

/// Whether one of `patterns` matches `path`.
fn any_matches(patterns: &Vec<Vec<String>>, path: &Vec<String>) -> (r: bool)
    ensures
        r == exists|i: int| 0 <= i < patterns@.len() && matches(#[trigger] patterns_view(patterns@)[i], texts(path@)),
{
    let mut i: usize = 0;
    while i < patterns.len()
        invariant
            i <= patterns@.len(),
            forall|k: int| 0 <= k < i ==> !matches(#[trigger] patterns_view(patterns@)[k], texts(path@)),
        decreases patterns@.len() - i,
    {
        if matches_exec(&patterns[i], path) {
            assert(matches(patterns_view(patterns@)[i as int], texts(path@)));
            return true;
        }
        i = i + 1;
    }
    false
}

/// Whether one of `patterns` matches the path, or a directory it lies under (a prefix of its
/// segments).
fn any_matches_a_prefix(patterns: &Vec<Vec<String>>, path: &Vec<String>) -> (r: bool)
    ensures
        r == exists|i: int, end: int| 0 <= i < patterns@.len() && 1 <= end <= path@.len()
            && #[trigger] matches(patterns_view(patterns@)[i], texts(path@).take(end)),
{
    let ghost sv = texts(path@);
    let mut prefix: Vec<String> = Vec::new();
    let mut k: usize = 0;
    assert(texts(prefix@) =~= sv.take(0));
    while k < path.len()
        invariant
            k <= path@.len(),
            sv == texts(path@),
            texts(prefix@) == sv.take(k as int),
            forall|i: int, e: int| 0 <= i < patterns@.len() && 1 <= e <= k ==> !#[trigger] matches(patterns_view(patterns@)[i], sv.take(e)),
        decreases path@.len() - k,
    {
        let ghost before = prefix@;
        prefix.push(path[k].clone());
        assert(prefix@ == before.push(path@[k as int]));
        assert(sv.len() == path@.len());
        assert(texts(before).len() == before.len());
        assert(before.len() == k);
        assert(sv[k as int] == path@[k as int]@);
        assert forall|j: int| 0 <= j < k + 1 implies #[trigger] texts(prefix@)[j] == sv.take(k + 1)[j] by {
            assert(texts(prefix@)[j] == prefix@[j]@);
            if j < k {
                assert(prefix@[j] == before[j]);
                assert(texts(before)[j] == before[j]@);
                assert(texts(before)[j] == sv.take(k as int)[j]);
                assert(sv.take(k as int)[j] == sv[j]);
            } else {
                assert(prefix@[j] == path@[k as int]);
            }
        }
        assert(texts(prefix@) =~= sv.take(k + 1));
        if any_matches(patterns, &prefix) {
            return true;
        }
        k = k + 1;
    }
    false
}

impl ProjectScope {
    /// Whether a source (relative to the folder, joined by `/`) belongs to the project.
    pub fn takes_in(&self, source: &str) -> (r: bool)
        ensures
            r == takes_in(self@, source@),
    {
        let cs = chars_of(source);
        if cs.len() == 0 {
            return false;
        }
        let mut f: usize = 0;
        while f < self.files.len()
            invariant
                f <= self.files@.len(),
                source@.len() > 0,
                forall|k: int| 0 <= k < f ==> self@.files[k] != source@,
            decreases self.files@.len() - f,
        {
            if str_eq(self.files[f].as_str(), source) {
                assert(self@.files[f as int] == source@);
                assert(self@.files.contains(source@));
                return true;
            }
            f = f + 1;
        }
        assert(!self@.files.contains(source@));
        let segs = split_slashes(&cs, true);
        assert(texts(segs@) == slash_pieces(source@));
        assert(self@.inclusions == patterns_view(self.inclusions@));
        assert(self@.exclusions == patterns_view(self.exclusions@));
        any_matches(&self.inclusions, &segs) && !any_matches_a_prefix(&self.exclusions, &segs)
    }
}

} // verus!

use crate::json::{Json, JsonModel, get, json_parse_text, member, parse_json_text};

verus! {

/// A list of strings in a configuration: `Ok(None)` when it is not written, `Err` when it is
/// not an array of strings. Each entry is [`normalized`].
pub open spec fn list_of(settings: JsonModel, key: Seq<char>) -> Result<Option<Seq<Seq<char>>>, ()> {
    match member(settings, key) {
        None => Ok(None),
        Some(JsonModel::Array(items)) => if forall|i: int| 0 <= i < items.len() ==> #[trigger] items[i] is String {
            Ok(Some(Seq::new(items.len(), |i: int| normalized(items[i]->String_0))))
        } else {
            Err(())
        },
        Some(_) => Err(()),
    }
}

/// A `compilerOptions` entry: `Ok(None)` when it is not written, `Err` when `compilerOptions`
/// is written but is not an object.
pub open spec fn compiler_option(settings: JsonModel, key: Seq<char>) -> Result<Option<JsonModel>, ()> {
    match member(settings, "compilerOptions"@) {
        None => Ok(None),
        Some(JsonModel::Object(options)) => Ok(crate::json::lookup(options, key)),
        Some(_) => Err(()),
    }
}

/// Compiles every pattern: `None` when one of them cannot be.
pub open spec fn compile_all(ps: Seq<Seq<char>>) -> Option<Seq<Seq<Seq<char>>>> {
    if forall|i: int| 0 <= i < ps.len() ==> #[trigger] compile_model(ps[i]) is Some {
        Some(Seq::new(ps.len(), |i: int| compile_model(ps[i])->0))
    } else {
        None
    }
}

/// The default `exclude`: [`DEFAULT_EXCLUDE`].
pub open spec fn default_exclude() -> Seq<Seq<char>> {
    seq![DEFAULT_EXCLUDE[0]@, DEFAULT_EXCLUDE[1]@, DEFAULT_EXCLUDE[2]@]
}

/// What a configuration's `files` / `include` / `exclude` take in: `None` when it writes
/// something this reader does not understand. Without `include`, everything (`**/*`) unless
/// `files` is written; without `exclude`, [`DEFAULT_EXCLUDE`] and the `outDir`.
pub open spec fn scope_of(settings: JsonModel) -> Option<ScopeModel> {
    match (list_of(settings, "files"@), list_of(settings, "include"@), list_of(settings, "exclude"@)) {
        (Ok(files), Ok(inclusions), Ok(exclusions)) => {
            let inclusions = match inclusions {
                Some(i) => i,
                None => if files is Some { Seq::empty() } else { seq![DEFAULT_INCLUDE@] },
            };
            let exclusions = match exclusions {
                Some(e) => Some(e),
                None => match compiler_option(settings, "outDir"@) {
                    Ok(None) => Some(default_exclude()),
                    Ok(Some(JsonModel::String(out_dir))) => Some(default_exclude().push(normalized(out_dir))),
                    _ => None,
                },
            };
            match exclusions {
                Some(e) => match (compile_all(inclusions), compile_all(e)) {
                    (Some(ci), Some(ce)) => Some(ScopeModel {
                        files: match files { Some(f) => f, None => Seq::empty() },
                        inclusions: ci,
                        exclusions: ce,
                    }),
                    _ => None,
                },
                None => None,
            }
        },
        _ => None,
    }
}

/// Reads a list of strings.
fn read_list(settings: &Json, key: &str) -> (r: Result<Option<Vec<String>>, ()>)
    ensures
        match r {
            Ok(Some(v)) => list_of(settings@, key@) == Ok::<Option<Seq<Seq<char>>>, ()>(Some(texts(v@))),
            Ok(None) => list_of(settings@, key@) == Ok::<Option<Seq<Seq<char>>>, ()>(None),
            Err(()) => list_of(settings@, key@) is Err,
        },
{
    let j = match get(settings, key) {
        None => return Ok(None),
        Some(j) => j,
    };
    let items = match j {
        Json::Array(items) => items,
        _ => return Err(()),
    };
    let ghost im = j@->Array_0;
    assert(member(settings@, key@) == Some(JsonModel::Array(im)));
    assert(im.len() == items@.len());
    assert(forall|k: int| 0 <= k < im.len() ==> im[k] == #[trigger] items@[k]@);
    let mut out: Vec<String> = Vec::new();
    let mut i: usize = 0;
    while i < items.len()
        invariant
            i <= items@.len(),
            im.len() == items@.len(),
            forall|k: int| 0 <= k < im.len() ==> im[k] == #[trigger] items@[k]@,
            member(settings@, key@) == Some(JsonModel::Array(im)),
            out@.len() == i,
            forall|k: int| 0 <= k < i ==> #[trigger] im[k] is String && out@[k]@ == normalized(im[k]->String_0),
        decreases items@.len() - i,
    {
        match &items[i] {
            Json::String(t) => {
                assert(im[i as int] == items@[i as int]@);
                assert(im[i as int] == JsonModel::String(t@));
                out.push(normalize_entry(t.as_str()));
            },
            _ => {
                assert(im[i as int] == items@[i as int]@);
                assert(!(im[i as int] is String));
                return Err(());
            },
        }
        i = i + 1;
    }
    assert(texts(out@) =~= Seq::new(im.len(), |k: int| normalized(im[k]->String_0)));
    Ok(Some(out))
}

/// Reads a `compilerOptions` entry.
fn read_compiler_option<'a>(settings: &'a Json, key: &str) -> (r: Result<Option<&'a Json>, ()>)
    ensures
        match r {
            Ok(Some(v)) => compiler_option(settings@, key@) == Ok::<Option<JsonModel>, ()>(Some(v@)),
            Ok(None) => compiler_option(settings@, key@) == Ok::<Option<JsonModel>, ()>(None),
            Err(()) => compiler_option(settings@, key@) is Err,
        },
{
    match get(settings, "compilerOptions") {
        None => Ok(None),
        Some(options) => match options {
            Json::Object(_) => Ok(get(options, key)),
            _ => Err(()),
        },
    }
}

/// Compiles every pattern.
fn compile_patterns(ps: &Vec<String>) -> (r: Option<Vec<Vec<String>>>)
    ensures
        match r {
            Some(c) => compile_all(texts(ps@)) == Some(patterns_view(c@)),
            None => compile_all(texts(ps@)) is None,
        },
{
    let mut out: Vec<Vec<String>> = Vec::new();
    let mut i: usize = 0;
    while i < ps.len()
        invariant
            i <= ps@.len(),
            out@.len() == i,
            forall|k: int| 0 <= k < i ==> #[trigger] compile_model(texts(ps@)[k]) == Some(texts(out@[k]@)),
        decreases ps@.len() - i,
    {
        match compile(ps[i].as_str()) {
            Some(c) => out.push(c),
            None => {
                assert(compile_model(texts(ps@)[i as int]) is None);
                return None;
            },
        }
        i = i + 1;
    }
    assert(patterns_view(out@) =~= Seq::new(ps@.len(), |k: int| compile_model(texts(ps@)[k])->0));
    Some(out)
}

/// A list of constant strings.
fn owned_list(items: &[&str]) -> (r: Vec<String>)
    ensures
        r@.len() == items@.len(),
        forall|k: int| 0 <= k < items@.len() ==> #[trigger] r@[k]@ == items@[k]@,
{
    let mut out: Vec<String> = Vec::new();
    let mut i: usize = 0;
    while i < items.len()
        invariant
            i <= items@.len(),
            out@.len() == i,
            forall|k: int| 0 <= k < i ==> #[trigger] out@[k]@ == items@[k]@,
        decreases items@.len() - i,
    {
        out.push(items[i].to_owned());
        i = i + 1;
    }
    out
}

impl ProjectScope {
    /// Reads a configuration's `files` / `include` / `exclude`; `None` when it writes
    /// something this reader does not understand.
    pub fn read(settings: &Json) -> (r: Option<ProjectScope>)
        ensures
            match r {
                Some(sc) => scope_of(settings@) == Some(sc@),
                None => scope_of(settings@) is None,
            },
    {
        let files = match read_list(settings, "files") {
            Ok(f) => f,
            Err(()) => return None,
        };
        let inclusions = match read_list(settings, "include") {
            Ok(i) => i,
            Err(()) => return None,
        };
        let exclusions = match read_list(settings, "exclude") {
            Ok(e) => e,
            Err(()) => return None,
        };
        let inclusions = match inclusions {
            Some(i) => i,
            None => if files.is_some() {
                let empty: Vec<String> = Vec::new();
                assert(texts(empty@) =~= Seq::<Seq<char>>::empty());
                empty
            } else {
                let v = vec![DEFAULT_INCLUDE.to_owned()];
                assert(texts(v@) =~= seq![DEFAULT_INCLUDE@]);
                v
            },
        };
        let exclusions = match exclusions {
            Some(e) => e,
            None => {
                let defaults = DEFAULT_EXCLUDE;
                let mut d = owned_list(&defaults);
                assert(texts(d@) =~= default_exclude());
                match read_compiler_option(settings, "outDir") {
                    Ok(None) => {},
                    Ok(Some(Json::String(out_dir))) => {
                        let ghost before = texts(d@);
                        d.push(normalize_entry(out_dir.as_str()));
                        assert(texts(d@) =~= before.push(normalized(out_dir@)));
                    },
                    _ => return None,
                }
                d
            },
        };
        let inclusions = match compile_patterns(&inclusions) {
            Some(c) => c,
            None => return None,
        };
        let exclusions = match compile_patterns(&exclusions) {
            Some(c) => c,
            None => return None,
        };
        let files = match files {
            Some(f) => f,
            None => {
                let empty: Vec<String> = Vec::new();
                assert(texts(empty@) =~= Seq::<Seq<char>>::empty());
                empty
            },
        };
        Some(ProjectScope { files, inclusions, exclusions })
    }
}

/// The components of a path written with `/`: a `/` first for an absolute path, then its
/// segments (empty ones and `.` dropped).
pub open spec fn components(p: Seq<char>) -> Seq<Seq<char>> {
    if p.len() > 0 && p[0] == '/' {
        seq![seq!['/']] + path_segments(p)
    } else {
        path_segments(p)
    }
}

/// The last component of a path, unless it is the root or `..` (`Path::file_name`).
pub open spec fn file_name(p: Seq<char>) -> Option<Seq<char>> {
    let c = components(p);
    if c.len() > 0 && c.last() != seq!['/'] && c.last() != seq!['.', '.'] {
        Some(c.last())
    } else {
        None
    }
}

/// The index of the last `c` in `s`.
pub open spec fn last_index_of(s: Seq<char>, c: char) -> Option<int>
    decreases s.len(),
{
    if s.len() == 0 {
        None
    } else if s.last() == c {
        Some(s.len() - 1)
    } else {
        last_index_of(s.drop_last(), c)
    }
}

/// What follows the last `.` of a file name, unless that `.` starts the name
/// (`Path::extension`).
pub open spec fn extension(name: Seq<char>) -> Option<Seq<char>> {
    match last_index_of(name, '.') {
        Some(i) => if i == 0 { None } else { Some(name.skip(i + 1)) },
        None => None,
    }
}

/// Whether a path's extension is one of `exts`.
pub open spec fn has_extension<const N: usize>(p: Seq<char>, exts: [&'static str; N]) -> bool {
    match file_name(p) {
        Some(f) => match extension(f) {
            Some(e) => one_of(e, exts),
            None => false,
        },
        None => false,
    }
}

/// The components of `path` after those of `root`, when `root`'s are a prefix of them
/// (`Path::strip_prefix`).
pub open spec fn relative_to(root: Seq<char>, path: Seq<char>) -> Option<Seq<Seq<char>>> {
    let rc = components(root);
    let pc = components(path);
    if rc.len() <= pc.len() && pc.take(rc.len() as int) == rc {
        Some(pc.skip(rc.len() as int))
    } else {
        None
    }
}

/// `segs` joined by `/`.
pub open spec fn join_slash(segs: Seq<Seq<char>>) -> Seq<char>
    decreases segs.len(),
{
    if segs.len() == 0 {
        Seq::empty()
    } else if segs.len() == 1 {
        segs[0]
    } else {
        segs[0] + seq!['/'] + join_slash(segs.drop_first())
    }
}

/// The path of a file relative to the folder, joined by `/`: `None` for a path outside it or
/// with a `..`.
pub open spec fn relative_slash_path(root: Seq<char>, path: Seq<char>) -> Option<Seq<char>> {
    match relative_to(root, path) {
        Some(rest) => if rest.contains(seq!['.', '.']) || rest.contains(seq!['/']) {
            None
        } else {
            Some(join_slash(rest))
        },
        None => None,
    }
}

/// The components of a path.
pub(crate) fn components_of(p: &str) -> (r: Vec<String>)
    ensures
        texts(r@) == components(p@),
{
    let cs = chars_of(p);
    let segs = split_slashes(&cs, false);
    if cs.len() > 0 && cs[0] == '/' {
        let mut out: Vec<String> = Vec::new();
        out.push("/".to_owned());
        proof {
            reveal_strlit("/");
            assert("/"@ =~= seq!['/']);
        }
        let mut i: usize = 0;
        while i < segs.len()
            invariant
                i <= segs@.len(),
                texts(out@) == seq![seq!['/']] + texts(segs@).take(i as int),
            decreases segs@.len() - i,
        {
            let ghost before = texts(out@);
            out.push(segs[i].clone());
            assert(texts(out@) =~= before.push(segs@[i as int]@));
            assert(texts(segs@).take(i + 1) =~= texts(segs@).take(i as int).push(segs@[i as int]@));
            assert(seq![seq!['/']] + texts(segs@).take(i + 1) =~= (seq![seq!['/']] + texts(segs@).take(i as int)).push(segs@[i as int]@));
            i = i + 1;
        }
        assert(texts(segs@).take(segs@.len() as int) =~= texts(segs@));
        out
    } else {
        segs
    }
}

/// The last component of a path, unless it is the root or `..`.
fn file_name_of(p: &str) -> (r: Option<String>)
    ensures
        match r {
            Some(f) => file_name(p@) == Some(f@),
            None => file_name(p@) is None,
        },
{
    proof {
        reveal_strlit("/");
        reveal_strlit("..");
        assert("/"@ =~= seq!['/']);
        assert(".."@ =~= seq!['.', '.']);
    }
    let c = components_of(p);
    if c.len() == 0 {
        return None;
    }
    let last = &c[c.len() - 1];
    assert(texts(c@).last() == last@);
    if str_eq(last.as_str(), "/") || str_eq(last.as_str(), "..") {
        return None;
    }
    Some(last.clone())
}

/// What follows the last `.` of a file name, unless that `.` starts the name.
fn extension_of(name: &str) -> (r: Option<String>)
    ensures
        match r {
            Some(e) => extension(name@) == Some(e@),
            None => extension(name@) is None,
        },
{
    let cs = chars_of(name);
    let mut i = cs.len();
    assert(cs@.take(i as int) =~= cs@);
    while i > 0 && cs[i - 1] != '.'
        invariant
            i <= cs@.len(),
            last_index_of(cs@, '.') == last_index_of(cs@.take(i as int), '.'),
        decreases i,
    {
        assert(cs@.take(i as int).drop_last() =~= cs@.take(i - 1));
        i = i - 1;
    }
    if i == 0 {
        assert(cs@.take(0) =~= Seq::<char>::empty());
        return None;
    }
    assert(cs@.take(i as int).last() == cs@[i - 1]);
    if i == 1 {
        return None;
    }
    let rest = string_of(vstd::slice::slice_subrange(cs.as_slice(), i, cs.len()));
    assert(cs@.subrange(i as int, cs@.len() as int) =~= cs@.skip(i as int));
    Some(rest)
}

/// Whether a path's extension is one of `exts`.
fn has_extension_in<const N: usize>(p: &str, exts: [&'static str; N]) -> (r: bool)
    ensures
        r == has_extension(p@, exts),
{
    let f = match file_name_of(p) {
        Some(f) => f,
        None => return false,
    };
    let e = match extension_of(f.as_str()) {
        Some(e) => e,
        None => return false,
    };
    str_in(e.as_str(), &exts)
}

/// The components of `path` after those of `root`.
fn relative_components(root: &str, path: &str) -> (r: Option<Vec<String>>)
    ensures
        match r {
            Some(rest) => relative_to(root@, path@) == Some(texts(rest@)),
            None => relative_to(root@, path@) is None,
        },
{
    let rc = components_of(root);
    let pc = components_of(path);
    if rc.len() > pc.len() {
        return None;
    }
    let mut i: usize = 0;
    while i < rc.len()
        invariant
            i <= rc@.len() <= pc@.len(),
            texts(rc@) == components(root@),
            texts(pc@) == components(path@),
            forall|k: int| 0 <= k < i ==> texts(pc@)[k] == texts(rc@)[k],
        decreases rc@.len() - i,
    {
        if !str_eq(rc[i].as_str(), pc[i].as_str()) {
            assert(texts(pc@).take(rc@.len() as int)[i as int] != texts(rc@)[i as int]);
            return None;
        }
        i = i + 1;
    }
    assert(texts(pc@).take(rc@.len() as int) =~= texts(rc@));
    let tail = vstd::slice::slice_subrange(pc.as_slice(), rc.len(), pc.len());
    let rest = crate::adapter::nextflow::copy_texts(tail);
    assert(texts(tail@) =~= texts(pc@).skip(rc@.len() as int));
    Some(rest)
}

/// Whether one of the components is `node_modules` or `.git`.
pub open spec fn has_skipped(comps: Seq<Seq<char>>) -> bool {
    exists|k: int| 0 <= k < comps.len() && one_of(#[trigger] comps[k], SKIPPED_DIRS)
}

/// Whether one of the components is `node_modules` or `.git`.
fn has_skipped_dir(comps: &Vec<String>) -> (r: bool)
    ensures
        r == has_skipped(texts(comps@)),
{
    let skipped = SKIPPED_DIRS;
    let mut k: usize = 0;
    while k < comps.len()
        invariant
            k <= comps@.len(),
            skipped == SKIPPED_DIRS,
            forall|j: int| 0 <= j < k ==> !one_of(#[trigger] texts(comps@)[j], SKIPPED_DIRS),
        decreases comps@.len() - k,
    {
        if str_in(comps[k].as_str(), &skipped) {
            assert(one_of(texts(comps@)[k as int], SKIPPED_DIRS));
            return true;
        }
        k = k + 1;
    }
    false
}

/// `segs` joined by `/`, when none of them is `..` or the root.
fn join_relative(segs: &Vec<String>) -> (r: Option<String>)
    ensures
        match r {
            Some(t) => !(texts(segs@).contains(seq!['.', '.']) || texts(segs@).contains(seq!['/'])) && t@ == join_slash(texts(segs@)),
            None => texts(segs@).contains(seq!['.', '.']) || texts(segs@).contains(seq!['/']),
        },
{
    proof {
        reveal_strlit("/");
        reveal_strlit("..");
        assert("/"@ =~= seq!['/']);
        assert(".."@ =~= seq!['.', '.']);
    }
    let ghost sv = texts(segs@);
    let mut k: usize = 0;
    while k < segs.len()
        invariant
            k <= segs@.len(),
            sv == texts(segs@),
            forall|j: int| 0 <= j < k ==> sv[j] != seq!['.', '.'] && sv[j] != seq!['/'],
        decreases segs@.len() - k,
    {
        proof {
            reveal_strlit("/");
            reveal_strlit("..");
            assert("/"@ =~= seq!['/']);
            assert(".."@ =~= seq!['.', '.']);
        }
        if str_eq(segs[k].as_str(), "..") || str_eq(segs[k].as_str(), "/") {
            assert(sv[k as int] == seq!['.', '.'] || sv[k as int] == seq!['/']);
            assert(sv.contains(sv[k as int]));
            return None;
        }
        k = k + 1;
    }
    if segs.len() == 0 {
        return Some(String::new());
    }
    let mut out = segs[segs.len() - 1].clone();
    let mut i = segs.len() - 1;
    assert(sv.skip(i as int).drop_first() =~= Seq::<Seq<char>>::empty());
    while i > 0
        invariant
            0 <= i < segs@.len(),
            sv == texts(segs@),
            out@ == join_slash(sv.skip(i as int)),
        decreases i,
    {
        let ghost tail = out@;
        let mut next = segs[i - 1].clone();
        push_char(&mut next, '/');
        let ghost head = next@;
        let cs = chars_of(out.as_str());
        let mut k: usize = 0;
        while k < cs.len()
            invariant
                k <= cs@.len(),
                cs@ == tail,
                next@ == head + tail.take(k as int),
            decreases cs@.len() - k,
        {
            push_char(&mut next, cs[k]);
            assert(tail.take(k + 1) =~= tail.take(k as int).push(cs@[k as int]));
            assert(head + tail.take(k + 1) =~= (head + tail.take(k as int)).push(cs@[k as int]));
            k = k + 1;
        }
        assert(tail.take(cs@.len() as int) =~= tail);
        assert(sv.skip(i - 1).drop_first() =~= sv.skip(i as int));
        assert(sv.skip(i - 1)[0] == sv[i - 1]);
        out = next;
        i = i - 1;
    }
    assert(sv.skip(0) =~= sv);
    Some(out)
}

/// The path of a file relative to the folder, joined by `/`.
fn relative_slash(root: &str, path: &str) -> (r: Option<String>)
    ensures
        match r {
            Some(t) => relative_slash_path(root@, path@) == Some(t@),
            None => relative_slash_path(root@, path@) is None,
        },
{
    match relative_components(root, path) {
        Some(rest) => join_relative(&rest),
        None => None,
    }
}

/// What the walk of a workspace folder found: the configuration files and the sources
/// (`.ts`, `.tsx`, `.mts`, `.cts`, `.js`, `.jsx`, `.mjs`, `.cjs`), each relative to the folder
/// and joined by `/` (a source whose name is not UTF-8 is the empty text). `node_modules` and
/// `.git` are not walked, nor are symbolic links followed.
#[derive(Debug, Clone)]
pub struct FolderListing {
    pub configs: Vec<String>,
    pub sources: Vec<String>,
}

/// The model of a [`FolderListing`].
pub ghost struct ListingModel {
    pub configs: Seq<Seq<char>>,
    pub sources: Seq<Seq<char>>,
}

impl View for FolderListing {
    type V = ListingModel;

    open spec fn view(&self) -> ListingModel {
        ListingModel { configs: texts(self.configs@), sources: texts(self.sources@) }
    }
}

/// What was read of one workspace folder: its walk (`None` when it failed) and the text of
/// the one configuration [`config_to_read`] names (`None` when there is none or it could not be
/// read).
#[derive(Debug, Clone)]
pub struct FolderRead {
    pub root: String,
    pub listing: Option<FolderListing>,
    pub config_text: Option<String>,
}

/// The model of what a [`FolderRead`] holds.
pub open spec fn listing_view(l: Option<FolderListing>) -> Option<ListingModel> {
    match l {
        Some(x) => Some(x@),
        None => None,
    }
}

/// The one configuration of a folder, when it sits at the folder root.
pub open spec fn root_config(l: ListingModel) -> Option<Seq<char>> {
    if l.configs.len() == 1 && !l.configs[0].contains('/') {
        Some(l.configs[0])
    } else {
        None
    }
}

/// Which configuration file to read, relative to the folder: the only one found, when it sits
/// at the folder root. `None` when the folder has no such single configuration.
pub fn config_to_read(listing: &FolderListing) -> (r: Option<String>)
    ensures
        match r {
            Some(c) => root_config(listing@) == Some(c@),
            None => root_config(listing@) is None,
        },
{
    if listing.configs.len() != 1 {
        return None;
    }
    let c = &listing.configs[0];
    if has_char(c.as_str(), '/') {
        return None;
    }
    Some(c.clone())
}

/// The model of a [`FolderLayout`].
pub ghost struct LayoutModel {
    pub root: Seq<char>,
    pub complete: bool,
    pub allow_js: bool,
    pub scope: Option<ScopeModel>,
}

/// What rule R1 found in one workspace folder.
#[derive(Debug)]
pub struct FolderLayout {
    pub root: String,
    /// Whether one project contains every source of the folder.
    pub complete: bool,
    /// Whether the folder's configuration puts JavaScript files into the project. `false`
    /// when there is no single configuration to read.
    pub allow_js: bool,
    /// The files the configuration takes in. `None` when there is no single configuration to
    /// read.
    scope: Option<ProjectScope>,
}

impl View for FolderLayout {
    type V = LayoutModel;

    closed spec fn view(&self) -> LayoutModel {
        LayoutModel {
            root: self.root@,
            complete: self.complete,
            allow_js: self.allow_js,
            scope: match self.scope {
                Some(sc) => Some(sc@),
                None => None,
            },
        }
    }
}

/// A folder that cannot be deemed complete.
pub open spec fn incomplete(root: Seq<char>, allow_js: bool) -> LayoutModel {
    LayoutModel { root, complete: false, allow_js, scope: None }
}

/// What the configuration `settings` (an object) makes of a folder: `allowJs` (on by default
/// for a `jsconfig.json`), its scope, and whether the scope takes in every source with no
/// `extends`.
pub open spec fn settings_layout(root: Seq<char>, l: ListingModel, settings: JsonModel, is_jsconfig: bool) -> LayoutModel {
    let allow = match compiler_option(settings, "allowJs"@) {
        Ok(None) => Some(is_jsconfig),
        Ok(Some(JsonModel::Bool(b))) => Some(b),
        _ => None,
    };
    match allow {
        None => incomplete(root, false),
        Some(allow_js) => match scope_of(settings) {
            None => incomplete(root, allow_js),
            Some(sc) => LayoutModel {
                root,
                complete: member(settings, "extends"@) is None && forall|i: int| 0 <= i < l.sources.len() ==>
                    (allow_js || !has_extension(#[trigger] l.sources[i], JAVASCRIPT_EXTENSIONS)) && takes_in(sc, l.sources[i]),
                allow_js,
                scope: Some(sc),
            },
        },
    }
}

/// Rule R1 on one folder, from its walk and the text of its configuration.
pub open spec fn layout_of(root: Seq<char>, listing: Option<ListingModel>, text: Option<Seq<char>>) -> LayoutModel {
    match listing {
        None => incomplete(root, false),
        Some(l) => match root_config(l) {
            None => incomplete(root, false),
            Some(c) => match text {
                None => incomplete(root, false),
                Some(t) => match jsonc_to_json(t) {
                    None => incomplete(root, false),
                    Some(j) => match json_parse_text(j) {
                        Some(JsonModel::Object(es)) => settings_layout(root, l, JsonModel::Object(es), c == CONFIG_NAMES[1]@),
                        _ => incomplete(root, false),
                    },
                },
            },
        },
    }
}

fn incomplete_layout(root: &str, allow_js: bool) -> (r: FolderLayout)
    ensures
        r@ == incomplete(root@, allow_js),
{
    FolderLayout { root: root.to_owned(), complete: false, allow_js, scope: None }
}

/// Whether every source is a JavaScript one only where `allowJs` lets it be, and taken in.
fn every_source_taken(sources: &Vec<String>, scope: &ProjectScope, allow_js: bool) -> (r: bool)
    ensures
        r == forall|i: int| 0 <= i < sources@.len() ==>
            (allow_js || !has_extension(#[trigger] texts(sources@)[i], JAVASCRIPT_EXTENSIONS)) && takes_in(scope@, texts(sources@)[i]),
{
    let js = JAVASCRIPT_EXTENSIONS;
    let mut i: usize = 0;
    while i < sources.len()
        invariant
            i <= sources@.len(),
            js == JAVASCRIPT_EXTENSIONS,
            forall|k: int| 0 <= k < i ==>
                (allow_js || !has_extension(#[trigger] texts(sources@)[k], JAVASCRIPT_EXTENSIONS)) && takes_in(scope@, texts(sources@)[k]),
        decreases sources@.len() - i,
    {
        assert(texts(sources@)[i as int] == sources@[i as int]@);
        if !(allow_js || !has_extension_in(sources[i].as_str(), js)) || !scope.takes_in(sources[i].as_str()) {
            return false;
        }
        i = i + 1;
    }
    true
}

/// Rule R1 on one folder, from its walk and the text of its configuration.
pub fn folder_layout(root: &str, listing: Option<&FolderListing>, config_text: Option<&str>) -> (r: FolderLayout)
    ensures
        r@ == layout_of(root@, match listing { Some(l) => Some(l@), None => None }, match config_text { Some(t) => Some(t@), None => None }),
{
    let l = match listing {
        Some(l) => l,
        None => return incomplete_layout(root, false),
    };
    let c = match config_to_read(l) {
        Some(c) => c,
        None => return incomplete_layout(root, false),
    };
    let text = match config_text {
        Some(t) => t,
        None => return incomplete_layout(root, false),
    };
    let json_text = match strip_jsonc(text) {
        Some(j) => j,
        None => return incomplete_layout(root, false),
    };
    let settings = match parse_json_text(json_text.as_str()) {
        Some(s) => s,
        None => return incomplete_layout(root, false),
    };
    if let Json::Object(_) = &settings {
    } else {
        return incomplete_layout(root, false);
    }
    proof {
        reveal_strlit("jsconfig.json");
    }
    let is_jsconfig = str_eq(c.as_str(), "jsconfig.json");
    assert(is_jsconfig == (c@ == CONFIG_NAMES[1]@));
    let allow_js = match read_compiler_option(&settings, "allowJs") {
        Ok(None) => is_jsconfig,
        Ok(Some(Json::Bool(b))) => *b,
        _ => return incomplete_layout(root, false),
    };
    let scope = match ProjectScope::read(&settings) {
        Some(sc) => sc,
        None => return incomplete_layout(root, allow_js),
    };
    let complete = get(&settings, "extends").is_none() && every_source_taken(&l.sources, &scope, allow_js);
    FolderLayout { root: root.to_owned(), complete, allow_js, scope: Some(scope) }
}

/// Reads each workspace folder by rule R1.
pub fn assess(folders: &[FolderRead]) -> (r: Vec<FolderLayout>)
    ensures
        r@.len() == folders@.len(),
        forall|i: int| 0 <= i < folders@.len() ==> #[trigger] r@[i]@ == layout_of(
            folders@[i].root@,
            listing_view(folders@[i].listing),
            match folders@[i].config_text { Some(t) => Some(t@), None => None },
        ),
{
    let mut out: Vec<FolderLayout> = Vec::new();
    let mut i: usize = 0;
    while i < folders.len()
        invariant
            i <= folders@.len(),
            out@.len() == i,
            forall|k: int| 0 <= k < i ==> #[trigger] out@[k]@ == layout_of(
                folders@[k].root@,
                listing_view(folders@[k].listing),
                match folders@[k].config_text { Some(t) => Some(t@), None => None },
            ),
        decreases folders@.len() - i,
    {
        let f = &folders[i];
        let text = match &f.config_text {
            Some(t) => Some(t.as_str()),
            None => None,
        };
        out.push(folder_layout(f.root.as_str(), f.listing.as_ref(), text));
        i = i + 1;
    }
    out
}

/// Whether every folder is complete. A workspace without any known folder is not.
pub fn all_complete(layouts: &[FolderLayout]) -> (r: bool)
    ensures
        r == (layouts@.len() > 0 && forall|i: int| 0 <= i < layouts@.len() ==> (#[trigger] layouts@[i])@.complete),
{
    if layouts.len() == 0 {
        return false;
    }
    let mut i: usize = 0;
    while i < layouts.len()
        invariant
            i <= layouts@.len(),
            forall|k: int| 0 <= k < i ==> (#[trigger] layouts@[k])@.complete,
        decreases layouts@.len() - i,
    {
        if !layouts[i].complete {
            return false;
        }
        i = i + 1;
    }
    true
}

/// Whether `path` lies in the folder and not under `node_modules` or `.git`.
pub open spec fn inside(root: Seq<char>, path: Seq<char>) -> bool {
    match relative_to(root, path) {
        Some(rest) => !has_skipped(rest),
        None => false,
    }
}

/// Whether a path names a configuration file.
pub open spec fn is_config_file(path: Seq<char>) -> bool {
    match file_name(path) {
        Some(f) => one_of(f, CONFIG_NAMES),
        None => false,
    }
}

fn inside_exec(root: &str, path: &str) -> (r: bool)
    ensures
        r == inside(root@, path@),
{
    match relative_components(root, path) {
        Some(rest) => {
            !has_skipped_dir(&rest)
        },
        None => false,
    }
}

fn is_config_file_exec(path: &str) -> (r: bool)
    ensures
        r == is_config_file(path@),
{
    let names = CONFIG_NAMES;
    match file_name_of(path) {
        Some(f) => str_in(f.as_str(), &names),
        None => false,
    }
}

/// Whether a newly created `path` is a source in the folder that the configuration does not
/// take in (by `files` / `include` / `exclude`, and `allowJs` for JavaScript).
pub open spec fn source_outside(layout: LayoutModel, path: Seq<char>) -> bool {
    if !inside(layout.root, path) || is_config_file(path) {
        false
    } else if !has_extension(path, JAVASCRIPT_EXTENSIONS) && !has_extension(path, TYPESCRIPT_EXTENSIONS) {
        false
    } else {
        !((!has_extension(path, JAVASCRIPT_EXTENSIONS) || layout.allow_js) && match layout.scope {
            Some(sc) => match relative_slash_path(layout.root, path) {
                Some(source) => takes_in(sc, source),
                None => false,
            },
            None => false,
        })
    }
}

/// Whether `path` is a configuration file in `layout`'s folder, whose change calls for
/// [`reassess`]. Paths under `node_modules` and `.git` are not.
pub fn is_config_change(layout: &FolderLayout, path: &str) -> (r: bool)
    ensures
        r == (inside(layout@.root, path@) && is_config_file(path@)),
{
    inside_exec(layout.root.as_str(), path) && is_config_file_exec(path)
}

/// Whether a newly created `path` is a source in `layout`'s folder that the configuration does
/// not take in. Paths under `node_modules` and `.git` are not.
pub fn new_source_outside(layout: &FolderLayout, path: &str) -> (r: bool)
    ensures
        r == source_outside(layout@, path@),
{
    if !inside_exec(layout.root.as_str(), path) || is_config_file_exec(path) {
        return false;
    }
    let js = JAVASCRIPT_EXTENSIONS;
    let ts = TYPESCRIPT_EXTENSIONS;
    let is_javascript = has_extension_in(path, js);
    if !is_javascript && !has_extension_in(path, ts) {
        return false;
    }
    let takes = (!is_javascript || layout.allow_js) && match &layout.scope {
        Some(sc) => match relative_slash(layout.root.as_str(), path) {
            Some(source) => sc.takes_in(source.as_str()),
            None => false,
        },
        None => false,
    };
    !takes
}

/// Reads `layout`'s folder again, from its walk and configuration as they are now.
pub fn reassess(layout: &FolderLayout, listing: Option<&FolderListing>, config_text: Option<&str>) -> (r: FolderLayout)
    ensures
        r@ == layout_of(layout@.root, match listing { Some(l) => Some(l@), None => None }, match config_text { Some(t) => Some(t@), None => None }),
{
    folder_layout(layout.root.as_str(), listing, config_text)
}

/// Whether a text has no comment: outside its strings, no `/` is followed by `/` or `*`
/// (`in_string`: the text starts inside a string).
pub open spec fn comment_free(s: Seq<char>, in_string: bool) -> bool
    decreases s.len(),
{
    if s.len() == 0 {
        true
    } else {
        let c = s[0];
        let r = s.drop_first();
        if in_string {
            if c == '\\' && r.len() > 0 {
                comment_free(r.drop_first(), true)
            } else if c == '"' {
                comment_free(r, false)
            } else {
                comment_free(r, true)
            }
        } else if c == '"' {
            comment_free(r, true)
        } else if c == '/' && r.len() > 0 && (r[0] == '/' || r[0] == '*') {
            false
        } else {
            comment_free(r, false)
        }
    }
}

/// Whether a text has no trailing comma: outside its strings, no `,` is followed (after
/// whitespace) by `}` or `]`.
pub open spec fn trailing_comma_free(s: Seq<char>, in_string: bool) -> bool
    decreases s.len(),
{
    if s.len() == 0 {
        true
    } else {
        let c = s[0];
        let r = s.drop_first();
        if in_string {
            if c == '\\' && r.len() > 0 {
                trailing_comma_free(r.drop_first(), true)
            } else if c == '"' {
                trailing_comma_free(r, false)
            } else {
                trailing_comma_free(r, true)
            }
        } else if c == '"' {
            trailing_comma_free(r, true)
        } else if c == ',' && (next_non_space(r) == Some('}') || next_non_space(r) == Some(']')) {
            false
        } else {
            trailing_comma_free(r, false)
        }
    }
}

proof fn lemma_comment_free_strips_to_itself(s: Seq<char>, in_string: bool)
    requires
        comment_free(s, in_string),
    ensures
        strip_run(s, if in_string { StripState::InString } else { StripState::Normal }) == Some(s),
    decreases s.len(),
{
    if s.len() > 0 {
        let c = s[0];
        let r = s.drop_first();
        if in_string {
            if c == '\\' && r.len() > 0 {
                lemma_comment_free_strips_to_itself(r.drop_first(), true);
                assert(seq![c, r[0]] + r.drop_first() =~= s);
            } else if c == '"' {
                lemma_comment_free_strips_to_itself(r, false);
                assert(seq![c] + r =~= s);
            } else {
                lemma_comment_free_strips_to_itself(r, true);
                assert(seq![c] + r =~= s);
            }
        } else if c == '"' {
            lemma_comment_free_strips_to_itself(r, true);
            assert(seq![c] + r =~= s);
        } else {
            lemma_comment_free_strips_to_itself(r, false);
            assert(seq![c] + r =~= s);
        }
    }
}

proof fn lemma_trailing_comma_free_is_kept(s: Seq<char>, in_string: bool)
    requires
        trailing_comma_free(s, in_string),
    ensures
        drop_trailing_commas(s, in_string) == s,
    decreases s.len(),
{
    if s.len() > 0 {
        let c = s[0];
        let r = s.drop_first();
        if in_string {
            if c == '\\' && r.len() > 0 {
                lemma_trailing_comma_free_is_kept(r.drop_first(), true);
                assert(seq![c, r[0]] + r.drop_first() =~= s);
            } else if c == '"' {
                lemma_trailing_comma_free_is_kept(r, false);
                assert(seq![c] + r =~= s);
            } else {
                lemma_trailing_comma_free_is_kept(r, true);
                assert(seq![c] + r =~= s);
            }
        } else if c == '"' {
            lemma_trailing_comma_free_is_kept(r, true);
            assert(seq![c] + r =~= s);
        } else {
            lemma_trailing_comma_free_is_kept(r, false);
            assert(seq![c] + r =~= s);
        }
    }
}

/// Strict JSON passes through unchanged: a text with no comment and no trailing comma outside
/// its strings is its own JSON (what strings hold, `//` and `/*` included, is left alone).
pub proof fn law_strict_json_is_left_alone(text: Seq<char>)
    requires
        comment_free(text, false),
        trailing_comma_free(text, false),
    ensures
        jsonc_to_json(text) == Some(text),
{
    lemma_comment_free_strips_to_itself(text, false);
    lemma_trailing_comma_free_is_kept(text, false);
}

/// A wildcard never matches a name starting with `.`: a source under a dot-directory is not
/// taken in by a pattern such as `**/*`.
pub proof fn law_a_wildcard_never_matches_a_dot_name(pattern: Seq<char>, name: Seq<char>)
    requires
        has_wildcard(pattern),
        name.len() > 0,
        name[0] == '.',
    ensures
        !matches_segment(pattern, name),
{
}

/// A pattern compiles to its segments split at `/` (empty ones and `.` dropped); it is
/// refused when empty, absolute, with a backslash, without a segment or with `..`; a last
/// segment with no wildcard and no `.` names a directory and gets `**/*` after it.
pub proof fn law_compile_reads_the_segments(p: Seq<char>)
    ensures
        ({
            let segs = path_segments(p);
            &&& (compile_model(p) is None <==> (p.len() == 0 || p[0] == '/' || p.contains('\\') || segs.len() == 0 || segs.contains(seq!['.', '.'])))
            &&& (compile_model(p) matches Some(v) ==> v == (if !has_wildcard(segs.last()) && !segs.last().contains('.') {
                    segs + seq![seq!['*', '*'], seq!['*']]
                } else {
                    segs
                }))
        }),
{
}

/// Rule R1: a folder is complete only when its walk found exactly one configuration, at the
/// folder root, whose text reads (comments and trailing commas aside) as a JSON object with no
/// `extends`, and whose scope takes in every source, a JavaScript one only with `allowJs`.
pub proof fn law_a_complete_folder_has_one_configuration_taking_in_every_source(root: Seq<char>, listing: Option<ListingModel>, text: Option<Seq<char>>)
    ensures
        layout_of(root, listing, text).root == root,
        layout_of(root, listing, text).complete ==> ({
            &&& listing matches Some(l)
            &&& l.configs.len() == 1
            &&& !l.configs[0].contains('/')
            &&& text matches Some(t)
            &&& jsonc_to_json(t) matches Some(j)
            &&& json_parse_text(j) matches Some(JsonModel::Object(es))
            &&& member(JsonModel::Object(es), "extends"@) is None
            &&& layout_of(root, listing, text).scope matches Some(sc)
            &&& forall|i: int| 0 <= i < l.sources.len() ==> takes_in(sc, #[trigger] l.sources[i])
                && (has_extension(l.sources[i], JAVASCRIPT_EXTENSIONS) ==> layout_of(root, listing, text).allow_js)
        }),
{
}

/// How far one step of the comment stripping reads from the start of `s` (not empty) in the
/// state `st`, and the state after it: an escape in a string and a `/*` are read together.
pub open spec fn strip_step(s: Seq<char>, st: StripState) -> (int, StripState) {
    let c = s[0];
    match st {
        StripState::Normal => if c == '"' {
            (1, StripState::InString)
        } else if c == '/' && s.len() > 1 && s[1] == '/' {
            (1, StripState::Line)
        } else if c == '/' && s.len() > 1 && s[1] == '*' {
            (2, StripState::Block(false))
        } else {
            (1, StripState::Normal)
        },
        StripState::InString => if c == '\\' && s.len() > 1 {
            (2, StripState::InString)
        } else if c == '"' {
            (1, StripState::Normal)
        } else {
            (1, StripState::InString)
        },
        StripState::Line => if c == '\n' {
            (1, StripState::Normal)
        } else {
            (1, StripState::Line)
        },
        StripState::Block(after_star) => if after_star && c == '/' {
            (1, StripState::Normal)
        } else {
            (1, StripState::Block(c == '*'))
        },
    }
}

/// The state the stripping is in when it reaches position `i` of `s`, started in `st`;
/// `None` for a position read together with the one before it.
pub open spec fn state_at(s: Seq<char>, st: StripState, i: int) -> Option<StripState>
    decreases s.len(),
{
    if i == 0 {
        Some(st)
    } else if i < 0 || s.len() == 0 {
        None
    } else {
        let (k, next) = strip_step(s, st);
        if i < k || k < 1 || k > s.len() {
            None
        } else {
            state_at(s.skip(k), next, i - k)
        }
    }
}

/// Whether a block comment, with `after_star` telling whether a `*` was just read, closes
/// somewhere in `t`.
pub open spec fn block_closes(t: Seq<char>, after_star: bool) -> bool
    decreases t.len(),
{
    t.len() > 0 && ((after_star && t[0] == '/') || block_closes(t.drop_first(), t[0] == '*'))
}

/// Whether a `/*` that opens a comment (outside strings and comments) stands at position `i`
/// and is never closed.
pub open spec fn unclosed_block_at(s: Seq<char>, st: StripState, i: int) -> bool {
    &&& state_at(s, st, i) == Some(StripState::Normal)
    &&& 0 <= i && i + 1 < s.len()
    &&& s[i] == '/' && s[i + 1] == '*'
    &&& !block_closes(s.skip(i + 2), false)
}

proof fn lemma_state_at_shift(s: Seq<char>, st: StripState, i: int)
    requires
        s.len() > 0,
        strip_step(s, st).0 <= i,
    ensures
        state_at(s, st, i) == state_at(s.skip(strip_step(s, st).0), strip_step(s, st).1, i - strip_step(s, st).0),
{
}

proof fn lemma_unclosed_shift(s: Seq<char>, st: StripState)
    requires
        s.len() > 0,
    ensures
        (exists|i: int| #[trigger] unclosed_block_at(s, st, i)) <==> (
            unclosed_block_at(s, st, 0)
            || exists|j: int| #[trigger] unclosed_block_at(s.skip(strip_step(s, st).0), strip_step(s, st).1, j)),
{
    let (k, next) = strip_step(s, st);
    let t = s.skip(k);
    assert(1 <= k <= s.len());
    assert forall|i: int| #[trigger] unclosed_block_at(s, st, i) && i != 0 implies unclosed_block_at(t, next, i - k) by {
        assert(i >= k);
        lemma_state_at_shift(s, st, i);
        assert(t[i - k] == s[i] && t[i - k + 1] == s[i + 1]);
        assert(t.skip(i - k + 2) =~= s.skip(i + 2));
    }
    assert forall|j: int| #[trigger] unclosed_block_at(t, next, j) implies unclosed_block_at(s, st, j + k) by {
        lemma_state_at_shift(s, st, j + k);
        assert(t[j] == s[j + k] && t[j + 1] == s[j + k + 1]);
        assert(t.skip(j + 2) =~= s.skip(j + k + 2));
    }
    if exists|i: int| #[trigger] unclosed_block_at(s, st, i) {
        let i = choose|i: int| #[trigger] unclosed_block_at(s, st, i);
        if i != 0 {
            assert(unclosed_block_at(t, next, i - k));
        }
    }
    if exists|j: int| #[trigger] unclosed_block_at(t, next, j) {
        let j = choose|j: int| #[trigger] unclosed_block_at(t, next, j);
        assert(unclosed_block_at(s, st, j + k));
    }
}

proof fn lemma_strip_none(s: Seq<char>, st: StripState)
    ensures
        strip_run(s, st) is None <==> (
            (st matches StripState::Block(b) && !block_closes(s, b))
            || exists|i: int| #[trigger] unclosed_block_at(s, st, i)),
    decreases s.len(),
{
    if s.len() == 0 {
        assert forall|i: int| !#[trigger] unclosed_block_at(s, st, i) by {}
    } else {
        let (k, next) = strip_step(s, st);
        let t = s.skip(k);
        assert(1 <= k <= s.len());
        lemma_strip_none(t, next);
        lemma_unclosed_shift(s, st);
        let c = s[0];
        let r = s.drop_first();
        if k == 1 {
            assert(t =~= r);
        } else {
            assert(t =~= r.drop_first());
        }
        match st {
            StripState::Normal => {
                if c == '/' && r.len() > 0 && r[0] == '*' {
                    assert(next == StripState::Block(false));
                } else {
                    assert(!unclosed_block_at(s, st, 0));
                }
            },
            StripState::InString => {
                assert(!unclosed_block_at(s, st, 0));
            },
            StripState::Line => {
                assert(!unclosed_block_at(s, st, 0));
            },
            StripState::Block(b) => {
                assert(!unclosed_block_at(s, st, 0));
            },
        }
    }
}

proof fn lemma_block_closes(t: Seq<char>)
    ensures
        block_closes(t, false) <==> exists|j: int| 0 <= j && j + 1 < t.len() && #[trigger] t[j] == '*' && t[j + 1] == '/',
    decreases t.len(),
{
    if t.len() > 0 {
        let r = t.drop_first();
        lemma_block_closes(r);
        assert(block_closes(t, false) == block_closes(r, t[0] == '*'));
        assert(block_closes(r, true) == ((r.len() > 0 && r[0] == '/') || block_closes(r, false)));
        if block_closes(t, false) {
            if t[0] == '*' && r.len() > 0 && r[0] == '/' {
                assert(t[0] == '*' && t[1] == '/');
            } else {
                let j = choose|j: int| 0 <= j && j + 1 < r.len() && #[trigger] r[j] == '*' && r[j + 1] == '/';
                assert(t[j + 1] == '*' && t[j + 2] == '/');
            }
        } else {
            assert forall|j: int| 0 <= j && j + 1 < t.len() && #[trigger] t[j] == '*' implies t[j + 1] != '/' by {
                if j > 0 {
                    assert(r[j - 1] == t[j] && r[j] == t[j + 1]);
                }
            }
        }
    }
}

/// Whether a `/*` opens a comment at position `i` of `text` (outside strings and comments)
/// and no later `*/` closes it.
pub open spec fn never_closed_at(text: Seq<char>, i: int) -> bool {
    &&& state_at(text, StripState::Normal, i) == Some(StripState::Normal)
    &&& 0 <= i && i + 1 < text.len()
    &&& text[i] == '/' && text[i + 1] == '*'
    &&& !exists|j: int| i + 2 <= j && j + 1 < text.len() && #[trigger] text[j] == '*' && text[j + 1] == '/'
}

proof fn lemma_never_closed_at(text: Seq<char>, i: int)
    ensures
        never_closed_at(text, i) == unclosed_block_at(text, StripState::Normal, i),
{
    if 0 <= i && i + 2 <= text.len() {
        let t = text.skip(i + 2);
        lemma_block_closes(t);
        if block_closes(t, false) {
            let j = choose|j: int| 0 <= j && j + 1 < t.len() && #[trigger] t[j] == '*' && t[j + 1] == '/';
            assert(text[j + i + 2] == '*' && text[j + i + 3] == '/');
        }
        if exists|j: int| i + 2 <= j && j + 1 < text.len() && #[trigger] text[j] == '*' && text[j + 1] == '/' {
            let j = choose|j: int| i + 2 <= j && j + 1 < text.len() && #[trigger] text[j] == '*' && text[j + 1] == '/';
            assert(t[j - i - 2] == '*' && t[j - i - 1] == '/');
        }
    }
}

/// A configuration text has no JSON exactly when, outside its strings and `//` comments, a
/// `/*` opens a comment that no later `*/` closes.
pub proof fn law_strip_fails_only_on_an_unclosed_block_comment(text: Seq<char>)
    ensures
        jsonc_to_json(text) is None <==> exists|i: int| #[trigger] never_closed_at(text, i),
{
    lemma_strip_none(text, StripState::Normal);
    if exists|i: int| #[trigger] never_closed_at(text, i) {
        let i = choose|i: int| #[trigger] never_closed_at(text, i);
        lemma_never_closed_at(text, i);
    }
    if exists|i: int| #[trigger] unclosed_block_at(text, StripState::Normal, i) {
        let i = choose|i: int| #[trigger] unclosed_block_at(text, StripState::Normal, i);
        lemma_never_closed_at(text, i);
    }
}

} // verus!
