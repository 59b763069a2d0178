//! Text helpers shared by the modules that read the language servers' vocabulary: prefix,
//! suffix and substring tests, splitting at the first occurrence, trimming, ASCII case
//! folding. Every helper works on the characters of a string (`s@`) and is stated over them.

use vstd::prelude::*;

verus! {

/// Whether `p` is a prefix of `s`.
pub open spec fn starts(s: Seq<char>, p: Seq<char>) -> bool {
    p.len() <= s.len() && s.subrange(0, p.len() as int) == p
}

/// Whether `p` is a suffix of `s`.
pub open spec fn ends(s: Seq<char>, p: Seq<char>) -> bool {
    p.len() <= s.len() && s.subrange(s.len() - p.len(), s.len() as int) == p
}

/// Whether `pat` occurs in `s` starting at index `i`.
pub open spec fn occurs_at(s: Seq<char>, pat: Seq<char>, i: int) -> bool {
    0 <= i && i + pat.len() <= s.len() && s.subrange(i, i + pat.len()) == pat
}

/// Whether `pat` occurs anywhere in `s`.
pub open spec fn has_sub(s: Seq<char>, pat: Seq<char>) -> bool {
    exists|i: int| occurs_at(s, pat, i)
}

/// The first index at or after `from` where `pat` occurs in `s`.
pub open spec fn find_from(s: Seq<char>, pat: Seq<char>, from: int) -> Option<int>
    decreases s.len() + 1 - from,
{
    if from < 0 || from + pat.len() > s.len() {
        None
    } else if occurs_at(s, pat, from) {
        Some(from)
    } else {
        find_from(s, pat, from + 1)
    }
}

/// The first index where `pat` occurs in `s`.
pub open spec fn find(s: Seq<char>, pat: Seq<char>) -> Option<int> {
    find_from(s, pat, 0)
}

/// What `find_from` finds is an occurrence at or after `from`.
pub proof fn lemma_find_from_in_range(s: Seq<char>, pat: Seq<char>, from: int)
    ensures
        find_from(s, pat, from) matches Some(i) ==> from <= i && occurs_at(s, pat, i),
    decreases s.len() + 1 - from,
{
    if !(from < 0 || from + pat.len() > s.len()) && !occurs_at(s, pat, from) {
        lemma_find_from_in_range(s, pat, from + 1);
    }
}

/// What `find` finds is an occurrence.
pub proof fn lemma_find_in_range(s: Seq<char>, pat: Seq<char>)
    ensures
        find(s, pat) matches Some(i) ==> 0 <= i && occurs_at(s, pat, i),
{
    lemma_find_from_in_range(s, pat, 0);
}

/// `s` split around the first occurrence of `pat` (`str::split_once`).
pub open spec fn split_first(s: Seq<char>, pat: Seq<char>) -> Option<(Seq<char>, Seq<char>)> {
    match find(s, pat) {
        Some(i) => Some((s.take(i), s.skip(i + pat.len()))),
        None => None,
    }
}

/// `pat` found at `k`, with no earlier occurrence from `from` on, is what `find_from` finds.
pub proof fn lemma_find_first(s: Seq<char>, pat: Seq<char>, from: int, k: int)
    requires
        0 <= from <= k,
        occurs_at(s, pat, k),
        forall|j: int| from <= j < k ==> !occurs_at(s, pat, j),
    ensures
        find_from(s, pat, from) == Some(k),
    decreases k - from,
{
    if from < k {
        lemma_find_first(s, pat, from + 1, k);
    }
}

/// `char::is_whitespace`: the Unicode `White_Space` property.
pub open spec fn is_space(c: char) -> bool {
    ||| '\u{9}' <= c <= '\u{d}'
    ||| c == ' '
    ||| c == '\u{85}'
    ||| c == '\u{a0}'
    ||| c == '\u{1680}'
    ||| '\u{2000}' <= c <= '\u{200a}'
    ||| c == '\u{2028}'
    ||| c == '\u{2029}'
    ||| c == '\u{202f}'
    ||| c == '\u{205f}'
    ||| c == '\u{3000}'
}

/// `s` without its leading whitespace.
pub open spec fn trim_start(s: Seq<char>) -> Seq<char>
    decreases s.len(),
{
    if s.len() > 0 && is_space(s[0]) {
        trim_start(s.drop_first())
    } else {
        s
    }
}

/// `s` without its trailing whitespace.
pub open spec fn trim_end(s: Seq<char>) -> Seq<char>
    decreases s.len(),
{
    if s.len() > 0 && is_space(s.last()) {
        trim_end(s.drop_last())
    } else {
        s
    }
}

/// `str::trim`.
pub open spec fn trim(s: Seq<char>) -> Seq<char> {
    trim_end(trim_start(s))
}

/// `char::is_ascii_digit`.
pub open spec fn is_digit(c: char) -> bool {
    '0' <= c <= '9'
}

/// Every character of `s` is an ASCII digit.
pub open spec fn all_digits(s: Seq<char>) -> bool {
    forall|i: int| 0 <= i < s.len() ==> is_digit(#[trigger] s[i])
}

/// `char::to_ascii_lowercase`.
pub open spec fn lower_char(c: char) -> char {
    if 'A' <= c <= 'Z' {
        ((c as u32) + 32) as char
    } else {
        c
    }
}

/// `str::to_ascii_lowercase`.
pub open spec fn lower(s: Seq<char>) -> Seq<char> {
    Seq::new(s.len(), |i: int| lower_char(s[i]))
}

/// The characters of `s`, one by one.
#[verifier::external_body]
pub(crate) fn chars_of(s: &str) -> (r: Vec<char>)
    ensures
        r@ == s@,
{
    s.chars().collect()
}

/// The string made of the characters `cs`.
#[verifier::external_body]
pub(crate) fn string_of(cs: &[char]) -> (r: String)
    ensures
        r@ == cs@,
{
    cs.iter().collect()
}

/// Appends one character (`String::push`).
#[verifier::external_body]
pub(crate) fn push_char(s: &mut String, c: char)
    ensures
        final(s)@ == old(s)@.push(c),
{
    s.push(c)
}

/// Whether two strings have the same characters.
pub fn str_eq(a: &str, b: &str) -> (r: bool)
    ensures
        r == (a@ == b@),
{
    let x = a.to_owned();
    let y = b.to_owned();
    x == y
}

/// Whether `a` equals one of `options`.
pub fn str_in(a: &str, options: &[&str]) -> (r: bool)
    ensures
        r == exists|i: int| 0 <= i < options@.len() && options@[i]@ == a@,
{
    let mut i: usize = 0;
    while i < options.len()
        invariant
            i <= options@.len(),
            forall|j: int| 0 <= j < i ==> options@[j]@ != a@,
        decreases options@.len() - i,
    {
        if str_eq(options[i], a) {
            return true;
        }
        i = i + 1;
    }
    false
}

/// Whether `cs[at..]` begins with `p`.
fn seq_occurs_at(cs: &Vec<char>, p: &Vec<char>, at: usize) -> (r: bool)
    ensures
        r == occurs_at(cs@, p@, at as int),
{
    if at > cs.len() || p.len() > cs.len() - at {
        return false;
    }
    let mut i: usize = 0;
    while i < p.len()
        invariant
            at + p@.len() <= cs@.len(),
            cs@.len() <= usize::MAX,
            i <= p@.len(),
            forall|j: int| 0 <= j < i ==> cs@[at + j] == p@[j],
        decreases p@.len() - i,
    {
        if cs[at + i] != p[i] {
            assert(cs@.subrange(at as int, at + p@.len())[i as int] != p@[i as int]);
            return false;
        }
        i = i + 1;
    }
    assert(cs@.subrange(at as int, at + p@.len()) =~= p@);
    true
}

/// `str::starts_with`.
pub fn starts_with(s: &str, p: &str) -> (r: bool)
    ensures
        r == starts(s@, p@),
{
    let cs = chars_of(s);
    let ps = chars_of(p);
    seq_occurs_at(&cs, &ps, 0)
}

/// `str::ends_with`.
pub fn ends_with(s: &str, p: &str) -> (r: bool)
    ensures
        r == ends(s@, p@),
{
    let cs = chars_of(s);
    let ps = chars_of(p);
    if ps.len() > cs.len() {
        return false;
    }
    seq_occurs_at(&cs, &ps, cs.len() - ps.len())
}

/// The first index where `p` occurs in `cs`.
fn seq_find(cs: &Vec<char>, p: &Vec<char>) -> (r: Option<usize>)
    ensures
        match r {
            Some(i) => find(cs@, p@) == Some(i as int),
            None => find(cs@, p@) is None,
        },
        r is None <==> !has_sub(cs@, p@),
        r matches Some(i) ==> occurs_at(cs@, p@, i as int),
{
    if p.len() > cs.len() {
        assert forall|k: int| !occurs_at(cs@, p@, k) by {}
        assert(find(cs@, p@) is None);
        return None;
    }
    let mut i: usize = 0;
    let last = cs.len() - p.len();
    loop
        invariant
            last == cs@.len() - p@.len(),
            p@.len() <= cs@.len(),
            i <= last,
            find(cs@, p@) == find_from(cs@, p@, i as int),
            forall|k: int| 0 <= k < i ==> !occurs_at(cs@, p@, k),
        ensures
            i == last,
            find(cs@, p@) == find_from(cs@, p@, i as int),
            !occurs_at(cs@, p@, i as int),
            forall|k: int| 0 <= k < i ==> !occurs_at(cs@, p@, k),
        decreases last - i,
    {
        if seq_occurs_at(cs, p, i) {
            assert(occurs_at(cs@, p@, i as int));
            return Some(i);
        }
        if i == last {
            break;
        }
        i = i + 1;
    }
    assert(find_from(cs@, p@, i + 1) is None);
    assert(find_from(cs@, p@, i as int) is None);
    let ghost i1 = i + 1;
    assert forall|k: int| !occurs_at(cs@, p@, k) by {
        if 0 <= k < i1 {
        }
    }
    None
}

/// `str::contains` with a string pattern.
pub fn contains(s: &str, p: &str) -> (r: bool)
    ensures
        r == has_sub(s@, p@),
{
    let cs = chars_of(s);
    let ps = chars_of(p);
    seq_find(&cs, &ps).is_some()
}

/// `str::split_once` with a string pattern.
pub fn split_once(s: &str, p: &str) -> (r: Option<(String, String)>)
    ensures
        match r {
            Some((a, b)) => split_first(s@, p@) == Some((a@, b@)),
            None => split_first(s@, p@) is None,
        },
{
    let cs = chars_of(s);
    let ps = chars_of(p);
    match seq_find(&cs, &ps) {
        Some(i) => {
            assert(i + ps@.len() <= cs@.len());
            let end = ps.len();
            assert(end == ps@.len());
            assert(i + end <= cs.len());
            let head = string_of(vstd::slice::slice_subrange(cs.as_slice(), 0, i));
            assert(i + end <= cs.len());
            let tail = string_of(vstd::slice::slice_subrange(cs.as_slice(), i + end, cs.len()));
            assert(cs@.subrange(0, i as int) =~= cs@.take(i as int));
            assert(cs@.subrange(i + ps@.len(), cs@.len() as int) =~= cs@.skip(i + ps@.len()));
            Some((head, tail))
        },
        None => None,
    }
}

/// `str::strip_prefix` with a string pattern.
pub fn strip_prefix(s: &str, p: &str) -> (r: Option<String>)
    ensures
        match r {
            Some(rest) => starts(s@, p@) && rest@ == s@.skip(p@.len() as int),
            None => !starts(s@, p@),
        },
{
    let cs = chars_of(s);
    let ps = chars_of(p);
    if seq_occurs_at(&cs, &ps, 0) {
        let rest = string_of(vstd::slice::slice_subrange(cs.as_slice(), ps.len(), cs.len()));
        assert(cs@.subrange(ps@.len() as int, cs@.len() as int) =~= cs@.skip(ps@.len() as int));
        Some(rest)
    } else {
        None
    }
}

/// `str::strip_suffix` with a string pattern.
pub fn strip_suffix(s: &str, p: &str) -> (r: Option<String>)
    ensures
        match r {
            Some(rest) => ends(s@, p@) && rest@ == s@.take(s@.len() - p@.len()),
            None => !ends(s@, p@),
        },
{
    let cs = chars_of(s);
    let ps = chars_of(p);
    if ps.len() <= cs.len() && seq_occurs_at(&cs, &ps, cs.len() - ps.len()) {
        let rest = string_of(vstd::slice::slice_subrange(cs.as_slice(), 0, cs.len() - ps.len()));
        assert(cs@.subrange(0, cs@.len() - ps@.len()) =~= cs@.take(cs@.len() - ps@.len()));
        Some(rest)
    } else {
        None
    }
}

/// `char::is_whitespace`.
pub fn char_is_space(c: char) -> (r: bool)
    ensures
        r == is_space(c),
{
    ('\u{9}' <= c && c <= '\u{d}') || c == ' ' || c == '\u{85}' || c == '\u{a0}' || c
        == '\u{1680}' || ('\u{2000}' <= c && c <= '\u{200a}') || c == '\u{2028}' || c
        == '\u{2029}' || c == '\u{202f}' || c == '\u{205f}' || c == '\u{3000}'
}

proof fn lemma_trim_start_skip(s: Seq<char>, i: int)
    requires
        0 <= i <= s.len(),
        forall|j: int| 0 <= j < i ==> is_space(#[trigger] s[j]),
    ensures
        trim_start(s) == trim_start(s.skip(i)),
    decreases i,
{
    if i > 0 {
        assert(s.skip(1) =~= s.drop_first());
        lemma_trim_start_skip(s.drop_first(), i - 1);
        assert(s.drop_first().skip(i - 1) =~= s.skip(i));
    } else {
        assert(s.skip(0) =~= s);
    }
}

proof fn lemma_trim_end_take(s: Seq<char>, n: int)
    requires
        0 <= n <= s.len(),
        forall|j: int| n <= j < s.len() ==> is_space(#[trigger] s[j]),
    ensures
        trim_end(s) == trim_end(s.take(n)),
    decreases s.len() - n,
{
    if n < s.len() {
        assert(s.take(s.len() - 1) =~= s.drop_last());
        lemma_trim_end_take(s.drop_last(), n);
        assert(s.drop_last().take(n) =~= s.take(n));
    } else {
        assert(s.take(n) =~= s);
    }
}

/// `str::trim`.
pub fn trim_str(s: &str) -> (r: String)
    ensures
        r@ == trim(s@),
{
    let cs = chars_of(s);
    let mut start: usize = 0;
    while start < cs.len() && char_is_space(cs[start])
        invariant
            start <= cs@.len(),
            forall|j: int| 0 <= j < start ==> is_space(#[trigger] cs@[j]),
        decreases cs@.len() - start,
    {
        start = start + 1;
    }
    proof {
        lemma_trim_start_skip(cs@, start as int);
    }
    let ghost rest = cs@.skip(start as int);
    assert(rest.len() == 0 || !is_space(rest[0]));
    assert(trim_start(rest) == rest);
    let mut end: usize = cs.len();
    while end > start && char_is_space(cs[end - 1])
        invariant
            start <= end <= cs@.len(),
            forall|j: int| end <= j < cs@.len() ==> is_space(#[trigger] cs@[j]),
        decreases end,
    {
        end = end - 1;
    }
    proof {
        let r2 = rest;
        lemma_trim_end_take(r2, end - start);
        assert forall|j: int| end - start <= j < r2.len() implies is_space(#[trigger] r2[j]) by {
            assert(r2[j] == cs@[j + start]);
        }
        let t = r2.take(end - start);
        assert(t =~= cs@.subrange(start as int, end as int));
        assert(t.len() == 0 || !is_space(t.last()));
        assert(trim_end(t) == t);
    }
    string_of(vstd::slice::slice_subrange(cs.as_slice(), start, end))
}

/// `str::to_ascii_lowercase`.
pub fn to_lower(s: &str) -> (r: String)
    ensures
        r@ == lower(s@),
{
    let cs = chars_of(s);
    let mut out: Vec<char> = Vec::new();
    let mut i: usize = 0;
    while i < cs.len()
        invariant
            i <= cs@.len(),
            out@.len() == i,
            forall|j: int| 0 <= j < i ==> out@[j] == lower_char(#[trigger] cs@[j]),
        decreases cs@.len() - i,
    {
        let c = cs[i];
        if 'A' <= c && c <= 'Z' {
            let code = (c as u32) + 32;
            assert(code <= 0x7a);
            out.push(char_from_ascii(code as u8));
        } else {
            out.push(c);
        }
        i = i + 1;
    }
    assert(out@ =~= lower(cs@));
    string_of(out.as_slice())
}

/// The character of an ASCII code.
pub fn char_from_ascii(b: u8) -> (r: char)
    requires
        b < 128,
    ensures
        r == b as char,
        r as u32 == b as u32,
{
    b as char
}

/// `char::is_ascii_digit`.
pub fn char_is_digit(c: char) -> (r: bool)
    ensures
        r == is_digit(c),
{
    '0' <= c && c <= '9'
}

/// Whether every character is an ASCII digit.
pub fn is_all_digits(s: &str) -> (r: bool)
    ensures
        r == all_digits(s@),
{
    let cs = chars_of(s);
    let mut i: usize = 0;
    while i < cs.len()
        invariant
            cs@ == s@,
            i <= cs@.len(),
            forall|j: int| 0 <= j < i ==> is_digit(#[trigger] cs@[j]),
        decreases cs@.len() - i,
    {
        if !char_is_digit(cs[i]) {
            assert(!is_digit(cs@[i as int]));
            assert(!all_digits(cs@));
            return false;
        }
        i = i + 1;
    }
    true
}

/// The length of the run of non-whitespace characters at the start of `s`.
pub open spec fn token_len(s: Seq<char>) -> nat
    decreases s.len(),
{
    if s.len() == 0 || is_space(s[0]) {
        0
    } else {
        1 + token_len(s.drop_first())
    }
}

/// The first whitespace-separated token of `s`, or nothing
/// (`s.split_whitespace().next().unwrap_or("")`).
pub open spec fn first_token(s: Seq<char>) -> Seq<char> {
    let t = trim_start(s);
    t.take(token_len(t) as int)
}

proof fn lemma_token_len(s: Seq<char>, n: int)
    requires
        0 <= n <= s.len(),
        forall|j: int| 0 <= j < n ==> !is_space(#[trigger] s[j]),
        n == s.len() || is_space(s[n]),
    ensures
        token_len(s) == n,
    decreases n,
{
    if n > 0 {
        lemma_token_len(s.drop_first(), n - 1);
    }
}

/// The first whitespace-separated token of `s`, or the empty string.
pub fn first_token_of(s: &str) -> (r: String)
    ensures
        r@ == first_token(s@),
{
    let cs = chars_of(s);
    let mut start: usize = 0;
    while start < cs.len() && char_is_space(cs[start])
        invariant
            start <= cs@.len(),
            forall|j: int| 0 <= j < start ==> is_space(#[trigger] cs@[j]),
        decreases cs@.len() - start,
    {
        start = start + 1;
    }
    proof {
        lemma_trim_start_skip(cs@, start as int);
    }
    let ghost rest = cs@.skip(start as int);
    assert(rest.len() == 0 || !is_space(rest[0]));
    assert(trim_start(rest) == rest);
    let mut end: usize = start;
    while end < cs.len() && !char_is_space(cs[end])
        invariant
            start <= end <= cs@.len(),
            forall|j: int| start <= j < end ==> !is_space(#[trigger] cs@[j]),
        decreases cs@.len() - end,
    {
        end = end + 1;
    }
    proof {
        assert forall|j: int| 0 <= j < end - start implies !is_space(#[trigger] rest[j]) by {
            assert(rest[j] == cs@[j + start]);
        }
        lemma_token_len(rest, end - start);
        assert(rest.take(end - start) =~= cs@.subrange(start as int, end as int));
    }
    string_of(vstd::slice::slice_subrange(cs.as_slice(), start, end))
}

/// A path separator of either kind: `/` or `\`.
pub open spec fn is_separator(c: char) -> bool {
    c == '/' || c == '\\'
}

/// What follows the last separator of `s` (all of `s` when there is none).
pub open spec fn last_segment(s: Seq<char>) -> Seq<char>
    decreases s.len(),
{
    if s.len() == 0 {
        s
    } else if is_separator(s.last()) {
        Seq::empty()
    } else {
        last_segment(s.drop_last()).push(s.last())
    }
}

proof fn lemma_last_segment(s: Seq<char>, k: int)
    requires
        0 <= k <= s.len(),
        k == 0 || is_separator(s[k - 1]),
        forall|j: int| k <= j < s.len() ==> !is_separator(#[trigger] s[j]),
    ensures
        last_segment(s) == s.skip(k),
    decreases s.len(),
{
    if s.len() > 0 {
        if k == s.len() {
            assert(s.skip(k).len() == 0);
        } else {
            lemma_last_segment(s.drop_last(), k);
            assert(s.skip(k) =~= s.drop_last().skip(k).push(s.last()));
        }
    }
}

/// What follows the last `/` or `\\` of `s`.
pub fn last_segment_of(s: &str) -> (r: String)
    ensures
        r@ == last_segment(s@),
{
    let cs = chars_of(s);
    let mut k: usize = cs.len();
    while k > 0 && cs[k - 1] != '/' && cs[k - 1] != '\\'
        invariant
            k <= cs@.len(),
            forall|j: int| k <= j < cs@.len() ==> !is_separator(#[trigger] cs@[j]),
        decreases k,
    {
        k = k - 1;
    }
    proof {
        lemma_last_segment(cs@, k as int);
        assert(cs@.skip(k as int) =~= cs@.subrange(k as int, cs@.len() as int));
    }
    string_of(vstd::slice::slice_subrange(cs.as_slice(), k, cs.len()))
}

/// Whether `a` sorts strictly before `b`, character by character (the order of `String`).
pub open spec fn text_lt(a: Seq<char>, b: Seq<char>) -> bool
    decreases a.len(),
{
    if b.len() == 0 {
        false
    } else if a.len() == 0 {
        true
    } else if a[0] != b[0] {
        (a[0] as u32) < (b[0] as u32)
    } else {
        text_lt(a.drop_first(), b.drop_first())
    }
}

/// Whether `a` sorts strictly before `b`.
pub fn str_lt(a: &str, b: &str) -> (r: bool)
    ensures
        r == text_lt(a@, b@),
{
    let x = chars_of(a);
    let y = chars_of(b);
    let mut i: usize = 0;
    assert(x@.skip(0) =~= x@);
    assert(y@.skip(0) =~= y@);
    while i < x.len() && i < y.len() && x[i] == y[i]
        invariant
            i <= x@.len(),
            i <= y@.len(),
            text_lt(a@, b@) == text_lt(x@.skip(i as int), y@.skip(i as int)),
            x@ == a@,
            y@ == b@,
        decreases x@.len() - i,
    {
        assert(x@.skip(i as int).drop_first() =~= x@.skip(i + 1));
        assert(y@.skip(i as int).drop_first() =~= y@.skip(i + 1));
        i = i + 1;
    }
    if i == y.len() {
        false
    } else if i == x.len() {
        true
    } else {
        assert(x@.skip(i as int)[0] == x@[i as int]);
        assert(y@.skip(i as int)[0] == y@[i as int]);
        (x[i] as u32) < (y[i] as u32)
    }
}

/// The text before the first line feed (all of `s` when there is none).
pub open spec fn before_newline(s: Seq<char>) -> Seq<char> {
    match find(s, seq!['\n']) {
        Some(i) => s.take(i),
        None => s,
    }
}

/// The first line of `s`, trimmed (`s.lines().next().unwrap_or("").trim()`).
pub open spec fn first_line_trimmed(s: Seq<char>) -> Seq<char> {
    trim(before_newline(s))
}

/// The first line of `s`, trimmed.
pub fn first_line_of(s: &str) -> (r: String)
    ensures
        r@ == first_line_trimmed(s@),
{
    let nl = string_of(&['\n']);
    assert(nl@ =~= seq!['\n']);
    let line = match split_once(s, nl.as_str()) {
        Some((before, _)) => before,
        None => s.to_owned(),
    };
    trim_str(line.as_str())
}

} // verus!
