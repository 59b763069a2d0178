//! Decimal numbers in text: the digits `write!` prints for an unsigned integer, and what
//! `str::parse` reads back as one.

use vstd::prelude::*;

use crate::text::{all_digits, chars_of, is_digit, char_is_digit, char_from_ascii};

verus! {

/// The value of a digit character.
pub open spec fn digit_value(c: char) -> nat {
    ((c as u32) - ('0' as u32)) as nat
}

/// The character of a digit value.
pub open spec fn digit_char(d: nat) -> char {
    (('0' as u32) + d) as char
}

/// The value of a string of decimal digits.
pub open spec fn digits_value(s: Seq<char>) -> nat
    decreases s.len(),
{
    if s.len() == 0 {
        0
    } else {
        digits_value(s.drop_last()) * 10 + digit_value(s.last())
    }
}

/// The decimal digits of `n`, with no leading zero.
pub open spec fn decimal(n: nat) -> Seq<char>
    decreases n,
{
    if n < 10 {
        seq![digit_char(n)]
    } else {
        decimal(n / 10).push(digit_char(n % 10))
    }
}

/// What `str::parse` reads as an unsigned integer no greater than `max`: an optional `+`,
/// then one or more decimal digits.
pub open spec fn parse_unsigned(s: Seq<char>, max: nat) -> Option<nat> {
    let d = unsigned_digits(s);
    if d.len() > 0 && all_digits(d) && digits_value(d) <= max {
        Some(digits_value(d))
    } else {
        None
    }
}

/// The digits of an unsigned number in text: without one leading `+`.
pub open spec fn unsigned_digits(s: Seq<char>) -> Seq<char> {
    if s.len() > 0 && s[0] == '+' {
        s.drop_first()
    } else {
        s
    }
}

/// Printing a number and reading it back gives the number.
pub proof fn lemma_decimal_roundtrip(n: nat)
    ensures
        decimal(n).len() > 0,
        all_digits(decimal(n)),
        decimal(n)[0] != '+',
        digits_value(decimal(n)) == n,
    decreases n,
{
    if n < 10 {
        assert((('0' as u32) + n) as char as u32 == ('0' as u32) + n);
        assert(digit_value(digit_char(n)) == n);
        assert(decimal(n).drop_last() =~= Seq::<char>::empty());
        assert(digits_value(Seq::<char>::empty()) == 0);
        assert(digits_value(decimal(n)) == digits_value(decimal(n).drop_last()) * 10 + digit_value(decimal(n).last()));
    } else {
        lemma_decimal_roundtrip(n / 10);
        let d = decimal(n);
        assert(d.drop_last() =~= decimal(n / 10));
        assert(d[0] == decimal(n / 10)[0]);
        assert forall|i: int| 0 <= i < d.len() implies is_digit(#[trigger] d[i]) by {
            if i < d.len() - 1 {
                assert(d[i] == decimal(n / 10)[i]);
            }
        }
        assert(n == (n / 10) * 10 + n % 10) by (nonlinear_arith);
        let k = n % 10;
        assert(k < 10);
        assert((('0' as u32) + k) as char as u32 == ('0' as u32) + k);
        assert(digit_value(digit_char(k)) == k);
        assert(d.last() == digit_char(k));
        assert(digits_value(d) == digits_value(decimal(n / 10)) * 10 + k);
        assert(digits_value(decimal(n / 10)) == n / 10);
        assert(digits_value(d) == n);
    }
}

/// A parsed number is read back from its digits.
pub proof fn lemma_parse_decimal(n: nat, max: nat)
    requires
        n <= max,
    ensures
        parse_unsigned(decimal(n), max) == Some(n),
{
    lemma_decimal_roundtrip(n);
}

proof fn lemma_digits_value_prefix(s: Seq<char>, i: int)
    requires
        0 <= i <= s.len(),
        all_digits(s),
    ensures
        digits_value(s.take(i)) <= digits_value(s),
    decreases s.len() - i,
{
    if i < s.len() {
        lemma_digits_value_prefix(s, i + 1);
        assert(s.take(i + 1).drop_last() =~= s.take(i));
    } else {
        assert(s.take(i) =~= s);
    }
}

/// Reads an unsigned integer no greater than `usize::MAX` (`str::parse::<usize>`).
pub fn parse_usize(s: &str) -> (r: Option<usize>)
    ensures
        match r {
            Some(n) => parse_unsigned(s@, usize::MAX as nat) == Some(n as nat),
            None => parse_unsigned(s@, usize::MAX as nat) is None,
        },
{
    let cs = chars_of(s);
    let start: usize = if cs.len() > 0 && cs[0] == '+' { 1 } else { 0 };
    let ghost d = cs@.skip(start as int);
    assert(d =~= unsigned_digits(s@));
    if start >= cs.len() {
        return None;
    }
    let mut acc: usize = 0;
    let mut i: usize = start;
    while i < cs.len()
        invariant
            start <= i <= cs@.len(),
            cs@ == s@,
            start == 0 || (cs@.len() > 0 && cs@[0] == '+' && start == 1),
            start == 0 ==> !(cs@.len() > 0 && cs@[0] == '+'),
            d == cs@.skip(start as int),
            d == unsigned_digits(s@),
            acc as nat == digits_value(d.take(i - start)),
            all_digits(d.take(i - start)),
        decreases cs@.len() - i,
    {
        let c = cs[i];
        assert(d[i - start] == c);
        if !char_is_digit(c) {
            assert(!is_digit(d[i - start]));
            assert(!all_digits(d));
            return None;
        }
        let dv: usize = (c as u32 - '0' as u32) as usize;
        assert(d.take(i + 1 - start).drop_last() =~= d.take(i - start));
        assert(d.take(i + 1 - start).last() == c);
        assert(all_digits(d.take(i + 1 - start)));
        match acc.checked_mul(10) {
            Some(m) => match m.checked_add(dv) {
                Some(next) => {
                    acc = next;
                },
                None => {
                    proof {
                        if all_digits(d) {
                            lemma_digits_value_prefix(d, i + 1 - start);
                            assert(digit_value(c) == dv);
                            assert(digits_value(d.take(i + 1 - start)) == m + dv);
                            assert(digits_value(d) > usize::MAX);
                        }
                    }
                    return None;
                },
            },
            None => {
                proof {
                    if all_digits(d) {
                        lemma_digits_value_prefix(d, i + 1 - start);
                        assert(digits_value(d.take(i + 1 - start)) == acc * 10 + digit_value(c));
                        assert(digits_value(d.take(i + 1 - start)) >= acc * 10);
                        assert(digits_value(d) > usize::MAX);
                    }
                }
                return None;
            },
        }
        i = i + 1;
    }
    assert(d.take(i - start) =~= d);
    Some(acc)
}

proof fn lemma_digit_byte(k: nat)
    requires
        k < 10,
    ensures
        digit_char(k) as u8 == (k + 48) as u8,
{
    assert((('0' as u32) + k) as char as u32 == ('0' as u32) + k);
    assert((k + 48) < 256);
}

/// The ASCII digits of `n` (`write!` of an unsigned integer).
pub fn decimal_digits(n: usize) -> (r: Vec<u8>)
    ensures
        r@ == Seq::new(decimal(n as nat).len(), |i: int| decimal(n as nat)[i] as u8),
    decreases n,
{
    if n < 10 {
        let mut v = Vec::new();
        v.push((n as u8) + 48);
        proof {
            lemma_digit_byte(n as nat);
        }
        assert(v@ =~= Seq::new(decimal(n as nat).len(), |i: int| decimal(n as nat)[i] as u8));
        v
    } else {
        let mut v = decimal_digits(n / 10);
        v.push(((n % 10) as u8) + 48);
        proof {
            lemma_digit_byte((n % 10) as nat);
            let d = decimal(n as nat);
            assert(d == decimal((n / 10) as nat).push(digit_char((n % 10) as nat)));
        }
        assert(v@ =~= Seq::new(decimal(n as nat).len(), |i: int| decimal(n as nat)[i] as u8));
        v
    }
}

} // verus!
