//! Text primitives shared by the whole crate: character classes, conversion
//! between strings and character vectors, and decimal numerals.
//!
//! Every contract in the crate speaks of text as `Seq<char>`, the view of
//! `str` and `String`.

use vstd::prelude::*;

verus! {

/// The Unicode `Alphabetic` property of a character, as `char::is_alphabetic`
/// reports it.
pub uninterp spec fn unicode_alphabetic(c: char) -> bool;

/// The Unicode `White_Space` property of a character, as
/// `char::is_whitespace` reports it.
pub uninterp spec fn unicode_whitespace(c: char) -> bool;

/// Whether a character is alphabetic or numeric in Unicode's sense, as
/// `char::is_alphanumeric` reports it.
pub uninterp spec fn unicode_alphanumeric(c: char) -> bool;

/// The lowercase form of a text, as `str::to_lowercase` computes it.
pub uninterp spec fn unicode_lowercase(s: Seq<char>) -> Seq<char>;

/// Calls `char::is_alphabetic`. Trusted: the result is the Unicode
/// `Alphabetic` property of `c`, which this crate only names.
#[verifier::external_body]
pub(crate) fn is_alphabetic(c: char) -> (b: bool)
    ensures
        b == unicode_alphabetic(c),
{
    c.is_alphabetic()
}

/// Calls `char::is_whitespace`. Trusted: the result is the Unicode
/// `White_Space` property of `c`, which this crate only names.
#[verifier::external_body]
pub(crate) fn is_whitespace(c: char) -> (b: bool)
    ensures
        b == unicode_whitespace(c),
{
    c.is_whitespace()
}

/// Calls `char::is_alphanumeric`. Trusted: the result is the Unicode
/// classification of `c`, which this crate only names.
#[verifier::external_body]
pub(crate) fn is_alphanumeric(c: char) -> (b: bool)
    ensures
        b == unicode_alphanumeric(c),
{
    c.is_alphanumeric()
}

/// Calls `str::to_lowercase`. Trusted: the result is the lowercase form of
/// `s`, which this crate only names.
#[verifier::external_body]
pub(crate) fn to_lowercase(s: &str) -> (r: String)
    ensures
        r@ == unicode_lowercase(s@),
{
    s.to_lowercase()
}

/// Calls `String::push`. Trusted: the character is appended at the end and
/// nothing else changes.
#[verifier::external_body]
pub(crate) fn push_char(s: &mut String, c: char)
    ensures
        final(s)@ == old(s)@.push(c),
{
    s.push(c);
}

/// The characters of `s`, in order.
pub fn chars_of(s: &str) -> (v: Vec<char>)
    ensures
        v@ == s@,
{
    let mut v: Vec<char> = Vec::new();
    for c in it: s.chars()
        invariant
            v@ == it.seq().take(it.index() as int),
    {
        v.push(c);
    }
    v
}

/// The character at position `i`.
pub fn char_at(v: &Vec<char>, i: usize) -> (c: char)
    requires
        i < v.len(),
    ensures
        c == v@[i as int],
{
    v[i]
}

/// The text made of `v[from..to]`.
pub fn string_of(v: &Vec<char>, from: usize, to: usize) -> (s: String)
    requires
        from <= to <= v.len(),
    ensures
        s@ == v@.subrange(from as int, to as int),
{
    let mut s = String::new();
    let mut i: usize = from;
    while i < to
        invariant
            from <= i <= to <= v.len(),
            s@ == v@.subrange(from as int, i as int),
        decreases to - i,
    {
        push_char(&mut s, v[i]);
        i += 1;
        assert(v@.subrange(from as int, i as int) == v@.subrange(from as int, i - 1).push(
            v@[i - 1],
        ));
    }
    s
}

/// Whether two texts hold the same characters.
pub fn same_text(a: &str, b: &str) -> (r: bool)
    ensures
        r == (a@ == b@),
{
    let x = a.to_owned();
    let y = b.to_owned();
    x == y
}

/// How often `c` occurs in `s`.
pub open spec fn occurrences(s: Seq<char>, c: char) -> nat
    decreases s.len(),
{
    if s.len() == 0 {
        0
    } else {
        occurrences(s.drop_last(), c) + if s.last() == c {
            1nat
        } else {
            0nat
        }
    }
}

/// How often `c` occurs in `v[from..to]`.
pub fn count_char(v: &Vec<char>, from: usize, to: usize, c: char) -> (n: usize)
    requires
        from <= to <= v.len(),
    ensures
        n == occurrences(v@.subrange(from as int, to as int), c),
{
    let mut n: usize = 0;
    let mut i: usize = from;
    assert(v@.subrange(from as int, from as int) =~= Seq::<char>::empty());
    while i < to
        invariant
            from <= i <= to <= v.len(),
            n <= i - from,
            n == occurrences(v@.subrange(from as int, i as int), c),
        decreases to - i,
    {
        proof {
            let next = v@.subrange(from as int, i + 1);
            assert(next.drop_last() =~= v@.subrange(from as int, i as int));
            assert(next.last() == v@[i as int]);
        }
        if char_at(v, i) == c {
            n += 1;
        }
        i += 1;
    }
    n
}

/// Whether `c` is one of the ten ASCII digits.
pub open spec fn is_digit(c: char) -> bool {
    '0' <= c <= '9'
}

/// The value of an ASCII digit.
pub open spec fn digit_value(c: char) -> nat
    recommends
        is_digit(c),
{
    (c as int - '0' as int) as nat
}

/// The ASCII digit that stands for `d`.
pub open spec fn digit_char(d: nat) -> char
    recommends
        d < 10,
{
    if d == 0 {
        '0'
    } else if d == 1 {
        '1'
    } else if d == 2 {
        '2'
    } else if d == 3 {
        '3'
    } else if d == 4 {
        '4'
    } else if d == 5 {
        '5'
    } else if d == 6 {
        '6'
    } else if d == 7 {
        '7'
    } else if d == 8 {
        '8'
    } else {
        '9'
    }
}

/// The decimal numeral of a natural number, without leading zeros.
pub open spec fn nat_text(n: nat) -> Seq<char>
    decreases n,
{
    if n < 10 {
        seq![digit_char(n)]
    } else {
        nat_text(n / 10).push(digit_char(n % 10))
    }
}

/// The decimal numeral of an integer: a minus sign for negative numbers, then
/// the digits of the magnitude.
pub open spec fn int_text(i: int) -> Seq<char> {
    if i < 0 {
        seq!['-'] + nat_text((-i) as nat)
    } else {
        nat_text(i as nat)
    }
}

/// The number that a run of ASCII digits denotes; the empty run denotes 0.
pub open spec fn digits_value(s: Seq<char>) -> nat
    decreases s.len(),
{
    if s.len() == 0 {
        0
    } else {
        digits_value(s.drop_last()) * 10 + digit_value(s.last())
    }
}

/// Whether every character of `s` is an ASCII digit.
pub open spec fn all_digits(s: Seq<char>) -> bool {
    forall|i: int| 0 <= i < s.len() ==> is_digit(#[trigger] s[i])
}

/// A run of digits denotes at least what any of its prefixes denotes.
pub proof fn lemma_digits_value_prefix(s: Seq<char>, k: int)
    requires
        0 <= k <= s.len(),
    ensures
        digits_value(s.take(k)) <= digits_value(s),
    decreases s.len(),
{
    if k < s.len() {
        lemma_digits_value_prefix(s.drop_last(), k);
        assert(s.drop_last().take(k) == s.take(k));
    } else {
        assert(s.take(k) == s);
    }
}

fn digit_of(d: u64) -> (c: char)
    requires
        d < 10,
    ensures
        c == digit_char(d as nat),
{
    if d == 0 {
        '0'
    } else if d == 1 {
        '1'
    } else if d == 2 {
        '2'
    } else if d == 3 {
        '3'
    } else if d == 4 {
        '4'
    } else if d == 5 {
        '5'
    } else if d == 6 {
        '6'
    } else if d == 7 {
        '7'
    } else if d == 8 {
        '8'
    } else {
        '9'
    }
}

/// Appends the decimal numeral of `n` to `s`.
pub fn push_nat(s: &mut String, n: u64)
    ensures
        final(s)@ == old(s)@ + nat_text(n as nat),
    decreases n,
{
    if n >= 10 {
        push_nat(s, n / 10);
    }
    push_char(s, digit_of(n % 10));
    proof {
        if n >= 10 {
            assert(s@ == old(s)@ + nat_text(n as nat));
        } else {
            assert(s@ == old(s)@ + nat_text(n as nat));
        }
    }
}

/// Appends the decimal numeral of `i` to `s`.
pub fn push_int(s: &mut String, i: i64)
    ensures
        final(s)@ == old(s)@ + int_text(i as int),
{
    if i < 0 {
        push_char(s, '-');
        let magnitude: u64 = ((-(i + 1)) as u64) + 1;
        push_nat(s, magnitude);
        assert(s@ == old(s)@ + int_text(i as int));
    } else {
        push_nat(s, i as u64);
    }
}

/// The decimal numeral of `i` as a new string.
pub fn int_string(i: i64) -> (s: String)
    ensures
        s@ == int_text(i as int),
{
    let mut s = String::new();
    push_int(&mut s, i);
    assert(s@ == int_text(i as int));
    s
}

/// Reads `v[from..to]` as a run of ASCII digits. Returns the number it
/// denotes when every character is a digit and the number is at most
/// `limit`, and `None` otherwise.
pub fn parse_digits(v: &Vec<char>, from: usize, to: usize, limit: u64) -> (r: Option<u64>)
    requires
        from <= to <= v.len(),
    ensures
        r == bounded_digits(v@.subrange(from as int, to as int), limit),
{
    let ghost run = v@.subrange(from as int, to as int);
    let mut acc: u64 = 0;
    let mut i: usize = from;
    while i < to
        invariant
            from <= i <= to <= v.len(),
            run == v@.subrange(from as int, to as int),
            all_digits(run.take(i - from)),
            acc == digits_value(run.take(i - from)),
            acc <= limit,
        decreases to - i,
    {
        let c = v[i];
        proof {
            assert(run[i - from] == c);
            assert(run.take(i - from + 1).drop_last() == run.take(i - from));
            assert(run.take(i - from + 1).last() == c);
        }
        if !('0' <= c && c <= '9') {
            assert(!all_digits(run));
            return None;
        }
        let d: u64 = (c as u32 - '0' as u32) as u64;
        if d > limit || acc > (limit - d) / 10 {
            proof {
                lemma_digits_value_prefix(run, i - from + 1);
                assert(digits_value(run.take(i - from + 1)) == acc * 10 + d);
                assert(acc * 10 + d > limit) by (nonlinear_arith)
                    requires
                        acc > (limit - d) / 10 || d > limit,
                        d <= 9,
                        acc >= 0,
                ;
            }
            return None;
        }
        assert(acc * 10 + d <= limit) by (nonlinear_arith)
            requires
                acc <= (limit - d) / 10,
                d <= limit,
        ;
        acc = acc * 10 + d;
        i += 1;
        proof {
            assert forall|k: int| 0 <= k < run.take(i - from).len() implies is_digit(
                #[trigger] run.take(i - from)[k],
            ) by {
                if k < i - from - 1 {
                    assert(run.take(i - from - 1)[k] == run.take(i - from)[k]);
                }
            }
        }
    }
    proof {
        assert(run.take(to - from) == run);
    }
    Some(acc)
}

/// What a run of characters denotes as a number of at most `limit`: `None`
/// when a character is no digit or the number is larger.
pub open spec fn bounded_digits(s: Seq<char>, limit: u64) -> Option<u64> {
    if all_digits(s) && digits_value(s) <= limit {
        Some(digits_value(s) as u64)
    } else {
        None
    }
}

} // verus!
