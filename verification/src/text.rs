//! Character-level text utilities: conversion between strings and character
//! vectors, ASCII lower-casing, and decimal rendering of integers (plain and
//! zero-padded), with injectivity lemmas used for id uniqueness.

use vstd::prelude::*;
use vstd::string::*;

verus! {

broadcast use vstd::string::group_string_axioms;

/// The characters of a string, in order, as a vector.
pub fn chars_of(s: &str) -> (r: Vec<char>)
    ensures
        r@ == s@,
{
    let n = s.unicode_len();
    let mut out: Vec<char> = Vec::new();
    let mut i: usize = 0;
    while i < n
        invariant
            i <= n,
            n == s@.len(),
            out@ == s@.subrange(0, i as int),
        decreases n - i,
    {
        out.push(s.get_char(i));
        i = i + 1;
        assert(out@ =~= s@.subrange(0, i as int));
    }
    assert(out@ =~= s@);
    out
}

/// Relies on `String: FromIterator<char>`: collecting an iterator of
/// characters builds the string of exactly those characters in order.
#[verifier::external_body]
pub fn string_of(v: &Vec<char>) -> (r: String)
    ensures
        r@ == v@,
{
    v.iter().collect()
}

/// ASCII lower-casing of one character; anything outside 'A'..='Z' is kept.
pub open spec fn lower_char_spec(c: char) -> char {
    if 'A' <= c && c <= 'Z' {
        (((c as u32) + 32) as u8) as char
    } else {
        c
    }
}

pub fn lower_char(c: char) -> (r: char)
    ensures
        r == lower_char_spec(c),
{
    if 'A' <= c && c <= 'Z' {
        (((c as u32) + 32) as u8) as char
    } else {
        c
    }
}

pub open spec fn lower_seq(s: Seq<char>) -> Seq<char> {
    Seq::new(s.len(), |i: int| lower_char_spec(s[i]))
}

/// ASCII lower-casing of a character vector.
pub fn lower_vec(v: &Vec<char>) -> (r: Vec<char>)
    ensures
        r@ == lower_seq(v@),
{
    let mut out: Vec<char> = Vec::new();
    let mut i: usize = 0;
    while i < v.len()
        invariant
            i <= v.len(),
            out@ == lower_seq(v@.subrange(0, i as int)),
        decreases v.len() - i,
    {
        out.push(lower_char(v[i]));
        i = i + 1;
        assert(out@ =~= lower_seq(v@.subrange(0, i as int)));
    }
    assert(v@.subrange(0, v.len() as int) =~= v@);
    out
}

/// Whether a character vector holds exactly the characters of a string.
pub fn chars_eq_str(v: &Vec<char>, s: &str) -> (r: bool)
    ensures
        r == (v@ == s@),
{
    let n = s.unicode_len();
    if v.len() != n {
        return false;
    }
    let mut i: usize = 0;
    while i < n
        invariant
            i <= n,
            n == s@.len(),
            v@.len() == n,
            forall|j: int| 0 <= j < i ==> v@[j] == s@[j],
        decreases n - i,
    {
        if v[i] != s.get_char(i) {
            return false;
        }
        i = i + 1;
    }
    assert(v@ =~= s@);
    true
}

/// The decimal digit character for a value in 0..=9.
pub open spec fn dec_digit(d: int) -> char
    recommends
        0 <= d < 10,
{
    if d == 0 {
        '0'
    } else if d == 1 {
        '1'
    } else if d == 2 {
        '2'
    } else if d == 3 {
        '3'
    } else if d == 4 {
        '4'
    } else if d == 5 {
        '5'
    } else if d == 6 {
        '6'
    } else if d == 7 {
        '7'
    } else if d == 8 {
        '8'
    } else {
        '9'
    }
}

pub fn dec_digit_exec(d: u64) -> (c: char)
    requires
        d < 10,
    ensures
        c == dec_digit(d as int),
{
    if d == 0 {
        '0'
    } else if d == 1 {
        '1'
    } else if d == 2 {
        '2'
    } else if d == 3 {
        '3'
    } else if d == 4 {
        '4'
    } else if d == 5 {
        '5'
    } else if d == 6 {
        '6'
    } else if d == 7 {
        '7'
    } else if d == 8 {
        '8'
    } else {
        '9'
    }
}

/// The usual decimal rendering of a non-negative integer, without leading
/// zeros (except for the single digit of zero itself).
pub open spec fn dec_rep(n: int) -> Seq<char>
    recommends
        n >= 0,
    decreases n,
{
    if n < 10 {
        seq![dec_digit(n)]
    } else {
        dec_rep(n / 10).push(dec_digit(n % 10))
    }
}

/// Decimal rendering zero-padded to a minimum width of two digits.
pub open spec fn dec_pad2(n: int) -> Seq<char>
    recommends
        n >= 0,
{
    if n < 10 {
        seq!['0'] + dec_rep(n)
    } else {
        dec_rep(n)
    }
}

/// Decimal rendering zero-padded to a minimum width of three digits.
pub open spec fn dec_pad3(n: int) -> Seq<char>
    recommends
        n >= 0,
{
    if n < 100 {
        seq!['0'] + dec_pad2(n)
    } else {
        dec_rep(n)
    }
}

/// Appends the decimal rendering of `n` to `out`.
pub fn push_dec(out: &mut Vec<char>, n: u64)
    ensures
        final(out)@ == old(out)@ + dec_rep(n as int),
    decreases n,
{
    if n < 10 {
        out.push(dec_digit_exec(n));
        assert(out@ =~= old(out)@ + dec_rep(n as int));
    } else {
        push_dec(out, n / 10);
        out.push(dec_digit_exec(n % 10));
        assert(out@ =~= old(out)@ + dec_rep(n as int));
    }
}

/// Appends the two-digit-padded decimal rendering of `n` to `out`.
pub fn push_dec_pad2(out: &mut Vec<char>, n: u64)
    ensures
        final(out)@ == old(out)@ + dec_pad2(n as int),
{
    if n < 10 {
        out.push('0');
    }
    push_dec(out, n);
    assert(n < 10 ==> out@ =~= old(out)@ + dec_pad2(n as int));
}

/// Appends the three-digit-padded decimal rendering of `n` to `out`.
pub fn push_dec_pad3(out: &mut Vec<char>, n: u64)
    ensures
        final(out)@ == old(out)@ + dec_pad3(n as int),
{
    if n < 100 {
        out.push('0');
        push_dec_pad2(out, n);
        assert(out@ =~= old(out)@ + dec_pad3(n as int));
    } else {
        push_dec(out, n);
    }
}

pub proof fn lemma_dec_digit_val(d: int)
    requires
        0 <= d < 10,
    ensures
        dec_digit(d) as u32 == 48 + d,
{
}

pub proof fn lemma_dec_rep_len(n: int)
    requires
        n >= 0,
    ensures
        dec_rep(n).len() >= 1,
        n >= 10 ==> dec_rep(n).len() >= 2,
    decreases n,
{
    if n >= 10 {
        lemma_dec_rep_len(n / 10);
    }
}

/// Two distinct non-negative integers never share a decimal rendering.
pub proof fn lemma_dec_rep_injective(a: int, b: int)
    requires
        a >= 0,
        b >= 0,
        dec_rep(a) == dec_rep(b),
    ensures
        a == b,
    decreases a,
{
    lemma_dec_rep_len(a);
    lemma_dec_rep_len(b);
    if a < 10 && b < 10 {
        assert(dec_rep(a) == seq![dec_digit(a)]);
        assert(dec_rep(b) == seq![dec_digit(b)]);
        assert(dec_rep(a)[0] == dec_digit(a));
        assert(dec_rep(b)[0] == dec_digit(b));
        assert(dec_digit(a) == dec_digit(b));
        lemma_dec_digit_val(a);
        lemma_dec_digit_val(b);
        assert(dec_digit(a) as u32 == dec_digit(b) as u32);
        assert(a == b);
    } else if a < 10 {
        assert(dec_rep(a).len() == 1);
        assert(false);
    } else if b < 10 {
        assert(dec_rep(b).len() == 1);
        assert(false);
    } else {
        let ra = dec_rep(a / 10);
        let rb = dec_rep(b / 10);
        assert(dec_rep(a).last() == dec_digit(a % 10));
        assert(dec_rep(b).last() == dec_digit(b % 10));
        lemma_dec_digit_val(a % 10);
        lemma_dec_digit_val(b % 10);
        assert(a % 10 == b % 10);
        assert(ra =~= rb) by {
            assert(ra.len() == rb.len());
            assert forall|i: int| 0 <= i < ra.len() implies ra[i] == rb[i] by {
                assert(ra[i] == dec_rep(a)[i]);
                assert(rb[i] == dec_rep(b)[i]);
            }
        }
        lemma_dec_rep_injective(a / 10, b / 10);
    }
}

} // verus!
