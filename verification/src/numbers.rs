//! Decimal numerals: the spec-level decimal form of a number, verified
//! formatting into strings, and the integer base-10 logarithm the footer
//! layout uses.

use vstd::prelude::*;

verus! {

/// The decimal digit character for `d`, meaningful for `d < 10`.
pub open spec fn digit_char(d: nat) -> char {
    if d == 0 {
        '0'
    } else if d == 1 {
        '1'
    } else if d == 2 {
        '2'
    } else if d == 3 {
        '3'
    } else if d == 4 {
        '4'
    } else if d == 5 {
        '5'
    } else if d == 6 {
        '6'
    } else if d == 7 {
        '7'
    } else if d == 8 {
        '8'
    } else {
        '9'
    }
}

/// The numeric value of a decimal digit character, None for any other
/// character.
pub open spec fn digit_val(c: char) -> Option<nat> {
    if c == '0' {
        Some(0 as nat)
    } else if c == '1' {
        Some(1 as nat)
    } else if c == '2' {
        Some(2 as nat)
    } else if c == '3' {
        Some(3 as nat)
    } else if c == '4' {
        Some(4 as nat)
    } else if c == '5' {
        Some(5 as nat)
    } else if c == '6' {
        Some(6 as nat)
    } else if c == '7' {
        Some(7 as nat)
    } else if c == '8' {
        Some(8 as nat)
    } else if c == '9' {
        Some(9 as nat)
    } else {
        None
    }
}

/// The decimal numeral of `n`, most significant digit first, with no sign
/// and no leading zeros (the numeral of 0 is "0").
pub open spec fn dec_of(n: nat) -> Seq<char>
    decreases n,
{
    if n < 10 {
        seq![digit_char(n)]
    } else {
        dec_of(n / 10).push(digit_char(n % 10))
    }
}

/// Every character of a decimal numeral is a digit.
pub proof fn lemma_dec_of_digits(n: nat)
    ensures
        dec_of(n).len() >= 1,
        forall|i: int| 0 <= i < dec_of(n).len() ==> digit_val(#[trigger] dec_of(n)[i]) is Some,
    decreases n,
{
    if n < 10 {
        assert(digit_val(digit_char(n)) is Some);
    } else {
        lemma_dec_of_digits(n / 10);
        assert(digit_val(digit_char(n % 10)) is Some);
        assert(forall|i: int|
            0 <= i < dec_of(n).len() - 1 ==> dec_of(n)[i] == dec_of(n / 10)[i]);
    }
}

/// The value of a digit string read most significant digit first.
pub open spec fn digits_val(s: Seq<char>) -> nat
    decreases s.len(),
{
    if s.len() == 0 {
        0
    } else {
        digits_val(s.drop_last()) * 10 + (match digit_val(s.last()) {
            Some(d) => d,
            None => 0,
        })
    }
}

/// Reading the decimal numeral of `n` back yields `n`.
pub proof fn lemma_digits_val_dec_of(n: nat)
    ensures
        digits_val(dec_of(n)) == n,
    decreases n,
{
    if n < 10 {
        assert(dec_of(n).drop_last() =~= Seq::<char>::empty());
        assert(dec_of(n).last() == digit_char(n));
        assert(digit_val(digit_char(n)) == Some(n));
        assert(digits_val(Seq::<char>::empty()) == 0);
        assert(digits_val(dec_of(n)) == n);
    } else {
        lemma_digits_val_dec_of(n / 10);
        assert(dec_of(n).drop_last() =~= dec_of(n / 10));
        assert(dec_of(n).last() == digit_char(n % 10));
        assert(digit_val(digit_char(n % 10)) == Some(n % 10));
        assert(digits_val(dec_of(n)) == digits_val(dec_of(n / 10)) * 10 + n % 10);
    }
}

/// The floor of the base-10 logarithm, with 0 mapped to 0.
pub open spec fn log10_floor(n: nat) -> nat
    decreases n,
{
    if n < 10 {
        0
    } else {
        1 + log10_floor(n / 10)
    }
}

/// The decimal digit character for `d`.
pub fn digit_of(d: u64) -> (c: char)
    requires
        d < 10,
    ensures
        c == digit_char(d as nat),
{
    if d == 0 {
        '0'
    } else if d == 1 {
        '1'
    } else if d == 2 {
        '2'
    } else if d == 3 {
        '3'
    } else if d == 4 {
        '4'
    } else if d == 5 {
        '5'
    } else if d == 6 {
        '6'
    } else if d == 7 {
        '7'
    } else if d == 8 {
        '8'
    } else {
        '9'
    }
}

/// Appends the decimal numeral of `n` to `s`.
pub fn push_dec(s: &mut String, n: u64)
    ensures
        final(s)@ == old(s)@ + dec_of(n as nat),
    decreases n,
{
    if n < 10 {
        s.push(digit_of(n));
        proof {
            assert(s@ =~= old(s)@ + dec_of(n as nat));
        }
    } else {
        push_dec(s, n / 10);
        s.push(digit_of(n % 10));
        proof {
            assert(s@ =~= old(s)@ + dec_of(n as nat));
        }
    }
}

/// The decimal numeral of `n` as a string.
pub fn u64_to_string(n: u64) -> (r: String)
    ensures
        r@ == dec_of(n as nat),
{
    let mut s = String::new();
    push_dec(&mut s, n);
    proof {
        assert(s@ =~= dec_of(n as nat));
    }
    s
}

/// The base-10 logarithm never exceeds its argument.
pub proof fn lemma_log10_floor_le_self(n: nat)
    ensures
        log10_floor(n) <= n,
    decreases n,
{
    if n >= 10 {
        lemma_log10_floor_le_self(n / 10);
    }
}

/// The floor of the base-10 logarithm of `n`, with 0 mapped to 0.
pub fn log10(n: usize) -> (r: usize)
    ensures
        r == log10_floor(n as nat),
{
    let mut m: usize = n;
    let mut r: usize = 0;
    while m >= 10
        invariant
            r + log10_floor(m as nat) == log10_floor(n as nat),
            m <= n,
        decreases m,
    {
        proof {
            lemma_log10_floor_le_self(n as nat);
        }
        m = m / 10;
        r = r + 1;
    }
    r
}

} // verus!
