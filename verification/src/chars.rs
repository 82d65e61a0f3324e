//! Character and string building blocks: the few string operations the
//! library takes on trust, and verified helpers built on top of them.

use vstd::prelude::*;
use vstd::string::StrSliceExecFns;

verus! {

/// Relies on String::push: it appends the given character to the end of the
/// string.
pub assume_specification[ String::push ](s: &mut String, ch: char)
    ensures
        final(s)@ == old(s)@.push(ch),
;

/// A Unicode scalar value: any code point but the surrogates.
pub open spec fn is_scalar_value(v: u32) -> bool {
    v < 0xD800 || (0xE000 <= v && v <= 0x10FFFF)
}

/// Relies on char::from_u32: it returns the character with the given code
/// point, and None exactly for surrogate code points and values above
/// 0x10FFFF.
pub assume_specification[ char::from_u32 ](v: u32) -> (r: Option<char>)
    ensures
        r is Some <==> is_scalar_value(v),
        r matches Some(c) ==> c as u32 == v,
;

/// `n` copies of `ch`.
pub open spec fn repeat_char(ch: char, n: nat) -> Seq<char> {
    Seq::new(n, |i| ch)
}

/// Appends `n` copies of `ch` to `s`.
pub fn push_repeat(s: &mut String, ch: char, n: usize)
    ensures
        final(s)@ == old(s)@ + repeat_char(ch, n as nat),
{
    let mut i: usize = 0;
    while i < n
        invariant
            i <= n,
            s@ == old(s)@ + repeat_char(ch, i as nat),
        decreases n - i,
    {
        s.push(ch);
        proof {
            assert(old(s)@ + repeat_char(ch, i as nat + 1) =~= (old(s)@ + repeat_char(
                ch,
                i as nat,
            )).push(ch));
        }
        i = i + 1;
    }
    proof {
        assert(s@ =~= old(s)@ + repeat_char(ch, n as nat));
    }
}

/// The characters of `s`, collected into a vector.
pub fn str_to_chars(s: &str) -> (v: Vec<char>)
    ensures
        v@ == s@,
{
    let n = s.unicode_len();
    let mut v: Vec<char> = Vec::new();
    let mut i: usize = 0;
    while i < n
        invariant
            i <= n,
            n == s@.len(),
            v@ == s@.subrange(0, i as int),
        decreases n - i,
    {
        v.push(s.get_char(i));
        proof {
            assert(v@ =~= s@.subrange(0, i as int + 1));
        }
        i = i + 1;
    }
    proof {
        assert(s@.subrange(0, n as int) =~= s@);
    }
    v
}

/// Whether `s` ends with a sentence-final mark.
pub open spec fn ends_with_punctuation_spec(s: Seq<char>) -> bool {
    s.len() > 0 && (s.last() == '?' || s.last() == '!' || s.last() == '.')
}

/// Whether the text ends with a question mark, an exclamation mark or a
/// full stop.
pub fn ends_with_punctuation(s: &str) -> (b: bool)
    ensures
        b == ends_with_punctuation_spec(s@),
{
    let n = s.unicode_len();
    if n == 0 {
        return false;
    }
    let c = s.get_char(n - 1);
    c == '?' || c == '!' || c == '.'
}

} // verus!
