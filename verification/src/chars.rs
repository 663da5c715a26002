//! Character sequences.
//!
//! Identifiers, canonical paths and diagnostic messages are held as
//! `Vec<char>`, viewed as `Seq<char>`. This module supplies the verified
//! building blocks: equality, prefix test, concatenation, conversion from
//! string literals, decimal rendering of integers, and decimal parsing.
//! It also declares the Unicode character classes that the lexer relies
//! on, as names for what `core`'s classification methods return.

use vstd::prelude::*;
use vstd::string::StrSliceExecFns;

verus! {

/// Whether `char::is_whitespace` holds of `c`; a function of `c` alone.
pub uninterp spec fn is_whitespace_char(c: char) -> bool;

/// Whether `char::is_alphabetic` holds of `c`; a function of `c` alone.
pub uninterp spec fn is_alphabetic_char(c: char) -> bool;

/// Whether `char::is_alphanumeric` holds of `c`; a function of `c` alone.
pub uninterp spec fn is_alphanumeric_char(c: char) -> bool;

/// Whether `char::is_numeric` holds of `c`; a function of `c` alone.
pub uninterp spec fn is_numeric_char(c: char) -> bool;

/// Relies on `char::is_whitespace`: the White_Space property of `c`.
pub assume_specification[ char::is_whitespace ](c: char) -> (r: bool)
    ensures
        r == is_whitespace_char(c),
;

/// Relies on `char::is_alphabetic`: the Alphabetic property of `c`.
pub assume_specification[ char::is_alphabetic ](c: char) -> (r: bool)
    ensures
        r == is_alphabetic_char(c),
;

/// Relies on `char::is_alphanumeric`: documented as alphabetic or numeric.
pub assume_specification[ char::is_alphanumeric ](c: char) -> (r: bool)
    ensures
        r == is_alphanumeric_char(c),
;

/// Relies on `char::is_numeric`: the numeric general categories of `c`.
pub assume_specification[ char::is_numeric ](c: char) -> (r: bool)
    ensures
        r == is_numeric_char(c),
;

/// Structural equality of two character slices.
pub fn chars_eq(a: &[char], b: &[char]) -> (r: bool)
    ensures
        r == (a@ == b@),
{
    if a.len() != b.len() {
        proof {
            assert(a@.len() != b@.len());
        }
        return false;
    }
    let n = a.len();
    let mut i: usize = 0;
    while i < n
        invariant
            n == a@.len() == b@.len(),
            i <= n,
            forall|j: int| 0 <= j < i ==> a@[j] == b@[j],
        decreases n - i,
    {
        if a[i] != b[i] {
            return false;
        }
        i += 1;
    }
    proof {
        assert(a@ =~= b@);
    }
    true
}

/// Whether `a` begins with `b`.
pub fn starts_with_chars(a: &[char], b: &[char]) -> (r: bool)
    ensures
        r == b@.is_prefix_of(a@),
{
    if b.len() > a.len() {
        return false;
    }
    let n = b.len();
    let mut i: usize = 0;
    while i < n
        invariant
            n == b@.len() <= a@.len(),
            i <= n,
            forall|j: int| 0 <= j < i ==> a@[j] == b@[j],
        decreases n - i,
    {
        if a[i] != b[i] {
            return false;
        }
        i += 1;
    }
    proof {
        assert(b@ =~= a@.subrange(0, b@.len() as int));
    }
    true
}

/// Appends every character of `src` to `dst`.
pub fn push_all(dst: &mut Vec<char>, src: &[char])
    ensures
        final(dst)@ == old(dst)@ + src@,
{
    let n = src.len();
    let mut i: usize = 0;
    while i < n
        invariant
            n == src@.len(),
            i <= n,
            dst@ == old(dst)@ + src@.subrange(0, i as int),
        decreases n - i,
    {
        dst.push(src[i]);
        proof {
            assert(old(dst)@ + src@.subrange(0, i + 1 as int) =~= (old(dst)@ + src@.subrange(
                0,
                i as int,
            )).push(src@[i as int]));
        }
        i += 1;
    }
    proof {
        assert(src@.subrange(0, n as int) =~= src@);
    }
}

/// The characters of a string slice, in order.
pub fn chars_of(s: &str) -> (r: Vec<char>)
    ensures
        r@ == s@,
{
    let n = s.unicode_len();
    let mut r: Vec<char> = Vec::new();
    let mut i: usize = 0;
    while i < n
        invariant
            n == s@.len(),
            i <= n,
            r@ == s@.subrange(0, i as int),
        decreases n - i,
    {
        let c = s.get_char(i);
        r.push(c);
        proof {
            assert(s@.subrange(0, i + 1 as int) =~= s@.subrange(0, i as int).push(s@[i as int]));
        }
        i += 1;
    }
    proof {
        assert(s@.subrange(0, n as int) =~= s@);
    }
    r
}

/// The character for one decimal digit.
pub open spec fn spec_digit_char(d: int) -> char {
    ((d + 48) as u8) as char
}

/// The decimal rendering of a natural number, most significant digit first.
pub open spec fn spec_nat_chars(n: nat) -> Seq<char>
    decreases n,
{
    if n < 10 {
        seq![spec_digit_char(n as int)]
    } else {
        spec_nat_chars(n / 10) + seq![spec_digit_char((n % 10) as int)]
    }
}

/// The decimal rendering of a signed number: a minus sign, then digits.
pub open spec fn spec_int_chars(v: int) -> Seq<char> {
    if v < 0 {
        seq!['-'] + spec_nat_chars((-v) as nat)
    } else {
        spec_nat_chars(v as nat)
    }
}

fn digit_char(d: u64) -> (r: char)
    requires
        d < 10,
    ensures
        r == spec_digit_char(d as int),
{
    (d as u8 + 48) as char
}

/// Renders `n` in decimal.
pub fn u64_chars(n: u64) -> (r: Vec<char>)
    ensures
        r@ == spec_nat_chars(n as nat),
    decreases n,
{
    if n < 10 {
        let mut r: Vec<char> = Vec::new();
        r.push(digit_char(n));
        proof {
            assert(r@ =~= spec_nat_chars(n as nat));
        }
        r
    } else {
        let mut r = u64_chars(n / 10);
        r.push(digit_char(n % 10));
        proof {
            assert(r@ =~= spec_nat_chars(n as nat));
        }
        r
    }
}

/// Renders `n` in decimal.
pub fn usize_chars(n: usize) -> (r: Vec<char>)
    ensures
        r@ == spec_nat_chars(n as nat),
{
    u64_chars(n as u64)
}

/// Renders `v` in decimal, with a leading minus sign when negative.
pub fn i32_chars(v: i32) -> (r: Vec<char>)
    ensures
        r@ == spec_int_chars(v as int),
{
    let wide: i64 = v as i64;
    if wide < 0 {
        let mut r: Vec<char> = Vec::new();
        r.push('-');
        let digits = u64_chars((-wide) as u64);
        push_all(&mut r, digits.as_slice());
        proof {
            assert(r@ =~= spec_int_chars(v as int));
        }
        r
    } else {
        u64_chars(wide as u64)
    }
}

/// Whether `c` is one of the ten ASCII decimal digits.
pub open spec fn is_ascii_digit_char(c: char) -> bool {
    48 <= c as u32 && c as u32 <= 57
}

/// The numeric value of a sequence of ASCII decimal digits,
/// most significant first.
pub open spec fn spec_decimal_value(s: Seq<char>) -> int
    decreases s.len(),
{
    if s.len() == 0 {
        0
    } else {
        spec_decimal_value(s.drop_last()) * 10 + (s.last() as u32 - 48)
    }
}

/// Whether every character of `s` is an ASCII decimal digit.
pub open spec fn all_ascii_digits(s: Seq<char>) -> bool {
    forall|i: int| 0 <= i < s.len() ==> is_ascii_digit_char(#[trigger] s[i])
}

/// The decimal value of a digit string is never negative.
pub proof fn lemma_decimal_value_nonneg(s: Seq<char>)
    requires
        all_ascii_digits(s),
    ensures
        spec_decimal_value(s) >= 0,
    decreases s.len(),
{
    if s.len() > 0 {
        assert(is_ascii_digit_char(s[s.len() - 1]));
        assert(forall|i: int| 0 <= i < s.drop_last().len() ==> is_ascii_digit_char(
            #[trigger] s.drop_last()[i],
        ));
        lemma_decimal_value_nonneg(s.drop_last());
    }
}

/// Extending a digit string never lowers its decimal value.
pub proof fn lemma_decimal_prefix_le(s: Seq<char>, i: int)
    requires
        all_ascii_digits(s),
        0 <= i <= s.len(),
    ensures
        spec_decimal_value(s.subrange(0, i)) <= spec_decimal_value(s),
    decreases s.len() - i,
{
    if i < s.len() {
        let a = s.subrange(0, i);
        let b = s.subrange(0, i + 1);
        assert(b.drop_last() =~= a);
        assert(b.last() == s[i]);
        assert(forall|j: int| 0 <= j < a.len() ==> is_ascii_digit_char(#[trigger] a[j]));
        lemma_decimal_value_nonneg(a);
        assert(spec_decimal_value(a) <= spec_decimal_value(b));
        lemma_decimal_prefix_le(s, i + 1);
        assert(s.subrange(0, s.len() as int) =~= s);
    } else {
        assert(s.subrange(0, i) =~= s);
    }
}

} // verus!
