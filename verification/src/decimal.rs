//! Decimal text of unsigned integers, and what a decimal text stands for.

use vstd::prelude::*;
use crate::fields::free_of;

verus! {

/// The character that writes the digit `d`.
pub open spec fn digit_char(d: nat) -> char
    recommends
        d < 10,
{
    ((48 + d) as u8) as char
}

/// Whether `c` is one of `'0'` to `'9'`.
pub open spec fn is_digit(c: char) -> bool {
    48 <= (c as u32) <= 57
}

/// The digit that `c` writes.
pub open spec fn digit_value(c: char) -> nat
    recommends
        is_digit(c),
{
    ((c as u32) - 48) as nat
}

/// The decimal text of `n`: no sign, no leading zero, `"0"` for zero.
pub open spec fn decimal_text(n: nat) -> Seq<char>
    decreases n,
{
    if n < 10 {
        seq![digit_char(n)]
    } else {
        decimal_text(n / 10).push(digit_char(n % 10))
    }
}

/// Whether every character of `s` is a decimal digit.
pub open spec fn all_digits(s: Seq<char>) -> bool {
    forall|i: int| 0 <= i < s.len() ==> is_digit(#[trigger] s[i])
}

/// The number that a text of digits writes, leading zeros allowed; the empty
/// text stands for zero.
pub open spec fn decimal_value(s: Seq<char>) -> nat
    decreases s.len(),
{
    if s.len() == 0 {
        0
    } else {
        decimal_value(s.drop_last()) * 10 + digit_value(s.last())
    }
}

/// The text of `n` consists of digits, does not start with a superfluous
/// zero, and reads back as `n`.
pub proof fn lemma_decimal_text_reads_back(n: nat)
    ensures
        decimal_text(n).len() >= 1,
        all_digits(decimal_text(n)),
        decimal_value(decimal_text(n)) == n,
        n > 0 ==> decimal_text(n)[0] != '0',
        n == 0 ==> decimal_text(n) =~= seq!['0'],
    decreases n,
{
    if n < 10 {
        let s = decimal_text(n);
        assert(s.drop_last() =~= Seq::<char>::empty());
        assert(decimal_value(s.drop_last()) == 0);
    } else {
        lemma_decimal_text_reads_back(n / 10);
        let p = decimal_text(n / 10);
        let s = decimal_text(n);
        assert(s.drop_last() =~= p);
        assert(s.last() == digit_char(n % 10));
        assert(s[0] == p[0]);
    }
}

/// Two numbers with the same decimal text are the same number.
pub proof fn lemma_decimal_text_injective(a: nat, b: nat)
    requires
        decimal_text(a) == decimal_text(b),
    ensures
        a == b,
{
    lemma_decimal_text_reads_back(a);
    lemma_decimal_text_reads_back(b);
}

/// `String::push` of std: the character is appended and nothing else
/// changes.
pub assume_specification[ String::push ](s: &mut String, c: char)
    ensures
        final(s)@ == old(s)@.push(c),
;

/// The digits of a positive number, the empty text for zero: what is still
/// to be written in front while a number is taken apart from its last digit.
spec fn leading_text(n: nat) -> Seq<char> {
    if n == 0 {
        Seq::empty()
    } else {
        decimal_text(n)
    }
}

proof fn lemma_leading_text_step(n: nat)
    requires
        n > 0,
    ensures
        leading_text(n) =~= leading_text(n / 10).push(digit_char(n % 10)),
{
}

/// Writes `n` in decimal.
pub fn decimal_string(n: u128) -> (s: String)
    ensures
        s@ == decimal_text(n as nat),
{
    let mut reversed: Vec<char> = Vec::new();
    let last: u8 = (n % 10) as u8;
    reversed.push((48u8 + last) as char);
    let mut rest: u128 = n / 10;
    while rest > 0
        invariant
            decimal_text(n as nat) =~= leading_text(rest as nat) + reversed@.reverse(),
        decreases rest,
    {
        let d: u8 = (rest % 10) as u8;
        proof {
            lemma_leading_text_step(rest as nat);
        }
        reversed.push((48u8 + d) as char);
        rest = rest / 10;
    }
    let mut out = String::new();
    let mut k: usize = reversed.len();
    while k > 0
        invariant
            k <= reversed.len(),
            out@ =~= reversed@.reverse().subrange(0, reversed.len() - k),
        decreases k,
    {
        k = k - 1;
        out.push(reversed[k]);
    }
    out
}

/// A text of digits holds no other character.
pub proof fn lemma_digits_free_of(text: Seq<char>, c: char)
    requires
        all_digits(text),
        !is_digit(c),
    ensures
        free_of(text, c),
{
}

/// The decimal text of a number holds nothing but digits.
pub proof fn lemma_decimal_text_free_of(n: nat, c: char)
    requires
        !is_digit(c),
    ensures
        free_of(decimal_text(n), c),
{
    lemma_decimal_text_reads_back(n);
    lemma_digits_free_of(decimal_text(n), c);
}

} // verus!
