//! Numbers with decimals, kept as whole numbers of their smallest unit and
//! written with a decimal point: with a fixed count of decimals, or in the
//! shortest form.

use vstd::prelude::*;
use crate::decimal::{
    all_digits, decimal_string, decimal_text, decimal_value, digit_char, is_digit,
    lemma_decimal_text_reads_back, lemma_digits_free_of,
};
use crate::fields::{free_of, lemma_cut_first, lemma_cut_last, piece_at, rest_after};

verus! {

/// The last `width` decimal digits of `value`, zeros in front where the
/// number is shorter.
pub open spec fn low_digits(value: nat, width: nat) -> Seq<char>
    decreases width,
{
    if width == 0 {
        Seq::empty()
    } else {
        low_digits(value / 10, (width - 1) as nat).push(digit_char(value % 10))
    }
}

/// `value` without its last `width` decimal digits.
pub open spec fn drop_digits(value: nat, width: nat) -> nat
    decreases width,
{
    if width == 0 {
        value
    } else {
        drop_digits(value / 10, (width - 1) as nat)
    }
}

/// The text of a number given in units of `10^-decimals`: the whole part,
/// a point, and exactly `decimals` digits. With no decimals there is no
/// point either.
pub open spec fn fixed_text(value: nat, decimals: nat) -> Seq<char> {
    if decimals == 0 {
        decimal_text(value)
    } else {
        decimal_text(drop_digits(value, decimals)) + seq!['.'] + low_digits(value, decimals)
    }
}

/// Writes `value`, which counts units of `10^-decimals`, with a decimal
/// point.
pub fn fixed_point_string(value: u128, decimals: u32) -> (s: String)
    ensures
        s@ == fixed_text(value as nat, decimals as nat),
{
    let mut reversed: Vec<char> = Vec::new();
    let mut rest: u128 = value;
    let mut k: u32 = 0;
    while k < decimals
        invariant
            k <= decimals,
            reversed.len() == k,
            low_digits(value as nat, decimals as nat) =~= low_digits(
                rest as nat,
                (decimals - k) as nat,
            ) + reversed@.reverse(),
            drop_digits(value as nat, decimals as nat) == drop_digits(
                rest as nat,
                (decimals - k) as nat,
            ),
        decreases decimals - k,
    {
        let d: u8 = (rest % 10) as u8;
        reversed.push((48u8 + d) as char);
        rest = rest / 10;
        k = k + 1;
    }
    let mut out = decimal_string(rest);
    if decimals > 0 {
        out.push('.');
    }
    let ghost head = out@;
    let mut j: usize = reversed.len();
    while j > 0
        invariant
            j <= reversed.len(),
            out@ =~= head + reversed@.reverse().subrange(0, reversed.len() - j),
        decreases j,
    {
        j = j - 1;
        out.push(reversed[j]);
    }
    out
}

/// `value / unit`, rounded to the nearest whole number; where two are
/// equally near, to the even one.
pub open spec fn round_half_even(value: nat, unit: nat) -> nat
    recommends
        unit > 0,
{
    let below = value / unit;
    let left = value % unit;
    if 2 * left > unit || (2 * left == unit && below % 2 == 1) {
        below + 1
    } else {
        below
    }
}

/// Divides `value` by `unit` and rounds to the nearest whole number; a
/// quotient that lies halfway between two goes to the even one.
pub fn rounded_quotient(value: u128, unit: u128) -> (q: u128)
    requires
        unit > 0,
    ensures
        q == round_half_even(value as nat, unit as nat),
{
    let below: u128 = value / unit;
    let left: u128 = value % unit;
    let short: u128 = unit - left;
    if left > short || (left == short && below % 2 == 1) {
        proof {
            lemma_room_above_quotient(value as nat, unit as nat);
        }
        below + 1
    } else {
        below
    }
}

/// A quotient with a remainder of half the divisor or more is at most
/// half the dividend.
proof fn lemma_room_above_quotient(value: nat, unit: nat)
    requires
        unit > 0,
        2 * (value % unit) >= unit,
    ensures
        2 * (value / unit) < value,
{
    let q = value / unit;
    let r = value % unit;
    assert(value == q * unit + r && 0 <= r < unit) by (nonlinear_arith)
        requires
            q == value / unit,
            r == value % unit,
            unit > 0,
    ;
    assert(2 * q < value) by (nonlinear_arith)
        requires
            value == q * unit + r,
            2 * r >= unit,
            unit >= 2,
            r >= 1,
    ;
}

/// `text` without the zeros at its end.
pub open spec fn without_trailing_zeros(text: Seq<char>) -> Seq<char>
    decreases text.len(),
{
    if text.len() > 0 && text.last() == '0' {
        without_trailing_zeros(text.drop_last())
    } else {
        text
    }
}

/// As many zeros as a fraction of `length` digits lacks of `decimals`.
pub open spec fn missing_zeros(decimals: nat, length: nat) -> Seq<char> {
    if length <= decimals {
        Seq::new((decimals - length) as nat, |i: int| '0')
    } else {
        Seq::empty()
    }
}

/// The shortest text of a number given in units of `10^-decimals`: the
/// whole part and, only where the fraction is not zero, a point and the
/// digits of the fraction up to the last that is not a zero.
pub open spec fn short_text(value: nat, decimals: nat) -> Seq<char> {
    let whole = decimal_text(drop_digits(value, decimals));
    let fraction = without_trailing_zeros(low_digits(value, decimals));
    if fraction.len() == 0 {
        whole
    } else {
        whole + seq!['.'] + fraction
    }
}

/// The number that a text writes, counted in units of `10^-decimals`: the
/// digits before the point and those after it read as one number, once
/// the fraction has been filled up with zeros to `decimals` digits. A text
/// without a point has no fraction.
pub open spec fn scaled_value(text: Seq<char>, decimals: nat) -> nat {
    let whole = piece_at(text, '.', 0);
    let fraction = rest_after(text, '.');
    decimal_value(whole + fraction + missing_zeros(decimals, fraction.len()))
}

/// Writes `value`, which counts units of `10^-decimals`, in the shortest
/// form: no zeros at the end of the fraction, and no point before a
/// fraction of zero.
pub fn short_decimal_string(value: u128, decimals: u32) -> (s: String)
    ensures
        s@ == short_text(value as nat, decimals as nat),
{
    let mut rest: u128 = value;
    let mut k: u32 = 0;
    while k < decimals && rest % 10 == 0
        invariant
            k <= decimals,
            without_trailing_zeros(low_digits(value as nat, decimals as nat))
                == without_trailing_zeros(low_digits(rest as nat, (decimals - k) as nat)),
            drop_digits(value as nat, decimals as nat) == drop_digits(
                rest as nat,
                (decimals - k) as nat,
            ),
        decreases decimals - k,
    {
        proof {
            let low = low_digits(rest as nat, (decimals - k) as nat);
            assert(low.last() == '0');
            assert(low.drop_last() =~= low_digits((rest / 10) as nat, (decimals - k - 1) as nat));
        }
        rest = rest / 10;
        k = k + 1;
    }
    let ghost kept = low_digits(rest as nat, (decimals - k) as nat);
    let ghost skipped = k;
    proof {
        lemma_low_digits(rest as nat, (decimals - k) as nat);
        if k < decimals {
            assert(kept.last() == digit_char((rest % 10) as nat));
            assert(kept.last() != '0');
        }
        assert(without_trailing_zeros(kept) == kept);
    }
    let mut reversed: Vec<char> = Vec::new();
    while k < decimals
        invariant
            skipped <= k <= decimals,
            reversed.len() == k - skipped,
            kept =~= low_digits(rest as nat, (decimals - k) as nat) + reversed@.reverse(),
            drop_digits(value as nat, decimals as nat) == drop_digits(
                rest as nat,
                (decimals - k) as nat,
            ),
        decreases decimals - k,
    {
        let d: u8 = (rest % 10) as u8;
        reversed.push((48u8 + d) as char);
        rest = rest / 10;
        k = k + 1;
    }
    let mut out = decimal_string(rest);
    if reversed.len() > 0 {
        out.push('.');
    }
    let ghost head = out@;
    let mut j: usize = reversed.len();
    while j > 0
        invariant
            j <= reversed.len(),
            out@ =~= head + reversed@.reverse().subrange(0, reversed.len() - j),
        decreases j,
    {
        j = j - 1;
        out.push(reversed[j]);
    }
    assert(kept =~= reversed@.reverse());
    out
}

/// The low digits of a number are digits, as many as asked for.
proof fn lemma_low_digits(value: nat, width: nat)
    ensures
        low_digits(value, width).len() == width,
        all_digits(low_digits(value, width)),
    decreases width,
{
    if width > 0 {
        lemma_low_digits(value / 10, (width - 1) as nat);
    }
}

/// Taking the zeros off the end of a text leaves its beginning, and
/// putting them back gives the text again.
proof fn lemma_trailing_zeros(text: Seq<char>)
    ensures
        without_trailing_zeros(text).len() <= text.len(),
        without_trailing_zeros(text) + missing_zeros(
            text.len(),
            without_trailing_zeros(text).len(),
        ) =~= text,
    decreases text.len(),
{
    let kept = without_trailing_zeros(text);
    let filled = kept + missing_zeros(text.len(), kept.len());
    if text.len() > 0 && text.last() == '0' {
        let shorter = text.drop_last();
        lemma_trailing_zeros(shorter);
        let before = kept + missing_zeros(shorter.len(), kept.len());
        assert(before =~= shorter);
        assert(filled.len() == text.len());
        assert forall|i: int| 0 <= i < text.len() implies filled[i] == text[i] by {
            if i < shorter.len() {
                assert(filled[i] == before[i]);
                assert(shorter[i] == text[i]);
            }
        }
    } else {
        assert(filled.len() == text.len());
    }
    assert(filled =~= text);
}

/// A number's shortest text holds digits and at most one point.
pub proof fn lemma_short_text_free_of(value: nat, decimals: nat, c: char)
    requires
        !is_digit(c),
        c != '.',
    ensures
        free_of(short_text(value, decimals), c),
{
    lemma_decimal_text_reads_back(drop_digits(value, decimals));
    lemma_low_digits(value, decimals);
    lemma_trailing_zeros(low_digits(value, decimals));
    let whole = decimal_text(drop_digits(value, decimals));
    let low = low_digits(value, decimals);
    let fraction = without_trailing_zeros(low);
    let text = short_text(value, decimals);
    assert forall|i: int| 0 <= i < text.len() implies #[trigger] text[i] != c by {
        if i < whole.len() {
            assert(text[i] == whole[i]);
        } else if i == whole.len() {
            assert(text[i] == '.');
        } else {
            let at = i - whole.len() - 1;
            assert(text[i] == fraction[at]);
            assert(fraction[at] == (fraction + missing_zeros(low.len(), fraction.len()))[at]);
            assert(fraction[at] == low[at]);
        }
    }
}

/// The digits before and after the point, read as one number, give the
/// number back.
proof fn lemma_digits_read_as_one(value: nat, width: nat)
    ensures
        decimal_value(decimal_text(drop_digits(value, width)) + low_digits(value, width))
            == value,
    decreases width,
{
    if width == 0 {
        lemma_decimal_text_reads_back(value);
        assert(decimal_text(value) + Seq::<char>::empty() =~= decimal_text(value));
    } else {
        let high = decimal_text(drop_digits(value, width));
        let shorter = low_digits(value / 10, (width - 1) as nat);
        let all = high + low_digits(value, width);
        lemma_digits_read_as_one(value / 10, (width - 1) as nat);
        assert(all.drop_last() =~= high + shorter);
        assert(all.last() == digit_char(value % 10));
    }
}

/// A number's shortest text, read by its scale, gives the number back:
/// the zeros left out at the end of the fraction change nothing.
pub proof fn lemma_short_text_reads_back(value: nat, decimals: nat)
    ensures
        scaled_value(short_text(value, decimals), decimals) == value,
{
    let whole = decimal_text(drop_digits(value, decimals));
    let low = low_digits(value, decimals);
    let fraction = without_trailing_zeros(low);
    let text = short_text(value, decimals);
    lemma_decimal_text_reads_back(drop_digits(value, decimals));
    lemma_digits_free_of(whole, '.');
    lemma_low_digits(value, decimals);
    lemma_trailing_zeros(low);
    lemma_digits_read_as_one(value, decimals);
    if fraction.len() == 0 {
        lemma_cut_last(whole, '.');
        assert(rest_after(text, '.') =~= Seq::<char>::empty());
    } else {
        lemma_cut_first(whole, '.', fraction);
    }
    assert(piece_at(text, '.', 0) == whole);
    assert(rest_after(text, '.') =~= fraction);
    assert(whole + fraction + missing_zeros(decimals, fraction.len()) =~= whole + low);
}

} // verus!
