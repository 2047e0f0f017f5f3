//! Reading an unsigned number from its decimal text.

use vstd::prelude::*;
use vstd::string::{StrSliceExecFns, StringExecFns};
use crate::decimal::{all_digits, decimal_value, is_digit};

verus! {

/// Why a text is not the decimal form of a `u64`.
#[derive(Clone, Copy, Debug, PartialEq, Eq, Structural)]
pub enum NumberError {
    /// The text is empty.
    Empty,
    /// A character that is not a digit stands where a digit is expected.
    InvalidDigit,
    /// The digits write a number above `u64::MAX`.
    Overflow,
}

impl NumberError {
    /// What is wrong, in words.
    pub open spec fn message_text(self) -> Seq<char> {
        match self {
            NumberError::Empty => "cannot parse integer from empty string"@,
            NumberError::InvalidDigit => "invalid digit found in string"@,
            NumberError::Overflow => "number too large to fit in target type"@,
        }
    }

    /// What is wrong, in words.
    pub fn message(&self) -> (text: String)
        ensures
            text@ == self.message_text(),
    {
        match self {
            NumberError::Empty => String::from_str("cannot parse integer from empty string"),
            NumberError::InvalidDigit => String::from_str("invalid digit found in string"),
            NumberError::Overflow => String::from_str("number too large to fit in target type"),
        }
    }
}

/// The part of `s` that has to consist of digits: `s` without one leading
/// `'+'`, where something follows the sign.
pub open spec fn unsigned_part(s: Seq<char>) -> Seq<char> {
    if s.len() > 1 && s[0] == '+' {
        s.drop_first()
    } else {
        s
    }
}

/// How many digits `s` starts with.
pub open spec fn digit_run(s: Seq<char>) -> nat
    decreases s.len(),
{
    if all_digits(s) {
        s.len()
    } else {
        digit_run(s.drop_last())
    }
}

/// What reading `s` from the left as a `u64` gives. The text is an optional
/// `'+'` followed by digits. The first obstacle met decides the error: a
/// number that has already grown past `u64::MAX` before any other character
/// is met is an overflow, whatever follows.
pub open spec fn parse_u64_spec(s: Seq<char>) -> Result<u64, NumberError> {
    let body = unsigned_part(s);
    let run = body.subrange(0, digit_run(body) as int);
    if s.len() == 0 {
        Err(NumberError::Empty)
    } else if decimal_value(run) > u64::MAX {
        Err(NumberError::Overflow)
    } else if run.len() < body.len() {
        Err(NumberError::InvalidDigit)
    } else {
        Ok(decimal_value(run) as u64)
    }
}

/// The run of leading digits is a prefix, and it ends at the first
/// character that is not a digit.
proof fn lemma_digit_run(s: Seq<char>, i: int)
    requires
        0 <= i <= s.len(),
        all_digits(s.subrange(0, i)),
        i < s.len() ==> !is_digit(s[i]),
    ensures
        digit_run(s) == i,
    decreases s.len(),
{
    if i == s.len() {
        assert(s.subrange(0, i) =~= s);
    } else {
        assert(!all_digits(s));
        let t = s.drop_last();
        assert(t.subrange(0, i) =~= s.subrange(0, i));
        lemma_digit_run(t, i);
    }
}

/// A longer run of digits does not write a smaller number.
proof fn lemma_decimal_value_grows(s: Seq<char>, i: int)
    requires
        0 <= i <= s.len(),
    ensures
        decimal_value(s.subrange(0, i)) <= decimal_value(s),
    decreases s.len(),
{
    if i == s.len() {
        assert(s.subrange(0, i) =~= s);
    } else {
        let t = s.drop_last();
        assert(t.subrange(0, i) =~= s.subrange(0, i));
        lemma_decimal_value_grows(t, i);
    }
}

/// The number of the character `c`.
fn char_code(c: char) -> (code: u32)
    ensures
        code == c as u32,
{
    c as u32
}

/// Reads `text` as a `u64` in decimal.
pub fn parse_u64(text: &str) -> (r: Result<u64, NumberError>)
    ensures
        r == parse_u64_spec(text@),
{
    let n: usize = text.unicode_len();
    if n == 0 {
        return Err(NumberError::Empty);
    }
    let ghost body = unsigned_part(text@);
    let ghost start: int = if n > 1 && text@[0] == '+' { 1 } else { 0 };
    let mut acc: u64 = 0;
    let mut first: bool = true;
    for c in it: text.chars()
        invariant
            it.seq() == text@,
            n == text@.len(),
            n > 0,
            body == unsigned_part(text@),
            start == (if n > 1 && text@[0] == '+' { 1int } else { 0int }),
            first == (it.index() == 0),
            !first ==> {
                &&& all_digits(body.subrange(0, it.index() - start))
                &&& acc == decimal_value(body.subrange(0, it.index() - start))
            },
            first ==> acc == 0,
    {
        let ghost i: int = it.index() as int;
        let was_first = first;
        first = false;
        if was_first && n > 1 && c == '+' {
            assert(body.subrange(0, 0) =~= Seq::<char>::empty());
        } else {
            let ghost seen = body.subrange(0, i - start);
            let ghost next = body.subrange(0, i - start + 1);
            assert(body[i - start] == c);
            assert(was_first ==> seen =~= Seq::<char>::empty());
            assert(acc == decimal_value(seen));
            let code: u32 = char_code(c);
            if code < 48 || code > 57 {
                proof {
                    lemma_digit_run(body, i - start);
                }
                return Err(NumberError::InvalidDigit);
            }
            let d: u64 = (code - 48) as u64;
            proof {
                assert(next.drop_last() =~= seen);
                assert(next.last() == c);
                assert(decimal_value(next) == acc * 10 + d);
                assert(all_digits(next)) by {
                    assert forall|j: int| 0 <= j < next.len() implies is_digit(
                        #[trigger] next[j],
                    ) by {
                        if j < seen.len() {
                            assert(next[j] == seen[j]);
                        }
                    }
                }
            }
            if acc > (u64::MAX - d) / 10 {
                proof {
                    let whole = body.subrange(0, digit_run(body) as int);
                    lemma_digit_run_at_least(body, i - start + 1);
                    assert(next =~= whole.subrange(0, i - start + 1));
                    lemma_decimal_value_grows(whole, i - start + 1);
                }
                return Err(NumberError::Overflow);
            }
            acc = acc * 10 + d;
        }
    }
    proof {
        assert(body.subrange(0, body.len() as int) =~= body);
        lemma_digit_run(body, body.len() as int);
    }
    Ok(acc)
}

/// Every prefix of digits lies within the run of leading digits.
proof fn lemma_digit_run_at_least(s: Seq<char>, i: int)
    requires
        0 <= i <= s.len(),
        all_digits(s.subrange(0, i)),
    ensures
        i <= digit_run(s) <= s.len(),
    decreases s.len(),
{
    if all_digits(s) {
    } else if i == s.len() {
        assert(s.subrange(0, i) =~= s);
    } else {
        let t = s.drop_last();
        assert(t.subrange(0, i) =~= s.subrange(0, i));
        lemma_digit_run_at_least(t, i);
    }
}

} // verus!
