//! One round of a workload task: which operation it issues next.
//!
//! A task draws a key at random from the keyspace and then decides, again
//! at random, whether to read or to write it. Every round stands alone:
//! nothing is remembered from one to the next.

use vstd::prelude::*;
use vstd::string::StringExecFns;
use rand::rngs::StdRng;
use rand::Rng;
use crate::counters::OpKind;
use crate::decimal::{decimal_string, decimal_text, lemma_decimal_text_injective};

verus! {

/// Of `READ_CHANCE_OUT_OF` rounds, this many read on average; the others
/// write.
pub const READ_CHANCE: u32 = 1;

/// See `READ_CHANCE`.
pub const READ_CHANCE_OUT_OF: u32 = 10;

/// The generator of rand that a task draws from. Nothing is known of its
/// state.
#[verifier::external_type_specification]
#[verifier::external_body]
pub struct ExStdRng(StdRng);

/// `Rng::gen_range` of rand on the range `low..high`: a number from `low`
/// up to, and not including, `high`. On an empty range it panics, so
/// `low` is below `high`.
#[verifier::external_body]
fn draw_in_range(rng: &mut StdRng, low: u64, high: u64) -> (r: u64)
    requires
        low < high,
    ensures
        low <= r < high,
{
    rng.gen_range(low..high)
}

/// `Rng::gen_ratio` of rand: `true` with a chance of `numerator` in
/// `denominator`. It panics on a zero denominator and on a chance above
/// one. Only the two certain cases say anything of the result.
#[verifier::external_body]
fn draw_ratio(rng: &mut StdRng, numerator: u32, denominator: u32) -> (hit: bool)
    requires
        0 < denominator,
        numerator <= denominator,
    ensures
        numerator == 0 ==> !hit,
        numerator == denominator ==> hit,
{
    rng.gen_ratio(numerator, denominator)
}

/// The key with the number `r`: the word `key` and the number in decimal.
pub open spec fn key_text(r: u64) -> Seq<char> {
    "key"@ + decimal_text(r as nat)
}

/// The value written under the key with the number `r`: the word `value`
/// and the number in decimal.
pub open spec fn value_text(r: u64) -> Seq<char> {
    "value"@ + decimal_text(r as nat)
}

/// One operation against the store.
#[derive(Clone, Debug, PartialEq, Eq)]
pub struct Operation {
    /// Whether the key is read or written.
    pub kind: OpKind,
    /// The key.
    pub key: String,
    /// The value that a write stores; a read does not use it.
    pub value: String,
}

impl Operation {
    /// Whether `self` is the operation on the key with the number `r`,
    /// a read if `read` and a write if not.
    pub open spec fn is_planned_from(self, r: u64, read: bool) -> bool {
        &&& self.kind == if read {
            OpKind::Read
        } else {
            OpKind::Write
        }
        &&& self.key@ == key_text(r)
        &&& self.value@ == value_text(r)
    }
}

/// The key with the number `r`.
pub fn key_for(r: u64) -> (key: String)
    ensures
        key@ == key_text(r),
{
    let mut key = String::from_str("key");
    let digits = decimal_string(r as u128);
    key.append(digits.as_str());
    key
}

/// The value for the key with the number `r`.
pub fn value_for(r: u64) -> (value: String)
    ensures
        value@ == value_text(r),
{
    let mut value = String::from_str("value");
    let digits = decimal_string(r as u128);
    value.append(digits.as_str());
    value
}

/// The operation that follows from the two draws of a round: the key's
/// number `r`, and whether the round reads.
pub fn plan_operation(r: u64, read: bool) -> (op: Operation)
    ensures
        op.is_planned_from(r, read),
{
    let kind = if read {
        OpKind::Read
    } else {
        OpKind::Write
    };
    Operation { kind, key: key_for(r), value: value_for(r) }
}

/// Draws the next operation: a key's number below `keyspace`, each as
/// likely as the other, and then the class, a read one time in ten.
/// Whatever is drawn, the operation is the one planned from the draws.
pub fn next_operation(rng: &mut StdRng, keyspace: u64) -> (op: Operation)
    requires
        keyspace > 0,
    ensures
        exists|r: u64, read: bool| r < keyspace && op.is_planned_from(r, read),
{
    let r = draw_in_range(rng, 0, keyspace);
    let read = draw_ratio(rng, READ_CHANCE, READ_CHANCE_OUT_OF);
    let op = plan_operation(r, read);
    assert(r < keyspace && op.is_planned_from(r, read));
    op
}

/// Keys with different numbers are different keys, and so are their
/// values: a keyspace of `n` numbers holds `n` pairs.
pub proof fn lemma_keys_are_distinct(a: u64, b: u64)
    ensures
        key_text(a) == key_text(b) ==> a == b,
        value_text(a) == value_text(b) ==> a == b,
{
    let ta = decimal_text(a as nat);
    let tb = decimal_text(b as nat);
    if key_text(a) == key_text(b) {
        let word = "key"@;
        assert((word + ta).subrange(word.len() as int, (word + ta).len() as int) =~= ta);
        assert((word + tb).subrange(word.len() as int, (word + tb).len() as int) =~= tb);
        lemma_decimal_text_injective(a as nat, b as nat);
    }
    if value_text(a) == value_text(b) {
        let word = "value"@;
        assert((word + ta).subrange(word.len() as int, (word + ta).len() as int) =~= ta);
        assert((word + tb).subrange(word.len() as int, (word + tb).len() as int) =~= tb);
        lemma_decimal_text_injective(a as nat, b as nat);
    }
}

} // verus!
