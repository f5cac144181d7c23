//! Run identifiers and their text.

use crate::number::hex_digit;
use vstd::arithmetic::div_mod::{lemma_basic_div, lemma_div_denominator};
use vstd::arithmetic::power::{lemma_pow_positive, pow};
use vstd::prelude::*;

verus! {

/// The identifier of a run: the 128 bits of a UUID.
#[derive(Debug, Clone, Copy, PartialEq, Eq, Structural)]
pub struct RunId {
    pub value: u128,
}

/// The 32 lower-case hexadecimal digits of a 128-bit value, the highest first.
pub open spec fn simple(value: u128) -> Seq<char> {
    Seq::new(32, |k: int| hex_digit((value as int / pow(16, (31 - k) as nat)) % 16))
}

/// The 32 digits in groups of 8, 4, 4, 4 and 12, with a hyphen between the groups.
pub open spec fn hyphenated(value: u128) -> Seq<char> {
    let digits = simple(value);
    digits.subrange(0, 8).push('-') + digits.subrange(8, 12).push('-') + digits.subrange(12, 16).push('-')
        + digits.subrange(16, 20).push('-') + digits.subrange(20, 32)
}

/// `Uuid::to_string` writes the 128 bits as hyphenated lower-case hexadecimal digits.
#[verifier::external_body]
fn uuid_text(value: u128) -> (text: String)
    ensures
        text@ == hyphenated(value),
{
    uuid::Uuid::from_u128(value).to_string()
}

/// `Uuid::simple` writes the 128 bits as 32 lower-case hexadecimal digits.
#[verifier::external_body]
fn uuid_simple_text(value: u128) -> (text: String)
    ensures
        text@ == simple(value),
{
    uuid::Uuid::from_u128(value).simple().to_string()
}

/// The version field holds 4 and the variant field holds the bits `10`.
pub open spec fn is_random_uuid(value: u128) -> bool {
    value & 0xF000C000000000000000u128 == 0x40008000000000000000u128
}

/// `Uuid::new_v4` draws random bits and sets the version and variant fields; the other bits are left open.
#[verifier::external_body]
fn random_uuid() -> (value: u128)
    ensures
        is_random_uuid(value),
{
    uuid::Uuid::new_v4().as_u128()
}

impl RunId {
    /// The identifier as hyphenated hexadecimal text.
    pub fn text(&self) -> (s: String)
        ensures
            s@ == hyphenated(self.value),
    {
        uuid_text(self.value)
    }

    /// A new random identifier.
    pub fn random() -> (id: RunId)
        ensures
            is_random_uuid(id.value),
    {
        RunId { value: random_uuid() }
    }
}

/// The checkpoint id made from a 128-bit value.
pub fn checkpoint_id_from(value: u128) -> (id: String)
    ensures
        id@ == "ckpt_"@ + simple(value),
{
    let mut id = "ckpt_".to_string();
    id.append(uuid_simple_text(value).as_str());
    id
}

/// A new random checkpoint id.
pub fn new_checkpoint_id() -> (id: String)
    ensures
        exists|value: u128| #[trigger] is_random_uuid(value) && id@ == "ckpt_"@ + simple(value),
{
    let value: u128 = random_uuid();
    checkpoint_id_from(value)
}

/// Values with the same digits from the highest down to that of `16^k` are equal from there on.
proof fn lemma_digits_above(x: u128, y: u128, k: nat)
    requires
        simple(x) == simple(y),
        k <= 32,
    ensures
        x as int / pow(16, k) == y as int / pow(16, k),
    decreases 32 - k,
{
    lemma_pow_positive(16, k);
    if k == 32 {
        assert(pow(16, 32) == 0x1_0000_0000_0000_0000_0000_0000_0000_0000) by {
            reveal_with_fuel(pow, 33);
        }
        lemma_basic_div(x as int, pow(16, 32));
        lemma_basic_div(y as int, pow(16, 32));
    } else {
        lemma_digits_above(x, y, k + 1);
        let a = x as int / pow(16, k);
        let b = y as int / pow(16, k);
        assert(pow(16, k + 1) == pow(16, k) * 16) by {
            reveal(pow);
            assert(16 * pow(16, k) == pow(16, k) * 16) by (nonlinear_arith);
        }
        lemma_div_denominator(x as int, pow(16, k), 16);
        lemma_div_denominator(y as int, pow(16, k), 16);
        assert(a / 16 == b / 16);
        let at = 31 - k;
        assert(simple(x)[at] == hex_digit(a % 16));
        assert(simple(y)[at] == hex_digit(b % 16));
        assert(a % 16 == b % 16);
    }
}

/// The text of an identifier is that of no other.
pub proof fn run_ids_are_told_apart(a: RunId, b: RunId)
    requires
        hyphenated(a.value) == hyphenated(b.value),
    ensures
        a == b,
{
    let x = simple(a.value);
    let y = simple(b.value);
    let s = hyphenated(a.value);
    let t = hyphenated(b.value);
    assert forall|k: int| 0 <= k < 32 implies x[k] == y[k] by {
        let at = if k < 8 {
            k
        } else if k < 12 {
            k + 1
        } else if k < 16 {
            k + 2
        } else if k < 20 {
            k + 3
        } else {
            k + 4
        };
        assert(s[at] == x[k]);
        assert(t[at] == y[k]);
    }
    assert(x =~= y);
    lemma_digits_above(a.value, b.value, 0);
    reveal(pow);
}

} // verus!
