//! The wide tier: 256-bit values, with the arithmetic of the `bigint` crate.

use vstd::prelude::*;
use vstd::arithmetic::div_mod::lemma_small_mod;
use bigint::{FromDecStrErr, U256};
use crate::decimal::{all_digits, decimal_string, decimal_value, is_decimal_str};
use crate::number::{Number, ParseOutcome, StepResult};

verus! {

/// The first number that 256 bits cannot hold, two to the power 256.
pub open spec fn wide_modulus() -> nat {
    0x1_0000_0000_0000_0000_0000_0000_0000_0000_0000_0000_0000_0000_0000_0000_0000_0000nat
}

/// The number that four 64-bit limbs stand for, least significant limb first.
pub open spec fn limbs_value(limbs: [u64; 4]) -> nat {
    (limbs[0] as nat) + (limbs[1] as nat) * 0x1_0000_0000_0000_0000nat + (limbs[2] as nat)
        * 0x1_0000_0000_0000_0000_0000_0000_0000_0000nat + (limbs[3] as nat)
        * 0x1_0000_0000_0000_0000_0000_0000_0000_0000_0000_0000_0000_0000nat
}

/// The error of `U256::from_dec_str` of bigint, carried through unread.
#[verifier::external_type_specification]
#[verifier::external_body]
pub struct ExFromDecStrErr(FromDecStrErr);

/// `U256::overflowing_mul` of bigint: the low 256 bits of the product, and whether the product
/// has any bit above them.
#[verifier::external_body]
fn u256_overflowing_mul(a: [u64; 4], b: [u64; 4]) -> (r: ([u64; 4], bool))
    ensures
        limbs_value(r.0) == (limbs_value(a) * limbs_value(b)) % wide_modulus(),
        r.1 == (limbs_value(a) * limbs_value(b) >= wide_modulus()),
{
    let (product, overflow) = U256(a).overflowing_mul(U256(b));
    (product.0, overflow)
}

/// `U256::overflowing_add` of bigint: the low 256 bits of the sum, and whether a carry left
/// them.
#[verifier::external_body]
fn u256_overflowing_add(a: [u64; 4], b: [u64; 4]) -> (r: ([u64; 4], bool))
    ensures
        limbs_value(r.0) == (limbs_value(a) + limbs_value(b)) % wide_modulus(),
        r.1 == (limbs_value(a) + limbs_value(b) >= wide_modulus()),
{
    let (sum, overflow) = U256(a).overflowing_add(U256(b));
    (sum.0, overflow)
}

/// `U256::overflowing_div` of bigint: the quotient rounded down, with a flag that is never
/// set. It panics on a zero divisor, which the precondition leaves out.
#[verifier::external_body]
fn u256_overflowing_div(a: [u64; 4], b: [u64; 4]) -> (r: ([u64; 4], bool))
    requires
        limbs_value(b) > 0,
    ensures
        limbs_value(r.0) == limbs_value(a) / limbs_value(b),
        !r.1,
{
    let (quotient, overflow) = U256(a).overflowing_div(U256(b));
    (quotient.0, overflow)
}

/// `U256::from_dec_str` of bigint: it accepts exactly the texts made of ASCII digits alone
/// (the empty text among them, as zero) whose value is below two to the power 256, and gives
/// that value.
#[verifier::external_body]
fn u256_from_dec_str(s: &str) -> (r: Result<[u64; 4], FromDecStrErr>)
    ensures
        r is Ok <==> (all_digits(s@) && decimal_value(s@) < wide_modulus()),
        r matches Ok(limbs) ==> limbs_value(limbs) == decimal_value(s@),
{
    U256::from_dec_str(s).map(|parsed| parsed.0)
}

/// `format!` with `{}` on a `U256` of bigint, whose `Display` writes the number in base ten
/// with no sign and no leading zero.
#[verifier::external_body]
fn u256_to_decimal(limbs: [u64; 4]) -> (s: String)
    ensures
        s@ == decimal_string(limbs_value(limbs)),
{
    format!("{}", U256(limbs))
}

/// A value of the wide tier: 256 bits, held as four 64-bit limbs, least significant first.
#[derive(Clone, Copy, Debug)]
pub struct Wide {
    pub limbs: [u64; 4],
}

impl Wide {
    /// Carries a machine word over into the wide tier.
    pub fn from_u64(x: u64) -> (w: Wide)
        ensures
            w.value() == x,
            w.limbs@ == seq![x, 0u64, 0u64, 0u64],
    {
        Wide { limbs: [x, 0, 0, 0] }
    }
}

/// The wide tier.
impl Number for Wide {
    open spec fn value(&self) -> nat {
        limbs_value(self.limbs)
    }

    open spec fn representable(n: nat) -> bool {
        n < wide_modulus()
    }

    proof fn lemma_value_representable(&self) {
    }

    fn divide_by_two(self) -> (r: StepResult<Self>) {
        let (x, overflow) = u256_overflowing_div(self.limbs, Wide::from_u64(2).limbs);
        if overflow {
            StepResult::Overflow(self)
        } else {
            StepResult::Step(Wide { limbs: x })
        }
    }

    fn triple_and_add_one(self) -> (r: StepResult<Self>) {
        let three = Wide::from_u64(3);
        let one = Wide::from_u64(1);
        let (x, mul_overflow) = u256_overflowing_mul(self.limbs, three.limbs);
        let (y, add_overflow) = u256_overflowing_add(x, one.limbs);
        proof {
            let v = self.value();
            assert(v * three.value() == 3 * v) by (nonlinear_arith)
                requires
                    three.value() == 3,
            ;
            if !mul_overflow {
                lemma_small_mod(3 * v, wide_modulus());
                if !add_overflow {
                    lemma_small_mod(3 * v + 1, wide_modulus());
                }
            }
        }
        if mul_overflow || add_overflow {
            StepResult::Overflow(self)
        } else {
            StepResult::Step(Wide { limbs: y })
        }
    }

    fn is_odd(&self) -> (b: bool) {
        let low: u64 = self.limbs[0];
        assert(low & 0x1 == low % 2) by (bit_vector);
        low & 0x1 == 1
    }

    fn is_one(&self) -> (b: bool) {
        self.limbs[0] == 1 && self.limbs[1] == 0 && self.limbs[2] == 0 && self.limbs[3] == 0
    }

    fn to_string(&self) -> (s: String) {
        u256_to_decimal(self.limbs)
    }

    fn parse_decimal(s: &str) -> (r: ParseOutcome<Self>) {
        if !is_decimal_str(s) {
            return ParseOutcome::Malformed;
        }
        match u256_from_dec_str(s) {
            Ok(limbs) => ParseOutcome::Parsed(Wide { limbs }),
            Err(_) => ParseOutcome::TooLarge,
        }
    }

    fn duplicate(&self) -> (copy: Self) {
        *self
    }
}

} // verus!
