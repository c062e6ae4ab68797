//! The unbounded tier: values of any size, with the arithmetic of the `num-bigint` crate.

use vstd::prelude::*;
use num_bigint::{BigUint, ParseBigIntError};
use num_traits::Num;
use crate::decimal::{decimal_string, decimal_value, is_decimal, is_decimal_str};
use crate::number::{Number, ParseOutcome, StepResult};
use crate::wide::Wide;

verus! {

/// The number that base-2^32 digits stand for, least significant digit first.
pub open spec fn digits_value(digits: Seq<u32>) -> nat
    decreases digits.len(),
{
    if digits.len() == 0 {
        0
    } else {
        (digits[0] as nat) + 0x1_0000_0000 * digits_value(digits.drop_first())
    }
}

/// The error of `BigUint::from_str_radix` of num-bigint, carried through unread.
#[verifier::external_type_specification]
#[verifier::external_body]
pub struct ExParseBigIntError(ParseBigIntError);

/// `*` on two `BigUint` of num-bigint: the product, which has no upper bound.
#[verifier::external_body]
fn biguint_mul(a: &[u32], b: &[u32]) -> (r: Vec<u32>)
    ensures
        digits_value(r@) == digits_value(a@) * digits_value(b@),
{
    (BigUint::from_slice(a) * BigUint::from_slice(b)).to_u32_digits()
}

/// `+` on two `BigUint` of num-bigint: the sum, which has no upper bound.
#[verifier::external_body]
fn biguint_add(a: &[u32], b: &[u32]) -> (r: Vec<u32>)
    ensures
        digits_value(r@) == digits_value(a@) + digits_value(b@),
{
    (BigUint::from_slice(a) + BigUint::from_slice(b)).to_u32_digits()
}

/// `/` on two `BigUint` of num-bigint: the quotient rounded down. It panics on a zero divisor,
/// which the precondition leaves out.
#[verifier::external_body]
fn biguint_div(a: &[u32], b: &[u32]) -> (r: Vec<u32>)
    requires
        digits_value(b@) > 0,
    ensures
        digits_value(r@) == digits_value(a@) / digits_value(b@),
{
    (BigUint::from_slice(a) / BigUint::from_slice(b)).to_u32_digits()
}

/// `BigUint::from_str_radix` of num-bigint with radix ten: on a text made of one or more
/// ASCII digits and nothing else it succeeds with the value of the numeral. What it does with
/// signs and underscores is left out by the precondition.
#[verifier::external_body]
fn biguint_from_decimal(s: &str) -> (r: Result<Vec<u32>, ParseBigIntError>)
    requires
        is_decimal(s@),
    ensures
        r is Ok,
        r matches Ok(digits) ==> digits_value(digits@) == decimal_value(s@),
{
    match BigUint::from_str_radix(s, 10) {
        Ok(parsed) => Ok(parsed.to_u32_digits()),
        Err(error) => Err(error),
    }
}

/// `BigUint::to_str_radix` of num-bigint with radix ten: the number in base ten with no sign
/// and no leading zero.
#[verifier::external_body]
fn biguint_to_decimal(digits: &[u32]) -> (s: String)
    ensures
        s@ == decimal_string(digits_value(digits@)),
{
    BigUint::from_slice(digits).to_str_radix(10)
}

/// Digits that are all zero stand for zero, and only they do.
pub proof fn lemma_digits_value_zero(digits: Seq<u32>)
    ensures
        digits_value(digits) == 0 <==> forall|i: int| 0 <= i < digits.len() ==> digits[i] == 0,
    decreases digits.len(),
{
    if digits.len() > 0 {
        let rest = digits.drop_first();
        lemma_digits_value_zero(rest);
        if digits_value(digits) == 0 {
            assert forall|i: int| 0 <= i < digits.len() implies digits[i] == 0 by {
                if i > 0 {
                    assert(rest[i - 1] == 0);
                }
            }
        } else if digits[0] == 0 {
            let i = choose|i: int| 0 <= i < rest.len() && rest[i] != 0;
            assert(digits[i + 1] != 0);
        }
    }
}

/// A value of the unbounded tier, held as base-2^32 digits, least significant first.
/// Trailing zero digits are allowed and change nothing.
#[derive(Debug)]
pub struct BigNat {
    pub digits: Vec<u32>,
}

impl BigNat {
    /// Carries a 256-bit value over into the unbounded tier.
    pub fn from_wide(w: Wide) -> (b: BigNat)
        ensures
            b.value() == w.value(),
    {
        let (d0, d1) = split_limb(w.limbs[0]);
        let (d2, d3) = split_limb(w.limbs[1]);
        let (d4, d5) = split_limb(w.limbs[2]);
        let (d6, d7) = split_limb(w.limbs[3]);
        let mut digits: Vec<u32> = Vec::new();
        digits.push(d0);
        digits.push(d1);
        digits.push(d2);
        digits.push(d3);
        digits.push(d4);
        digits.push(d5);
        digits.push(d6);
        digits.push(d7);
        proof {
            let s0 = digits@;
            let s1 = s0.drop_first();
            let s2 = s1.drop_first();
            let s3 = s2.drop_first();
            let s4 = s3.drop_first();
            let s5 = s4.drop_first();
            let s6 = s5.drop_first();
            let s7 = s6.drop_first();
            assert(digits_value(s7.drop_first()) == 0);
            assert(digits_value(s7) == d7);
            assert(digits_value(s6) == d6 + 0x1_0000_0000 * digits_value(s7));
            assert(digits_value(s5) == d5 + 0x1_0000_0000 * digits_value(s6));
            assert(digits_value(s4) == d4 + 0x1_0000_0000 * digits_value(s5));
            assert(digits_value(s3) == d3 + 0x1_0000_0000 * digits_value(s4));
            assert(digits_value(s2) == d2 + 0x1_0000_0000 * digits_value(s3));
            assert(digits_value(s1) == d1 + 0x1_0000_0000 * digits_value(s2));
            assert(digits_value(s0) == d0 + 0x1_0000_0000 * digits_value(s1));
        }
        BigNat { digits }
    }

    /// Tells whether a value is zero.
    pub fn is_zero(&self) -> (b: bool)
        ensures
            b == (self.value() == 0),
    {
        let mut i: usize = 0;
        while i < self.digits.len()
            invariant
                i <= self.digits@.len(),
                forall|j: int| 0 <= j < i ==> self.digits@[j] == 0,
            decreases self.digits.len() - i,
        {
            if self.digits[i] != 0 {
                proof {
                    lemma_digits_value_zero(self.digits@);
                }
                return false;
            }
            i = i + 1;
        }
        proof {
            lemma_digits_value_zero(self.digits@);
        }
        true
    }
}

/// Splits a 64-bit limb into its low and its high 32 bits.
fn split_limb(limb: u64) -> (halves: (u32, u32))
    ensures
        limb == halves.0 + 0x1_0000_0000 * halves.1,
{
    assert(limb == (limb & 0xffff_ffff) + 0x1_0000_0000 * (limb >> 32)) by (bit_vector);
    assert(limb & 0xffff_ffff <= 0xffff_ffff) by (bit_vector);
    assert(limb >> 32 <= 0xffff_ffff) by (bit_vector);
    ((limb & 0xffff_ffff) as u32, (limb >> 32) as u32)
}

/// The unbounded tier.
impl Number for BigNat {
    open spec fn value(&self) -> nat {
        digits_value(self.digits@)
    }

    open spec fn representable(n: nat) -> bool {
        true
    }

    proof fn lemma_value_representable(&self) {
    }

    fn divide_by_two(self) -> (r: StepResult<Self>) {
        let two: [u32; 1] = [2];
        assert(digits_value(two@) == 2) by {
            assert(digits_value(two@.drop_first()) == 0);
        }
        StepResult::Step(BigNat { digits: biguint_div(self.digits.as_slice(), two.as_slice()) })
    }

    fn triple_and_add_one(self) -> (r: StepResult<Self>) {
        let three: [u32; 1] = [3];
        let one: [u32; 1] = [1];
        assert(digits_value(three@) == 3) by {
            assert(digits_value(three@.drop_first()) == 0);
        }
        assert(digits_value(one@) == 1) by {
            assert(digits_value(one@.drop_first()) == 0);
        }
        let tripled = biguint_mul(self.digits.as_slice(), three.as_slice());
        assert(digits_value(tripled@) == 3 * self.value()) by (nonlinear_arith)
            requires
                digits_value(tripled@) == self.value() * digits_value(three@),
                digits_value(three@) == 3,
        ;
        StepResult::Step(BigNat { digits: biguint_add(tripled.as_slice(), one.as_slice()) })
    }

    fn is_odd(&self) -> (b: bool) {
        if self.digits.len() == 0 {
            return false;
        }
        let low: u32 = self.digits[0];
        assert(low & 0x1 == low % 2) by (bit_vector);
        low & 0x1 == 1
    }

    fn is_one(&self) -> (b: bool) {
        let n: usize = self.digits.len();
        if n == 0 || self.digits[0] != 1 {
            return false;
        }
        let ghost rest = self.digits@.drop_first();
        let mut i: usize = 1;
        while i < n
            invariant
                1 <= i <= n,
                n == self.digits@.len(),
                rest == self.digits@.drop_first(),
                self.digits@[0] == 1,
                forall|j: int| 0 <= j < i - 1 ==> rest[j] == 0,
            decreases n - i,
        {
            if self.digits[i] != 0 {
                proof {
                    lemma_digits_value_zero(rest);
                    assert(rest[i - 1] != 0);
                }
                return false;
            }
            i = i + 1;
        }
        proof {
            lemma_digits_value_zero(rest);
        }
        true
    }

    fn to_string(&self) -> (s: String) {
        biguint_to_decimal(self.digits.as_slice())
    }

    fn parse_decimal(s: &str) -> (r: ParseOutcome<Self>) {
        if !is_decimal_str(s) {
            return ParseOutcome::Malformed;
        }
        match biguint_from_decimal(s) {
            Ok(digits) => ParseOutcome::Parsed(BigNat { digits }),
            Err(_) => ParseOutcome::Malformed,
        }
    }

    fn duplicate(&self) -> (copy: Self) {
        BigNat { digits: self.digits.clone() }
    }
}

} // verus!
