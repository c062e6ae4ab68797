//! The operations that every tier offers, and the single Collatz transition built on them.

use vstd::prelude::*;
use crate::decimal::{decimal_string, decimal_value, is_decimal};
use crate::orbit::collatz_next;

verus! {

/// What one transition of a value gives.
///
/// `Step` carries the next value, `Done` carries the next value when it is 1, and `Overflow`
/// hands back the value the transition started from, because the next value does not fit the
/// tier the value lives in.
#[derive(Debug)]
pub enum StepResult<T> {
    Step(T),
    Done(T),
    Overflow(T),
}

/// What reading a numeral in one tier gives.
///
/// `TooLarge` says that the text is a decimal numeral whose value the tier cannot hold;
/// `Malformed` says that the text is no decimal numeral at all.
#[derive(Debug)]
pub enum ParseOutcome<T> {
    Parsed(T),
    TooLarge,
    Malformed,
}

/// An unsigned integer representation that the Collatz transition can be run in.
pub trait Number: Sized {
    /// The natural number that a value stands for.
    spec fn value(&self) -> nat;

    /// Whether the representation can hold `n`.
    spec fn representable(n: nat) -> bool;

    /// Every value of the representation is one that the representation can hold.
    proof fn lemma_value_representable(&self)
        ensures
            Self::representable(self.value()),
    ;

    /// Halves a value, rounding down. This never overflows.
    fn divide_by_two(self) -> (r: StepResult<Self>)
        ensures
            r matches StepResult::Step(half) && half.value() == self.value() / 2,
    ;

    /// Computes `3 * self + 1`, or hands `self` back where the result does not fit.
    fn triple_and_add_one(self) -> (r: StepResult<Self>)
        ensures
            r matches StepResult::Step(next) ==> next.value() == 3 * self.value() + 1,
            r matches StepResult::Overflow(same) ==> same == self,
            !(r is Done),
            r is Step <==> Self::representable(3 * self.value() + 1),
    ;

    /// Tells whether a value is odd.
    fn is_odd(&self) -> (b: bool)
        ensures
            b == (self.value() % 2 == 1),
    ;

    /// Tells whether a value is 1.
    fn is_one(&self) -> (b: bool)
        ensures
            b == (self.value() == 1),
    ;

    /// Writes a value as its canonical decimal numeral.
    fn to_string(&self) -> (s: String)
        ensures
            s@ == decimal_string(self.value()),
    ;

    /// Reads a decimal numeral.
    fn parse_decimal(s: &str) -> (r: ParseOutcome<Self>)
        ensures
            r is Malformed <==> !is_decimal(s@),
            r is TooLarge <==> is_decimal(s@) && !Self::representable(decimal_value(s@)),
            r matches ParseOutcome::Parsed(v) ==> v.value() == decimal_value(s@),
    ;

    /// Makes a second value that stands for the same number.
    fn duplicate(&self) -> (copy: Self)
        ensures
            copy.value() == self.value(),
    ;
}

/// What one transition from the number `n` gives in the tier `T`, as numbers.
pub open spec fn step_outcome<T: Number>(n: nat) -> StepResult<nat> {
    if n % 2 == 1 && !T::representable(3 * n + 1) {
        StepResult::Overflow(n)
    } else if collatz_next(n) == 1 {
        StepResult::Done(1)
    } else {
        StepResult::Step(collatz_next(n))
    }
}

/// The numbers that the values carried by a result stand for.
pub open spec fn result_values<T: Number>(r: StepResult<T>) -> StepResult<nat> {
    match r {
        StepResult::Step(x) => StepResult::Step(x.value()),
        StepResult::Done(x) => StepResult::Done(x.value()),
        StepResult::Overflow(x) => StepResult::Overflow(x.value()),
    }
}

/// Applies one Collatz transition to `input`.
///
/// An odd value is tripled and incremented, an even one is halved. A next value of 1 comes back
/// as `Done`, any other as `Step`; where the next value does not fit the tier, `input` itself
/// comes back as `Overflow`.
pub fn calc_step<T: Number>(input: T) -> (r: StepResult<T>)
    ensures
        result_values(r) == step_outcome::<T>(input.value()),
        r matches StepResult::Overflow(same) ==> same == input,
{
    let result = if input.is_odd() {
        input.triple_and_add_one()
    } else {
        input.divide_by_two()
    };
    if let StepResult::Step(number) = result {
        if number.is_one() {
            StepResult::Done(number)
        } else {
            StepResult::Step(number)
        }
    } else {
        result
    }
}

} // verus!
