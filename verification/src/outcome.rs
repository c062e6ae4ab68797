//! What a whole computation owes for an input text, and the laws that follow from it.

use vstd::prelude::*;
use crate::decimal::{
    decimal_string, decimal_value, is_decimal, is_digit, lemma_decimal_string_is_decimal,
    lemma_decimal_string_no_leading_zero, lemma_decimal_string_value, numerals_of,
};
use crate::orbit::{
    first_hit, is_collatz_sequence, lemma_first_hit_unique, lemma_trajectory_is_collatz_sequence,
    misses_one_before, orbit, trajectory,
};

verus! {

/// Why no sequence came back.
#[derive(Clone, Copy, Debug, PartialEq, Eq)]
pub enum SequenceError {
    /// The text is not a decimal numeral of a positive number.
    MalformedInput,
    /// The sequence has not reached 1 within the number of values allowed.
    TooLong,
}

/// What a computation from the positive number `n` owes when at most `cap` values may be
/// recorded.
///
/// Success is the trajectory of `n` up to its first hit of 1, each point as its decimal
/// numeral, and is owed exactly where that trajectory has at most `cap` points.
pub open spec fn run_outcome_holds(
    n: nat,
    cap: nat,
    r: Result<Seq<Seq<char>>, SequenceError>,
) -> bool {
    match r {
        Ok(strings) => {
            &&& 2 <= strings.len() <= cap
            &&& first_hit(n, (strings.len() - 1) as nat)
            &&& strings == numerals_of(trajectory(n, (strings.len() - 1) as nat))
        },
        Err(SequenceError::TooLong) => misses_one_before(n, cap),
        Err(SequenceError::MalformedInput) => false,
    }
}

/// What a computation from the text `input` owes when at most `cap` values may be recorded.
///
/// A text that is no decimal numeral, or that denotes zero, is malformed; any other text is
/// answered as `run_outcome_holds` says for the number it denotes.
pub open spec fn outcome_holds(
    input: Seq<char>,
    cap: nat,
    r: Result<Seq<Seq<char>>, SequenceError>,
) -> bool {
    if !is_decimal(input) || decimal_value(input) == 0 {
        r == Err::<Seq<Seq<char>>, SequenceError>(SequenceError::MalformedInput)
    } else {
        run_outcome_holds(decimal_value(input), cap, r)
    }
}

/// A result with each string taken as its sequence of characters.
pub open spec fn outcome_view(r: Result<Vec<String>, SequenceError>) -> Result<
    Seq<Seq<char>>,
    SequenceError,
> {
    match r {
        Ok(strings) => Ok(strings.deep_view()),
        Err(e) => Err(e),
    }
}

/// Two answers that are both owed for the same text and the same cap are the same answer.
///
/// So the tier in which the work is done cannot show in the output: `calc_sequence_rs`,
/// which escalates from the narrow tier, and `calc_sequence_bigint`, which stays in the
/// unbounded tier, return the same strings, and so does a second call of either.
pub proof fn lemma_outcome_unique(
    input: Seq<char>,
    cap: nat,
    a: Result<Seq<Seq<char>>, SequenceError>,
    b: Result<Seq<Seq<char>>, SequenceError>,
)
    requires
        outcome_holds(input, cap, a),
        outcome_holds(input, cap, b),
    ensures
        a == b,
{
    if is_decimal(input) && decimal_value(input) != 0 {
        let n = decimal_value(input);
        match (a, b) {
            (Ok(s), Ok(t)) => {
                lemma_first_hit_unique(n, (s.len() - 1) as nat, (t.len() - 1) as nat);
            },
            (Ok(s), Err(_)) => {
                assert(orbit(n, (s.len() - 1) as nat) == 1);
            },
            (Err(_), Ok(t)) => {
                assert(orbit(n, (t.len() - 1) as nat) == 1);
            },
            (Err(_), Err(_)) => {},
        }
    }
}

/// A text that is empty, that holds anything but ASCII digits (a sign, a blank, a letter), or
/// that denotes zero is answered with `MalformedInput` and with nothing else.
pub proof fn lemma_malformed_inputs(
    input: Seq<char>,
    cap: nat,
    r: Result<Seq<Seq<char>>, SequenceError>,
)
    requires
        outcome_holds(input, cap, r),
        input.len() == 0 || (exists|i: int| 0 <= i < input.len() && !is_digit(input[i]))
            || decimal_value(input) == 0,
    ensures
        r == Err::<Seq<Seq<char>>, SequenceError>(SequenceError::MalformedInput),
{
}

/// A sequence that came back is a finished Collatz sequence, numeral by numeral: it starts
/// at the input's number, each further number is the Collatz successor of the one before
/// it, the last number is 1, and no number strictly between the two ends is 1.
pub proof fn lemma_outcome_is_collatz_sequence(
    input: Seq<char>,
    cap: nat,
    strings: Seq<Seq<char>>,
) -> (values: Seq<nat>)
    requires
        outcome_holds(input, cap, Ok(strings)),
    ensures
        is_collatz_sequence(values, decimal_value(input)),
        strings == numerals_of(values),
{
    let k = (strings.len() - 1) as nat;
    lemma_trajectory_is_collatz_sequence(decimal_value(input), k);
    trajectory(decimal_value(input), k)
}

/// A sequence that came back starts with the input restated canonically and ends with
/// `"1"`: its first string is a decimal numeral without a leading zero that denotes the
/// number that the input denotes.
pub proof fn lemma_outcome_ends(input: Seq<char>, cap: nat, strings: Seq<Seq<char>>)
    requires
        outcome_holds(input, cap, Ok(strings)),
    ensures
        is_decimal(input),
        decimal_value(input) >= 1,
        strings.len() >= 2,
        strings.first() == decimal_string(decimal_value(input)),
        is_decimal(strings.first()),
        strings.first()[0] != '0',
        decimal_value(strings.first()) == decimal_value(input),
        strings.last() == seq!['1'],
{
    let n = decimal_value(input);
    lemma_decimal_string_is_decimal(n);
    lemma_decimal_string_no_leading_zero(n);
    lemma_decimal_string_value(n);
}

} // verus!
