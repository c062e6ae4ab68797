//! Collatz sequences of arbitrarily large numbers, computed in the cheapest integer
//! representation that holds them.
//!
//! A computation starts in the narrowest tier that can hold its input (64 bits, then 256
//! bits, then unbounded) and moves to the next wider tier only when a transition would
//! overflow the current one. Every contract is stated over the natural numbers that the
//! values stand for, so the tier in which a value happens to live never shows in a result.

pub mod orbit;
pub mod decimal;
pub mod number;
pub mod narrow;
pub mod wide;
pub mod arbitrary;
pub mod accumulator;
pub mod run;
pub mod outcome;
pub mod escalator;
pub mod boundary;

pub use accumulator::{ArbitraryBuffer, NarrowBuffer, Sequence, WideBuffer, MAX_SEQUENCE_LEN};
pub use arbitrary::BigNat;
pub use boundary::{calc_sequence_reply, terminate_strings, BoundaryReply};
pub use escalator::{
    calc_sequence_bigint, calc_sequence_capped, calc_sequence_rs, TieredSequence,
};
pub use number::{calc_step, Number, ParseOutcome, StepResult};
pub use outcome::SequenceError;
pub use run::{append_numerals, calc_sequence_for_number, continue_sequence, to_string_vec};
pub use wide::Wide;
