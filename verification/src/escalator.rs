//! The escalation across tiers: from a text to the strings of its Collatz sequence.

use vstd::prelude::*;
use crate::accumulator::{ArbitraryBuffer, NarrowBuffer, Sequence, WideBuffer, MAX_SEQUENCE_LEN};
use crate::arbitrary::BigNat;
use crate::decimal::{decimal_string, decimal_value, numerals_of};
use crate::number::{Number, ParseOutcome, StepResult};
use crate::orbit::{first_hit, lemma_orbit_add, misses_one_before, orbit, trajectory};
use crate::outcome::{
    lemma_outcome_ends, outcome_holds, outcome_view, run_outcome_holds, SequenceError,
};
use crate::run::{
    append_numerals, calc_sequence_for_number, continue_sequence, to_string_vec, values_of,
};
use crate::wide::Wide;

verus! {

/// One Collatz sequence, recorded across the accumulators of the three tiers: the narrow
/// values come first, then the wide ones, then the unbounded ones.
pub struct TieredSequence {
    pub narrow: NarrowBuffer,
    pub wide: WideBuffer,
    pub arbitrary: ArbitraryBuffer,
}

impl TieredSequence {
    /// The numbers recorded, in the order in which they were appended.
    pub open spec fn values(&self) -> Seq<nat> {
        values_of(self.narrow.items()) + values_of(self.wide.items()) + values_of(
            self.arbitrary.items(),
        )
    }

    /// The numbers recorded are the first points of the orbit of `n`, and none of them but
    /// the first is 1.
    pub open spec fn tracks(&self, n: nat) -> bool {
        &&& forall|i: int| 0 <= i < self.values().len() ==> self.values()[i] == orbit(n, i as nat)
        &&& misses_one_before(n, self.values().len())
    }

    /// A sequence with nothing recorded.
    pub fn new() -> (sequence: Self)
        ensures
            sequence.narrow.items().len() == 0,
            sequence.wide.items().len() == 0,
            sequence.arbitrary.items().len() == 0,
            sequence.values() == Seq::<nat>::empty(),
    {
        TieredSequence {
            narrow: NarrowBuffer::new(),
            wide: WideBuffer::new(),
            arbitrary: ArbitraryBuffer::new(),
        }
    }

    /// Writes every recorded value as its decimal numeral, in the order of recording.
    pub fn format(&self) -> (strings: Vec<String>)
        ensures
            strings.deep_view() == numerals_of(self.values()),
    {
        to_string_vec(self.narrow.as_slice(), self.wide.as_slice(), self.arbitrary.as_slice())
    }
}

/// A run that goes on in a new tier from the last point of a tracked prefix keeps the
/// prefix tracked.
proof fn lemma_tracks_continued(head: Seq<nat>, tail: Seq<nat>, n: nat, k: nat)
    requires
        head.len() >= 1,
        forall|i: int| 0 <= i < head.len() ==> head[i] == orbit(n, i as nat),
        misses_one_before(n, head.len()),
        forall|i: int| 0 <= i < tail.len() ==> tail[i] == orbit(head.last(), (i + 1) as nat),
        misses_one_before(head.last(), k),
    ensures
        forall|i: int| 0 <= i < (head + tail).len() ==> (head + tail)[i] == orbit(n, i as nat),
        misses_one_before(n, (head.len() - 1 + k) as nat),
        forall|j: nat| orbit(head.last(), j) == orbit(n, (head.len() - 1 + j) as nat),
{
    let m = (head.len() - 1) as nat;
    assert forall|j: nat| orbit(head.last(), j) == orbit(n, (head.len() - 1 + j) as nat) by {
        lemma_orbit_add(n, m, j);
    }
    assert forall|i: int| 0 <= i < (head + tail).len() implies (head + tail)[i] == orbit(
        n,
        i as nat,
    ) by {
        if i >= head.len() {
            lemma_orbit_add(n, m, (i - head.len() + 1) as nat);
        }
    }
    assert forall|j: nat| 1 <= j < m + k implies orbit(n, j) != 1 by {
        if j > m {
            lemma_orbit_add(n, m, (j - m) as nat);
        }
    }
}

/// What running one tier owes: `total` is everything recorded once the tier has run, `held`
/// of it recorded by earlier tiers, and `r` is what the run of the tier gave.
spec fn tier_run_holds<T: Number>(
    total: Seq<nat>,
    held: nat,
    n: nat,
    room: nat,
    r: StepResult<T>,
) -> bool {
    &&& held <= total.len() <= held + room
    &&& forall|i: int| 0 <= i < total.len() ==> total[i] == orbit(n, i as nat)
    &&& match r {
        StepResult::Done(_) => total.len() >= 2 && first_hit(n, (total.len() - 1) as nat),
        StepResult::Step(_) => total.len() == held + room && misses_one_before(n, total.len()),
        StepResult::Overflow(x) => {
            &&& total.len() >= 1
            &&& x.value() == total.last()
            &&& misses_one_before(n, total.len())
            &&& !T::representable(3 * x.value() + 1)
        },
    }
}

/// Runs one tier into its accumulator, which holds nothing yet.
///
/// `head` is what earlier tiers recorded of the orbit of `n`. A fresh run starts the
/// sequence and records `start`; a run that is not fresh goes on from `start`, which is the
/// last value that an earlier tier recorded, and does not record it again.
fn run_tier<T: Number, S: Sequence<T>>(
    start: T,
    fresh: bool,
    buffer: &mut S,
    room: usize,
    Ghost(head): Ghost<Seq<nat>>,
    Ghost(n): Ghost<nat>,
) -> (r: StepResult<T>)
    requires
        old(buffer).items().len() == 0,
        room <= MAX_SEQUENCE_LEN,
        forall|i: int| 0 <= i < head.len() ==> head[i] == orbit(n, i as nat),
        misses_one_before(n, head.len()),
        fresh ==> head.len() == 0 && start.value() == n,
        !fresh ==> head.len() >= 1 && start.value() == head.last(),
    ensures
        tier_run_holds(head + values_of(final(buffer).items()), head.len(), n, room as nat, r),
{
    if fresh {
        let r = calc_sequence_for_number(start, buffer, room);
        proof {
            let after = buffer.items();
            let total = head + values_of(after);
            assert(total =~= values_of(after));
            if room >= 1 {
                let k = (after.len() - 1) as nat;
                assert forall|i: int| 0 <= i < total.len() implies total[i] == orbit(
                    n,
                    i as nat,
                ) by {
                    if i >= 1 {
                        assert(after[i].value() == orbit(n, (i - 1 + 1) as nat));
                    }
                }
            }
        }
        r
    } else {
        let r = continue_sequence(start, buffer, room);
        proof {
            let after = buffer.items();
            let tail = values_of(after);
            let k = after.len();
            assert forall|i: int| 0 <= i < tail.len() implies tail[i] == orbit(
                head.last(),
                (i + 1) as nat,
            ) by {
                assert(after[i].value() == orbit(head.last(), (i - 0 + 1) as nat));
            }
            lemma_tracks_continued(head, tail, n, k);
            match r {
                StepResult::Done(_) => {
                    assert(orbit(head.last(), k) == orbit(n, (head.len() - 1 + k) as nat));
                },
                _ => {
                    lemma_tracks_continued(head, tail, n, k + 1);
                    assert(orbit(head.last(), k) == orbit(n, (head.len() - 1 + k) as nat));
                },
            }
        }
        r
    }
}

/// Runs the unbounded tier and formats what all tiers recorded.
fn run_arbitrary(
    sequence: &mut TieredSequence,
    start: BigNat,
    fresh: bool,
    cap: usize,
    Ghost(n): Ghost<nat>,
) -> (r: Result<Vec<String>, SequenceError>)
    requires
        cap <= MAX_SEQUENCE_LEN,
        old(sequence).arbitrary.items().len() == 0,
        old(sequence).values().len() <= cap,
        old(sequence).tracks(n),
        fresh ==> old(sequence).values().len() == 0 && start.value() == n,
        !fresh ==> old(sequence).values().len() >= 1 && start.value() == old(
            sequence,
        ).values().last(),
    ensures
        run_outcome_holds(n, cap as nat, outcome_view(r)),
{
    let ghost head = values_of(sequence.narrow.items()) + values_of(sequence.wide.items());
    assert(sequence.values() =~= head);
    let room: usize = cap - sequence.narrow.as_slice().len() - sequence.wide.as_slice().len();
    let r = run_tier(start, fresh, &mut sequence.arbitrary, room, Ghost(head), Ghost(n));
    assert(sequence.values() =~= head + values_of(sequence.arbitrary.items()));
    match r {
        StepResult::Done(_) => {
            assert(sequence.values() =~= trajectory(n, (sequence.values().len() - 1) as nat));
            Ok(sequence.format())
        },
        StepResult::Step(_) => Err(SequenceError::TooLong),
        // not reached: the unbounded tier holds every number
        StepResult::Overflow(_) => Err(SequenceError::TooLong),
    }
}

/// Runs the wide tier, escalates to the unbounded tier where it overflows, and formats
/// what all tiers recorded.
fn run_wide(
    sequence: &mut TieredSequence,
    start: Wide,
    fresh: bool,
    cap: usize,
    Ghost(n): Ghost<nat>,
) -> (r: Result<Vec<String>, SequenceError>)
    requires
        cap <= MAX_SEQUENCE_LEN,
        old(sequence).wide.items().len() == 0,
        old(sequence).arbitrary.items().len() == 0,
        old(sequence).values().len() <= cap,
        old(sequence).tracks(n),
        fresh ==> old(sequence).values().len() == 0 && start.value() == n,
        !fresh ==> old(sequence).values().len() >= 1 && start.value() == old(
            sequence,
        ).values().last(),
    ensures
        run_outcome_holds(n, cap as nat, outcome_view(r)),
{
    let ghost head = values_of(sequence.narrow.items());
    assert(sequence.values() =~= head);
    let room: usize = cap - sequence.narrow.as_slice().len();
    let r = run_tier(start, fresh, &mut sequence.wide, room, Ghost(head), Ghost(n));
    assert(sequence.values() =~= head + values_of(sequence.wide.items()));
    match r {
        StepResult::Done(_) => {
            assert(sequence.values() =~= trajectory(n, (sequence.values().len() - 1) as nat));
            Ok(sequence.format())
        },
        StepResult::Step(_) => Err(SequenceError::TooLong),
        StepResult::Overflow(last) => run_arbitrary(
            sequence,
            BigNat::from_wide(last),
            false,
            cap,
            Ghost(n),
        ),
    }
}

/// Runs the narrow tier from the start of the sequence, escalates to the wide tier where it
/// overflows, and formats what all tiers recorded.
fn run_narrow(
    sequence: &mut TieredSequence,
    start: u64,
    cap: usize,
) -> (r: Result<Vec<String>, SequenceError>)
    requires
        cap <= MAX_SEQUENCE_LEN,
        old(sequence).narrow.items().len() == 0,
        old(sequence).wide.items().len() == 0,
        old(sequence).arbitrary.items().len() == 0,
    ensures
        run_outcome_holds(start as nat, cap as nat, outcome_view(r)),
{
    let ghost n = start as nat;
    let ghost head = Seq::<nat>::empty();
    let r = run_tier(start, true, &mut sequence.narrow, cap, Ghost(head), Ghost(n));
    assert(sequence.values() =~= head + values_of(sequence.narrow.items()));
    match r {
        StepResult::Done(_) => {
            assert(sequence.values() =~= trajectory(n, (sequence.values().len() - 1) as nat));
            Ok(sequence.format())
        },
        StepResult::Step(_) => Err(SequenceError::TooLong),
        StepResult::Overflow(last) => run_wide(
            sequence,
            Wide::from_u64(last),
            false,
            cap,
            Ghost(n),
        ),
    }
}

/// The number of values that a computation may record when `cap` is asked for.
pub open spec fn effective_cap(cap: usize) -> nat {
    if cap > MAX_SEQUENCE_LEN {
        MAX_SEQUENCE_LEN as nat
    } else {
        cap as nat
    }
}

/// Computes the Collatz sequence of the number that `input` denotes, recording at most
/// `cap` values, and returns every value as its decimal numeral.
///
/// The computation starts in the narrowest tier that holds the number and moves to the next
/// wider one whenever a transition would overflow, so the answer never depends on the tiers.
/// A `cap` above `MAX_SEQUENCE_LEN` counts as `MAX_SEQUENCE_LEN`.
pub fn calc_sequence_capped(input: &str, cap: usize) -> (r: Result<Vec<String>, SequenceError>)
    ensures
        outcome_holds(input@, effective_cap(cap), outcome_view(r)),
{
    let cap: usize = if cap > MAX_SEQUENCE_LEN {
        MAX_SEQUENCE_LEN
    } else {
        cap
    };
    let mut sequence = TieredSequence::new();
    let ghost n = decimal_value(input@);
    assert(sequence.values() =~= Seq::<nat>::empty());
    match <u64 as Number>::parse_decimal(input) {
        ParseOutcome::Malformed => Err(SequenceError::MalformedInput),
        ParseOutcome::Parsed(number) => {
            if number == 0 {
                Err(SequenceError::MalformedInput)
            } else {
                run_narrow(&mut sequence, number, cap)
            }
        },
        ParseOutcome::TooLarge => match <Wide as Number>::parse_decimal(input) {
            ParseOutcome::Parsed(number) => run_wide(&mut sequence, number, true, cap, Ghost(n)),
            ParseOutcome::TooLarge => match <BigNat as Number>::parse_decimal(input) {
                ParseOutcome::Parsed(number) => run_arbitrary(
                    &mut sequence,
                    number,
                    true,
                    cap,
                    Ghost(n),
                ),
                // not reached: the narrow tier has read the text as a numeral, and the
                // unbounded tier holds every number
                _ => Err(SequenceError::MalformedInput),
            },
            // not reached: the narrow tier has read the text as a numeral
            ParseOutcome::Malformed => Err(SequenceError::MalformedInput),
        },
    }
}

/// Computes the Collatz sequence of the number that `input` denotes and returns every value
/// as its decimal numeral: the input restated canonically first, `"1"` last.
///
/// Fails with `MalformedInput` exactly where `input` is not a decimal numeral of a positive
/// number, and with `TooLong` exactly where the sequence would take more than
/// `MAX_SEQUENCE_LEN` values.
pub fn calc_sequence_rs(input: &str) -> (r: Result<Vec<String>, SequenceError>)
    ensures
        outcome_holds(input@, MAX_SEQUENCE_LEN as nat, outcome_view(r)),
        r matches Ok(strings) ==> {
            &&& strings@.len() >= 2
            &&& strings@.first()@ == decimal_string(decimal_value(input@))
            &&& strings@.last()@ == seq!['1']
        },
{
    let r = calc_sequence_capped(input, MAX_SEQUENCE_LEN);
    proof {
        if r is Ok {
            let strings = r->Ok_0;
            lemma_outcome_ends(input@, MAX_SEQUENCE_LEN as nat, strings.deep_view());
            assert(strings.deep_view().first() == strings@.first()@);
            assert(strings.deep_view().last() == strings@.last()@);
        }
    }
    r
}

/// Computes the same answer as `calc_sequence_rs` with all the work done in the unbounded
/// tier.
pub fn calc_sequence_bigint(input: &str) -> (r: Result<Vec<String>, SequenceError>)
    ensures
        outcome_holds(input@, MAX_SEQUENCE_LEN as nat, outcome_view(r)),
{
    let mut sequence_bigint: Vec<BigNat> = Vec::with_capacity(256);
    match <BigNat as Number>::parse_decimal(input) {
        ParseOutcome::Parsed(number) => {
            if number.is_zero() {
                return Err(SequenceError::MalformedInput);
            }
            let ghost n = number.value();
            let r = run_tier(
                number,
                true,
                &mut sequence_bigint,
                MAX_SEQUENCE_LEN,
                Ghost(Seq::<nat>::empty()),
                Ghost(n),
            );
            let ghost values = values_of(sequence_bigint@);
            assert(values =~= Seq::<nat>::empty() + values);
            match r {
                StepResult::Done(_) => {
                    assert(values =~= trajectory(n, (values.len() - 1) as nat));
                    let mut strings: Vec<String> = Vec::new();
                    append_numerals(sequence_bigint.as_slice(), &mut strings);
                    assert(strings.deep_view() =~= numerals_of(values));
                    Ok(strings)
                },
                // the unbounded tier never overflows: the room is used up
                _ => Err(SequenceError::TooLong),
            }
        },
        _ => Err(SequenceError::MalformedInput),
    }
}

/// Formatting one recorded sequence twice gives the same strings twice.
pub proof fn lemma_format_idempotent(
    sequence: TieredSequence,
    first: Seq<Seq<char>>,
    second: Seq<Seq<char>>,
)
    requires
        first == numerals_of(sequence.values()),
        second == numerals_of(sequence.values()),
    ensures
        first == second,
{
}

} // verus!
