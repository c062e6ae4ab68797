//! Running the Collatz transition within one tier until the sequence is done, the tier
//! overflows or the room is used up, and writing recorded values out as numerals.

use vstd::prelude::*;
use crate::accumulator::{Sequence, MAX_SEQUENCE_LEN};
use crate::decimal::numerals_of;
use crate::number::{calc_step, Number, StepResult};
use crate::orbit::{misses_one_before, orbit};

verus! {

/// The numbers that the values of one tier stand for.
pub open spec fn values_of<T: Number>(items: Seq<T>) -> Seq<nat> {
    items.map_values(|x: T| x.value())
}

/// What a run owes that goes on from a value standing for `n`, which is already recorded.
///
/// `after` is `before` with the orbit of `n` appended from index 1 on, at most `room` points
/// of it, none of them 1 except a last one. The result says why the run stopped: `Done` on
/// reaching 1, `Overflow` with the last point reached where the transition from it does not
/// fit the tier, `Step` with the last point reached where `room` is used up.
pub open spec fn continuation_holds<T: Number>(
    before: Seq<T>,
    after: Seq<T>,
    n: nat,
    room: nat,
    r: StepResult<T>,
) -> bool {
    let k = (after.len() - before.len()) as nat;
    &&& before.len() <= after.len() <= before.len() + room
    &&& after.take(before.len() as int) == before
    &&& forall|i: int|
        before.len() <= i < after.len() ==> (#[trigger] after[i]).value() == orbit(
            n,
            (i - before.len() + 1) as nat,
        )
    &&& misses_one_before(n, k)
    &&& match r {
        StepResult::Done(x) => k >= 1 && x.value() == 1 && orbit(n, k) == 1,
        StepResult::Overflow(x) => {
            &&& x.value() == orbit(n, k)
            &&& misses_one_before(n, k + 1)
            &&& x.value() % 2 == 1
            &&& !T::representable(3 * x.value() + 1)
        },
        StepResult::Step(x) => {
            &&& k == room
            &&& x.value() == orbit(n, k)
            &&& misses_one_before(n, k + 1)
        },
    }
}

/// Every point that a run records fits the tier of the run.
///
/// So a run stops with `Overflow` at the first point whose transition does not fit, never
/// sooner and never later.
pub proof fn lemma_recorded_points_fit<T: Number>(
    before: Seq<T>,
    after: Seq<T>,
    n: nat,
    room: nat,
    r: StepResult<T>,
)
    requires
        continuation_holds(before, after, n, room, r),
    ensures
        forall|j: nat| 1 <= j <= after.len() - before.len() ==> T::representable(orbit(n, j)),
{
    assert forall|j: nat| 1 <= j <= after.len() - before.len() implies T::representable(
        orbit(n, j),
    ) by {
        let i = before.len() + j - 1;
        after[i].lemma_value_representable();
    }
}

/// Goes on with the Collatz sequence behind `last`, which `sequence` already ends with (or
/// which an earlier tier has recorded), appending at most `room` further values.
pub fn continue_sequence<T: Number, S: Sequence<T>>(
    last: T,
    sequence: &mut S,
    room: usize,
) -> (r: StepResult<T>)
    requires
        old(sequence).items().len() + room <= MAX_SEQUENCE_LEN,
    ensures
        continuation_holds(
            old(sequence).items(),
            final(sequence).items(),
            last.value(),
            room as nat,
            r,
        ),
{
    let ghost n = last.value();
    let ghost before = sequence.items();
    let mut temp = last;
    let mut left: usize = room;
    loop
        invariant
            left <= room,
            n == last.value(),
            before == old(sequence).items(),
            before.len() + room <= MAX_SEQUENCE_LEN,
            sequence.items().len() == before.len() + (room - left),
            sequence.items().take(before.len() as int) == before,
            forall|i: int|
                before.len() <= i < sequence.items().len() ==> (#[trigger] sequence.items()[i]).value()
                    == orbit(n, (i - before.len() + 1) as nat),
            temp.value() == orbit(n, (room - left) as nat),
            misses_one_before(n, (room - left + 1) as nat),
        decreases left,
    {
        if left == 0 {
            return StepResult::Step(temp);
        }
        match calc_step(temp) {
            StepResult::Step(number) => {
                sequence.push(number.duplicate());
                temp = number;
                left = left - 1;
            },
            StepResult::Done(number) => {
                sequence.push(number.duplicate());
                assert(sequence.items().take(before.len() as int) =~= before);
                return StepResult::Done(number);
            },
            StepResult::Overflow(number) => {
                return StepResult::Overflow(number);
            },
        }
    }
}

/// Records `number` and the Collatz sequence behind it in `sequence`, at most `room` values
/// in all.
///
/// With no room at all nothing is recorded and `number` comes back as `Step`. Otherwise
/// `number` is appended first and the run goes on from it as `continue_sequence` does.
pub fn calc_sequence_for_number<T: Number, S: Sequence<T>>(
    number: T,
    sequence: &mut S,
    room: usize,
) -> (r: StepResult<T>)
    requires
        old(sequence).items().len() + room <= MAX_SEQUENCE_LEN,
    ensures
        room == 0 ==> final(sequence).items() == old(sequence).items() && r
            == StepResult::Step(number),
        room >= 1 ==> {
            let before = old(sequence).items();
            let after = final(sequence).items();
            &&& after.len() > before.len()
            &&& after[before.len() as int].value() == number.value()
            &&& continuation_holds(
                before.push(after[before.len() as int]),
                after,
                number.value(),
                (room - 1) as nat,
                r,
            )
        },
{
    if room == 0 {
        return StepResult::Step(number);
    }
    let ghost before = sequence.items();
    sequence.push(number.duplicate());
    let ghost first = sequence.items();
    let r = continue_sequence(number, sequence, room - 1);
    assert(sequence.items().take(first.len() as int)[before.len() as int]
        == first[before.len() as int]);
    r
}

/// Appends to `strings` the decimal numeral of every value of `items`, in their order.
pub fn append_numerals<T: Number>(items: &[T], strings: &mut Vec<String>)
    ensures
        final(strings).deep_view() == old(strings).deep_view() + numerals_of(values_of(items@)),
{
    let ghost before = strings.deep_view();
    let ghost target = before + numerals_of(values_of(items@));
    let mut i: usize = 0;
    while i < items.len()
        invariant
            i <= items.len(),
            target == before + numerals_of(values_of(items@)),
            strings@.len() == before.len() + i,
            forall|j: int| 0 <= j < before.len() + i ==> (#[trigger] strings@[j])@ == target[j],
        decreases items.len() - i,
    {
        strings.push(Number::to_string(&items[i]));
        i = i + 1;
    }
}

/// Writes every value of the three tiers as its decimal numeral: those of `a` first, then
/// those of `b`, then those of `c`, each tier in the order in which its values stand.
pub fn to_string_vec<T: Number, U: Number, V: Number>(
    a: &[T],
    b: &[U],
    c: &[V],
) -> (strings: Vec<String>)
    ensures
        strings.deep_view() == numerals_of(values_of(a@) + values_of(b@) + values_of(c@)),
{
    let mut strings: Vec<String> = Vec::new();
    append_numerals(a, &mut strings);
    append_numerals(b, &mut strings);
    append_numerals(c, &mut strings);
    strings
}

} // verus!
