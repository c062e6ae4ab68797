use collatz::{
    append_numerals, calc_sequence_capped, calc_sequence_for_number, continue_sequence,
    to_string_vec, ArbitraryBuffer, BigNat, NarrowBuffer, Number, ParseOutcome, Sequence,
    SequenceError, StepResult, TieredSequence, Wide, WideBuffer, MAX_SEQUENCE_LEN,
};

fn big_nat(text: &str) -> BigNat {
    match <BigNat as Number>::parse_decimal(text) {
        ParseOutcome::Parsed(x) => x,
        _ => panic!("not a numeral: {}", text),
    }
}

fn numerals<T: Number>(items: &[T]) -> Vec<String> {
    let mut out = Vec::new();
    append_numerals(items, &mut out);
    out
}

#[test]
fn narrow_buffer_starts_empty() {
    let buffer = NarrowBuffer::new();
    assert_eq!(buffer.as_slice(), &[] as &[u64]);
}

#[test]
fn narrow_buffer_keeps_the_order_of_pushes() {
    let mut buffer = NarrowBuffer::new();
    buffer.push(3);
    buffer.push(1);
    buffer.push(2);
    assert_eq!(buffer.as_slice(), &[3, 1, 2]);
}

#[test]
fn narrow_buffer_grows_past_its_inline_capacity() {
    let mut buffer = NarrowBuffer::new();
    for i in 0..5000u64 {
        buffer.push(i);
    }
    let items = buffer.as_slice();
    assert_eq!(items.len(), 5000);
    assert_eq!(items[0], 0);
    assert_eq!(items[1023], 1023);
    assert_eq!(items[1024], 1024);
    assert_eq!(items[4999], 4999);
}

#[test]
fn wide_buffer_keeps_the_order_of_pushes() {
    let mut buffer = WideBuffer::new();
    assert_eq!(buffer.as_slice().len(), 0);
    for i in 0..600u64 {
        buffer.push(Wide { limbs: [i, i + 1, 0, 0] });
    }
    let items = buffer.as_slice();
    assert_eq!(items.len(), 600);
    assert_eq!(items[0].limbs, [0, 1, 0, 0]);
    assert_eq!(items[599].limbs, [599, 600, 0, 0]);
}

#[test]
fn arbitrary_buffer_keeps_the_order_of_pushes() {
    let mut buffer = ArbitraryBuffer::new();
    assert_eq!(buffer.as_slice().len(), 0);
    for i in 0..300u32 {
        buffer.push(BigNat { digits: vec![i, 7] });
    }
    let items = buffer.as_slice();
    assert_eq!(items.len(), 300);
    assert_eq!(items[0].digits, vec![0, 7]);
    assert_eq!(items[299].digits, vec![299, 7]);
}

#[test]
fn vec_serves_as_a_sequence() {
    let mut buffer: Vec<u64> = Vec::new();
    Sequence::push(&mut buffer, 4);
    Sequence::push(&mut buffer, 5);
    assert_eq!(Sequence::as_slice(&buffer), &[4, 5]);
}

#[test]
fn run_records_the_start_and_every_step() {
    let mut buffer = NarrowBuffer::new();
    let r = calc_sequence_for_number(12u64, &mut buffer, 100);
    assert!(matches!(r, StepResult::Done(1)));
    assert_eq!(buffer.as_slice(), &[12, 6, 3, 10, 5, 16, 8, 4, 2, 1]);
}

#[test]
fn run_appends_behind_what_is_there() {
    let mut buffer = NarrowBuffer::new();
    buffer.push(99);
    let r = calc_sequence_for_number(4u64, &mut buffer, 100);
    assert!(matches!(r, StepResult::Done(1)));
    assert_eq!(buffer.as_slice(), &[99, 4, 2, 1]);
}

#[test]
fn run_from_one_walks_the_loop_once() {
    let mut buffer = NarrowBuffer::new();
    let r = calc_sequence_for_number(1u64, &mut buffer, 100);
    assert!(matches!(r, StepResult::Done(1)));
    assert_eq!(buffer.as_slice(), &[1, 4, 2, 1]);
}

#[test]
fn run_stops_when_the_room_is_used_up() {
    let mut buffer = NarrowBuffer::new();
    let r = calc_sequence_for_number(12u64, &mut buffer, 4);
    assert!(matches!(r, StepResult::Step(10)));
    assert_eq!(buffer.as_slice(), &[12, 6, 3, 10]);
}

#[test]
fn run_with_exactly_enough_room_is_done() {
    let mut buffer = NarrowBuffer::new();
    let r = calc_sequence_for_number(12u64, &mut buffer, 10);
    assert!(matches!(r, StepResult::Done(1)));
    assert_eq!(buffer.as_slice().len(), 10);
    let mut buffer = NarrowBuffer::new();
    let r = calc_sequence_for_number(12u64, &mut buffer, 9);
    assert!(matches!(r, StepResult::Step(2)));
    assert_eq!(buffer.as_slice().len(), 9);
}

#[test]
fn run_without_room_records_nothing() {
    let mut buffer = NarrowBuffer::new();
    let r = calc_sequence_for_number(12u64, &mut buffer, 0);
    assert!(matches!(r, StepResult::Step(12)));
    assert_eq!(buffer.as_slice().len(), 0);
}

#[test]
fn run_from_zero_never_leaves_zero() {
    let mut buffer = NarrowBuffer::new();
    let r = calc_sequence_for_number(0u64, &mut buffer, 5);
    assert!(matches!(r, StepResult::Step(0)));
    assert_eq!(buffer.as_slice(), &[0, 0, 0, 0, 0]);
}

#[test]
fn run_hands_back_the_value_that_overflows() {
    let mut buffer = NarrowBuffer::new();
    let r = calc_sequence_for_number(u64::MAX, &mut buffer, 100);
    assert!(matches!(r, StepResult::Overflow(u64::MAX)));
    assert_eq!(buffer.as_slice(), &[u64::MAX]);
}

#[test]
fn run_overflows_in_the_middle() {
    // 12327829503 first leaves 64 bits at its 202nd transition
    let mut buffer = NarrowBuffer::new();
    let r = calc_sequence_for_number(12327829503u64, &mut buffer, 10000);
    let last = match r {
        StepResult::Overflow(x) => x,
        _ => panic!("expected Overflow"),
    };
    let items = buffer.as_slice();
    assert_eq!(items.len(), 202);
    assert_eq!(items[0], 12327829503);
    assert_eq!(items[201], last);
    assert!(last % 2 == 1);
    assert!(last.checked_mul(3).and_then(|x| x.checked_add(1)).is_none());
    for i in 0..201 {
        let expected = if items[i] % 2 == 1 { 3 * items[i] + 1 } else { items[i] / 2 };
        assert_eq!(items[i + 1], expected);
    }
}

#[test]
fn continuation_does_not_record_its_start_again() {
    let mut buffer = WideBuffer::new();
    let r = continue_sequence(Wide::from_u64(u64::MAX), &mut buffer, 3);
    assert!(matches!(r, StepResult::Step(_)));
    let items = numerals(buffer.as_slice());
    assert_eq!(
        items,
        vec!["55340232221128654846", "27670116110564327423", "83010348331692982270"]
    );
}

#[test]
fn continuation_without_room_records_nothing() {
    let mut buffer = WideBuffer::new();
    let r = continue_sequence(Wide::from_u64(6), &mut buffer, 0);
    match r {
        StepResult::Step(x) => assert_eq!(x.limbs, [6, 0, 0, 0]),
        _ => panic!("expected Step"),
    }
    assert_eq!(buffer.as_slice().len(), 0);
}

#[test]
fn continuation_that_overflows_at_once_records_nothing() {
    let mut buffer = WideBuffer::new();
    let r = continue_sequence(Wide { limbs: [u64::MAX; 4] }, &mut buffer, 10);
    match r {
        StepResult::Overflow(x) => assert_eq!(x.limbs, [u64::MAX; 4]),
        _ => panic!("expected Overflow"),
    }
    assert_eq!(buffer.as_slice().len(), 0);
}

#[test]
fn continuation_in_the_unbounded_tier_reaches_one() {
    let mut buffer = ArbitraryBuffer::new();
    let r = continue_sequence(big_nat("6"), &mut buffer, 100);
    assert!(matches!(r, StepResult::Done(_)));
    assert_eq!(numerals(buffer.as_slice()), vec!["3", "10", "5", "16", "8", "4", "2", "1"]);
}

#[test]
fn run_into_a_plain_vec() {
    let mut buffer: Vec<BigNat> = Vec::new();
    let r = calc_sequence_for_number(big_nat("12"), &mut buffer, 100);
    assert!(matches!(r, StepResult::Done(_)));
    assert_eq!(
        numerals(&buffer),
        vec!["12", "6", "3", "10", "5", "16", "8", "4", "2", "1"]
    );
}

#[test]
fn formatting_keeps_tier_order_and_element_order() {
    let a: Vec<u64> = vec![7, 7, 3];
    let b: Vec<Wide> = vec![Wide { limbs: [0, 1, 0, 0] }, Wide::from_u64(5)];
    let c: Vec<BigNat> = vec![big_nat("1"), big_nat("340282366920938463463374607431768211456")];
    let strings = to_string_vec(&a, &b, &c);
    assert_eq!(
        strings,
        vec![
            "7",
            "7",
            "3",
            "18446744073709551616",
            "5",
            "1",
            "340282366920938463463374607431768211456"
        ]
    );
}

#[test]
fn formatting_nothing_gives_nothing() {
    let a: Vec<u64> = vec![];
    let b: Vec<Wide> = vec![];
    let c: Vec<BigNat> = vec![];
    assert_eq!(to_string_vec(&a, &b, &c).len(), 0);
    assert_eq!(TieredSequence::new().format().len(), 0);
}

#[test]
fn formatting_with_empty_tiers_in_between() {
    let a: Vec<u64> = vec![9];
    let b: Vec<Wide> = vec![];
    let c: Vec<BigNat> = vec![big_nat("8")];
    assert_eq!(to_string_vec(&a, &b, &c), vec!["9", "8"]);
}

#[test]
fn append_numerals_keeps_what_is_there() {
    let mut out = vec![String::from("x")];
    append_numerals(&[1u64, 20, 300], &mut out);
    assert_eq!(out, vec!["x", "1", "20", "300"]);
}

#[test]
fn tiered_sequence_formats_narrow_then_wide_then_unbounded() {
    let mut sequence = TieredSequence::new();
    sequence.arbitrary.push(big_nat("3"));
    sequence.wide.push(Wide::from_u64(2));
    sequence.narrow.push(1);
    sequence.narrow.push(11);
    assert_eq!(sequence.format(), vec!["1", "11", "2", "3"]);
}

#[test]
fn formatting_twice_gives_the_same_strings() {
    let mut sequence = TieredSequence::new();
    let r = calc_sequence_for_number(u64::MAX, &mut sequence.narrow, 100);
    assert!(matches!(r, StepResult::Overflow(_)));
    let r = continue_sequence(Wide::from_u64(u64::MAX), &mut sequence.wide, 5);
    assert!(matches!(r, StepResult::Step(_)));
    let first = sequence.format();
    let second = sequence.format();
    assert_eq!(first.len(), 6);
    assert_eq!(first, second);
}

#[test]
fn cap_below_the_length_is_too_long() {
    assert_eq!(calc_sequence_capped("12", 9), Err(SequenceError::TooLong));
    assert_eq!(calc_sequence_capped("12", 1), Err(SequenceError::TooLong));
    assert_eq!(calc_sequence_capped("12", 0), Err(SequenceError::TooLong));
    assert_eq!(calc_sequence_capped("1", 3), Err(SequenceError::TooLong));
}

#[test]
fn cap_at_the_length_is_enough() {
    let result = calc_sequence_capped("12", 10).unwrap();
    assert_eq!(result, vec!["12", "6", "3", "10", "5", "16", "8", "4", "2", "1"]);
    assert_eq!(calc_sequence_capped("1", 4).unwrap(), vec!["1", "4", "2", "1"]);
    assert_eq!(calc_sequence_capped("2", 2).unwrap(), vec!["2", "1"]);
}

#[test]
fn cap_counts_the_values_of_all_tiers_together() {
    // 18446744073709551615 takes 864 values, one of them narrow, most of them wide
    let text = "18446744073709551615";
    assert_eq!(calc_sequence_capped(text, 863), Err(SequenceError::TooLong));
    assert_eq!(calc_sequence_capped(text, 1), Err(SequenceError::TooLong));
    assert_eq!(calc_sequence_capped(text, 2), Err(SequenceError::TooLong));
    assert_eq!(calc_sequence_capped(text, 864).unwrap().len(), 864);
    // 2^256 - 1 takes 3036 values, spread over the wide and the unbounded tier
    let text = "115792089237316195423570985008687907853269984665640564039457584007913129639935";
    assert_eq!(calc_sequence_capped(text, 3035), Err(SequenceError::TooLong));
    assert_eq!(calc_sequence_capped(text, 3036).unwrap().len(), 3036);
}

#[test]
fn cap_is_looked_at_after_the_text() {
    assert_eq!(calc_sequence_capped("12a", 0), Err(SequenceError::MalformedInput));
    assert_eq!(calc_sequence_capped("0", 0), Err(SequenceError::MalformedInput));
    assert_eq!(calc_sequence_capped("", 5), Err(SequenceError::MalformedInput));
}

#[test]
fn cap_above_the_maximum_counts_as_the_maximum() {
    assert!(MAX_SEQUENCE_LEN < usize::MAX);
    assert_eq!(MAX_SEQUENCE_LEN, usize::MAX / 128);
    let result = calc_sequence_capped("12", usize::MAX).unwrap();
    assert_eq!(result.len(), 10);
}
