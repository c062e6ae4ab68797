use collatz::{calc_sequence_bigint, calc_sequence_rs, SequenceError};

#[test]
fn simple() {
    let result = calc_sequence_rs("12").unwrap();
    let result_str = result.iter().map(|s| s.as_str()).collect::<Vec<&str>>();
    assert_eq!(
        result_str,
        vec!["12", "6", "3", "10", "5", "16", "8", "4", "2", "1"]
    );
}

#[test]
fn simple_bigint() {
    let result = calc_sequence_bigint("12").unwrap();
    let result_str = result.iter().map(|s| s.as_str()).collect::<Vec<&str>>();
    assert_eq!(
        result_str,
        vec!["12", "6", "3", "10", "5", "16", "8", "4", "2", "1"]
    );
}

#[test]
fn first_and_last_u64() {
    let result = calc_sequence_rs("12458674").unwrap();
    assert_eq!(&result[0], "12458674");
    assert_eq!(&result[result.len() - 1], "1");
}

#[test]
fn first_and_last_u256() {
    let result = calc_sequence_rs("18446744073709551616").unwrap();
    assert_eq!(&result[0], "18446744073709551616");
    assert_eq!(&result[result.len() - 1], "1");
}

#[test]
fn first_and_last_bigint() {
    let n = "9999999999999999999999999999999999999999999999999999999999999999999999999999999999999999999999999999";
    let result = calc_sequence_rs(n).unwrap();
    assert_eq!(&result[0], n);
    assert_eq!(&result[result.len() - 1], "1");
}

#[test]
fn first_and_last_106_digits() {
    let n = "9".repeat(106);
    let result = calc_sequence_rs(&n).unwrap();
    assert_eq!(result[0], n);
    assert_eq!(&result[result.len() - 1], "1");
}

#[test]
fn two_to_the_64_halves_down_to_one() {
    let result = calc_sequence_rs("18446744073709551616").unwrap();
    assert_eq!(result.len(), 65);
    assert_eq!(&result[1], "9223372036854775808");
    assert_eq!(&result[63], "2");
}

#[test]
fn empty_input_is_malformed() {
    assert_eq!(calc_sequence_rs(""), Err(SequenceError::MalformedInput));
    assert_eq!(calc_sequence_bigint(""), Err(SequenceError::MalformedInput));
}

#[test]
fn letter_in_input_is_malformed() {
    assert_eq!(calc_sequence_rs("12a"), Err(SequenceError::MalformedInput));
    assert_eq!(calc_sequence_bigint("12a"), Err(SequenceError::MalformedInput));
}

#[test]
fn zero_is_malformed() {
    assert_eq!(calc_sequence_rs("0"), Err(SequenceError::MalformedInput));
    assert_eq!(calc_sequence_rs("000"), Err(SequenceError::MalformedInput));
    assert_eq!(calc_sequence_bigint("0"), Err(SequenceError::MalformedInput));
    assert_eq!(calc_sequence_bigint("000"), Err(SequenceError::MalformedInput));
}

#[test]
fn signs_are_malformed() {
    assert_eq!(calc_sequence_rs("-5"), Err(SequenceError::MalformedInput));
    assert_eq!(calc_sequence_rs("+5"), Err(SequenceError::MalformedInput));
    assert_eq!(calc_sequence_bigint("-5"), Err(SequenceError::MalformedInput));
    assert_eq!(calc_sequence_bigint("+5"), Err(SequenceError::MalformedInput));
}

#[test]
fn separators_blanks_and_other_scripts_are_malformed() {
    for text in ["1_000", " 12", "12 ", "1.5", "0x10", "１２", "12\0"] {
        assert_eq!(calc_sequence_rs(text), Err(SequenceError::MalformedInput));
        assert_eq!(calc_sequence_bigint(text), Err(SequenceError::MalformedInput));
    }
}

#[test]
fn long_malformed_input_is_malformed_in_every_tier() {
    let mut text = "9".repeat(120);
    text.push('x');
    assert_eq!(calc_sequence_rs(&text), Err(SequenceError::MalformedInput));
    let mut signed = String::from("+");
    signed.push_str(&"9".repeat(120));
    assert_eq!(calc_sequence_rs(&signed), Err(SequenceError::MalformedInput));
    let mut spaced = "9".repeat(60);
    spaced.push('_');
    spaced.push_str(&"9".repeat(60));
    assert_eq!(calc_sequence_rs(&spaced), Err(SequenceError::MalformedInput));
}

#[test]
fn one_walks_the_loop_once() {
    let result = calc_sequence_rs("1").unwrap();
    assert_eq!(result, vec!["1", "4", "2", "1"]);
    let result = calc_sequence_bigint("1").unwrap();
    assert_eq!(result, vec!["1", "4", "2", "1"]);
}

#[test]
fn two_is_done_after_one_step() {
    assert_eq!(calc_sequence_rs("2").unwrap(), vec!["2", "1"]);
}

#[test]
fn leading_zeros_are_dropped_in_the_output() {
    let result = calc_sequence_rs("0012").unwrap();
    assert_eq!(
        result,
        vec!["12", "6", "3", "10", "5", "16", "8", "4", "2", "1"]
    );
    let padded = format!("{}{}", "0".repeat(40), "18446744073709551616");
    let result = calc_sequence_rs(&padded).unwrap();
    assert_eq!(&result[0], "18446744073709551616");
    assert_eq!(result.len(), 65);
}

#[test]
fn twenty_seven_takes_111_steps() {
    let result = calc_sequence_rs("27").unwrap();
    assert_eq!(result.len(), 112);
    assert_eq!(&result[1], "82");
    assert_eq!(&result[77], "9232");
    assert_eq!(&result[111], "1");
}
