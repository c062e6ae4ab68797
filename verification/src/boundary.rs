//! The reply to a foreign caller, laid out in plain values: NUL-terminated strings, their
//! count, and a failure flag.

use vstd::prelude::*;
use vstd::string::StringExecFns;
use crate::accumulator::MAX_SEQUENCE_LEN;
use crate::decimal::{
    decimal_string, decimal_value, is_decimal, is_digit, lemma_decimal_string_is_decimal,
};
use crate::escalator::calc_sequence_rs;
use crate::outcome::{outcome_holds, SequenceError};
use crate::orbit::trajectory;

verus! {

/// What is handed to a foreign caller, in plain values: the strings, their count, and the
/// failure flag.
#[derive(Debug)]
pub struct BoundaryReply {
    pub strings: Vec<String>,
    pub count: usize,
    pub failed: bool,
}

/// Each text with a NUL character behind it.
pub open spec fn terminated(texts: Seq<Seq<char>>) -> Seq<Seq<char>> {
    texts.map_values(|text: Seq<char>| text.push('\0'))
}

/// Each text without its last character.
pub open spec fn unterminated(texts: Seq<Seq<char>>) -> Seq<Seq<char>> {
    texts.map_values(|text: Seq<char>| text.drop_last())
}

/// What the boundary owes for the text `input`.
///
/// On failure nothing is handed over at all. On success the strings are the numerals that
/// the computation owes, each closed by one NUL character, and `count` is their number.
pub open spec fn reply_holds(
    input: Seq<char>,
    strings: Seq<Seq<char>>,
    count: nat,
    failed: bool,
) -> bool {
    &&& count == strings.len()
    &&& if failed {
        &&& strings.len() == 0
        &&& {
            ||| outcome_holds(
                input,
                MAX_SEQUENCE_LEN as nat,
                Err::<Seq<Seq<char>>, SequenceError>(SequenceError::MalformedInput),
            )
            ||| outcome_holds(
                input,
                MAX_SEQUENCE_LEN as nat,
                Err::<Seq<Seq<char>>, SequenceError>(SequenceError::TooLong),
            )
        }
    } else {
        &&& outcome_holds(input, MAX_SEQUENCE_LEN as nat, Ok(unterminated(strings)))
        &&& strings == terminated(unterminated(strings))
    }
}

/// Taking the last character off every closed text gives the texts back.
pub proof fn lemma_unterminated_terminated(texts: Seq<Seq<char>>)
    ensures
        unterminated(terminated(texts)) == texts,
{
    assert forall|i: int| 0 <= i < texts.len() implies unterminated(terminated(texts))[i]
        == texts[i] by {
        assert(texts[i].push('\0').drop_last() =~= texts[i]);
    }
    assert(unterminated(terminated(texts)) =~= texts);
}

/// Every string of a successful reply is a decimal numeral closed by the one NUL character
/// that it holds, which is what a C string asks for.
pub proof fn lemma_reply_strings_are_c_strings(
    input: Seq<char>,
    strings: Seq<Seq<char>>,
    count: nat,
    i: int,
)
    requires
        reply_holds(input, strings, count, false),
        0 <= i < strings.len(),
    ensures
        strings[i].len() >= 2,
        strings[i].last() == '\0',
        is_decimal(strings[i].drop_last()),
        forall|j: int| 0 <= j < strings[i].len() - 1 ==> strings[i][j] != '\0',
{
    let n = decimal_value(input);
    let k = (strings.len() - 1) as nat;
    let numeral = unterminated(strings)[i];
    assert(numeral == decimal_string(trajectory(n, k)[i]));
    lemma_decimal_string_is_decimal(trajectory(n, k)[i]);
    assert(strings[i] == terminated(unterminated(strings))[i]);
    assert(strings[i].drop_last() =~= numeral);
    assert forall|j: int| 0 <= j < strings[i].len() - 1 implies strings[i][j] != '\0' by {
        assert(is_digit(numeral[j]));
    }
}

/// Closes every string with one NUL character.
pub fn terminate_strings(strings: Vec<String>) -> (closed: Vec<String>)
    ensures
        closed.deep_view() == terminated(strings.deep_view()),
{
    let mut closed: Vec<String> = Vec::new();
    let mut i: usize = 0;
    while i < strings.len()
        invariant
            i <= strings.len(),
            closed@.len() == i,
            forall|j: int| 0 <= j < i ==> (#[trigger] closed@[j])@ == strings@[j]@.push('\0'),
        decreases strings.len() - i,
    {
        let mut text: String = strings[i].clone();
        proof {
            reveal_strlit("\0");
        }
        text.append("\0");
        assert(text@ =~= strings@[i as int]@.push('\0'));
        closed.push(text);
        i = i + 1;
    }
    assert(closed.deep_view() =~= terminated(strings.deep_view()));
    closed
}

/// Computes the Collatz sequence of the number that `input` denotes and lays it out for a
/// foreign caller.
pub fn calc_sequence_reply(input: &str) -> (reply: BoundaryReply)
    ensures
        reply_holds(input@, reply.strings.deep_view(), reply.count as nat, reply.failed),
{
    match calc_sequence_rs(input) {
        Ok(sequence) => {
            let strings = terminate_strings(sequence);
            let count: usize = strings.len();
            proof {
                lemma_unterminated_terminated(sequence.deep_view());
            }
            BoundaryReply { strings, count, failed: false }
        },
        Err(_) => BoundaryReply { strings: Vec::new(), count: 0, failed: true },
    }
}

} // verus!
