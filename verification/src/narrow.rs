//! The narrow tier: values held in one 64-bit machine word.

use vstd::prelude::*;
use vstd::string::StringExecFns;
use crate::decimal::{
    decimal_string, decimal_value, digit_char, digit_value, is_decimal, is_decimal_str, is_digit,
    lemma_decimal_value_prefix, lemma_decimal_value_step,
};
use crate::number::{Number, ParseOutcome, StepResult};

verus! {

/// The digits of `low`, which stand least significant first, written most significant
/// first.
spec fn digits_backwards(low: Seq<u64>) -> Seq<char>
    decreases low.len(),
{
    if low.len() == 0 {
        Seq::<char>::empty()
    } else {
        seq![digit_char(low.last() as nat)] + digits_backwards(low.drop_last())
    }
}

/// A digit put in front of the others is written behind them.
proof fn lemma_digits_backwards_front(d: u64, low: Seq<u64>)
    ensures
        digits_backwards(seq![d] + low) == digits_backwards(low).push(digit_char(d as nat)),
    decreases low.len(),
{
    let all = seq![d] + low;
    if low.len() == 0 {
        assert(all.drop_last() =~= Seq::<u64>::empty());
        assert(digits_backwards(all) == seq![digit_char(d as nat)] + digits_backwards(
            all.drop_last(),
        ));
        assert(digits_backwards(all) =~= digits_backwards(low).push(digit_char(d as nat)));
    } else {
        lemma_digits_backwards_front(d, low.drop_last());
        assert(all.drop_last() =~= seq![d] + low.drop_last());
        assert(all.last() == low.last());
        assert(digits_backwards(all) == seq![digit_char(low.last() as nat)] + digits_backwards(
            all.drop_last(),
        ));
        assert(digits_backwards(all) =~= digits_backwards(low).push(digit_char(d as nat)));
    }
}

/// The numeral of a single digit.
fn digit_str(d: u64) -> (s: &'static str)
    requires
        d < 10,
    ensures
        s@ == seq![digit_char(d as nat)],
{
    proof {
        reveal_strlit("0");
        reveal_strlit("1");
        reveal_strlit("2");
        reveal_strlit("3");
        reveal_strlit("4");
        reveal_strlit("5");
        reveal_strlit("6");
        reveal_strlit("7");
        reveal_strlit("8");
        reveal_strlit("9");
    }
    let s = if d == 0 {
        "0"
    } else if d == 1 {
        "1"
    } else if d == 2 {
        "2"
    } else if d == 3 {
        "3"
    } else if d == 4 {
        "4"
    } else if d == 5 {
        "5"
    } else if d == 6 {
        "6"
    } else if d == 7 {
        "7"
    } else if d == 8 {
        "8"
    } else {
        "9"
    };
    assert(s@ =~= seq![digit_char(d as nat)]);
    s
}

/// Writes a machine word as its canonical decimal numeral.
fn u64_to_decimal(n: u64) -> (s: String)
    ensures
        s@ == decimal_string(n as nat),
{
    let mut low: Vec<u64> = Vec::new();
    let mut rest: u64 = n;
    while rest >= 10
        invariant
            forall|j: int| 0 <= j < low@.len() ==> low@[j] < 10,
            decimal_string(n as nat) == decimal_string(rest as nat) + digits_backwards(low@),
        decreases rest,
    {
        let ghost before = low@;
        low.push(rest % 10);
        proof {
            assert(low@.drop_last() =~= before);
            assert(decimal_string(rest as nat) + digits_backwards(before) =~= decimal_string(
                (rest / 10) as nat,
            ) + digits_backwards(low@));
        }
        rest = rest / 10;
    }
    let mut s = String::from_str(digit_str(rest));
    let mut i: usize = low.len();
    proof {
        assert(low@.skip(i as int) =~= Seq::<u64>::empty());
        assert(s@ =~= decimal_string(rest as nat) + digits_backwards(low@.skip(i as int)));
    }
    while i > 0
        invariant
            i <= low@.len(),
            forall|j: int| 0 <= j < low@.len() ==> low@[j] < 10,
            s@ == decimal_string(rest as nat) + digits_backwards(low@.skip(i as int)),
        decreases i,
    {
        i = i - 1;
        s.append(digit_str(low[i]));
        proof {
            lemma_digits_backwards_front(low@[i as int], low@.skip(i + 1));
            assert(low@.skip(i as int) =~= seq![low@[i as int]] + low@.skip(i + 1));
            assert(s@ =~= decimal_string(rest as nat) + digits_backwards(low@.skip(i as int)));
        }
    }
    assert(low@.skip(0) =~= low@);
    s
}

/// The narrow tier: one machine word.
impl Number for u64 {
    open spec fn value(&self) -> nat {
        *self as nat
    }

    open spec fn representable(n: nat) -> bool {
        n <= u64::MAX
    }

    proof fn lemma_value_representable(&self) {
    }

    fn divide_by_two(self) -> (r: StepResult<Self>) {
        match self.checked_div(2) {
            Some(x) => StepResult::Step(x),
            None => StepResult::Overflow(self),
        }
    }

    fn triple_and_add_one(self) -> (r: StepResult<Self>) {
        match self.checked_mul(3) {
            Some(tripled) => match tripled.checked_add(1) {
                Some(x) => StepResult::Step(x),
                None => StepResult::Overflow(self),
            },
            None => StepResult::Overflow(self),
        }
    }

    fn is_odd(&self) -> (b: bool) {
        assert(*self & 0x1 == *self % 2) by (bit_vector);
        *self & 0x1 == 1
    }

    fn is_one(&self) -> (b: bool) {
        *self == 1
    }

    fn to_string(&self) -> (s: String) {
        u64_to_decimal(*self)
    }

    fn parse_decimal(s: &str) -> (r: ParseOutcome<Self>) {
        if !is_decimal_str(s) {
            return ParseOutcome::Malformed;
        }
        let bytes = s.as_bytes();
        proof {
            vstd::string::is_ascii_spec_bytes(s);
            assert(vstd::string::is_ascii(s));
            assert(s@.take(0) =~= Seq::<char>::empty());
        }
        let mut acc: u64 = 0;
        let mut i: usize = 0;
        while i < bytes.len()
            invariant
                i <= bytes.len(),
                bytes@.len() == s@.len(),
                forall|j: int| 0 <= j < bytes@.len() ==> bytes@[j] == s@[j] as u8,
                is_decimal(s@),
                acc == decimal_value(s@.take(i as int)),
            decreases bytes.len() - i,
        {
            let b: u8 = bytes[i];
            proof {
                assert(is_digit(s@[i as int]));
                lemma_decimal_value_step(s@, i as int);
                lemma_decimal_value_prefix(s@, i + 1);
            }
            let d: u64 = (b - 48) as u64;
            assert(d == digit_value(s@[i as int]));
            match acc.checked_mul(10) {
                None => {
                    return ParseOutcome::TooLarge;
                },
                Some(shifted) => match shifted.checked_add(d) {
                    None => {
                        return ParseOutcome::TooLarge;
                    },
                    Some(next) => {
                        acc = next;
                    },
                },
            }
            i = i + 1;
        }
        assert(s@.take(i as int) =~= s@);
        ParseOutcome::Parsed(acc)
    }

    fn duplicate(&self) -> (copy: Self) {
        *self
    }
}

} // verus!
