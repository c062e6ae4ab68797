//! Decimal numerals: which texts are numerals, what number a numeral denotes, and the
//! canonical numeral of a number.

use vstd::prelude::*;
use vstd::string::*;

verus! {

/// `c` is one of the ten ASCII decimal digits.
pub open spec fn is_digit(c: char) -> bool {
    '0' <= c && c <= '9'
}

/// Every character of `s` is an ASCII decimal digit.
pub open spec fn all_digits(s: Seq<char>) -> bool {
    forall|i: int| 0 <= i < s.len() ==> is_digit(#[trigger] s[i])
}

/// `s` is a decimal numeral: one or more ASCII digits and nothing else.
pub open spec fn is_decimal(s: Seq<char>) -> bool {
    s.len() > 0 && all_digits(s)
}

/// The number that the digit `c` stands for.
pub open spec fn digit_value(c: char) -> nat {
    (c as int - '0' as int) as nat
}

/// The digit that stands for `d`, for `d` below ten.
pub open spec fn digit_char(d: nat) -> char {
    (d + '0' as nat) as char
}

/// The number that the digits of `s` denote in base ten, most significant digit first.
pub open spec fn decimal_value(s: Seq<char>) -> nat
    decreases s.len(),
{
    if s.len() == 0 {
        0
    } else {
        10 * decimal_value(s.drop_last()) + digit_value(s.last())
    }
}

/// The canonical decimal numeral of `n`: no sign, no leading zero, `"0"` for zero.
pub open spec fn decimal_string(n: nat) -> Seq<char>
    decreases n,
{
    if n < 10 {
        seq![digit_char(n)]
    } else {
        decimal_string(n / 10).push(digit_char(n % 10))
    }
}

/// The canonical decimal numerals of a sequence of numbers.
pub open spec fn numerals_of(values: Seq<nat>) -> Seq<Seq<char>> {
    values.map_values(|n: nat| decimal_string(n))
}

/// The canonical numeral is a decimal numeral.
pub proof fn lemma_decimal_string_is_decimal(n: nat)
    ensures
        is_decimal(decimal_string(n)),
    decreases n,
{
    if n >= 10 {
        lemma_decimal_string_is_decimal(n / 10);
    }
}

/// Reading the canonical numeral of `n` gives `n` back.
pub proof fn lemma_decimal_string_value(n: nat)
    ensures
        decimal_value(decimal_string(n)) == n,
    decreases n,
{
    let s = decimal_string(n);
    if n < 10 {
        assert(s.drop_last() =~= Seq::<char>::empty());
        assert(decimal_value(s.drop_last()) == 0);
    } else {
        lemma_decimal_string_value(n / 10);
        assert(s.drop_last() =~= decimal_string(n / 10));
    }
}

/// The canonical numeral of a positive number does not start with `'0'`.
pub proof fn lemma_decimal_string_no_leading_zero(n: nat)
    requires
        n > 0,
    ensures
        decimal_string(n)[0] != '0',
    decreases n,
{
    if n >= 10 {
        lemma_decimal_string_no_leading_zero(n / 10);
    }
}

/// A digit appended to a numeral multiplies its value by ten and adds the digit.
pub proof fn lemma_decimal_value_step(s: Seq<char>, i: int)
    requires
        0 <= i < s.len(),
    ensures
        decimal_value(s.take(i + 1)) == 10 * decimal_value(s.take(i)) + digit_value(s[i]),
{
    assert(s.take(i + 1).drop_last() =~= s.take(i));
}

/// The value of a prefix of a numeral is at most the value of the numeral.
pub proof fn lemma_decimal_value_prefix(s: Seq<char>, i: int)
    requires
        0 <= i <= s.len(),
    ensures
        decimal_value(s.take(i)) <= decimal_value(s),
    decreases s.len() - i,
{
    if i < s.len() {
        lemma_decimal_value_step(s, i);
        lemma_decimal_value_prefix(s, i + 1);
    } else {
        assert(s.take(i) =~= s);
    }
}

/// Tells whether `s` is a decimal numeral.
pub fn is_decimal_str(s: &str) -> (b: bool)
    ensures
        b == is_decimal(s@),
{
    if !s.is_ascii() {
        return false;
    }
    let bytes = s.as_bytes();
    proof {
        is_ascii_spec_bytes(s);
    }
    if bytes.len() == 0 {
        return false;
    }
    let mut i: usize = 0;
    while i < bytes.len()
        invariant
            i <= bytes.len(),
            bytes@.len() == s@.len(),
            forall|j: int| 0 <= j < bytes@.len() ==> bytes@[j] == s@[j] as u8,
            is_ascii(s),
            forall|j: int| 0 <= j < i ==> is_digit(#[trigger] s@[j]),
        decreases bytes.len() - i,
    {
        let b: u8 = bytes[i];
        if b < 48 || b > 57 {
            assert(!is_digit(s@[i as int]));
            return false;
        }
        i = i + 1;
    }
    true
}

} // verus!
