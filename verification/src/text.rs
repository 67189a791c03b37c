//! Numbers as text: how identifiers are written into launch arguments, paths
//! and descriptions, and how they are read back.

use vstd::prelude::*;
use vstd::string::*;

verus! {

broadcast use vstd::string::group_string_axioms;

/// The texts that a list of strings holds, in order.
pub open spec fn texts(strings: Seq<String>) -> Seq<Seq<char>> {
    strings.map_values(|s: String| s@)
}

/// The text that an optional string holds.
pub open spec fn optional_text(text: Option<String>) -> Option<Seq<char>> {
    match text {
        Some(text) => Some(text@),
        None => None,
    }
}

/// The character that stands for the digit `d`.
pub open spec fn digit_char(d: nat) -> char {
    if d == 0 {
        '0'
    } else if d == 1 {
        '1'
    } else if d == 2 {
        '2'
    } else if d == 3 {
        '3'
    } else if d == 4 {
        '4'
    } else if d == 5 {
        '5'
    } else if d == 6 {
        '6'
    } else if d == 7 {
        '7'
    } else if d == 8 {
        '8'
    } else {
        '9'
    }
}

/// Whether `c` is one of the ten decimal digits.
pub open spec fn is_digit(c: char) -> bool {
    '0' <= c <= '9'
}

/// The number a decimal digit stands for.
pub open spec fn digit_value(c: char) -> nat {
    (c as u32 - '0' as u32) as nat
}

/// `n` in decimal, most significant digit first, without leading zeros.
pub open spec fn decimal_digits(n: nat) -> Seq<char>
    decreases n,
{
    if n < 10 {
        seq![digit_char(n)]
    } else {
        decimal_digits(n / 10).push(digit_char(n % 10))
    }
}

/// The number that a run of decimal digits stands for.
pub open spec fn digits_value(digits: Seq<char>) -> nat
    decreases digits.len(),
{
    if digits.len() == 0 {
        0
    } else {
        digits_value(digits.drop_last()) * 10 + digit_value(digits.last())
    }
}

/// Whether every character of `text` is a decimal digit.
pub open spec fn all_digits(text: Seq<char>) -> bool {
    forall|i: int| 0 <= i < text.len() ==> is_digit(#[trigger] text[i])
}

/// What is left of `text` once one leading `+` is taken off.
pub open spec fn unsigned_part(text: Seq<char>) -> Seq<char> {
    if text.len() > 0 && text[0] == '+' {
        text.skip(1)
    } else {
        text
    }
}

/// The 32-bit number that `text` denotes: an optional `+`, then at least one
/// decimal digit and nothing else, with a value that fits. Any other text
/// denotes no number.
pub open spec fn decimal_value(text: Seq<char>) -> Option<u32> {
    let digits = unsigned_part(text);
    if digits.len() > 0 && all_digits(digits) && digits_value(digits) <= u32::MAX {
        Some(digits_value(digits) as u32)
    } else {
        None
    }
}

/// The number that `text` denotes, or zero where it denotes none.
pub open spec fn decimal_value_or_zero(text: Seq<char>) -> u32 {
    match decimal_value(text) {
        Some(value) => value,
        None => 0,
    }
}

/// A prefix of a run of digits stands for no more than the whole run.
pub proof fn lemma_digits_value_prefix(digits: Seq<char>, n: int)
    requires
        0 <= n <= digits.len(),
    ensures
        digits_value(digits.take(n)) <= digits_value(digits),
    decreases digits.len(),
{
    if n == digits.len() {
        assert(digits.take(n) =~= digits);
    } else {
        lemma_digits_value_prefix(digits.drop_last(), n);
        assert(digits.drop_last().take(n) =~= digits.take(n));
    }
}

/// The decimal form of a number consists of digits only, does not start with
/// `+`, and stands for that number.
pub proof fn lemma_decimal_digits_value(n: nat)
    ensures
        decimal_digits(n).len() > 0,
        all_digits(decimal_digits(n)),
        decimal_digits(n)[0] != '+',
        digits_value(decimal_digits(n)) == n,
    decreases n,
{
    if n < 10 {
        let text = decimal_digits(n);
        assert(text.drop_last() =~= Seq::<char>::empty());
        assert(digits_value(text.drop_last()) == 0);
        assert(digit_value(text.last()) == n);
    } else {
        lemma_decimal_digits_value(n / 10);
        let head = decimal_digits(n / 10);
        let text = decimal_digits(n);
        assert(text.drop_last() =~= head);
        assert(digit_value(text.last()) == n % 10);
        assert(text[0] == head[0]);
    }
}

/// Reading back the decimal form of a 32-bit number gives that number.
pub proof fn lemma_decimal_round_trip(n: u32)
    ensures
        decimal_value(decimal_digits(n as nat)) == Some(n),
{
    lemma_decimal_digits_value(n as nat);
}

/// The one-character text of the digit `d`.
fn digit_text(d: u32) -> (text: &'static str)
    requires
        d < 10,
    ensures
        text@ == seq![digit_char(d as nat)],
{
    proof {
        reveal_strlit("0");
        reveal_strlit("1");
        reveal_strlit("2");
        reveal_strlit("3");
        reveal_strlit("4");
        reveal_strlit("5");
        reveal_strlit("6");
        reveal_strlit("7");
        reveal_strlit("8");
        reveal_strlit("9");
    }
    let text: &'static str = if d == 0 {
        "0"
    } else if d == 1 {
        "1"
    } else if d == 2 {
        "2"
    } else if d == 3 {
        "3"
    } else if d == 4 {
        "4"
    } else if d == 5 {
        "5"
    } else if d == 6 {
        "6"
    } else if d == 7 {
        "7"
    } else if d == 8 {
        "8"
    } else {
        "9"
    };
    assert(text@ =~= seq![digit_char(d as nat)]);
    text
}

/// Writes `n` in decimal.
pub fn decimal_text_u64(n: u64) -> (text: String)
    ensures
        text@ == decimal_digits(n as nat),
    decreases n,
{
    let last = digit_text((n % 10) as u32);
    if n < 10 {
        String::from_str(last)
    } else {
        let text = decimal_text_u64(n / 10).concat(last);
        assert(text@ =~= decimal_digits(n as nat));
        text
    }
}

/// Writes `n` in decimal.
pub fn decimal_text(n: u32) -> (text: String)
    ensures
        text@ == decimal_digits(n as nat),
{
    decimal_text_u64(n as u64)
}

/// `n` in decimal, with a `-` in front where it is negative.
pub open spec fn signed_digits(n: int) -> Seq<char> {
    if n < 0 {
        "-"@ + decimal_digits((-n) as nat)
    } else {
        decimal_digits(n as nat)
    }
}

/// Writes `n` in decimal, with a `-` in front where it is negative.
pub fn signed_decimal_text(n: i64) -> (text: String)
    ensures
        text@ == signed_digits(n as int),
{
    if n < 0 {
        let magnitude: u64 = ((-(n + 1)) as u64) + 1;
        String::from_str("-").concat(decimal_text_u64(magnitude).as_str())
    } else {
        decimal_text_u64(n as u64)
    }
}

/// Reads the 32-bit number that `text` denotes, if it denotes one.
pub fn parse_decimal(text: &str) -> (value: Option<u32>)
    ensures
        value == decimal_value(text@),
{
    if !text.is_ascii() {
        proof {
            let i = choose|i: int|
                0 <= i < text@.len() && !('\0' <= #[trigger] text@[i] <= '\u{7f}');
            let digits = unsigned_part(text@);
            if digits.len() == text@.len() {
                assert(!is_digit(digits[i]));
            } else if i > 0 {
                assert(digits[i - 1] == text@[i]);
                assert(!is_digit(digits[i - 1]));
            }
        }
        return None;
    }
    let length: usize = text.unicode_len();
    let start: usize = if length > 0 && text.get_ascii(0) == 43u8 {
        1
    } else {
        0
    };
    let ghost digits = unsigned_part(text@);
    assert(digits =~= text@.skip(start as int));
    if start == length {
        return None;
    }
    let mut total: u64 = 0;
    let mut position: usize = start;
    while position < length
        invariant
            text.is_ascii(),
            length == text@.len(),
            start <= position <= length,
            digits == text@.skip(start as int),
            digits == unsigned_part(text@),
            all_digits(digits.take(position - start)),
            total == digits_value(digits.take(position - start)),
            total <= u32::MAX,
        decreases length - position,
    {
        let byte: u8 = text.get_ascii(position);
        let ghost seen = digits.take(position - start);
        let ghost next = digits.take(position - start + 1);
        assert(next.drop_last() =~= seen);
        assert(next.last() == text@[position as int]);
        if byte < 48u8 || byte > 57u8 {
            assert(digits[position - start] == text@[position as int]);
            assert(!is_digit(digits[position - start]));
            return None;
        }
        let digit: u64 = (byte - 48u8) as u64;
        assert(digit == digit_value(next.last()));
        total = total * 10 + digit;
        assert(total == digits_value(next));
        if total > 0xffff_ffffu64 {
            proof {
                lemma_digits_value_prefix(digits, position - start + 1);
            }
            return None;
        }
        assert forall|i: int| 0 <= i < next.len() implies is_digit(#[trigger] next[i]) by {
            if i < seen.len() {
                assert(next[i] == seen[i]);
            }
        }
        position = position + 1;
    }
    assert(digits.take(position - start) =~= digits);
    Some(total as u32)
}

/// The number that `text` denotes, or zero where it denotes none.
pub fn parse_decimal_or_zero(text: &str) -> (value: u32)
    ensures
        value == decimal_value_or_zero(text@),
{
    match parse_decimal(text) {
        Some(value) => value,
        None => 0,
    }
}

} // verus!
