//! Whole numbers written in decimal digits.
use crate::text::chars_of;
use vstd::prelude::*;

verus! {

/// Whether `c` is one of the ten decimal digits.
pub open spec fn is_digit(c: char) -> bool {
    '0' <= c && c <= '9'
}

/// The number that a digit stands for.
pub open spec fn digit_value(c: char) -> nat {
    (c as int - '0' as int) as nat
}

/// The digit that stands for `n`.
pub open spec fn digit_char(n: nat) -> char {
    (n + '0' as int) as char
}

/// Whether `text` is one digit or more, and nothing else.
pub open spec fn is_number(text: Seq<char>) -> bool {
    text.len() > 0 && forall|i: int| 0 <= i < text.len() ==> is_digit(text[i])
}

/// The number that a run of digits stands for.
pub open spec fn number_value(digits: Seq<char>) -> nat
    decreases digits.len(),
{
    if digits.len() == 0 {
        0
    } else {
        number_value(digits.drop_last()) * 10 + digit_value(digits.last())
    }
}

/// The digits that stand for `n`, without leading zeros.
pub open spec fn number_text(n: nat) -> Seq<char>
    decreases n,
{
    if n < 10 {
        seq![digit_char(n)]
    } else {
        number_text(n / 10).push(digit_char(n % 10))
    }
}

/// The digits that stand for `n`, with a minus sign in front of a negative number.
pub open spec fn integer_text(n: int) -> Seq<char> {
    if n < 0 {
        seq!['-'] + number_text((-n) as nat)
    } else {
        number_text(n as nat)
    }
}

/// The unsigned number that `text` stands for: digits, with an optional plus sign in front, and a
/// value of at most `max`.
pub open spec fn unsigned_value(text: Seq<char>, max: nat) -> Option<nat> {
    let digits = if text.len() > 0 && text[0] == '+' {
        text.skip(1)
    } else {
        text
    };
    if is_number(digits) && number_value(digits) <= max {
        Some(number_value(digits))
    } else {
        None
    }
}

/// The signed number that `text` stands for: digits, with an optional sign in front, and a value
/// from `min` to `max`.
pub open spec fn signed_value(text: Seq<char>, min: int, max: int) -> Option<int> {
    let signed = text.len() > 0 && (text[0] == '+' || text[0] == '-');
    let digits = if signed {
        text.skip(1)
    } else {
        text
    };
    let value = if signed && text[0] == '-' {
        -(number_value(digits) as int)
    } else {
        number_value(digits) as int
    };
    if is_number(digits) && min <= value <= max {
        Some(value)
    } else {
        None
    }
}

/// More digits never make a number smaller.
proof fn number_value_grows(digits: Seq<char>, n: int)
    requires
        0 <= n <= digits.len(),
    ensures
        number_value(digits.take(n)) <= number_value(digits),
    decreases digits.len() - n,
{
    if n < digits.len() {
        assert(digits.take(n + 1).drop_last() =~= digits.take(n));
        number_value_grows(digits, n + 1);
    } else {
        assert(digits.take(n) =~= digits);
    }
}

/// Reads the digits of `chars` from `from` on as a number of at most `limit`.
fn read_digits(chars: &Vec<char>, from: usize, limit: u64) -> (value: Option<u64>)
    requires
        from <= chars@.len(),
    ensures
        match value {
            Some(v) => is_number(chars@.skip(from as int)) && number_value(chars@.skip(from as int))
                == v && v <= limit,
            None => !is_number(chars@.skip(from as int)) || number_value(chars@.skip(from as int))
                > limit,
        },
{
    let ghost digits = chars@.skip(from as int);
    if from == chars.len() {
        return None;
    }
    let mut value: u64 = 0;
    let mut i: usize = from;
    while i < chars.len()
        invariant
            from <= i <= chars.len(),
            digits == chars@.skip(from as int),
            forall|j: int| 0 <= j < i - from ==> is_digit(digits[j]),
            value == number_value(digits.take(i - from)),
            value <= limit,
        decreases chars.len() - i,
    {
        let c = chars[i];
        proof {
            assert(c == digits[i - from]);
            assert(digits.take(i - from + 1).drop_last() =~= digits.take(i - from));
            number_value_grows(digits, i - from + 1);
        }
        if c < '0' || c > '9' {
            return None;
        }
        let d: u64 = (c as u64) - ('0' as u64);
        if d > limit || value > (limit - d) / 10 {
            return None;
        }
        value = value * 10 + d;
        i += 1;
    }
    proof {
        assert(digits.take(chars@.len() - from) =~= digits);
    }
    Some(value)
}

/// Reads a number from 0 to `max`, with an optional plus sign in front.
fn parse_unsigned(text: &str, max: u64) -> (value: Option<u64>)
    ensures
        match value {
            Some(v) => unsigned_value(text@, max as nat) == Some(v as nat),
            None => unsigned_value(text@, max as nat) is None,
        },
{
    let chars = chars_of(text);
    assert(chars@.skip(0) =~= chars@);
    let from: usize = if chars.len() > 0 && chars[0] == '+' {
        1
    } else {
        0
    };
    read_digits(&chars, from, max)
}

/// Reads a number from `-max - 1` to `max`, with an optional sign in front.
fn parse_signed(text: &str, max: i64) -> (value: Option<i64>)
    requires
        max >= 0,
    ensures
        match value {
            Some(v) => signed_value(text@, -max - 1, max as int) == Some(v as int),
            None => signed_value(text@, -max - 1, max as int) is None,
        },
{
    let chars = chars_of(text);
    assert(chars@.skip(0) =~= chars@);
    let negative = chars.len() > 0 && chars[0] == '-';
    let from: usize = if negative || (chars.len() > 0 && chars[0] == '+') {
        1
    } else {
        0
    };
    if negative {
        match read_digits(&chars, from, max as u64 + 1) {
            Some(0) => Some(0),
            Some(magnitude) => Some(-((magnitude - 1) as i64) - 1),
            None => None,
        }
    } else {
        match read_digits(&chars, from, max as u64) {
            Some(magnitude) => Some(magnitude as i64),
            None => None,
        }
    }
}

/// Reads a `u64`.
pub fn parse_u64(text: &str) -> (value: Option<u64>)
    ensures
        match value {
            Some(v) => unsigned_value(text@, u64::MAX as nat) == Some(v as nat),
            None => unsigned_value(text@, u64::MAX as nat) is None,
        },
{
    parse_unsigned(text, u64::MAX)
}

/// Reads a `u32`.
pub fn parse_u32(text: &str) -> (value: Option<u32>)
    ensures
        match value {
            Some(v) => unsigned_value(text@, u32::MAX as nat) == Some(v as nat),
            None => unsigned_value(text@, u32::MAX as nat) is None,
        },
{
    match parse_unsigned(text, u32::MAX as u64) {
        Some(v) => Some(v as u32),
        None => None,
    }
}

/// Reads an `i64`.
pub fn parse_i64(text: &str) -> (value: Option<i64>)
    ensures
        match value {
            Some(v) => signed_value(text@, i64::MIN as int, i64::MAX as int) == Some(v as int),
            None => signed_value(text@, i64::MIN as int, i64::MAX as int) is None,
        },
{
    parse_signed(text, i64::MAX)
}

/// Reads an `i32`.
pub fn parse_i32(text: &str) -> (value: Option<i32>)
    ensures
        match value {
            Some(v) => signed_value(text@, i32::MIN as int, i32::MAX as int) == Some(v as int),
            None => signed_value(text@, i32::MIN as int, i32::MAX as int) is None,
        },
{
    match parse_signed(text, i32::MAX as i64) {
        Some(v) => Some(v as i32),
        None => None,
    }
}

/// The text of one digit.
fn digit_text(digit: u32) -> (text: &'static str)
    requires
        digit < 10,
    ensures
        text@ == seq![digit_char(digit as nat)],
{
    proof {
        reveal_strlit("0");
        reveal_strlit("1");
        reveal_strlit("2");
        reveal_strlit("3");
        reveal_strlit("4");
        reveal_strlit("5");
        reveal_strlit("6");
        reveal_strlit("7");
        reveal_strlit("8");
        reveal_strlit("9");
    }
    match digit {
        0 => "0",
        1 => "1",
        2 => "2",
        3 => "3",
        4 => "4",
        5 => "5",
        6 => "6",
        7 => "7",
        8 => "8",
        _ => "9",
    }
}

/// Writes the digits of `n` at the end of `buffer`.
fn append_number(buffer: &mut String, n: u32)
    ensures
        final(buffer)@ == old(buffer)@ + number_text(n as nat),
    decreases n,
{
    if n >= 10 {
        append_number(buffer, n / 10);
    }
    buffer.append(digit_text(n % 10));
}

/// Writes `n` in decimal at the end of `buffer`.
pub fn append_integer(buffer: &mut String, n: i32)
    ensures
        final(buffer)@ == old(buffer)@ + integer_text(n as int),
{
    if n < 0 {
        proof {
            reveal_strlit("-");
        }
        buffer.append("-");
        append_number(buffer, (-(n as i64)) as u32);
    } else {
        append_number(buffer, n as u32);
    }
}

/// The digits written for a number are digits, and they stand for that number.
pub proof fn number_text_reads_back(n: nat)
    ensures
        is_number(number_text(n)),
        number_value(number_text(n)) == n,
    decreases n,
{
    if n < 10 {
        assert(number_text(n).drop_last() =~= Seq::<char>::empty());
        assert(number_value(Seq::<char>::empty()) == 0);
    } else {
        number_text_reads_back(n / 10);
        assert(number_text(n).drop_last() =~= number_text(n / 10));
    }
}

/// Reading what was written for a number gives the number back.
pub proof fn integer_text_reads_back(n: int, min: int, max: int)
    requires
        min <= n <= max,
    ensures
        signed_value(integer_text(n), min, max) == Some(n),
        n >= 0 ==> unsigned_value(integer_text(n), max as nat) == Some(n as nat),
{
    let magnitude = if n < 0 {
        (-n) as nat
    } else {
        n as nat
    };
    number_text_reads_back(magnitude);
    assert(is_digit(number_text(magnitude)[0]));
    assert((seq!['-'] + number_text(magnitude)).skip(1) =~= number_text(magnitude));
}

} // verus!
