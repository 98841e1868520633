//! What texts stand for: numbers by their digits, and the values of scalar fields.
use crate::decimal::{
    integer_text, number_text, number_text_reads_back, number_value, signed_value,
    unsigned_value,
};
use crate::decoding::{read_value, values_read_back};
use crate::descriptors::{declared_type, FieldDescriptorProto, FieldType};
use crate::encoding::payload;
use crate::error::ErrorView;
use crate::fields::field_value;
use crate::message_builder::{FieldValueView, FloatBits, RTypeView};
use crate::text_map::lookup;
use crate::wire::Payload;
use vstd::prelude::*;
use vstd::utf8::encode_utf8;

verus! {

/// Whether some characters are decimal digits, at least one of them.
pub open spec fn all_digits(digits: Seq<char>) -> bool {
    digits.len() > 0 && forall|i: int| 0 <= i < digits.len() ==> '0' <= #[trigger] digits[i] <= '9'
}

/// No digits stand for zero, and one more digit makes a number ten times as large, and larger by
/// what the digit stands for.
pub proof fn digits_make_numbers(digits: Seq<char>, digit: char)
    requires
        '0' <= digit <= '9',
    ensures
        number_value(Seq::empty()) == 0,
        number_value(digits.push(digit)) == 10 * number_value(digits) + (digit as int - 48),
{
    assert(digits.push(digit).drop_last() =~= digits);
}

/// Digits stand for a signed number, with or without a sign in front of them, as long as it is in
/// the range.
pub proof fn signed_numbers_are_read(digits: Seq<char>, min: int, max: int)
    requires
        all_digits(digits),
    ensures
        ({
            let n = number_value(digits) as int;
            let plain = if min <= n <= max {
                Some(n)
            } else {
                None::<int>
            };
            &&& signed_value(digits, min, max) == plain
            &&& signed_value(seq!['+'] + digits, min, max) == plain
            &&& signed_value(seq!['-'] + digits, min, max) == (if min <= -n <= max {
                Some(-n)
            } else {
                None::<int>
            })
        }),
{
    assert('0' <= digits[0] <= '9');
    assert((seq!['+'] + digits).skip(1) =~= digits);
    assert((seq!['-'] + digits).skip(1) =~= digits);
}

/// Nothing but digits, with or without a sign in front of them, stands for a signed number. The
/// digits are returned.
pub proof fn only_digits_are_signed_numbers(text: Seq<char>, min: int, max: int) -> (digits: Seq<
    char,
>)
    ensures
        signed_value(text, min, max) is Some ==> all_digits(digits) && (text == digits || text == seq![
            '+',
        ] + digits || text == seq!['-'] + digits),
{
    let signed = text.len() > 0 && (text[0] == '+' || text[0] == '-');
    if signed {
        assert(text =~= seq![text[0]] + text.skip(1));
        text.skip(1)
    } else {
        text
    }
}

/// Digits stand for an unsigned number, with or without a plus sign in front of them, as long as it
/// is not too large.
pub proof fn unsigned_numbers_are_read(digits: Seq<char>, max: nat)
    requires
        all_digits(digits),
    ensures
        ({
            let n = number_value(digits);
            let plain = if n <= max {
                Some(n)
            } else {
                None::<nat>
            };
            &&& unsigned_value(digits, max) == plain
            &&& unsigned_value(seq!['+'] + digits, max) == plain
        }),
{
    assert('0' <= digits[0] <= '9');
    assert((seq!['+'] + digits).skip(1) =~= digits);
}

/// Nothing but digits, with or without a plus sign in front of them, stands for an unsigned number.
/// The digits are returned.
pub proof fn only_digits_are_unsigned_numbers(text: Seq<char>, max: nat) -> (digits: Seq<char>)
    ensures
        unsigned_value(text, max) is Some ==> all_digits(digits) && (text == digits || text == seq![
            '+',
        ] + digits),
{
    if text.len() > 0 && text[0] == '+' {
        assert(text =~= seq![text[0]] + text.skip(1));
        text.skip(1)
    } else {
        text
    }
}

proof fn number_texts_have_no_leading_zeros(n: nat)
    ensures
        all_digits(number_text(n)),
        number_text(n)[0] == '0' ==> n == 0 && number_text(n).len() == 1,
    decreases n,
{
    if n >= 10 {
        number_texts_have_no_leading_zeros(n / 10);
        let shorter = number_text(n / 10);
        assert(number_text(n)[0] == shorter[0]);
        assert forall|i: int| 0 <= i < number_text(n).len() implies '0' <= #[trigger] number_text(
            n,
        )[i] <= '9' by {
            if i < shorter.len() {
                assert(number_text(n)[i] == shorter[i]);
            }
        }
    }
}

/// A number that is not negative is written as digits that stand for it, without leading zeros; a
/// negative one is written as a minus sign and the number without its sign.
pub proof fn integers_are_written(n: int)
    ensures
        n >= 0 ==> all_digits(integer_text(n)) && number_value(integer_text(n)) == n,
        n > 0 ==> integer_text(n)[0] != '0',
        n == 0 ==> integer_text(n) == seq!['0'],
        n < 0 ==> integer_text(n) == seq!['-'] + integer_text(-n),
{
    if n >= 0 {
        number_text_reads_back(n as nat);
        number_texts_have_no_leading_zeros(n as nat);
        if n == 0 {
            assert(integer_text(0) =~= seq!['0']);
        }
    }
}

/// The value with the name of a field, the text that it was made from, and what it holds.
pub open spec fn taken(name: Seq<char>, text: Seq<char>, rtype: RTypeView) -> Result<
    FieldValueView,
    ErrorView,
> {
    Ok(FieldValueView { name, raw_value: Some(text), rtype })
}

/// The error for a text that does not stand for a value.
pub open spec fn not_taken(name: Seq<char>, text: Seq<char>, field_type: FieldType) -> Result<
    FieldValueView,
    ErrorView,
> {
    Err(ErrorView::InvalidValue { field: name, value: text, field_type })
}

/// A string field takes every text as it is, and a bytes field takes its UTF-8 bytes. Either reads
/// back from the wire as what the text gives.
pub proof fn texts_are_taken_as_they_are(
    name: Seq<char>,
    text: Seq<char>,
    field: FieldDescriptorProto,
    numbers: Seq<(String, FloatBits)>,
)
    ensures
        field.type_number == Some(9i32) ==> {
            &&& field_value(name, text, field, numbers) == taken(
                name,
                text,
                RTypeView::String(text),
            )
            &&& payload(declared_type(field), RTypeView::String(text)) == Payload::Bytes(
                encode_utf8(text),
            )
            &&& read_value(
                declared_type(field),
                payload(
                    declared_type(field),
                    field_value(name, text, field, numbers)->Ok_0.rtype,
                ),
            ) == Some(RTypeView::String(text))
        },
        field.type_number == Some(12i32) ==> {
            &&& field_value(name, text, field, numbers) == taken(
                name,
                text,
                RTypeView::Bytes(encode_utf8(text)),
            )
            &&& payload(declared_type(field), RTypeView::Bytes(encode_utf8(text)))
                == Payload::Bytes(encode_utf8(text))
            &&& read_value(
                declared_type(field),
                payload(
                    declared_type(field),
                    field_value(name, text, field, numbers)->Ok_0.rtype,
                ),
            ) == Some(RTypeView::Bytes(encode_utf8(text)))
        },
{
    values_read_back(name, text, field, numbers);
}

/// A Boolean field takes the two words, and no other text.
pub proof fn booleans_are_taken(
    name: Seq<char>,
    text: Seq<char>,
    field: FieldDescriptorProto,
    numbers: Seq<(String, FloatBits)>,
)
    requires
        field.type_number == Some(8i32),
    ensures
        text == "true"@ ==> field_value(name, text, field, numbers) == taken(
            name,
            text,
            RTypeView::Boolean(true),
        ),
        text == "false"@ ==> field_value(name, text, field, numbers) == taken(
            name,
            text,
            RTypeView::Boolean(false),
        ),
        text != "true"@ && text != "false"@ ==> field_value(name, text, field, numbers)
            == not_taken(name, text, FieldType::Bool),
{
    reveal_strlit("true");
    reveal_strlit("false");
    assert("true"@.len() != "false"@.len());
}

/// An integer field takes a text exactly where it stands for a number of its range, and takes it as
/// that number.
pub proof fn integer_texts_are_taken(
    name: Seq<char>,
    text: Seq<char>,
    field: FieldDescriptorProto,
    numbers: Seq<(String, FloatBits)>,
    number: i32,
)
    requires
        field.type_number == Some(number),
    ensures
        number == 3 || number == 16 || number == 18 ==> field_value(name, text, field, numbers) == (
        match signed_value(text, -0x8000_0000_0000_0000, 0x7FFF_FFFF_FFFF_FFFF) {
            Some(n) => taken(name, text, RTypeView::Integer64(n as i64)),
            None => not_taken(name, text, FieldType::Int64),
        }),
        number == 4 || number == 6 ==> field_value(name, text, field, numbers) == (
        match unsigned_value(text, 0xFFFF_FFFF_FFFF_FFFF) {
            Some(n) => taken(name, text, RTypeView::UInteger64(n as u64)),
            None => not_taken(name, text, FieldType::Uint64),
        }),
        number == 5 || number == 15 || number == 17 ==> field_value(name, text, field, numbers) == (
        match signed_value(text, -0x8000_0000, 0x7FFF_FFFF) {
            Some(n) => taken(name, text, RTypeView::Integer32(n as i32)),
            None => not_taken(name, text, FieldType::Int32),
        }),
        number == 7 || number == 13 ==> field_value(name, text, field, numbers) == (
        match unsigned_value(text, 0xFFFF_FFFF) {
            Some(n) => taken(name, text, RTypeView::UInteger32(n as u32)),
            None => not_taken(name, text, FieldType::Uint32),
        }),
{
}

/// Whether a field with this number of a type is a double: those without a type of their own are
/// too.
pub open spec fn is_double(number: i32) -> bool {
    number <= 1 || number > 18
}

/// A field of a floating-point type takes a text by the bits that are given for it, and asks for
/// them where none are given. A field that is no scalar takes no text.
pub proof fn numbers_are_taken_by_their_bits(
    name: Seq<char>,
    text: Seq<char>,
    field: FieldDescriptorProto,
    numbers: Seq<(String, FloatBits)>,
    number: i32,
)
    requires
        field.type_number == Some(number),
    ensures
        is_double(number) || number == 2 ==> (lookup(numbers, text) is None <==> field_value(
            name,
            text,
            field,
            numbers,
        ) == Err::<FieldValueView, ErrorView>(ErrorView::NumberNotRead { text })),
        lookup(numbers, text) matches Some(bits) ==> {
            &&& is_double(number) ==> field_value(name, text, field, numbers) == (match bits.double {
                Some(double) => taken(name, text, RTypeView::Double(double)),
                None => not_taken(name, text, FieldType::Double),
            })
            &&& number == 2 ==> field_value(name, text, field, numbers) == (match bits.float {
                Some(float) => taken(name, text, RTypeView::Float(float)),
                None => not_taken(name, text, FieldType::Float),
            })
        },
        number == 10 || number == 11 || number == 14 ==> field_value(name, text, field, numbers)
            == Err::<FieldValueView, ErrorView>(
            ErrorView::UnsupportedType {
                field: name,
                field_type: if number == 10 {
                    FieldType::Group
                } else if number == 11 {
                    FieldType::Message
                } else {
                    FieldType::Enum
                },
            },
        ),
{
}

} // verus!
