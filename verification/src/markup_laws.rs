//! What the text of a message shows: its name, and a line for each of its fields.
use crate::decimal::{integer_text, integer_text_reads_back, number_value, signed_value};
use crate::descriptors::FieldType;
use crate::encoding::encoded;
use crate::error::ErrorView;
use crate::markup::{field_line, field_lines, markup, message_lines, nested_lines, type_text};
use crate::message_builder::{FieldEntryView, MessageView, RTypeView};
use crate::number_laws::{all_digits, integers_are_written};
use crate::text::{after_last, after_last_is_a_suffix};
use vstd::prelude::*;

verus! {

/// The line of a field is its label, its type, its name, and its number in decimal digits, which
/// read back as that number. The digits are returned.
pub proof fn lines_show_their_fields(entry: FieldEntryView, indent: Seq<char>) -> (digits: Seq<
    char,
>)
    requires
        entry.number is Some,
    ensures
        field_line(entry, indent) == indent + (if entry.repeated {
            "repeated "@
        } else {
            Seq::empty()
        }) + type_text(entry) + " "@ + entry.name + " = "@ + digits + ";\n"@,
        signed_value(digits, i32::MIN as int, i32::MAX as int) == Some(entry.number->0 as int),
        entry.number->0 >= 0 ==> all_digits(digits) && number_value(digits) == entry.number->0,
        entry.number->0 > 0 ==> digits[0] != '0',
{
    let n = entry.number->0 as int;
    let digits = integer_text(n);
    integer_text_reads_back(n, i32::MIN as int, i32::MAX as int);
    integers_are_written(n);
    reveal_strlit("");
    assert(""@ =~= Seq::<char>::empty());
    digits
}

/// The type of a field is shown by its word in Protobuf files; messages and enums are shown by the
/// part of their names behind the last dot.
pub proof fn types_are_shown(entry: FieldEntryView)
    ensures
        entry.field_type == FieldType::Double ==> type_text(entry) == "double"@,
        entry.field_type == FieldType::Float ==> type_text(entry) == "float"@,
        entry.field_type == FieldType::Int64 ==> type_text(entry) == "int64"@,
        entry.field_type == FieldType::Uint64 ==> type_text(entry) == "uint64"@,
        entry.field_type == FieldType::Int32 ==> type_text(entry) == "int32"@,
        entry.field_type == FieldType::Fixed64 ==> type_text(entry) == "fixed64"@,
        entry.field_type == FieldType::Fixed32 ==> type_text(entry) == "fixed32"@,
        entry.field_type == FieldType::Bool ==> type_text(entry) == "bool"@,
        entry.field_type == FieldType::String ==> type_text(entry) == "string"@,
        entry.field_type == FieldType::Group ==> type_text(entry) == "group"@,
        entry.field_type == FieldType::Bytes ==> type_text(entry) == "bytes"@,
        entry.field_type == FieldType::Uint32 ==> type_text(entry) == "uint32"@,
        entry.field_type == FieldType::Sfixed32 ==> type_text(entry) == "sfixed32"@,
        entry.field_type == FieldType::Sfixed64 ==> type_text(entry) == "sfixed64"@,
        entry.field_type == FieldType::Sint32 ==> type_text(entry) == "sint32"@,
        entry.field_type == FieldType::Sint64 ==> type_text(entry) == "sint64"@,
        entry.field_type == FieldType::Message || entry.field_type == FieldType::Enum ==> {
            let name = entry.named_type;
            let shown = type_text(entry);
            &&& !shown.contains('.')
            &&& shown == name || exists|before: Seq<char>|
                name == #[trigger] before.push('.') + shown
        },
{
    let name = entry.named_type;
    let last = after_last(name, '.');
    after_last_is_a_suffix(name, '.');
    let cut = name.len() - last.len();
    if cut > 0 {
        let before = name.take(cut - 1);
        assert(name =~= before.push('.') + last);
    } else {
        assert(name.skip(0) =~= name);
    }
}

/// The lines of two runs of fields stand one behind the other.
pub proof fn lines_stand_in_order(
    first: Seq<FieldEntryView>,
    second: Seq<FieldEntryView>,
    indent: Seq<char>,
)
    ensures
        field_lines(first + second, indent) == field_lines(first, indent) + field_lines(
            second,
            indent,
        ),
    decreases first.len(),
{
    if first.len() == 0 {
        assert(first + second =~= second);
        assert(field_lines(first, indent) + field_lines(second, indent) =~= field_lines(
            second,
            indent,
        ));
    } else {
        lines_stand_in_order(first.drop_first(), second, indent);
        assert((first + second).drop_first() =~= first.drop_first() + second);
        assert(field_lines(first + second, indent) =~= field_lines(first, indent) + field_lines(
            second,
            indent,
        ));
    }
}

/// A scalar field has one line. A field that holds a message has the lines of its first message, at
/// the same depth, and then its own line.
pub proof fn fields_have_their_lines(entry: FieldEntryView, indent: Seq<char>)
    ensures
        entry.values.len() == 0 || !(entry.values[0].rtype is Message) ==> field_lines(
            seq![entry],
            indent,
        ) == field_line(entry, indent),
        entry.values.len() > 0 ==> (entry.values[0].rtype matches RTypeView::Message(message)
            ==> field_lines(seq![entry], indent) == message_lines(*message, indent) + field_line(
            entry,
            indent,
        )),
{
    let one = seq![entry];
    assert(one.drop_first() =~= Seq::empty());
    assert(field_lines(one.drop_first(), indent) =~= Seq::empty());
    if entry.values.len() > 0 && entry.values[0].rtype is Message {
        let message = entry.values[0].rtype->Message_0;
        assert(nested_lines(entry.values, indent) == message_lines(*message, indent));
        assert(field_lines(one, indent) =~= message_lines(*message, indent) + field_line(
            entry,
            indent,
        ));
    } else {
        assert(nested_lines(entry.values, indent) =~= Seq::empty());
        assert(field_lines(one, indent) =~= field_line(entry, indent));
    }
}

/// The lines of a message are a line with its name, the lines of its fields with four more spaces
/// in front of them, and a line with a brace.
pub proof fn messages_have_their_lines(message: MessageView, indent: Seq<char>)
    ensures
        message_lines(message, indent) == indent + "message "@ + message.name + " {\n"@
            + field_lines(message.fields, indent + "    "@) + indent + "}\n"@,
{
}

/// A message is shown exactly where it can be written: its lines in a code block, or its lines
/// alone where they are indented.
pub proof fn messages_are_shown(message: MessageView, indent: Seq<char>)
    ensures
        markup(message, indent) is Ok <==> encoded(message) is Ok,
        markup(message, indent) matches Ok(text) ==> text == (if indent.len() == 0 {
            "```protobuf\n"@ + message_lines(message, indent) + "```\n"@
        } else {
            message_lines(message, indent)
        }),
        markup(message, indent) matches Err(error) ==> encoded(message) == Err::<
            Seq<u8>,
            ErrorView,
        >(error),
{
}

} // verus!
