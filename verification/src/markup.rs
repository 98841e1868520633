//! The text of a message as it would stand in a Protobuf file.
use crate::decimal::{append_integer, integer_text};
use crate::descriptors::FieldType;
use crate::encoding::misnumbered;
use crate::error::{outcome_of, Error, ErrorView};
use crate::message_builder::{
    order_of, FieldEntry, FieldEntryView, FieldValueView, MessageBuilder, MessageView, RType,
    RTypeView,
};
use crate::text::after_last;
use crate::utils::last_name;
use vstd::prelude::*;

verus! {

/// What the type of a field is called: messages and enums go by the last part of their own names.
pub open spec fn type_text(entry: FieldEntryView) -> Seq<char> {
    if entry.field_type == FieldType::Message || entry.field_type == FieldType::Enum {
        after_last(entry.named_type, '.')
    } else {
        entry.field_type.word()
    }
}

/// The line that declares a field.
pub open spec fn field_line(entry: FieldEntryView, indent: Seq<char>) -> Seq<char> {
    indent + (if entry.repeated {
        "repeated "@
    } else {
        ""@
    }) + type_text(entry) + " "@ + entry.name + " = "@ + integer_text(order_of(entry)) + ";\n"@
}

/// The lines of a message: a head, its fields one step further in, and a brace.
pub open spec fn message_lines(message: MessageView, indent: Seq<char>) -> Seq<char>
    decreases message,
{
    indent + "message "@ + message.name + " {\n"@ + field_lines(message.fields, indent + "    "@)
        + indent + "}\n"@
}

/// The lines of a run of fields: for each the lines of the message that is its first value, if it
/// is one, and the line that declares it.
pub open spec fn field_lines(fields: Seq<FieldEntryView>, indent: Seq<char>) -> Seq<char>
    decreases fields,
{
    if fields.len() == 0 {
        Seq::empty()
    } else {
        nested_lines(fields[0].values, indent) + field_line(fields[0], indent) + field_lines(
            fields.drop_first(),
            indent,
        )
    }
}

/// The lines of the message that is the first of the values, if it is one.
pub open spec fn nested_lines(values: Seq<FieldValueView>, indent: Seq<char>) -> Seq<char>
    decreases values,
{
    if values.len() == 0 {
        Seq::empty()
    } else {
        match values[0].rtype {
            RTypeView::Message(message) => message_lines(*message, indent),
            _ => Seq::empty(),
        }
    }
}

/// The text of a message: its lines, between the fences of a code block where they are not
/// indented.
pub open spec fn markup(message: MessageView, indent: Seq<char>) -> Result<Seq<char>, ErrorView> {
    match misnumbered(message) {
        Some(field) => Err(ErrorView::InvalidFieldNumber { field }),
        None => Ok(
            if indent.len() == 0 {
                "```protobuf\n"@ + message_lines(message, indent) + "```\n"@
            } else {
                message_lines(message, indent)
            },
        ),
    }
}

impl FieldEntry {
    /// Writes the lines of the field at the end of `text`.
    fn put_lines(&self, text: &mut String, indent: &str)
        ensures
            final(text)@ == old(text)@ + nested_lines(self@.values, indent@) + field_line(
                self@,
                indent@,
            ),
        decreases self,
    {
        if self.values.len() > 0 {
            match &self.values[0].rtype {
                RType::Message(message) => {
                    assert(decreases_to!(*self => self.values@[0].rtype));
                    message.put_lines(text, indent);
                },
                _ => {},
            }
        }
        proof {
            reveal_strlit("");
        }
        let ghost before = text@;
        text.append(indent);
        if self.repeated {
            text.append("repeated ");
        }
        if self.field_type == FieldType::Message || self.field_type == FieldType::Enum {
            text.append(last_name(self.named_type.as_str()));
        } else {
            text.append(self.field_type.word_of());
        }
        text.append(" ");
        text.append(self.name.as_str());
        text.append(" = ");
        append_integer(text, self.order());
        text.append(";\n");
        assert(text@ =~= before + field_line(self@, indent@));
    }
}

impl MessageBuilder {
    /// Writes the lines of the message at the end of `text`.
    fn put_lines(&self, text: &mut String, indent: &str)
        ensures
            final(text)@ == old(text)@ + message_lines(self@, indent@),
        decreases self,
    {
        let ghost start = text@;
        text.append(indent);
        text.append("message ");
        text.append(self.message_name.as_str());
        text.append(" {\n");
        let mut deeper = indent.to_owned();
        deeper.append("    ");
        let ghost before = text@;
        let ghost fields = self@.fields;
        let mut i: usize = 0;
        assert(fields.skip(0) =~= fields);
        while i < self.fields.len()
            invariant
                i <= self.fields@.len(),
                fields == self@.fields,
                text@ + field_lines(fields.skip(i as int), deeper@) == before + field_lines(
                    fields,
                    deeper@,
                ),
            decreases self.fields.len() - i,
        {
            let ghost so_far = text@;
            let ghost rest = fields.skip(i as int);
            proof {
                assert(rest[0] == self.fields@[i as int]@);
                assert(rest.drop_first() =~= fields.skip(i + 1));
                assert(decreases_to!(*self => self.fields@[i as int]));
            }
            self.fields[i].put_lines(text, deeper.as_str());
            i += 1;
            assert(text@ + field_lines(fields.skip(i as int), deeper@) =~= so_far + field_lines(
                rest,
                deeper@,
            ));
        }
        assert(fields.skip(i as int) =~= Seq::empty());
        assert(text@ =~= before + field_lines(fields, deeper@));
        text.append(indent);
        text.append("}\n");
        assert(text@ =~= start + message_lines(self@, indent@));
    }

    /// The text of the message as it would stand in a Protobuf file, as a code block where it is
    /// not indented, if all of its fields have numbers that fields can have.
    pub fn generate_markup(&self, indent: &str) -> (text: Result<String, Error>)
        ensures
            outcome_of(text) == markup(self@, indent@),
    {
        match self.find_misnumbered() {
            Some(field) => {
                return Err(Error::InvalidFieldNumber { field });
            },
            None => {},
        }
        let mut text = String::new();
        let fenced = indent.is_empty();
        if fenced {
            text.append("```protobuf\n");
        }
        self.put_lines(&mut text, indent);
        if fenced {
            text.append("```\n");
        }
        assert(text@ =~= markup(self@, indent@)->Ok_0);
        Ok(text)
    }
}

} // verus!
