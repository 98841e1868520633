//! Questions about descriptors.
use crate::descriptors::{
    declared_type, find_message, first_message, text_or_empty, DescriptorProto,
    FieldDescriptorProto, FieldType, LABEL_REPEATED,
};
use crate::text::{after_last, last_part};
use vstd::prelude::*;

verus! {

/// The last part of a name that is made of parts with dots between them.
pub fn last_name(name: &str) -> (last: &str)
    ensures
        last@ == after_last(name@, '.'),
{
    last_part(name, '.')
}

/// Whether the label of a field says that it is repeated.
pub open spec fn has_repeated_label(field: FieldDescriptorProto) -> bool {
    field.label == Some(LABEL_REPEATED)
}

/// Whether a field is repeated.
pub fn is_repeated(field: &FieldDescriptorProto) -> (repeated: bool)
    ensures
        repeated == has_repeated_label(*field),
{
    match field.label {
        Some(label) => label == LABEL_REPEATED,
        None => false,
    }
}

/// The type, declared inside of `message`, of a field that holds a message: the first one whose
/// name is the last part of the name that the field gives.
pub open spec fn nested_type_of(message: DescriptorProto, field: FieldDescriptorProto) -> Option<
    DescriptorProto,
> {
    if declared_type(field) == FieldType::Message {
        first_message(message.nested_type@, after_last(text_or_empty(field.named_type), '.'))
    } else {
        None
    }
}

/// The type, declared inside of `message`, of a field that holds a message.
pub fn find_nested_type<'a>(
    message: &'a DescriptorProto,
    field: &FieldDescriptorProto,
) -> (nested: Option<&'a DescriptorProto>)
    ensures
        match nested {
            Some(descriptor) => nested_type_of(*message, *field) == Some(*descriptor),
            None => nested_type_of(*message, *field) is None,
        },
{
    if field.field_type() == FieldType::Message {
        match &field.named_type {
            Some(name) => find_message(&message.nested_type, last_name(name.as_str())),
            None => {
                proof {
                    reveal_strlit("");
                    assert(""@ =~= Seq::<char>::empty());
                }
                find_message(&message.nested_type, "")
            },
        }
    } else {
        None
    }
}

} // verus!
