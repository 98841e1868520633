//! What a compiled Protobuf file says of its messages and services.
use crate::text::same_text;
use vstd::prelude::*;

verus! {

/// The number that `FieldDescriptorProto` gives to fields that hold a message.
pub const TYPE_MESSAGE: i32 = 11;

/// The number that `FieldDescriptorProto` gives to the label of repeated fields.
pub const LABEL_REPEATED: i32 = 3;

/// The types of Protobuf fields.
#[derive(Clone, Copy, Debug, PartialEq, Eq, Structural)]
pub enum FieldType {
    Double,
    Float,
    Int64,
    Uint64,
    Int32,
    Fixed64,
    Fixed32,
    Bool,
    String,
    Group,
    Message,
    Bytes,
    Uint32,
    Enum,
    Sfixed32,
    Sfixed64,
    Sint32,
    Sint64,
}

/// A field of a message.
#[derive(Debug)]
pub struct FieldDescriptorProto {
    pub name: Option<String>,
    pub number: Option<i32>,
    pub label: Option<i32>,
    pub type_number: Option<i32>,
    pub named_type: Option<String>,
}

/// A message type, with its fields and the types that are declared inside of it.
#[derive(Debug)]
pub struct DescriptorProto {
    pub name: Option<String>,
    pub field: Vec<FieldDescriptorProto>,
    pub nested_type: Vec<DescriptorProto>,
}

/// A method of a service.
#[derive(Debug)]
pub struct MethodDescriptorProto {
    pub name: Option<String>,
    pub input_type: Option<String>,
    pub output_type: Option<String>,
}

/// A service.
#[derive(Debug)]
pub struct ServiceDescriptorProto {
    pub name: Option<String>,
    pub method: Vec<MethodDescriptorProto>,
}

/// A Protobuf file.
#[derive(Debug)]
pub struct FileDescriptorProto {
    pub name: Option<String>,
    pub message_type: Vec<DescriptorProto>,
    pub service: Vec<ServiceDescriptorProto>,
}

/// A text that may be missing, and is then empty.
pub open spec fn text_or_empty(text: Option<String>) -> Seq<char> {
    match text {
        Some(t) => t@,
        None => Seq::empty(),
    }
}

/// Whether `name`, or the empty text where it is missing, is `wanted`.
pub fn is_named(name: &Option<String>, wanted: &str) -> (found: bool)
    ensures
        found == (text_or_empty(*name) == wanted@),
{
    match name {
        Some(text) => same_text(text.as_str(), wanted),
        None => {
            assert((wanted@ == Seq::<char>::empty()) == (wanted@.len() == 0)) by {
                if wanted@.len() == 0 {
                    assert(wanted@ =~= Seq::<char>::empty());
                }
            }
            wanted.is_empty()
        },
    }
}

/// The type with the given number.
pub open spec fn type_of_number(number: i32) -> Option<FieldType> {
    match number {
        1 => Some(FieldType::Double),
        2 => Some(FieldType::Float),
        3 => Some(FieldType::Int64),
        4 => Some(FieldType::Uint64),
        5 => Some(FieldType::Int32),
        6 => Some(FieldType::Fixed64),
        7 => Some(FieldType::Fixed32),
        8 => Some(FieldType::Bool),
        9 => Some(FieldType::String),
        10 => Some(FieldType::Group),
        11 => Some(FieldType::Message),
        12 => Some(FieldType::Bytes),
        13 => Some(FieldType::Uint32),
        14 => Some(FieldType::Enum),
        15 => Some(FieldType::Sfixed32),
        16 => Some(FieldType::Sfixed64),
        17 => Some(FieldType::Sint32),
        18 => Some(FieldType::Sint64),
        _ => None,
    }
}

impl FieldType {
    /// The type with the given number.
    pub fn from_number(number: i32) -> (field_type: Option<FieldType>)
        ensures
            field_type == type_of_number(number),
    {
        match number {
            1 => Some(FieldType::Double),
            2 => Some(FieldType::Float),
            3 => Some(FieldType::Int64),
            4 => Some(FieldType::Uint64),
            5 => Some(FieldType::Int32),
            6 => Some(FieldType::Fixed64),
            7 => Some(FieldType::Fixed32),
            8 => Some(FieldType::Bool),
            9 => Some(FieldType::String),
            10 => Some(FieldType::Group),
            11 => Some(FieldType::Message),
            12 => Some(FieldType::Bytes),
            13 => Some(FieldType::Uint32),
            14 => Some(FieldType::Enum),
            15 => Some(FieldType::Sfixed32),
            16 => Some(FieldType::Sfixed64),
            17 => Some(FieldType::Sint32),
            18 => Some(FieldType::Sint64),
            _ => None,
        }
    }

    /// The name of the variant.
    pub open spec fn variant_name(self) -> Seq<char> {
        match self {
            FieldType::Double => "Double"@,
            FieldType::Float => "Float"@,
            FieldType::Int64 => "Int64"@,
            FieldType::Uint64 => "Uint64"@,
            FieldType::Int32 => "Int32"@,
            FieldType::Fixed64 => "Fixed64"@,
            FieldType::Fixed32 => "Fixed32"@,
            FieldType::Bool => "Bool"@,
            FieldType::String => "String"@,
            FieldType::Group => "Group"@,
            FieldType::Message => "Message"@,
            FieldType::Bytes => "Bytes"@,
            FieldType::Uint32 => "Uint32"@,
            FieldType::Enum => "Enum"@,
            FieldType::Sfixed32 => "Sfixed32"@,
            FieldType::Sfixed64 => "Sfixed64"@,
            FieldType::Sint32 => "Sint32"@,
            FieldType::Sint64 => "Sint64"@,
        }
    }

    /// The name of the variant.
    pub fn name_of_variant(self) -> (name: &'static str)
        ensures
            name@ == self.variant_name(),
    {
        match self {
            FieldType::Double => "Double",
            FieldType::Float => "Float",
            FieldType::Int64 => "Int64",
            FieldType::Uint64 => "Uint64",
            FieldType::Int32 => "Int32",
            FieldType::Fixed64 => "Fixed64",
            FieldType::Fixed32 => "Fixed32",
            FieldType::Bool => "Bool",
            FieldType::String => "String",
            FieldType::Group => "Group",
            FieldType::Message => "Message",
            FieldType::Bytes => "Bytes",
            FieldType::Uint32 => "Uint32",
            FieldType::Enum => "Enum",
            FieldType::Sfixed32 => "Sfixed32",
            FieldType::Sfixed64 => "Sfixed64",
            FieldType::Sint32 => "Sint32",
            FieldType::Sint64 => "Sint64",
        }
    }

    /// The word for the type in a Protobuf file. Messages and enums go by their own names, so they
    /// have none.
    pub open spec fn word(self) -> Seq<char> {
        match self {
            FieldType::Double => "double"@,
            FieldType::Float => "float"@,
            FieldType::Int64 => "int64"@,
            FieldType::Uint64 => "uint64"@,
            FieldType::Int32 => "int32"@,
            FieldType::Fixed64 => "fixed64"@,
            FieldType::Fixed32 => "fixed32"@,
            FieldType::Bool => "bool"@,
            FieldType::String => "string"@,
            FieldType::Group => "group"@,
            FieldType::Message => ""@,
            FieldType::Bytes => "bytes"@,
            FieldType::Uint32 => "uint32"@,
            FieldType::Enum => ""@,
            FieldType::Sfixed32 => "sfixed32"@,
            FieldType::Sfixed64 => "sfixed64"@,
            FieldType::Sint32 => "sint32"@,
            FieldType::Sint64 => "sint64"@,
        }
    }

    /// The word for the type in a Protobuf file, empty for messages and enums.
    pub fn word_of(self) -> (word: &'static str)
        ensures
            word@ == self.word(),
    {
        match self {
            FieldType::Double => "double",
            FieldType::Float => "float",
            FieldType::Int64 => "int64",
            FieldType::Uint64 => "uint64",
            FieldType::Int32 => "int32",
            FieldType::Fixed64 => "fixed64",
            FieldType::Fixed32 => "fixed32",
            FieldType::Bool => "bool",
            FieldType::String => "string",
            FieldType::Group => "group",
            FieldType::Message => "",
            FieldType::Bytes => "bytes",
            FieldType::Uint32 => "uint32",
            FieldType::Enum => "",
            FieldType::Sfixed32 => "sfixed32",
            FieldType::Sfixed64 => "sfixed64",
            FieldType::Sint32 => "sint32",
            FieldType::Sint64 => "sint64",
        }
    }
}

/// The type of a field: a double where the descriptor gives no type, or a number that no type has.
pub open spec fn declared_type(field: FieldDescriptorProto) -> FieldType {
    match field.type_number {
        Some(number) => match type_of_number(number) {
            Some(field_type) => field_type,
            None => FieldType::Double,
        },
        None => FieldType::Double,
    }
}

impl FieldDescriptorProto {
    /// The type of the field: a double where the descriptor gives no type, or a number that no type
    /// has.
    pub fn field_type(&self) -> (field_type: FieldType)
        ensures
            field_type == declared_type(*self),
    {
        match self.type_number {
            Some(number) => match FieldType::from_number(number) {
                Some(field_type) => field_type,
                None => FieldType::Double,
            },
            None => FieldType::Double,
        }
    }
}

/// The first field with the given name.
pub open spec fn first_field(fields: Seq<FieldDescriptorProto>, name: Seq<char>) -> Option<
    FieldDescriptorProto,
>
    decreases fields.len(),
{
    if fields.len() == 0 {
        None
    } else if text_or_empty(fields[0].name) == name {
        Some(fields[0])
    } else {
        first_field(fields.drop_first(), name)
    }
}

/// The first message with the given name.
pub open spec fn first_message(messages: Seq<DescriptorProto>, name: Seq<char>) -> Option<
    DescriptorProto,
>
    decreases messages.len(),
{
    if messages.len() == 0 {
        None
    } else if text_or_empty(messages[0].name) == name {
        Some(messages[0])
    } else {
        first_message(messages.drop_first(), name)
    }
}

/// The first service with the given name.
pub open spec fn first_service(services: Seq<ServiceDescriptorProto>, name: Seq<char>) -> Option<
    ServiceDescriptorProto,
>
    decreases services.len(),
{
    if services.len() == 0 {
        None
    } else if text_or_empty(services[0].name) == name {
        Some(services[0])
    } else {
        first_service(services.drop_first(), name)
    }
}

/// The first method with the given name.
pub open spec fn first_method(methods: Seq<MethodDescriptorProto>, name: Seq<char>) -> Option<
    MethodDescriptorProto,
>
    decreases methods.len(),
{
    if methods.len() == 0 {
        None
    } else if text_or_empty(methods[0].name) == name {
        Some(methods[0])
    } else {
        first_method(methods.drop_first(), name)
    }
}

/// The first field with the given name.
pub fn find_field<'a>(fields: &'a Vec<FieldDescriptorProto>, name: &str) -> (found: Option<
    &'a FieldDescriptorProto,
>)
    ensures
        match found {
            Some(field) => first_field(fields@, name@) == Some(*field),
            None => first_field(fields@, name@) is None,
        },
{
    let mut i: usize = 0;
    assert(fields@.skip(0) =~= fields@);
    while i < fields.len()
        invariant
            i <= fields.len(),
            first_field(fields@, name@) == first_field(fields@.skip(i as int), name@),
        decreases fields.len() - i,
    {
        assert(fields@.skip(i as int).drop_first() =~= fields@.skip(i + 1));
        if is_named(&fields[i].name, name) {
            return Some(&fields[i]);
        }
        i += 1;
    }
    None
}

/// The first message with the given name.
pub fn find_message<'a>(messages: &'a Vec<DescriptorProto>, name: &str) -> (found: Option<
    &'a DescriptorProto,
>)
    ensures
        match found {
            Some(message) => first_message(messages@, name@) == Some(*message),
            None => first_message(messages@, name@) is None,
        },
{
    let mut i: usize = 0;
    assert(messages@.skip(0) =~= messages@);
    while i < messages.len()
        invariant
            i <= messages.len(),
            first_message(messages@, name@) == first_message(messages@.skip(i as int), name@),
        decreases messages.len() - i,
    {
        assert(messages@.skip(i as int).drop_first() =~= messages@.skip(i + 1));
        if is_named(&messages[i].name, name) {
            return Some(&messages[i]);
        }
        i += 1;
    }
    None
}

/// The first service with the given name.
pub fn find_service<'a>(services: &'a Vec<ServiceDescriptorProto>, name: &str) -> (found: Option<
    &'a ServiceDescriptorProto,
>)
    ensures
        match found {
            Some(service) => first_service(services@, name@) == Some(*service),
            None => first_service(services@, name@) is None,
        },
{
    let mut i: usize = 0;
    assert(services@.skip(0) =~= services@);
    while i < services.len()
        invariant
            i <= services.len(),
            first_service(services@, name@) == first_service(services@.skip(i as int), name@),
        decreases services.len() - i,
    {
        assert(services@.skip(i as int).drop_first() =~= services@.skip(i + 1));
        if is_named(&services[i].name, name) {
            return Some(&services[i]);
        }
        i += 1;
    }
    None
}

/// The first method with the given name.
pub fn find_method<'a>(methods: &'a Vec<MethodDescriptorProto>, name: &str) -> (found: Option<
    &'a MethodDescriptorProto,
>)
    ensures
        match found {
            Some(method) => first_method(methods@, name@) == Some(*method),
            None => first_method(methods@, name@) is None,
        },
{
    let mut i: usize = 0;
    assert(methods@.skip(0) =~= methods@);
    while i < methods.len()
        invariant
            i <= methods.len(),
            first_method(methods@, name@) == first_method(methods@.skip(i as int), name@),
        decreases methods.len() - i,
    {
        assert(methods@.skip(i as int).drop_first() =~= methods@.skip(i + 1));
        if is_named(&methods[i].name, name) {
            return Some(&methods[i]);
        }
        i += 1;
    }
    None
}

} // verus!
