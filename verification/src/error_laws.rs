//! What errors say.
use crate::descriptors::FieldType;
use crate::error::{outcome_of, Error, ErrorView};
use crate::matching::reference_text;
use vstd::prelude::*;

verus! {

/// The model of an error names the same error, with the same texts.
pub proof fn errors_are_shown(error: Error)
    ensures
        match error {
            Error::NoFileDescriptor { file } => error@ == (ErrorView::NoFileDescriptor {
                file: file@,
            }),
            Error::NotAString { key } => error@ == (ErrorView::NotAString { key: key@ }),
            Error::InvalidServiceName { service } => error@ == (ErrorView::InvalidServiceName {
                service: service@,
            }),
            Error::NoServiceDescriptor { service } => error@ == (ErrorView::NoServiceDescriptor {
                service: service@,
            }),
            Error::NoResponse => error@ == ErrorView::NoResponse,
            Error::NoMethodDescriptor { method, service } => error@ == (ErrorView::NoMethodDescriptor {
                method: method@,
                service: service@,
            }),
            Error::NoMessageName { service, method } => error@ == (ErrorView::NoMessageName {
                service: service@,
                method: method@,
            }),
            Error::UnknownMessage { message } => error@ == (ErrorView::UnknownMessage {
                message: message@,
            }),
            Error::PartNotAMap { part } => error@ == (ErrorView::PartNotAMap { part: part@ }),
            Error::NoMessageDescriptor { message } => error@ == (ErrorView::NoMessageDescriptor {
                message: message@,
            }),
            Error::UntypedField { message, field } => error@ == (ErrorView::UntypedField {
                message: message@,
                field: field@,
            }),
            Error::NoSuchField { message, field } => error@ == (ErrorView::NoSuchField {
                message: message@,
                field: field@,
            }),
            Error::NoNestedType { field } => error@ == (ErrorView::NoNestedType { field: field@ }),
            Error::NotAMap { field } => error@ == (ErrorView::NotAMap { field: field@ }),
            Error::UnknownValue { field } => error@ == (ErrorView::UnknownValue { field: field@ }),
            Error::InvalidDefinition { report } => error@ == (ErrorView::InvalidDefinition {
                report: report@,
            }),
            Error::UnexpectedReference { path, reference } => error@ == (ErrorView::UnexpectedReference {
                path: path@,
                reference: reference@,
            }),
            Error::UnsupportedType { field, field_type } => error@ == (ErrorView::UnsupportedType {
                field: field@,
                field_type,
            }),
            Error::InvalidValue { field, value, field_type } => error@ == (ErrorView::InvalidValue {
                field: field@,
                value: value@,
                field_type,
            }),
            Error::NumberNotRead { text } => error@ == (ErrorView::NumberNotRead { text: text@ }),
            Error::InvalidFieldNumber { field } => error@ == (ErrorView::InvalidFieldNumber {
                field: field@,
            }),
        },
{
}

/// A result that is a value is shown as the value, and one that is an error as the error.
pub proof fn outcomes_are_shown<T: View>(value: T, error: Error)
    ensures
        outcome_of(Ok::<T, Error>(value)) == Ok::<T::V, ErrorView>(value@),
        outcome_of(Err::<T, Error>(error)) == Err::<T::V, ErrorView>(error@),
{
}

/// Every error says what is wrong, and names what it is wrong with, in full.
pub proof fn errors_say_what_is_wrong(error: ErrorView)
    ensures
        match error {
            ErrorView::NoFileDescriptor { file } => {
                error.text() == "Did not find a file proto descriptor for the provided proto file '"@
                    + file
                    + "'"@
            },
            ErrorView::NotAString { key } => {
                error.text() == "Did not get a valid value for '"@
                    + key
                    + "'. It should be a string"@
            },
            ErrorView::InvalidServiceName { service } => {
                error.text() == "Service name '"@
                    + service
                    + "' is not valid, it should be of the form <SERVICE>/<METHOD>"@
            },
            ErrorView::NoServiceDescriptor { service } => {
                error.text() == "Did not find a descriptor for service '"@
                    + service
                    + "'"@
            },
            ErrorView::NoResponse => {
                error.text() == "A Protobuf service requires a 'response' configuration"@
            },
            ErrorView::NoMethodDescriptor { method, service } => {
                error.text() == "Did not find a method descriptor for method '"@
                    + method
                    + "' in service '"@
                    + service
                    + "'"@
            },
            ErrorView::NoMessageName { service, method } => {
                error.text() == "Input message name is empty for service "@
                    + service
                    + "/"@
                    + method
            },
            ErrorView::UnknownMessage { message } => {
                error.text() == "Did not find the descriptor for message "@
                    + message
            },
            ErrorView::PartNotAMap { part } => {
                error.text() == "A Protobuf service requires a '"@
                    + part
                    + "' configuration in map format"@
            },
            ErrorView::NoMessageDescriptor { message } => {
                error.text() == "Did not find a descriptor for message '"@
                    + message
                    + "'"@
            },
            ErrorView::UntypedField { message, field } => {
                error.text() == "Message "@
                    + message
                    + " field "@
                    + field
                    + " is of an unknown type"@
            },
            ErrorView::NoSuchField { message, field } => {
                error.text() == "Message "@
                    + message
                    + " has no field "@
                    + field
            },
            ErrorView::NoNestedType { field } => {
                error.text() == "Did not find the nested type for field '"@
                    + field
                    + "'"@
            },
            ErrorView::NotAMap { field } => {
                error.text() == "Message field '"@
                    + field
                    + "' must be configured with a map structure"@
            },
            ErrorView::UnknownValue { field } => {
                error.text() == "Field '"@
                    + field
                    + "' has an unknown type, can not do anything with it"@
            },
            ErrorView::InvalidDefinition { report } => error.text() == report,
            ErrorView::UnexpectedReference { path, reference } => {
                error.text() == "Was expecting a value for '"@
                    + path
                    + "', but got a matching reference "@
                    + reference_text(reference)
            },
            ErrorView::UnsupportedType { field, field_type } => {
                error.text() == "Protobuf field "@
                    + field
                    + " has an unsupported type "@
                    + field_type.variant_name()
            },
            ErrorView::InvalidValue { field, value, field_type } => {
                error.text() == "Value '"@
                    + value
                    + "' of field '"@
                    + field
                    + "' is not a valid "@
                    + field_type.word()
            },
            ErrorView::NumberNotRead { text } => {
                error.text() == "The floating-point number '"@
                    + text
                    + "' was not read"@
            },
            ErrorView::InvalidFieldNumber { field } => {
                error.text() == "Field '"@
                    + field
                    + "' does not have a valid field number"@
            },
        },
{
}

/// The name of a type in an error is that of the type, and its word that of Protobuf files.
pub proof fn types_are_named(field_type: FieldType)
    ensures
        match field_type {
            FieldType::Double => {
                field_type.variant_name() == "Double"@
                    && field_type.word() == "double"@
            },
            FieldType::Float => {
                field_type.variant_name() == "Float"@
                    && field_type.word() == "float"@
            },
            FieldType::Int64 => {
                field_type.variant_name() == "Int64"@
                    && field_type.word() == "int64"@
            },
            FieldType::Uint64 => {
                field_type.variant_name() == "Uint64"@
                    && field_type.word() == "uint64"@
            },
            FieldType::Int32 => {
                field_type.variant_name() == "Int32"@
                    && field_type.word() == "int32"@
            },
            FieldType::Fixed64 => {
                field_type.variant_name() == "Fixed64"@
                    && field_type.word() == "fixed64"@
            },
            FieldType::Fixed32 => {
                field_type.variant_name() == "Fixed32"@
                    && field_type.word() == "fixed32"@
            },
            FieldType::Bool => field_type.variant_name() == "Bool"@ && field_type.word() == "bool"@,
            FieldType::String => {
                field_type.variant_name() == "String"@
                    && field_type.word() == "string"@
            },
            FieldType::Group => {
                field_type.variant_name() == "Group"@
                    && field_type.word() == "group"@
            },
            FieldType::Message => {
                field_type.variant_name() == "Message"@
                    && field_type.word() == ""@
            },
            FieldType::Bytes => {
                field_type.variant_name() == "Bytes"@
                    && field_type.word() == "bytes"@
            },
            FieldType::Uint32 => {
                field_type.variant_name() == "Uint32"@
                    && field_type.word() == "uint32"@
            },
            FieldType::Enum => field_type.variant_name() == "Enum"@ && field_type.word() == ""@,
            FieldType::Sfixed32 => {
                field_type.variant_name() == "Sfixed32"@
                    && field_type.word() == "sfixed32"@
            },
            FieldType::Sfixed64 => {
                field_type.variant_name() == "Sfixed64"@
                    && field_type.word() == "sfixed64"@
            },
            FieldType::Sint32 => {
                field_type.variant_name() == "Sint32"@
                    && field_type.word() == "sint32"@
            },
            FieldType::Sint64 => {
                field_type.variant_name() == "Sint64"@
                    && field_type.word() == "sint64"@
            },
        },
{
}

} // verus!
