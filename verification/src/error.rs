//! What can go wrong while an interaction is configured.
use crate::descriptors::FieldType;
use crate::matching::{print_reference, reference_text};
use vstd::prelude::*;

verus! {

/// Why an interaction could not be configured.
#[derive(Debug, PartialEq, Eq)]
pub enum Error {
    /// No descriptor has the name of the Protobuf file.
    NoFileDescriptor { file: String },
    /// A setting of the plugin has no text.
    NotAString { key: String },
    /// The name of a service and its method has no slash in it.
    InvalidServiceName { service: String },
    /// The Protobuf file has no such service.
    NoServiceDescriptor { service: String },
    /// The configuration of a service has no response.
    NoResponse,
    /// The service has no such method.
    NoMethodDescriptor { method: String, service: String },
    /// The method does not say which message it takes, or which one it returns.
    NoMessageName { service: String, method: String },
    /// No Protobuf file has such a message.
    UnknownMessage { message: String },
    /// A part of the configuration of a service is not a map.
    PartNotAMap { part: String },
    /// The Protobuf file has no such message.
    NoMessageDescriptor { message: String },
    /// The descriptor of a field gives no type.
    UntypedField { message: String, field: String },
    /// The message has no such field.
    NoSuchField { message: String, field: String },
    /// The type of a field that holds a message is not declared inside of its message.
    NoNestedType { field: String },
    /// A field that holds a message is not configured with a map.
    NotAMap { field: String },
    /// The value of a field has no kind.
    UnknownValue { field: String },
    /// The text of a value is no matching rule definition.
    InvalidDefinition { report: String },
    /// A definition refers to another attribute where a value is needed.
    UnexpectedReference { path: String, reference: String },
    /// A field has a type that cannot be built from a text.
    UnsupportedType { field: String, field_type: FieldType },
    /// A text does not stand for a value of the type of the field.
    InvalidValue { field: String, value: String, field_type: FieldType },
    /// The bits of the floating-point number that a text stands for are needed, and are not given.
    NumberNotRead { text: String },
    /// A field has no number, or one that no field can have.
    InvalidFieldNumber { field: String },
}

/// The model of an [`Error`].
pub enum ErrorView {
    NoFileDescriptor { file: Seq<char> },
    NotAString { key: Seq<char> },
    InvalidServiceName { service: Seq<char> },
    NoServiceDescriptor { service: Seq<char> },
    NoResponse,
    NoMethodDescriptor { method: Seq<char>, service: Seq<char> },
    NoMessageName { service: Seq<char>, method: Seq<char> },
    UnknownMessage { message: Seq<char> },
    PartNotAMap { part: Seq<char> },
    NoMessageDescriptor { message: Seq<char> },
    UntypedField { message: Seq<char>, field: Seq<char> },
    NoSuchField { message: Seq<char>, field: Seq<char> },
    NoNestedType { field: Seq<char> },
    NotAMap { field: Seq<char> },
    UnknownValue { field: Seq<char> },
    InvalidDefinition { report: Seq<char> },
    UnexpectedReference { path: Seq<char>, reference: Seq<char> },
    UnsupportedType { field: Seq<char>, field_type: FieldType },
    InvalidValue { field: Seq<char>, value: Seq<char>, field_type: FieldType },
    NumberNotRead { text: Seq<char> },
    InvalidFieldNumber { field: Seq<char> },
}

impl View for Error {
    type V = ErrorView;

    open spec fn view(&self) -> ErrorView {
        match self {
            Error::NoFileDescriptor { file } => ErrorView::NoFileDescriptor { file: file@ },
            Error::NotAString { key } => ErrorView::NotAString { key: key@ },
            Error::InvalidServiceName { service } => ErrorView::InvalidServiceName {
                service: service@,
            },
            Error::NoServiceDescriptor { service } => ErrorView::NoServiceDescriptor {
                service: service@,
            },
            Error::NoResponse => ErrorView::NoResponse,
            Error::NoMethodDescriptor { method, service } => ErrorView::NoMethodDescriptor {
                method: method@,
                service: service@,
            },
            Error::NoMessageName { service, method } => ErrorView::NoMessageName {
                service: service@,
                method: method@,
            },
            Error::UnknownMessage { message } => ErrorView::UnknownMessage { message: message@ },
            Error::PartNotAMap { part } => ErrorView::PartNotAMap { part: part@ },
            Error::NoMessageDescriptor { message } => ErrorView::NoMessageDescriptor {
                message: message@,
            },
            Error::UntypedField { message, field } => ErrorView::UntypedField {
                message: message@,
                field: field@,
            },
            Error::NoSuchField { message, field } => ErrorView::NoSuchField {
                message: message@,
                field: field@,
            },
            Error::NoNestedType { field } => ErrorView::NoNestedType { field: field@ },
            Error::NotAMap { field } => ErrorView::NotAMap { field: field@ },
            Error::UnknownValue { field } => ErrorView::UnknownValue { field: field@ },
            Error::InvalidDefinition { report } => ErrorView::InvalidDefinition { report: report@ },
            Error::UnexpectedReference { path, reference } => ErrorView::UnexpectedReference {
                path: path@,
                reference: reference@,
            },
            Error::UnsupportedType { field, field_type } => ErrorView::UnsupportedType {
                field: field@,
                field_type: *field_type,
            },
            Error::InvalidValue { field, value, field_type } => ErrorView::InvalidValue {
                field: field@,
                value: value@,
                field_type: *field_type,
            },
            Error::NumberNotRead { text } => ErrorView::NumberNotRead { text: text@ },
            Error::InvalidFieldNumber { field } => ErrorView::InvalidFieldNumber { field: field@ },
        }
    }
}

/// The model of a result that may be an error.
pub open spec fn outcome_of<T: View>(result: Result<T, Error>) -> Result<T::V, ErrorView> {
    match result {
        Ok(value) => Ok(value@),
        Err(error) => Err(error@),
    }
}

impl ErrorView {
    /// What the error says.
    pub open spec fn text(self) -> Seq<char> {
        match self {
            ErrorView::NoFileDescriptor { file } => {
                "Did not find a file proto descriptor for the provided proto file '"@
                    + file
                    + "'"@
            },
            ErrorView::NotAString { key } => {
                "Did not get a valid value for '"@
                    + key
                    + "'. It should be a string"@
            },
            ErrorView::InvalidServiceName { service } => {
                "Service name '"@
                    + service
                    + "' is not valid, it should be of the form <SERVICE>/<METHOD>"@
            },
            ErrorView::NoServiceDescriptor { service } => {
                "Did not find a descriptor for service '"@
                    + service
                    + "'"@
            },
            ErrorView::NoResponse => "A Protobuf service requires a 'response' configuration"@,
            ErrorView::NoMethodDescriptor { method, service } => {
                "Did not find a method descriptor for method '"@
                    + method
                    + "' in service '"@
                    + service
                    + "'"@
            },
            ErrorView::NoMessageName { service, method } => {
                "Input message name is empty for service "@
                    + service
                    + "/"@
                    + method
            },
            ErrorView::UnknownMessage { message } => {
                "Did not find the descriptor for message "@
                    + message
            },
            ErrorView::PartNotAMap { part } => {
                "A Protobuf service requires a '"@
                    + part
                    + "' configuration in map format"@
            },
            ErrorView::NoMessageDescriptor { message } => {
                "Did not find a descriptor for message '"@
                    + message
                    + "'"@
            },
            ErrorView::UntypedField { message, field } => {
                "Message "@
                    + message
                    + " field "@
                    + field
                    + " is of an unknown type"@
            },
            ErrorView::NoSuchField { message, field } => {
                "Message "@
                    + message
                    + " has no field "@
                    + field
            },
            ErrorView::NoNestedType { field } => {
                "Did not find the nested type for field '"@
                    + field
                    + "'"@
            },
            ErrorView::NotAMap { field } => {
                "Message field '"@
                    + field
                    + "' must be configured with a map structure"@
            },
            ErrorView::UnknownValue { field } => {
                "Field '"@
                    + field
                    + "' has an unknown type, can not do anything with it"@
            },
            ErrorView::InvalidDefinition { report } => report,
            ErrorView::UnexpectedReference { path, reference } => {
                "Was expecting a value for '"@
                    + path
                    + "', but got a matching reference "@
                    + reference_text(reference)
            },
            ErrorView::UnsupportedType { field, field_type } => {
                "Protobuf field "@
                    + field
                    + " has an unsupported type "@
                    + field_type.variant_name()
            },
            ErrorView::InvalidValue { field, value, field_type } => {
                "Value '"@
                    + value
                    + "' of field '"@
                    + field
                    + "' is not a valid "@
                    + field_type.word()
            },
            ErrorView::NumberNotRead { text } => {
                "The floating-point number '"@
                    + text
                    + "' was not read"@
            },
            ErrorView::InvalidFieldNumber { field } => {
                "Field '"@
                    + field
                    + "' does not have a valid field number"@
            },
        }
    }
}

impl Error {
    /// What the error says.
    pub fn message(&self) -> (message: String)
        ensures
            message@ == self@.text(),
    {
        let mut words = String::new();
        match self {
            Error::NoFileDescriptor { file } => {
                words.append("Did not find a file proto descriptor for the provided proto file '");
                words.append(file.as_str());
                words.append("'");
            },
            Error::NotAString { key } => {
                words.append("Did not get a valid value for '");
                words.append(key.as_str());
                words.append("'. It should be a string");
            },
            Error::InvalidServiceName { service } => {
                words.append("Service name '");
                words.append(service.as_str());
                words.append("' is not valid, it should be of the form <SERVICE>/<METHOD>");
            },
            Error::NoServiceDescriptor { service } => {
                words.append("Did not find a descriptor for service '");
                words.append(service.as_str());
                words.append("'");
            },
            Error::NoResponse => {
                words.append("A Protobuf service requires a 'response' configuration");
            },
            Error::NoMethodDescriptor { method, service } => {
                words.append("Did not find a method descriptor for method '");
                words.append(method.as_str());
                words.append("' in service '");
                words.append(service.as_str());
                words.append("'");
            },
            Error::NoMessageName { service, method } => {
                words.append("Input message name is empty for service ");
                words.append(service.as_str());
                words.append("/");
                words.append(method.as_str());
            },
            Error::UnknownMessage { message } => {
                words.append("Did not find the descriptor for message ");
                words.append(message.as_str());
            },
            Error::PartNotAMap { part } => {
                words.append("A Protobuf service requires a '");
                words.append(part.as_str());
                words.append("' configuration in map format");
            },
            Error::NoMessageDescriptor { message } => {
                words.append("Did not find a descriptor for message '");
                words.append(message.as_str());
                words.append("'");
            },
            Error::UntypedField { message, field } => {
                words.append("Message ");
                words.append(message.as_str());
                words.append(" field ");
                words.append(field.as_str());
                words.append(" is of an unknown type");
            },
            Error::NoSuchField { message, field } => {
                words.append("Message ");
                words.append(message.as_str());
                words.append(" has no field ");
                words.append(field.as_str());
            },
            Error::NoNestedType { field } => {
                words.append("Did not find the nested type for field '");
                words.append(field.as_str());
                words.append("'");
            },
            Error::NotAMap { field } => {
                words.append("Message field '");
                words.append(field.as_str());
                words.append("' must be configured with a map structure");
            },
            Error::UnknownValue { field } => {
                words.append("Field '");
                words.append(field.as_str());
                words.append("' has an unknown type, can not do anything with it");
            },
            Error::InvalidDefinition { report } => {
                words.append(report.as_str());
            },
            Error::UnexpectedReference { path, reference } => {
                words.append("Was expecting a value for '");
                words.append(path.as_str());
                words.append("', but got a matching reference ");
                words.append(print_reference(reference.as_str()).as_str());
            },
            Error::UnsupportedType { field, field_type } => {
                words.append("Protobuf field ");
                words.append(field.as_str());
                words.append(" has an unsupported type ");
                words.append(field_type.name_of_variant());
            },
            Error::InvalidValue { field, value, field_type } => {
                words.append("Value '");
                words.append(value.as_str());
                words.append("' of field '");
                words.append(field.as_str());
                words.append("' is not a valid ");
                words.append(field_type.word_of());
            },
            Error::NumberNotRead { text } => {
                words.append("The floating-point number '");
                words.append(text.as_str());
                words.append("' was not read");
            },
            Error::InvalidFieldNumber { field } => {
                words.append("Field '");
                words.append(field.as_str());
                words.append("' does not have a valid field number");
            },
        }
        assert(words@ =~= self@.text());
        words
    }
}

} // verus!
