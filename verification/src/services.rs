//! Interactions with the methods of Protobuf services: a request and a response.
use crate::descriptors::{
    find_method, find_service, first_method, first_service, DescriptorProto, FileDescriptorProto,
    ServiceDescriptorProto,
};
use crate::error::{Error, ErrorView};
use crate::files::{declared_message, file_map, find_message_descriptor};
use crate::interaction::{InteractionResponse, InteractionResponseView};
use crate::message_builder::FloatBits;
use crate::protobuf::{
    construct_protobuf_interaction_for_message, message_has_outcome, message_interaction, store,
    with_stored,
};
use crate::text::{after_last, first_split, split_at_first};
use crate::text_map::TextMap;
use crate::utils::last_name;
use crate::value::{
    config_entries, get_setting, get_struct, setting, struct_setting, ConfigValue, ConfigValueView,
};
use vstd::prelude::*;

verus! {

/// The messages that a method takes and returns, with their names.
pub struct MethodMessages<'a> {
    pub request: &'a DescriptorProto,
    pub request_name: &'a str,
    pub response: &'a DescriptorProto,
    pub response_name: &'a str,
}

/// The model of [`MethodMessages`].
pub struct MethodMessagesView {
    pub request: DescriptorProto,
    pub request_name: Seq<char>,
    pub response: DescriptorProto,
    pub response_name: Seq<char>,
}

impl<'a> View for MethodMessages<'a> {
    type V = MethodMessagesView;

    open spec fn view(&self) -> MethodMessagesView {
        MethodMessagesView {
            request: *self.request,
            request_name: self.request_name@,
            response: *self.response,
            response_name: self.response_name@,
        }
    }
}

/// The messages of a method of a service. Each goes by the last part of the name that the method
/// gives it, and is looked for in all files.
pub open spec fn method_messages(
    service: ServiceDescriptorProto,
    service_name: Seq<char>,
    method_name: Seq<char>,
    files: Map<Seq<char>, FileDescriptorProto>,
) -> Result<MethodMessagesView, ErrorView> {
    match first_method(service.method@, method_name) {
        None => Err(
            ErrorView::NoMethodDescriptor { method: method_name, service: service_name },
        ),
        Some(method) => match (method.input_type, method.output_type) {
            (Some(input), Some(output)) => {
                let request_name = after_last(input@, '.');
                let response_name = after_last(output@, '.');
                match (
                    declared_message(files, request_name),
                    declared_message(files, response_name),
                ) {
                    (Ok(request), Ok(response)) => Ok(
                        MethodMessagesView { request, request_name, response, response_name },
                    ),
                    (Err(error), _) => Err(error),
                    (_, Err(error)) => Err(error),
                }
            },
            _ => Err(ErrorView::NoMessageName { service: service_name, method: method_name }),
        },
    }
}

/// The interactions for a method of a service: the request, and then the response. The
/// configuration has a map for either; that there is something for the response is asked first.
/// There are neither interactions nor an error where a rule that is needed cannot say its values.
pub open spec fn service_interactions(
    service: ServiceDescriptorProto,
    entries: Seq<(Seq<char>, ConfigValueView)>,
    service_name: Seq<char>,
    method_name: Seq<char>,
    files: Map<Seq<char>, FileDescriptorProto>,
    numbers: Seq<(String, FloatBits)>,
) -> Option<Result<(InteractionResponseView, InteractionResponseView), ErrorView>> {
    if setting(entries, "response"@) is None {
        Some(Err(ErrorView::NoResponse))
    } else {
        match method_messages(service, service_name, method_name, files) {
            Err(error) => Some(Err(error)),
            Ok(messages) => match part_interaction(
                messages.request,
                entries,
                messages.request_name,
                "request"@,
                numbers,
            ) {
                None => None,
                Some(Err(error)) => Some(Err(error)),
                Some(Ok(request)) => match part_interaction(
                    messages.response,
                    entries,
                    messages.response_name,
                    "response"@,
                    numbers,
                ) {
                    None => None,
                    Some(Err(error)) => Some(Err(error)),
                    Some(Ok(response)) => Some(Ok((request, response))),
                },
            },
        }
    }
}

/// The interaction for the request or the response of a method, from the map that the configuration
/// of the service has for it.
pub open spec fn part_interaction(
    message: DescriptorProto,
    entries: Seq<(Seq<char>, ConfigValueView)>,
    message_name: Seq<char>,
    part: Seq<char>,
    numbers: Seq<(String, FloatBits)>,
) -> Option<Result<InteractionResponseView, ErrorView>> {
    match struct_setting(entries, part) {
        None => Some(Err(ErrorView::PartNotAMap { part })),
        Some(fields) => message_interaction(message, fields, message_name, part, numbers),
    }
}

/// The model of two interactions, or an error.
pub open spec fn outcome_of_pair(
    pair: Result<(InteractionResponse, InteractionResponse), Error>,
) -> Result<(InteractionResponseView, InteractionResponseView), ErrorView> {
    match pair {
        Ok((request, response)) => Ok((request@, response@)),
        Err(error) => Err(error@),
    }
}

/// Finds the messages of a method of a service.
pub fn find_method_messages<'a>(
    descriptor: &'a ServiceDescriptorProto,
    service_name: &str,
    method_name: &str,
    all_descriptors: &TextMap<&'a FileDescriptorProto>,
) -> (messages: Result<MethodMessages<'a>, Error>)
    requires
        all_descriptors.ordered(),
    ensures
        match messages {
            Ok(found) => method_messages(
                *descriptor,
                service_name@,
                method_name@,
                file_map(*all_descriptors),
            ) == Ok::<MethodMessagesView, ErrorView>(found@),
            Err(error) => method_messages(
                *descriptor,
                service_name@,
                method_name@,
                file_map(*all_descriptors),
            ) == Err::<MethodMessagesView, ErrorView>(error@),
        },
{
    let method = match find_method(&descriptor.method, method_name) {
        Some(method) => method,
        None => {
            return Err(
                Error::NoMethodDescriptor {
                    method: method_name.to_owned(),
                    service: service_name.to_owned(),
                },
            );
        },
    };
    match (&method.input_type, &method.output_type) {
        (Some(input), Some(output)) => {
            let request_name = last_name(input.as_str());
            let request = match find_message_descriptor(request_name, all_descriptors) {
                Ok(message) => message,
                Err(error) => {
                    return Err(error);
                },
            };
            let response_name = last_name(output.as_str());
            match find_message_descriptor(response_name, all_descriptors) {
                Ok(response) => Ok(
                    MethodMessages { request, request_name, response, response_name },
                ),
                Err(error) => Err(error),
            }
        },
        _ => Err(
            Error::NoMessageName {
                service: service_name.to_owned(),
                method: method_name.to_owned(),
            },
        ),
    }
}

/// The interaction for the request or the response of a method.
fn construct_part(
    message: &DescriptorProto,
    config: &TextMap<ConfigValue>,
    message_name: &str,
    part: &str,
    numbers: &TextMap<FloatBits>,
) -> (interaction: Result<InteractionResponse, Error>)
    requires
        part_interaction(
            *message,
            config_entries(*config),
            message_name@,
            part@,
            numbers.entries@,
        ) is Some,
    ensures
        match interaction {
            Ok(response) => part_interaction(
                *message,
                config_entries(*config),
                message_name@,
                part@,
                numbers.entries@,
            ) == Some(Ok::<InteractionResponseView, ErrorView>(response@))
                && response.well_formed(),
            Err(error) => part_interaction(
                *message,
                config_entries(*config),
                message_name@,
                part@,
                numbers.entries@,
            ) == Some(Err::<InteractionResponseView, ErrorView>(error@)),
        },
{
    match get_struct(config, part) {
        None => Err(Error::PartNotAMap { part: part.to_owned() }),
        Some(fields) => construct_protobuf_interaction_for_message(
            message,
            fields,
            message_name,
            part,
            numbers,
        ),
    }
}

/// Whether there is an interaction for the request or the response of a method, or an error.
fn part_has_outcome(
    message: &DescriptorProto,
    config: &TextMap<ConfigValue>,
    message_name: &str,
    part: &str,
    numbers: &TextMap<FloatBits>,
) -> (has: bool)
    ensures
        has == (part_interaction(
            *message,
            config_entries(*config),
            message_name@,
            part@,
            numbers.entries@,
        ) is Some),
{
    match get_struct(config, part) {
        None => true,
        Some(fields) => message_has_outcome(message, fields, message_name, part, numbers),
    }
}

/// The interactions for a method of a service: the request and the response.
pub fn construct_protobuf_interaction_for_service(
    descriptor: &ServiceDescriptorProto,
    config: &TextMap<ConfigValue>,
    service_name: &str,
    method_name: &str,
    all_descriptors: &TextMap<&FileDescriptorProto>,
    numbers: &TextMap<FloatBits>,
) -> (interactions: Result<(InteractionResponse, InteractionResponse), Error>)
    requires
        all_descriptors.ordered(),
        service_interactions(
            *descriptor,
            config_entries(*config),
            service_name@,
            method_name@,
            file_map(*all_descriptors),
            numbers.entries@,
        ) is Some,
    ensures
        Some(outcome_of_pair(interactions)) == service_interactions(
            *descriptor,
            config_entries(*config),
            service_name@,
            method_name@,
            file_map(*all_descriptors),
            numbers.entries@,
        ),
        interactions matches Ok((request, response)) ==> request.well_formed()
            && response.well_formed(),
{
    if get_setting(config, "response").is_none() {
        return Err(Error::NoResponse);
    }
    let messages = match find_method_messages(
        descriptor,
        service_name,
        method_name,
        all_descriptors,
    ) {
        Ok(messages) => messages,
        Err(error) => {
            return Err(error);
        },
    };
    let request = match construct_part(
        messages.request,
        config,
        messages.request_name,
        "request",
        numbers,
    ) {
        Ok(request) => request,
        Err(error) => {
            return Err(error);
        },
    };
    match construct_part(messages.response, config, messages.response_name, "response", numbers) {
        Ok(response) => Ok((request, response)),
        Err(error) => Err(error),
    }
}

/// Whether there are interactions for a method of a service, or an error.
pub fn service_has_outcome(
    descriptor: &ServiceDescriptorProto,
    config: &TextMap<ConfigValue>,
    service_name: &str,
    method_name: &str,
    all_descriptors: &TextMap<&FileDescriptorProto>,
    numbers: &TextMap<FloatBits>,
) -> (has: bool)
    requires
        all_descriptors.ordered(),
    ensures
        has == (service_interactions(
            *descriptor,
            config_entries(*config),
            service_name@,
            method_name@,
            file_map(*all_descriptors),
            numbers.entries@,
        ) is Some),
{
    if get_setting(config, "response").is_none() {
        return true;
    }
    let messages = match find_method_messages(
        descriptor,
        service_name,
        method_name,
        all_descriptors,
    ) {
        Ok(messages) => messages,
        Err(_) => {
            return true;
        },
    };
    if !part_has_outcome(
        messages.request,
        config,
        messages.request_name,
        "request",
        numbers,
    ) {
        return false;
    }
    match construct_part(messages.request, config, messages.request_name, "request", numbers) {
        Ok(_) => part_has_outcome(
            messages.response,
            config,
            messages.response_name,
            "response",
            numbers,
        ),
        Err(_) => true,
    }
}

/// The service and the method that a setting names, with a slash between them.
pub open spec fn named_service(service_name: Seq<char>, file: FileDescriptorProto) -> Result<
    (ServiceDescriptorProto, Seq<char>, Seq<char>),
    ErrorView,
> {
    match first_split(service_name, '/') {
        None => Err(ErrorView::InvalidServiceName { service: service_name }),
        Some((service, method)) => match first_service(file.service@, service) {
            None => Err(ErrorView::NoServiceDescriptor { service: service_name }),
            Some(descriptor) => Ok((descriptor, service, method)),
        },
    }
}

/// The interactions for a method of a service of a file, with the name of the service and its
/// method stored with both of them.
pub open spec fn configured_service(
    service_name: Seq<char>,
    entries: Seq<(Seq<char>, ConfigValueView)>,
    file: FileDescriptorProto,
    files: Map<Seq<char>, FileDescriptorProto>,
    descriptor_hash: Seq<char>,
    numbers: Seq<(String, FloatBits)>,
) -> Option<Result<(InteractionResponseView, InteractionResponseView), ErrorView>> {
    match named_service(service_name, file) {
        Err(error) => Some(Err(error)),
        Ok((descriptor, service, method)) => match service_interactions(
            descriptor,
            entries,
            service,
            method,
            files,
            numbers,
        ) {
            None => None,
            Some(Err(error)) => Some(Err(error)),
            Some(Ok((request, response))) => Some(
                Ok(
                    (
                        with_stored(request, "service"@, service_name, descriptor_hash),
                        with_stored(response, "service"@, service_name, descriptor_hash),
                    ),
                ),
            ),
        },
    }
}

/// Finds the service and the method that a setting names.
fn find_named_service<'a, 'b>(service_name: &'b str, descriptor: &'a FileDescriptorProto) -> (found:
    Result<(&'a ServiceDescriptorProto, &'b str, &'b str), Error>)
    ensures
        match found {
            Ok((service, name, method)) => named_service(service_name@, *descriptor) == Ok::<
                (ServiceDescriptorProto, Seq<char>, Seq<char>),
                ErrorView,
            >((*service, name@, method@)),
            Err(error) => named_service(service_name@, *descriptor) == Err::<
                (ServiceDescriptorProto, Seq<char>, Seq<char>),
                ErrorView,
            >(error@),
        },
{
    match split_at_first(service_name, '/') {
        None => Err(Error::InvalidServiceName { service: service_name.to_owned() }),
        Some((service, method)) => match find_service(&descriptor.service, service) {
            None => Err(Error::NoServiceDescriptor { service: service_name.to_owned() }),
            Some(service_descriptor) => Ok((service_descriptor, service, method)),
        },
    }
}

/// The interactions for a method of a service of a file, with the name of the service and its
/// method stored with both of them.
pub fn configure_protobuf_service(
    service_name: &str,
    config: &TextMap<ConfigValue>,
    descriptor: &FileDescriptorProto,
    all_descriptors: &TextMap<&FileDescriptorProto>,
    descriptor_hash: &str,
    numbers: &TextMap<FloatBits>,
) -> (interactions: Result<(InteractionResponse, InteractionResponse), Error>)
    requires
        all_descriptors.ordered(),
        configured_service(
            service_name@,
            config_entries(*config),
            *descriptor,
            file_map(*all_descriptors),
            descriptor_hash@,
            numbers.entries@,
        ) is Some,
    ensures
        Some(outcome_of_pair(interactions)) == configured_service(
            service_name@,
            config_entries(*config),
            *descriptor,
            file_map(*all_descriptors),
            descriptor_hash@,
            numbers.entries@,
        ),
        interactions matches Ok((request, response)) ==> request.well_formed()
            && response.well_formed(),
{
    let (service, name, method) = match find_named_service(service_name, descriptor) {
        Ok(found) => found,
        Err(error) => {
            return Err(error);
        },
    };
    match construct_protobuf_interaction_for_service(
        service,
        config,
        name,
        method,
        all_descriptors,
        numbers,
    ) {
        Ok((request, response)) => Ok(
            (
                store(request, "service", service_name, descriptor_hash),
                store(response, "service", service_name, descriptor_hash),
            ),
        ),
        Err(error) => Err(error),
    }
}

/// Whether there are interactions for a method of a service of a file, or an error.
pub fn configured_service_has_outcome(
    service_name: &str,
    config: &TextMap<ConfigValue>,
    descriptor: &FileDescriptorProto,
    all_descriptors: &TextMap<&FileDescriptorProto>,
    numbers: &TextMap<FloatBits>,
) -> (has: bool)
    requires
        all_descriptors.ordered(),
    ensures
        forall|descriptor_hash: Seq<char>|
            has == (#[trigger] configured_service(
                service_name@,
                config_entries(*config),
                *descriptor,
                file_map(*all_descriptors),
                descriptor_hash,
                numbers.entries@,
            ) is Some),
{
    match find_named_service(service_name, descriptor) {
        Ok((service, name, method)) => service_has_outcome(
            service,
            config,
            name,
            method,
            all_descriptors,
            numbers,
        ),
        Err(_) => true,
    }
}

} // verus!
