//! What interactions hold, and when there are any.
use crate::collect_laws::nothing_built;
use crate::descriptors::{
    first_message, first_method, first_service, DescriptorProto, FileDescriptorProto,
    ServiceDescriptorProto,
};
use crate::digest::{base64_text, hex_text, md5_digest};
use crate::encoding::encoded;
use crate::error::ErrorView;
use crate::files::{declared_message, files_by_name};
use crate::interaction::InteractionResponseView;
use crate::lookup_laws::splits_are_unique;
use crate::markup::markup;
use crate::matching::{
    all_resolve, defined_values, has_values, parsed_definition, resolves, DefinedRuleView,
};
use crate::message_builder::FloatBits;
use crate::path::field_step;
use crate::process::{processed, requested, stored_proto, RequestView};
use crate::protobuf::{
    built_message, configured_message, constructed_fields, message_interaction, with_stored,
};
use crate::rules::{list_resolves, rules_resolve, ListedRuleView};
use crate::services::{configured_service, service_interactions};
use crate::text::after_last;
use crate::value::{setting, value_text, ConfigKindView, ConfigValueView};
use vstd::prelude::*;

verus! {

/// A message is built from nothing, at the path of its part: the whole, or a step down from it.
pub proof fn messages_are_built_from_nothing(
    message: DescriptorProto,
    entries: Seq<(Seq<char>, ConfigValueView)>,
    message_name: Seq<char>,
    part: Seq<char>,
    numbers: Seq<(String, FloatBits)>,
)
    ensures
        built_message(message, entries, message_name, part, numbers) == constructed_fields(
            message,
            message_name,
            if part == Seq::<char>::empty() {
                seq!['$']
            } else {
                seq!['$'] + field_step(part)
            },
            entries,
            nothing_built(message_name),
            numbers,
        ),
{
    assert(part.len() == 0 ==> part =~= Seq::<char>::empty());
}

/// Whether a rule or a generator is listed with its name and its values, and without values where
/// it has none.
pub open spec fn is_listed(
    listed: ListedRuleView,
    name: Seq<char>,
    values: Map<Seq<char>, Seq<char>>,
) -> bool {
    &&& listed.name == name
    &&& listed.values is None <==> forall|key: Seq<char>| !#[trigger] values.contains_key(key)
    &&& listed.values is Some ==> listed.values->0 == values
}

proof fn some_or_none(values: Map<Seq<char>, Seq<char>>)
    ensures
        values == Map::<Seq<char>, Seq<char>>::empty() <==> forall|key: Seq<char>|
            !#[trigger] values.contains_key(key),
{
    if forall|key: Seq<char>| !#[trigger] values.contains_key(key) {
        assert(values =~= Map::<Seq<char>, Seq<char>>::empty());
    }
}

/// An interaction lists what is collected for its message: the rules of each path, in their order,
/// and the generators, with their names and values. It holds the message as it is written and as it
/// is shown.
pub proof fn interactions_hold_what_is_built(
    message: DescriptorProto,
    entries: Seq<(Seq<char>, ConfigValueView)>,
    message_name: Seq<char>,
    part: Seq<char>,
    numbers: Seq<(String, FloatBits)>,
    interaction: InteractionResponseView,
    path: Seq<char>,
    i: int,
)
    requires
        message_interaction(message, entries, message_name, part, numbers) == Some(
            Ok::<InteractionResponseView, ErrorView>(interaction),
        ),
    ensures
        ({
            let (build, outcome) = built_message(message, entries, message_name, part, numbers);
            let rules = build.collected.rules;
            let generators = build.collected.generators;
            &&& outcome is Ok
            &&& interaction.rules.contains_key(path) <==> rules.contains_key(path)
            &&& rules.contains_key(path) ==> {
                &&& interaction.rules[path].len() == rules[path].len()
                &&& 0 <= i < rules[path].len() ==> is_listed(
                    interaction.rules[path][i],
                    rules[path][i].name,
                    defined_values(rules[path][i].definition, rules[path][i].index),
                )
            }
            &&& interaction.generators.contains_key(path) <==> generators.contains_key(path)
            &&& generators.contains_key(path) ==> is_listed(
                interaction.generators[path],
                generators[path].name,
                generators[path].values,
            )
            &&& interaction.contents matches Some(body) && {
                &&& body.content_type == "application/protobuf;message="@ + message_name
                &&& body.content_type_hint == 2
                &&& body.content is Some
                &&& encoded(build.message) == Ok::<Seq<u8>, ErrorView>(body.content->0)
            }
            &&& markup(build.message, Seq::empty()) == Ok::<Seq<char>, ErrorView>(
                interaction.interaction_markup,
            )
            &&& interaction.interaction_markup_type == 0
            &&& interaction.part_name == part
            &&& interaction.plugin_configuration is None
        }),
{
    let build = built_message(message, entries, message_name, part, numbers).0;
    let rules = build.collected.rules;
    let generators = build.collected.generators;
    if rules.contains_key(path) && 0 <= i < rules[path].len() {
        some_or_none(defined_values(rules[path][i].definition, rules[path][i].index));
    }
    if generators.contains_key(path) {
        some_or_none(generators[path].values);
    }
}

/// The outcome for a message is the error of the build where it fails; nothing where a rule that
/// was collected cannot say its values; the error of writing it where it cannot be written; and an
/// interaction otherwise.
pub proof fn interactions_come_where_they_must(
    message: DescriptorProto,
    entries: Seq<(Seq<char>, ConfigValueView)>,
    message_name: Seq<char>,
    part: Seq<char>,
    numbers: Seq<(String, FloatBits)>,
)
    ensures
        ({
            let (build, outcome) = built_message(message, entries, message_name, part, numbers);
            let rules = build.collected.rules;
            let result = message_interaction(message, entries, message_name, part, numbers);
            let unsaid = exists|path: Seq<char>, i: int|
                rules.contains_key(path) && 0 <= i < rules[path].len() && !has_values(
                    (#[trigger] rules[path][i]).definition,
                    rules[path][i].index,
                );
            &&& outcome matches Err(error) ==> result == Some(
                Err::<InteractionResponseView, ErrorView>(error),
            )
            &&& outcome is Ok ==> (result is None <==> unsaid)
            &&& outcome is Ok && !unsaid ==> {
                &&& encoded(build.message) is Ok ==> result is Some && result->0 is Ok
                &&& encoded(build.message) matches Err(error) ==> result == Some(
                    Err::<InteractionResponseView, ErrorView>(error),
                )
            }
        }),
{
    let build = built_message(message, entries, message_name, part, numbers).0;
    let rules = build.collected.rules;
    if message_interaction(message, entries, message_name, part, numbers) is None {
        assert(!rules_resolve(build.collected));
        let path = choose|path: Seq<char>| #[trigger]
            rules.contains_key(path) && !list_resolves(rules[path]);
        let i = choose|i: int|
            0 <= i < rules[path].len() && !has_values(
                (#[trigger] rules[path][i]).definition,
                rules[path][i].index,
            );
        assert(!has_values(rules[path][i].definition, rules[path][i].index));
    } else if built_message(message, entries, message_name, part, numbers).1 is Ok {
        assert forall|path: Seq<char>, i: int|
            rules.contains_key(path) && 0 <= i < rules[path].len() implies has_values(
            (#[trigger] rules[path][i]).definition,
            rules[path][i].index,
        ) by {
            assert(list_resolves(rules[path]));
        }
    }
}

/// A rule can say its values exactly where its definition has it, it is no reference, and none of
/// its parts, nor their parts, is one.
pub proof fn rules_without_references_say_their_values(
    text: Seq<char>,
    index: int,
    name: Seq<char>,
    parts: Seq<DefinedRuleView>,
    reference: Seq<char>,
)
    ensures
        has_values(text, index) <==> parsed_definition(text) is Ok && 0 <= index
            < parsed_definition(text)->Ok_0.rules.len() && resolves(
            parsed_definition(text)->Ok_0.rules[index],
        ),
        resolves(DefinedRuleView::Rule { name, parts }) <==> forall|i: int|
            0 <= i < parts.len() ==> resolves(#[trigger] parts[i]),
        !resolves(DefinedRuleView::Reference(reference)),
{
    assert(all_resolve(parts) <==> forall|i: int|
        0 <= i < parts.len() ==> resolves(#[trigger] parts[i]));
}

/// Whether an interaction is the same as another, but for two texts that are stored with it: the
/// digest of the descriptors, and a name.
pub open spec fn is_stored_with(
    stored: InteractionResponseView,
    interaction: InteractionResponseView,
    key: Seq<char>,
    name: Seq<char>,
    descriptor_hash: Seq<char>,
) -> bool {
    &&& stored.contents == interaction.contents
    &&& stored.rules == interaction.rules
    &&& stored.generators == interaction.generators
    &&& stored.interaction_markup == interaction.interaction_markup
    &&& stored.interaction_markup_type == interaction.interaction_markup_type
    &&& stored.part_name == interaction.part_name
    &&& stored.plugin_configuration matches Some(configuration) && {
        &&& configuration.pact_configuration is None
        &&& configuration.interaction_configuration matches Some(settings) && {
            &&& settings.len() == 2
            &&& holds_text(settings, "descriptorKey"@, descriptor_hash)
            &&& holds_text(settings, key, name)
        }
    }
}

/// Whether one of the settings has the key, and its value is the text.
pub open spec fn holds_text(
    settings: Seq<(Seq<char>, ConfigValueView)>,
    key: Seq<char>,
    text: Seq<char>,
) -> bool {
    exists|i: int|
        0 <= i < settings.len() && (#[trigger] settings[i]) == (
            key,
            ConfigValueView { kind: Some(ConfigKindView::StringValue(text)) },
        )
}

proof fn stored_texts_are_held(
    interaction: InteractionResponseView,
    key: Seq<char>,
    name: Seq<char>,
    descriptor_hash: Seq<char>,
)
    ensures
        is_stored_with(
            with_stored(interaction, key, name, descriptor_hash),
            interaction,
            key,
            name,
            descriptor_hash,
        ),
{
    let stored = with_stored(interaction, key, name, descriptor_hash);
    let settings = stored.plugin_configuration->0.interaction_configuration->0;
    assert(settings[0] == (
        "descriptorKey"@,
        ConfigValueView { kind: Some(ConfigKindView::StringValue(descriptor_hash)) },
    ));
    assert(settings[1] == (
        key,
        ConfigValueView { kind: Some(ConfigKindView::StringValue(name)) },
    ));
}

/// A message of a file has the interaction of that message by itself, for no part, with its name
/// and the digest of the descriptors stored with it. A message that the file does not declare is an
/// error.
pub proof fn messages_are_configured(
    message_name: Seq<char>,
    entries: Seq<(Seq<char>, ConfigValueView)>,
    file: FileDescriptorProto,
    descriptor_hash: Seq<char>,
    numbers: Seq<(String, FloatBits)>,
)
    ensures
        ({
            let result = configured_message(
                message_name,
                entries,
                file,
                descriptor_hash,
                numbers,
            );
            match first_message(file.message_type@, message_name) {
                None => result == Some(
                    Err::<InteractionResponseView, ErrorView>(
                        ErrorView::NoMessageDescriptor { message: message_name },
                    ),
                ),
                Some(message) => match message_interaction(
                    message,
                    entries,
                    message_name,
                    Seq::empty(),
                    numbers,
                ) {
                    None => result is None,
                    Some(Err(error)) => result == Some(
                        Err::<InteractionResponseView, ErrorView>(error),
                    ),
                    Some(Ok(interaction)) => result matches Some(Ok(stored)) && is_stored_with(
                        stored,
                        interaction,
                        "message"@,
                        message_name,
                        descriptor_hash,
                    ),
                },
            }
        }),
{
    match first_message(file.message_type@, message_name) {
        Some(message) => {
            match message_interaction(message, entries, message_name, Seq::empty(), numbers) {
                Some(Ok(interaction)) => stored_texts_are_held(
                    interaction,
                    "message"@,
                    message_name,
                    descriptor_hash,
                ),
                _ => {},
            }
        },
        None => {},
    }
}

/// Whether a method of a service takes and returns the two messages: each is looked for in all
/// files, by the last part of the name that the method gives it.
pub open spec fn takes_and_returns(
    service: ServiceDescriptorProto,
    method_name: Seq<char>,
    files: Map<Seq<char>, FileDescriptorProto>,
    request: DescriptorProto,
    request_name: Seq<char>,
    response: DescriptorProto,
    response_name: Seq<char>,
) -> bool {
    &&& first_method(service.method@, method_name) matches Some(method) && {
        &&& method.input_type is Some
        &&& method.output_type is Some
        &&& request_name == after_last(method.input_type->0@, '.')
        &&& response_name == after_last(method.output_type->0@, '.')
    }
    &&& declared_message(files, request_name) == Ok::<DescriptorProto, ErrorView>(request)
    &&& declared_message(files, response_name) == Ok::<DescriptorProto, ErrorView>(response)
}

/// Where a configuration has something for the response, and a method takes one message and returns
/// another, the request is the interaction for the first message with the map under "request", and
/// the response the one for the second message with the map under "response". What is wrong with
/// the request is said before what is wrong with the response.
pub proof fn methods_have_a_request_and_a_response(
    service: ServiceDescriptorProto,
    entries: Seq<(Seq<char>, ConfigValueView)>,
    service_name: Seq<char>,
    method_name: Seq<char>,
    files: Map<Seq<char>, FileDescriptorProto>,
    numbers: Seq<(String, FloatBits)>,
    request: DescriptorProto,
    request_name: Seq<char>,
    response: DescriptorProto,
    response_name: Seq<char>,
)
    requires
        setting(entries, "response"@) is Some,
        takes_and_returns(
            service,
            method_name,
            files,
            request,
            request_name,
            response,
            response_name,
        ),
    ensures
        ({
            let result = service_interactions(
                service,
                entries,
                service_name,
                method_name,
                files,
                numbers,
            );
            let asked = part_outcome(request, entries, request_name, "request"@, numbers);
            let answered = part_outcome(response, entries, response_name, "response"@, numbers);
            match asked {
                None => result is None,
                Some(Err(error)) => result == Some(
                    Err::<(InteractionResponseView, InteractionResponseView), ErrorView>(error),
                ),
                Some(Ok(first)) => match answered {
                    None => result is None,
                    Some(Err(error)) => result == Some(
                        Err::<(InteractionResponseView, InteractionResponseView), ErrorView>(error),
                    ),
                    Some(Ok(second)) => result == Some(
                        Ok::<(InteractionResponseView, InteractionResponseView), ErrorView>(
                            (first, second),
                        ),
                    ),
                },
            }
        }),
{
}

/// The interaction for a message with the map under the name of its part, or the error that there
/// is no such map.
pub open spec fn part_outcome(
    message: DescriptorProto,
    entries: Seq<(Seq<char>, ConfigValueView)>,
    message_name: Seq<char>,
    part: Seq<char>,
    numbers: Seq<(String, FloatBits)>,
) -> Option<Result<InteractionResponseView, ErrorView>> {
    let value = setting(entries, part);
    if value is Some && value->0.kind is Some && value->0.kind->0 is StructValue {
        message_interaction(
            message,
            value->0.kind->0->StructValue_0,
            message_name,
            part,
            numbers,
        )
    } else {
        Some(Err(ErrorView::PartNotAMap { part }))
    }
}

/// A method is an error where nothing is configured for the response, where the service has no such
/// method, where the method does not name its messages, and where no file declares one of them; in
/// that order.
pub proof fn methods_fail_where_they_must(
    service: ServiceDescriptorProto,
    entries: Seq<(Seq<char>, ConfigValueView)>,
    service_name: Seq<char>,
    method_name: Seq<char>,
    files: Map<Seq<char>, FileDescriptorProto>,
    numbers: Seq<(String, FloatBits)>,
)
    ensures
        ({
            let result = service_interactions(
                service,
                entries,
                service_name,
                method_name,
                files,
                numbers,
            );
            let fails = |error: ErrorView|
                result == Some(
                    Err::<(InteractionResponseView, InteractionResponseView), ErrorView>(error),
                );
            let found = first_method(service.method@, method_name);
            let method = found->0;
            let input = after_last(method.input_type->0@, '.');
            let output = after_last(method.output_type->0@, '.');
            if setting(entries, "response"@) is None {
                fails(ErrorView::NoResponse)
            } else if found is None {
                fails(
                    ErrorView::NoMethodDescriptor { method: method_name, service: service_name },
                )
            } else if method.input_type is None || method.output_type is None {
                fails(ErrorView::NoMessageName { service: service_name, method: method_name })
            } else if declared_message(files, input) is Err {
                fails(ErrorView::UnknownMessage { message: input })
            } else if declared_message(files, output) is Err {
                fails(ErrorView::UnknownMessage { message: output })
            } else {
                takes_and_returns(
                    service,
                    method_name,
                    files,
                    declared_message(files, input)->Ok_0,
                    input,
                    declared_message(files, output)->Ok_0,
                    output,
                )
            }
        }),
{
}

/// A setting names a service and a method with a slash between them: the first slash, so that the
/// name of the service has none. The interactions are those of the method, with the whole setting
/// and the digest of the descriptors stored with both. Without a slash, or without such a service,
/// it is an error.
pub proof fn services_are_configured(
    setting_text: Seq<char>,
    service_name: Seq<char>,
    method_name: Seq<char>,
    entries: Seq<(Seq<char>, ConfigValueView)>,
    file: FileDescriptorProto,
    files: Map<Seq<char>, FileDescriptorProto>,
    descriptor_hash: Seq<char>,
    numbers: Seq<(String, FloatBits)>,
)
    ensures
        ({
            let result = configured_service(
                setting_text,
                entries,
                file,
                files,
                descriptor_hash,
                numbers,
            );
            let fails = |error: ErrorView|
                result == Some(
                    Err::<(InteractionResponseView, InteractionResponseView), ErrorView>(error),
                );
            &&& !setting_text.contains('/') ==> fails(
                ErrorView::InvalidServiceName { service: setting_text },
            )
            &&& setting_text == service_name + seq!['/'] + method_name && !service_name.contains(
                '/',
            ) ==> match first_service(file.service@, service_name) {
                None => fails(ErrorView::NoServiceDescriptor { service: setting_text }),
                Some(service) => match service_interactions(
                    service,
                    entries,
                    service_name,
                    method_name,
                    files,
                    numbers,
                ) {
                    None => result is None,
                    Some(Err(error)) => fails(error),
                    Some(Ok((request, response))) => result matches Some(Ok((first, second))) && {
                        &&& is_stored_with(
                            first,
                            request,
                            "service"@,
                            setting_text,
                            descriptor_hash,
                        )
                        &&& is_stored_with(
                            second,
                            response,
                            "service"@,
                            setting_text,
                            descriptor_hash,
                        )
                    },
                },
            }
        }),
{
    splits_are_unique(setting_text, '/', service_name, method_name);
    assert(service_name.push('/') + method_name =~= service_name + seq!['/'] + method_name);
    match first_service(file.service@, service_name) {
        Some(service) => {
            match service_interactions(
                service,
                entries,
                service_name,
                method_name,
                files,
                numbers,
            ) {
                Some(Ok((request, response))) => {
                    stored_texts_are_held(request, "service"@, setting_text, descriptor_hash);
                    stored_texts_are_held(response, "service"@, setting_text, descriptor_hash);
                },
                _ => {},
            }
        },
        None => {},
    }
}

/// A configuration asks for the message that it names; if it names none, for the service that it
/// names; and if it names neither, for nothing. A name that has no text is an error.
pub proof fn configurations_ask(entries: Seq<(Seq<char>, ConfigValueView)>)
    ensures
        ({
            let message = setting(entries, "pact:message-type"@);
            let service = setting(entries, "pact:proto-service"@);
            let asked = requested(entries);
            &&& message is Some ==> match value_text(message->0) {
                Some(name) => asked == Ok::<RequestView, ErrorView>(RequestView::Message(name)),
                None => asked == Err::<RequestView, ErrorView>(
                    ErrorView::NotAString { key: "pact:message-type"@ },
                ),
            }
            &&& message is None && service is Some ==> match value_text(service->0) {
                Some(name) => asked == Ok::<RequestView, ErrorView>(RequestView::Service(name)),
                None => asked == Err::<RequestView, ErrorView>(
                    ErrorView::NotAString { key: "pact:proto-service"@ },
                ),
            }
            &&& message is None && service is None ==> asked == Ok::<RequestView, ErrorView>(
                RequestView::Nothing,
            )
        }),
{
}

/// What a configuration asks for is configured from the file of the given name, and with the MD5
/// digest of the descriptors: the interaction of a message, the request and the response of a
/// method, or nothing. A name that no file has is an error.
pub proof fn configurations_get_what_they_ask_for(
    files: Seq<FileDescriptorProto>,
    file_name: Seq<char>,
    descriptor_bytes: Seq<u8>,
    entries: Seq<(Seq<char>, ConfigValueView)>,
    numbers: Seq<(String, FloatBits)>,
)
    ensures
        ({
            let result = processed(files, file_name, descriptor_bytes, entries, numbers);
            let all = files_by_name(files);
            let digest = hex_text(md5_digest(descriptor_bytes));
            let fails = |error: ErrorView|
                result == Some(Err::<Seq<InteractionResponseView>, ErrorView>(error));
            let gets = |list: Seq<InteractionResponseView>|
                result == Some(Ok::<Seq<InteractionResponseView>, ErrorView>(list));
            if !all.contains_key(file_name) {
                fails(ErrorView::NoFileDescriptor { file: file_name })
            } else {
                match requested(entries) {
                    Err(error) => fails(error),
                    Ok(RequestView::Nothing) => gets(Seq::empty()),
                    Ok(RequestView::Message(name)) => match configured_message(
                        name,
                        entries,
                        all[file_name],
                        digest,
                        numbers,
                    ) {
                        None => result is None,
                        Some(Err(error)) => fails(error),
                        Some(Ok(interaction)) => gets(seq![interaction]),
                    },
                    Ok(RequestView::Service(name)) => match configured_service(
                        name,
                        entries,
                        all[file_name],
                        all,
                        digest,
                        numbers,
                    ) {
                        None => result is None,
                        Some(Err(error)) => fails(error),
                        Some(Ok((request, response))) => gets(seq![request, response]),
                    },
                }
            }
        }),
{
}

/// With a pact file one map is stored, under the digest in hexadecimal digits, with the text of the
/// Protobuf file and its descriptors in base 64, and nothing else.
pub proof fn protobuf_files_are_stored(
    digest: Seq<u8>,
    file_contents: Seq<char>,
    descriptor_bytes: Seq<u8>,
)
    ensures
        ({
            let stored = stored_proto(digest, file_contents, descriptor_bytes);
            &&& stored.interaction_configuration is None
            &&& stored.pact_configuration matches Some(maps) && {
                &&& maps.len() == 1
                &&& maps[0].0 == hex_text(digest)
                &&& maps[0].1.kind matches Some(ConfigKindView::StructValue(texts)) && {
                    &&& texts.len() == 2
                    &&& holds_text(texts, "protoFile"@, file_contents)
                    &&& holds_text(texts, "protoDescriptors"@, base64_text(descriptor_bytes))
                }
            }
        }),
{
    let stored = stored_proto(digest, file_contents, descriptor_bytes);
    let texts = stored.pact_configuration->0[0].1.kind->0->StructValue_0;
    assert(texts[0] == (
        "protoDescriptors"@,
        ConfigValueView {
            kind: Some(ConfigKindView::StringValue(base64_text(descriptor_bytes))),
        },
    ));
    assert(texts[1] == (
        "protoFile"@,
        ConfigValueView { kind: Some(ConfigKindView::StringValue(file_contents)) },
    ));
}

} // verus!
