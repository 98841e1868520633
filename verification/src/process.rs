//! The interactions that a configuration asks for, and what the plugin stores of the Protobuf file.
use crate::descriptors::FileDescriptorProto;
use crate::digest::{
    base64_text, encode_base64, fits_base64, hex_of, hex_text, md5_digest, md5_text,
};
use crate::error::{Error, ErrorView};
use crate::files::{files_by_name, index_files};
use crate::interaction::{
    InteractionResponse, InteractionResponseView, PluginConfiguration, PluginConfigurationView,
};
use crate::message_builder::FloatBits;
use crate::protobuf::{
    configure_protobuf_message, configured_message, configured_message_has_outcome, store_texts,
    stored_texts,
};
use crate::services::{
    configure_protobuf_service, configured_service, configured_service_has_outcome,
};
use crate::text_map::TextMap;
use crate::value::{
    config_entries, get_setting, proto_value_to_string, setting, struct_value_view, value_text,
    ConfigKind, ConfigKindView, ConfigValue, ConfigValueView,
};
use vstd::prelude::*;

verus! {

/// What a configuration asks for.
pub enum RequestView {
    Message(Seq<char>),
    Service(Seq<char>),
    Nothing,
}

/// What a configuration asks for: a message, a method of a service, or nothing. Where it names both
/// a message and a service, it asks for the message.
pub open spec fn requested(entries: Seq<(Seq<char>, ConfigValueView)>) -> Result<
    RequestView,
    ErrorView,
> {
    match setting(entries, "pact:message-type"@) {
        Some(value) => match value_text(value) {
            Some(text) => Ok(RequestView::Message(text)),
            None => Err(ErrorView::NotAString { key: "pact:message-type"@ }),
        },
        None => match setting(entries, "pact:proto-service"@) {
            Some(value) => match value_text(value) {
                Some(text) => Ok(RequestView::Service(text)),
                None => Err(ErrorView::NotAString { key: "pact:proto-service"@ }),
            },
            None => Ok(RequestView::Nothing),
        },
    }
}

/// The interactions that a configuration asks for: one for a message, two for a method of a
/// service. There are neither interactions nor an error where a rule that is needed cannot say its
/// values.
pub open spec fn processed(
    files: Seq<FileDescriptorProto>,
    file_name: Seq<char>,
    descriptor_bytes: Seq<u8>,
    entries: Seq<(Seq<char>, ConfigValueView)>,
    numbers: Seq<(String, FloatBits)>,
) -> Option<Result<Seq<InteractionResponseView>, ErrorView>> {
    let all = files_by_name(files);
    let descriptor_hash = hex_text(md5_digest(descriptor_bytes));
    if !all.contains_key(file_name) {
        Some(Err(ErrorView::NoFileDescriptor { file: file_name }))
    } else {
        match requested(entries) {
            Err(error) => Some(Err(error)),
            Ok(RequestView::Nothing) => Some(Ok(Seq::empty())),
            Ok(RequestView::Message(name)) => match configured_message(
                name,
                entries,
                all[file_name],
                descriptor_hash,
                numbers,
            ) {
                None => None,
                Some(Err(error)) => Some(Err(error)),
                Some(Ok(interaction)) => Some(Ok(seq![interaction])),
            },
            Ok(RequestView::Service(name)) => match configured_service(
                name,
                entries,
                all[file_name],
                all,
                descriptor_hash,
                numbers,
            ) {
                None => None,
                Some(Err(error)) => Some(Err(error)),
                Some(Ok((request, response))) => Some(Ok(seq![request, response])),
            },
        }
    }
}

/// The model of a list of interactions, or an error.
pub open spec fn outcome_of_list(list: Result<Vec<InteractionResponse>, Error>) -> Result<
    Seq<InteractionResponseView>,
    ErrorView,
> {
    match list {
        Ok(interactions) => Ok(
            interactions@.map_values(|interaction: InteractionResponse| interaction@),
        ),
        Err(error) => Err(error@),
    }
}

/// Whether the maps of every interaction have their keys in ascending order, each once.
pub open spec fn all_well_formed(interactions: Vec<InteractionResponse>) -> bool {
    forall|i: int| 0 <= i < interactions@.len() ==> (#[trigger] interactions@[i]).well_formed()
}

/// What a configuration asks for.
enum Request {
    Message(String),
    Service(String),
    Nothing,
}

/// What a configuration asks for.
fn read_request(config: &TextMap<ConfigValue>) -> (request: Result<Request, Error>)
    ensures
        match request {
            Ok(Request::Message(name)) => requested(config_entries(*config)) == Ok::<
                RequestView,
                ErrorView,
            >(RequestView::Message(name@)),
            Ok(Request::Service(name)) => requested(config_entries(*config)) == Ok::<
                RequestView,
                ErrorView,
            >(RequestView::Service(name@)),
            Ok(Request::Nothing) => requested(config_entries(*config)) == Ok::<
                RequestView,
                ErrorView,
            >(RequestView::Nothing),
            Err(error) => requested(config_entries(*config)) == Err::<RequestView, ErrorView>(
                error@,
            ),
        },
{
    match get_setting(config, "pact:message-type") {
        Some(value) => match proto_value_to_string(value) {
            Some(text) => Ok(Request::Message(text)),
            None => Err(Error::NotAString { key: "pact:message-type".to_owned() }),
        },
        None => match get_setting(config, "pact:proto-service") {
            Some(value) => match proto_value_to_string(value) {
                Some(text) => Ok(Request::Service(text)),
                None => Err(Error::NotAString { key: "pact:proto-service".to_owned() }),
            },
            None => Ok(Request::Nothing),
        },
    }
}

/// The interactions that a configuration asks for. `files` are the descriptors of the Protobuf file
/// and of the files that it imports, and `descriptor_bytes` is their binary form; `file_name` is
/// the name of the Protobuf file, without its directory.
pub fn process_proto(
    files: &Vec<FileDescriptorProto>,
    file_name: &str,
    descriptor_bytes: &[u8],
    config: &TextMap<ConfigValue>,
    numbers: &TextMap<FloatBits>,
) -> (interactions: Result<Vec<InteractionResponse>, Error>)
    requires
        processed(
            files@,
            file_name@,
            descriptor_bytes@,
            config_entries(*config),
            numbers.entries@,
        ) is Some,
    ensures
        Some(outcome_of_list(interactions)) == processed(
            files@,
            file_name@,
            descriptor_bytes@,
            config_entries(*config),
            numbers.entries@,
        ),
        interactions matches Ok(list) ==> all_well_formed(list),
{
    let file_descriptors = index_files(files);
    let descriptor = match file_descriptors.get(file_name) {
        None => {
            return Err(Error::NoFileDescriptor { file: file_name.to_owned() });
        },
        Some(descriptor) => *descriptor,
    };
    let descriptor_hash = md5_text(descriptor_bytes);
    let mut interactions: Vec<InteractionResponse> = Vec::new();
    match read_request(config) {
        Err(error) => {
            return Err(error);
        },
        Ok(Request::Nothing) => {
            assert(outcome_of_list(Ok(interactions))->Ok_0 =~= Seq::empty());
        },
        Ok(Request::Message(name)) => {
            match configure_protobuf_message(
                name.as_str(),
                config,
                descriptor,
                descriptor_hash.as_str(),
                numbers,
            ) {
                Err(error) => {
                    return Err(error);
                },
                Ok(interaction) => {
                    let ghost model = interaction@;
                    interactions.push(interaction);
                    assert(outcome_of_list(Ok(interactions))->Ok_0 =~= seq![model]);
                },
            }
        },
        Ok(Request::Service(name)) => {
            match configure_protobuf_service(
                name.as_str(),
                config,
                descriptor,
                &file_descriptors,
                descriptor_hash.as_str(),
                numbers,
            ) {
                Err(error) => {
                    return Err(error);
                },
                Ok((request, response)) => {
                    let ghost (first, second) = (request@, response@);
                    interactions.push(request);
                    interactions.push(response);
                    assert(outcome_of_list(Ok(interactions))->Ok_0 =~= seq![first, second]);
                },
            }
        },
    }
    Ok(interactions)
}

/// The interactions that a configuration asks for, or nothing where a rule that is needed refers to
/// an attribute that is not resolved, and so cannot say its values.
pub fn try_process_proto(
    files: &Vec<FileDescriptorProto>,
    file_name: &str,
    descriptor_bytes: &[u8],
    config: &TextMap<ConfigValue>,
    numbers: &TextMap<FloatBits>,
) -> (interactions: Option<Result<Vec<InteractionResponse>, Error>>)
    ensures
        match interactions {
            Some(list) => processed(
                files@,
                file_name@,
                descriptor_bytes@,
                config_entries(*config),
                numbers.entries@,
            ) == Some(outcome_of_list(list)),
            None => processed(
                files@,
                file_name@,
                descriptor_bytes@,
                config_entries(*config),
                numbers.entries@,
            ) is None,
        },
        interactions matches Some(Ok(list)) ==> all_well_formed(list),
{
    let file_descriptors = index_files(files);
    let has_outcome = match file_descriptors.get(file_name) {
        None => true,
        Some(descriptor) => match read_request(config) {
            Err(_) => true,
            Ok(Request::Nothing) => true,
            Ok(Request::Message(name)) => configured_message_has_outcome(
                name.as_str(),
                config,
                descriptor,
                numbers,
            ),
            Ok(Request::Service(name)) => configured_service_has_outcome(
                name.as_str(),
                config,
                descriptor,
                &file_descriptors,
                numbers,
            ),
        },
    };
    if has_outcome {
        Some(process_proto(files, file_name, descriptor_bytes, config, numbers))
    } else {
        None
    }
}

/// What the plugin stores with a whole pact file: the text of the Protobuf file and the binary form
/// of its descriptors, under the digest of the Protobuf file.
pub open spec fn stored_proto(
    digest: Seq<u8>,
    file_contents: Seq<char>,
    descriptor_bytes: Seq<u8>,
) -> PluginConfigurationView {
    let stored = stored_texts(
        "protoDescriptors"@,
        base64_text(descriptor_bytes),
        "protoFile"@,
        file_contents,
    );
    PluginConfigurationView {
        interaction_configuration: None,
        pact_configuration: Some(
            seq![
                (
                    hex_text(digest),
                    ConfigValueView { kind: Some(ConfigKindView::StructValue(stored)) },
                ),
            ],
        ),
    }
}

/// What the plugin stores with a whole pact file: the text of the Protobuf file and the binary form
/// of its descriptors, under the digest of the Protobuf file.
pub fn plugin_configuration(
    digest: &[u8],
    file_contents: &str,
    descriptor_bytes: &[u8],
) -> (configuration: PluginConfiguration)
    requires
        fits_base64(descriptor_bytes@.len() as int),
    ensures
        configuration@ == stored_proto(digest@, file_contents@, descriptor_bytes@),
{
    let encoded = encode_base64(descriptor_bytes);
    let stored = store_texts("protoDescriptors", encoded.as_str(), "protoFile", file_contents);
    let value = ConfigValue { kind: Some(ConfigKind::StructValue(stored)) };
    proof {
        struct_value_view(value, stored);
    }
    let mut entries: Vec<(String, ConfigValue)> = Vec::new();
    let ghost model = value@;
    entries.push((hex_of(digest), value));
    let by_digest = TextMap { entries };
    assert(config_entries(by_digest) =~= seq![(hex_text(digest@), model)]);
    PluginConfiguration { interaction_configuration: None, pact_configuration: Some(by_digest) }
}

} // verus!
