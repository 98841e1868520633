//! Interactions with Protobuf messages and services, built from their configuration and from what
//! the Protobuf file says of them.
use crate::descriptors::{find_message, first_message, DescriptorProto, FileDescriptorProto};
use crate::encoding::encoded;
use crate::error::{outcome_of, Error, ErrorView};
use crate::fields::{construct_message_field, constructed_field, BuildView};
use crate::interaction::{
    Body, BodyView, InteractionResponse, InteractionResponseView, PluginConfiguration,
    PluginConfigurationView, CONTENT_TYPE_HINT_BINARY, MARKUP_COMMON_MARK,
};
use crate::markup::markup;
use crate::matching::NamedValuesView;
use crate::message_builder::{empty_message, FloatBits, MessageBuilder};
use crate::path::{field_step, DocPath};
use crate::rules::{
    listed_generator, listed_rules, nothing_collected, rules_resolve, Collected,
    CollectedRuleView,
};
use crate::text::starts_with;
use crate::text_map::TextMap;
use crate::value::{
    config_entries, ConfigKind, ConfigKindView, ConfigValue, ConfigValueView,
};
use vstd::prelude::*;

verus! {

/// The build with the fields of a message, one by one.
pub open spec fn constructed_fields(
    message: DescriptorProto,
    message_name: Seq<char>,
    path: Seq<char>,
    entries: Seq<(Seq<char>, ConfigValueView)>,
    build: BuildView,
    numbers: Seq<(String, FloatBits)>,
) -> (BuildView, Result<(), ErrorView>)
    decreases entries.len(),
{
    if entries.len() == 0 {
        (build, Ok(()))
    } else {
        let (key, value) = entries[0];
        let (after, outcome) = constructed_field(
            message,
            message_name,
            path,
            key,
            value,
            build,
            numbers,
        );
        match outcome {
            Err(error) => (after, Err(error)),
            Ok(_) => constructed_fields(
                message,
                message_name,
                path,
                entries.drop_first(),
                after,
                numbers,
            ),
        }
    }
}

/// The path of a part of an interaction, or of the whole where the part has no name.
pub open spec fn part_path(part: Seq<char>) -> Seq<char> {
    if part.len() == 0 {
        seq!['$']
    } else {
        seq!['$'] + field_step(part)
    }
}

/// The build of a message from the configuration of its fields, as far as it comes, and why it
/// comes no further.
pub open spec fn built_message(
    message: DescriptorProto,
    entries: Seq<(Seq<char>, ConfigValueView)>,
    message_name: Seq<char>,
    part: Seq<char>,
    numbers: Seq<(String, FloatBits)>,
) -> (BuildView, Result<(), ErrorView>) {
    constructed_fields(
        message,
        message_name,
        part_path(part),
        entries,
        (BuildView { message: empty_message(message_name), collected: nothing_collected() }),
        numbers,
    )
}

/// The interaction for a message that is built.
pub open spec fn interaction_of(
    build: BuildView,
    message_name: Seq<char>,
    part: Seq<char>,
) -> Result<InteractionResponseView, ErrorView> {
    match (encoded(build.message), markup(build.message, Seq::empty())) {
        (Ok(bytes), Ok(text)) => Ok(
            InteractionResponseView {
                contents: Some(
                    BodyView {
                        content_type: "application/protobuf;message="@ + message_name,
                        content: Some(bytes),
                        content_type_hint: CONTENT_TYPE_HINT_BINARY,
                    },
                ),
                rules: build.collected.rules.map_values(
                    |rules: Seq<CollectedRuleView>| listed_rules(rules),
                ),
                generators: build.collected.generators.map_values(
                    |generator: NamedValuesView| listed_generator(generator),
                ),
                plugin_configuration: None,
                interaction_markup: text,
                interaction_markup_type: MARKUP_COMMON_MARK,
                part_name: part,
            },
        ),
        (Err(error), _) => Err(error),
        (_, Err(error)) => Err(error),
    }
}

/// The interaction for a message. There is neither an interaction nor an error where the message
/// can be built, but a rule of one of its fields refers to an attribute that is not resolved, and
/// so cannot say its values.
pub open spec fn message_interaction(
    message: DescriptorProto,
    entries: Seq<(Seq<char>, ConfigValueView)>,
    message_name: Seq<char>,
    part: Seq<char>,
    numbers: Seq<(String, FloatBits)>,
) -> Option<Result<InteractionResponseView, ErrorView>> {
    let (build, outcome) = built_message(message, entries, message_name, part, numbers);
    match outcome {
        Err(error) => Some(Err(error)),
        Ok(_) => if rules_resolve(build.collected) {
            Some(interaction_of(build, message_name, part))
        } else {
            None
        },
    }
}

/// Builds a message from the configuration of its fields, and collects the rules and generators of
/// the fields.
pub fn build_message(
    message_descriptor: &DescriptorProto,
    config: &TextMap<ConfigValue>,
    message_name: &str,
    message_part: &str,
    numbers: &TextMap<FloatBits>,
) -> (built: Result<(MessageBuilder, Collected), Error>)
    ensures
        match built {
            Ok((message, collected)) => collected.well_formed() && built_message(
                *message_descriptor,
                config_entries(*config),
                message_name@,
                message_part@,
                numbers.entries@,
            ) == (
                (BuildView { message: message@, collected: collected@ }),
                Ok::<(), ErrorView>(()),
            ),
            Err(error) => built_message(
                *message_descriptor,
                config_entries(*config),
                message_name@,
                message_part@,
                numbers.entries@,
            ).1 == Err::<(), ErrorView>(error@),
        },
{
    let mut message_builder = MessageBuilder::new(message_name);
    let mut collected = Collected::new();
    let mut path = DocPath::root();
    if !message_part.is_empty() {
        path.push_field(message_part);
    }
    let ghost entries = config_entries(*config);
    let ghost whole = built_message(
        *message_descriptor,
        entries,
        message_name@,
        message_part@,
        numbers.entries@,
    );
    let mut i: usize = 0;
    assert(entries.skip(0) =~= entries);
    while i < config.entries.len()
        invariant
            i <= config.entries@.len(),
            entries == config_entries(*config),
            collected.well_formed(),
            whole == constructed_fields(
                *message_descriptor,
                message_name@,
                path@,
                entries.skip(i as int),
                (BuildView { message: message_builder@, collected: collected@ }),
                numbers.entries@,
            ),
            whole == built_message(
                *message_descriptor,
                entries,
                message_name@,
                message_part@,
                numbers.entries@,
            ),
        decreases config.entries.len() - i,
    {
        let (key, value) = &config.entries[i];
        let ghost rest = entries.skip(i as int);
        proof {
            assert(rest[0] == (key@, value@));
            assert(rest.drop_first() =~= entries.skip(i + 1));
        }
        if !starts_with(key.as_str(), "pact:") {
            match construct_message_field(
                message_descriptor,
                message_name,
                &mut message_builder,
                &mut collected,
                key.as_str(),
                value,
                &path,
                numbers,
            ) {
                Ok(_) => {},
                Err(error) => {
                    return Err(error);
                },
            }
        }
        i += 1;
    }
    assert(entries.skip(i as int) =~= Seq::empty());
    Ok((message_builder, collected))
}

/// The interaction for a message, from the configuration of its fields.
pub fn construct_protobuf_interaction_for_message(
    message_descriptor: &DescriptorProto,
    config: &TextMap<ConfigValue>,
    message_name: &str,
    message_part: &str,
    numbers: &TextMap<FloatBits>,
) -> (interaction: Result<InteractionResponse, Error>)
    requires
        message_interaction(
            *message_descriptor,
            config_entries(*config),
            message_name@,
            message_part@,
            numbers.entries@,
        ) is Some,
    ensures
        Some(outcome_of(interaction)) == message_interaction(
            *message_descriptor,
            config_entries(*config),
            message_name@,
            message_part@,
            numbers.entries@,
        ),
        interaction matches Ok(response) ==> response.well_formed(),
{
    let (message_builder, collected) = match build_message(
        message_descriptor,
        config,
        message_name,
        message_part,
        numbers,
    ) {
        Ok(built) => built,
        Err(error) => {
            return Err(error);
        },
    };
    let rules = collected.listed_rules();
    let generators = collected.listed_generators();
    let content = match message_builder.encode_message() {
        Ok(bytes) => bytes,
        Err(error) => {
            return Err(error);
        },
    };
    proof {
        reveal_strlit("");
        assert(""@ =~= Seq::<char>::empty());
    }
    let interaction_markup = match message_builder.generate_markup("") {
        Ok(text) => text,
        Err(error) => {
            return Err(error);
        },
    };
    let mut content_type = "application/protobuf;message=".to_owned();
    content_type.append(message_name);
    Ok(
        InteractionResponse {
            contents: Some(
                Body {
                    content_type,
                    content: Some(content),
                    content_type_hint: CONTENT_TYPE_HINT_BINARY,
                },
            ),
            rules,
            generators,
            plugin_configuration: None,
            interaction_markup,
            interaction_markup_type: MARKUP_COMMON_MARK,
            part_name: message_part.to_owned(),
        },
    )
}

/// Whether there is an interaction for a message, or an error.
pub fn message_has_outcome(
    message_descriptor: &DescriptorProto,
    config: &TextMap<ConfigValue>,
    message_name: &str,
    message_part: &str,
    numbers: &TextMap<FloatBits>,
) -> (has: bool)
    ensures
        has == (message_interaction(
            *message_descriptor,
            config_entries(*config),
            message_name@,
            message_part@,
            numbers.entries@,
        ) is Some),
{
    match build_message(message_descriptor, config, message_name, message_part, numbers) {
        Ok((_, collected)) => collected.all_resolve(),
        Err(_) => true,
    }
}

/// What a plugin stores with an interaction: two texts by their keys.
pub open spec fn stored_texts(
    key: Seq<char>,
    text: Seq<char>,
    other_key: Seq<char>,
    other_text: Seq<char>,
) -> Seq<(Seq<char>, ConfigValueView)> {
    seq![
        (key, ConfigValueView { kind: Some(ConfigKindView::StringValue(text)) }),
        (other_key, ConfigValueView { kind: Some(ConfigKindView::StringValue(other_text)) }),
    ]
}

/// Two texts by their keys.
pub(crate) fn store_texts(
    key: &str,
    text: &str,
    other_key: &str,
    other_text: &str,
) -> (stored: TextMap<ConfigValue>)
    ensures
        config_entries(stored) == stored_texts(key@, text@, other_key@, other_text@),
{
    let mut entries: Vec<(String, ConfigValue)> = Vec::new();
    let value = ConfigValue { kind: Some(ConfigKind::StringValue(text.to_owned())) };
    let other = ConfigValue { kind: Some(ConfigKind::StringValue(other_text.to_owned())) };
    entries.push((key.to_owned(), value));
    entries.push((other_key.to_owned(), other));
    let stored = TextMap { entries };
    assert(config_entries(stored) =~= stored_texts(key@, text@, other_key@, other_text@));
    stored
}

/// An interaction with what the plugin stores with it: the digest of the descriptors, and the name
/// of the message or the service under the given key.
pub open spec fn with_stored(
    interaction: InteractionResponseView,
    key: Seq<char>,
    name: Seq<char>,
    descriptor_hash: Seq<char>,
) -> InteractionResponseView {
    InteractionResponseView {
        plugin_configuration: Some(
            PluginConfigurationView {
                interaction_configuration: Some(
                    stored_texts("descriptorKey"@, descriptor_hash, key, name),
                ),
                pact_configuration: None,
            },
        ),
        ..interaction
    }
}

/// An interaction with what the plugin stores with it.
pub(crate) fn store(
    interaction: InteractionResponse,
    key: &str,
    name: &str,
    descriptor_hash: &str,
) -> (stored: InteractionResponse)
    ensures
        stored@ == with_stored(interaction@, key@, name@, descriptor_hash@),
        stored.rules == interaction.rules,
        stored.generators == interaction.generators,
{
    let configuration = store_texts("descriptorKey", descriptor_hash, key, name);
    InteractionResponse {
        plugin_configuration: Some(
            PluginConfiguration {
                interaction_configuration: Some(configuration),
                pact_configuration: None,
            },
        ),
        ..interaction
    }
}

/// The interaction for a message of a file, with the name of the message stored with it.
pub open spec fn configured_message(
    message_name: Seq<char>,
    entries: Seq<(Seq<char>, ConfigValueView)>,
    file: FileDescriptorProto,
    descriptor_hash: Seq<char>,
    numbers: Seq<(String, FloatBits)>,
) -> Option<Result<InteractionResponseView, ErrorView>> {
    match first_message(file.message_type@, message_name) {
        None => Some(Err(ErrorView::NoMessageDescriptor { message: message_name })),
        Some(message) => match message_interaction(
            message,
            entries,
            message_name,
            Seq::empty(),
            numbers,
        ) {
            Some(Ok(interaction)) => Some(
                Ok(with_stored(interaction, "message"@, message_name, descriptor_hash)),
            ),
            Some(Err(error)) => Some(Err(error)),
            None => None,
        },
    }
}

/// The interaction for a message of a file, with the name of the message stored with it.
pub fn configure_protobuf_message(
    message_name: &str,
    config: &TextMap<ConfigValue>,
    descriptor: &FileDescriptorProto,
    descriptor_hash: &str,
    numbers: &TextMap<FloatBits>,
) -> (interaction: Result<InteractionResponse, Error>)
    requires
        configured_message(
            message_name@,
            config_entries(*config),
            *descriptor,
            descriptor_hash@,
            numbers.entries@,
        ) is Some,
    ensures
        Some(outcome_of(interaction)) == configured_message(
            message_name@,
            config_entries(*config),
            *descriptor,
            descriptor_hash@,
            numbers.entries@,
        ),
        interaction matches Ok(response) ==> response.well_formed(),
{
    match find_message(&descriptor.message_type, message_name) {
        None => Err(Error::NoMessageDescriptor { message: message_name.to_owned() }),
        Some(message_descriptor) => {
            proof {
                reveal_strlit("");
                assert(""@ =~= Seq::<char>::empty());
            }
            match construct_protobuf_interaction_for_message(
                message_descriptor,
                config,
                message_name,
                "",
                numbers,
            ) {
                Ok(interaction) => Ok(store(interaction, "message", message_name, descriptor_hash)),
                Err(error) => Err(error),
            }
        },
    }
}

/// Whether there is an interaction for a message of a file, or an error.
pub fn configured_message_has_outcome(
    message_name: &str,
    config: &TextMap<ConfigValue>,
    descriptor: &FileDescriptorProto,
    numbers: &TextMap<FloatBits>,
) -> (has: bool)
    ensures
        forall|descriptor_hash: Seq<char>|
            has == (#[trigger] configured_message(
                message_name@,
                config_entries(*config),
                *descriptor,
                descriptor_hash,
                numbers.entries@,
            ) is Some),
{
    match find_message(&descriptor.message_type, message_name) {
        None => true,
        Some(message_descriptor) => {
            proof {
                reveal_strlit("");
                assert(""@ =~= Seq::<char>::empty());
            }
            message_has_outcome(message_descriptor, config, message_name, "", numbers)
        },
    }
}

} // verus!
