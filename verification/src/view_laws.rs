//! The models of values show all of what the values hold.
use crate::descriptors::FileDescriptorProto;
use crate::error::{Error, ErrorView};
use crate::fields::optional_outcome;
use crate::files::file_map;
use crate::interaction::{
    Body, InteractionResponse, InteractionResponseView, PluginConfiguration,
};
use crate::matching::{
    defined_rules, texts_of, DefinedRule, DefinedRuleView, Definition, NamedValues,
};
use crate::message_builder::{
    FieldEntry, FieldValueView, MessageBuilder, MessageFieldValue, RType, RTypeView,
};
use crate::path::DocPath;
use crate::process::outcome_of_list;
use crate::rules::{Collected, CollectedRule, ListedRule};
use crate::services::{outcome_of_pair, MethodMessages};
use crate::text::text_less;
use crate::text_map::{lookup, TextMap};
use crate::value::{
    config_entries, items_view, struct_value_view, ConfigKind, ConfigKindView, ConfigValue,
};
use vstd::prelude::*;

verus! {

/// A map holds a value under a key exactly where a lookup finds it, and it is in order exactly
/// where each key comes before those behind it.
pub proof fn maps_are_shown<V>(map: TextMap<V>, key: Seq<char>)
    ensures
        map@.contains_key(key) <==> lookup(map.entries@, key) is Some,
        lookup(map.entries@, key) is Some ==> map@[key] == lookup(map.entries@, key)->0,
        map.ordered() <==> forall|i: int, j: int|
            0 <= i < j < map.entries@.len() ==> text_less(
                (#[trigger] map.entries@[i]).0@,
                (#[trigger] map.entries@[j]).0@,
            ),
{
}

/// The entries of a configuration are shown one by one, each with its key and its value.
pub proof fn configurations_are_shown(config: TextMap<ConfigValue>, i: int)
    ensures
        config_entries(config).len() == config.entries@.len(),
        0 <= i < config.entries@.len() ==> config_entries(config)[i] == (
            config.entries@[i].0@,
            config.entries@[i].1@,
        ),
{
}

/// A configuration value is shown with its kind and with all that it holds.
pub proof fn config_values_are_shown(value: ConfigValue, i: int)
    ensures
        match value.kind {
            None => value@.kind is None,
            Some(ConfigKind::NullValue) => value@.kind == Some(ConfigKindView::NullValue),
            Some(ConfigKind::NumberValue(text)) => value@.kind == Some(
                ConfigKindView::NumberValue(text@),
            ),
            Some(ConfigKind::StringValue(text)) => value@.kind == Some(
                ConfigKindView::StringValue(text@),
            ),
            Some(ConfigKind::BoolValue(b)) => value@.kind == Some(ConfigKindView::BoolValue(b)),
            Some(ConfigKind::StructValue(fields)) => value@.kind == Some(
                ConfigKindView::StructValue(config_entries(fields)),
            ),
            Some(ConfigKind::ListValue(items)) => value@.kind matches Some(
                ConfigKindView::ListValue(shown),
            ) && shown.len() == items@.len() && (0 <= i < items@.len() ==> shown[i] == items@[i]@),
        },
{
    match value.kind {
        Some(ConfigKind::StructValue(fields)) => struct_value_view(value, fields),
        Some(ConfigKind::ListValue(items)) => {
            assert(value@.kind == Some(ConfigKindView::ListValue(items_view(items@))));
        },
        _ => {},
    }
}

/// The value of a field is shown with all that it holds.
pub proof fn field_values_are_shown(value: MessageFieldValue)
    ensures
        value@.name == value.name@,
        value.raw_value is None <==> value@.raw_value is None,
        value.raw_value is Some ==> value@.raw_value == Some(value.raw_value->0@),
        match value.rtype {
            RType::String(text) => value@.rtype == RTypeView::String(text@),
            RType::Boolean(b) => value@.rtype == RTypeView::Boolean(b),
            RType::UInteger32(n) => value@.rtype == RTypeView::UInteger32(n),
            RType::Integer32(n) => value@.rtype == RTypeView::Integer32(n),
            RType::UInteger64(n) => value@.rtype == RTypeView::UInteger64(n),
            RType::Integer64(n) => value@.rtype == RTypeView::Integer64(n),
            RType::Float(bits) => value@.rtype == RTypeView::Float(bits),
            RType::Double(bits) => value@.rtype == RTypeView::Double(bits),
            RType::Bytes(bytes) => value@.rtype == RTypeView::Bytes(bytes@),
            RType::Message(message) => value@.rtype == RTypeView::Message(
                Box::new((*message)@),
            ),
        },
{
}

/// A message is shown with its name and with every field, and a field with every value.
pub proof fn messages_are_shown_with_their_fields(
    message: MessageBuilder,
    entry: FieldEntry,
    i: int,
)
    ensures
        message@.name == message.message_name@,
        message@.fields.len() == message.fields@.len(),
        0 <= i < message.fields@.len() ==> message@.fields[i] == message.fields@[i]@,
        entry@.name == entry.name@,
        entry@.number == entry.number,
        entry@.field_type == entry.field_type,
        entry@.repeated == entry.repeated,
        entry@.named_type == entry.named_type@,
        entry@.values.len() == entry.values@.len(),
        0 <= i < entry.values@.len() ==> entry@.values[i] == entry.values@[i]@,
{
}

/// A definition is shown with its value, with every rule and its parts, and with its generator.
pub proof fn definitions_are_shown(definition: Definition, rule: DefinedRule, i: int)
    ensures
        definition@.value == definition.value@,
        definition@.rules.len() == definition.rules@.len(),
        0 <= i < definition.rules@.len() ==> definition@.rules[i] == definition.rules@[i]@,
        definition.generator is None <==> definition@.generator is None,
        definition.generator is Some ==> definition@.generator == Some(definition.generator->0@),
        match rule {
            DefinedRule::Rule { name, parts } => rule@ matches DefinedRuleView::Rule {
                name: shown,
                parts: shown_parts,
            } && shown == name@ && shown_parts.len() == parts@.len() && (0 <= i < parts@.len()
                ==> shown_parts[i] == parts@[i]@),
            DefinedRule::Reference(name) => rule@ == DefinedRuleView::Reference(name@),
        },
{
    match rule {
        DefinedRule::Rule { name, parts } => {
            assert(rule@->Rule_parts == defined_rules(parts@));
        },
        DefinedRule::Reference(_) => {},
    }
}

/// The texts of a map are shown under their keys.
pub proof fn texts_are_shown(map: TextMap<String>, named: NamedValues, key: Seq<char>)
    ensures
        texts_of(map).contains_key(key) <==> lookup(map.entries@, key) is Some,
        lookup(map.entries@, key) is Some ==> texts_of(map)[key] == lookup(map.entries@, key)->0@,
        named@.name == named.name@,
        named@.values == texts_of(named.values),
{
}

/// What is collected is shown path by path: every rule, in its order, and every generator.
pub proof fn collections_are_shown(
    collected: Collected,
    rule: CollectedRule,
    path: Seq<char>,
    i: int,
)
    ensures
        rule@.name == rule.name@,
        rule@.definition == rule.definition@,
        rule@.index == rule.index,
        collected@.rules.contains_key(path) <==> lookup(collected.rules.entries@, path) is Some,
        lookup(collected.rules.entries@, path) matches Some(list) ==> {
            &&& collected@.rules[path].len() == list@.len()
            &&& 0 <= i < list@.len() ==> collected@.rules[path][i] == list@[i]@
        },
        collected@.generators.contains_key(path) <==> lookup(
            collected.generators.entries@,
            path,
        ) is Some,
        lookup(collected.generators.entries@, path) matches Some(generator)
            ==> collected@.generators[path] == generator@,
{
}

/// An interaction is shown with all that it holds, its rules and generators path by path.
pub proof fn interactions_are_shown(
    interaction: InteractionResponse,
    listed: ListedRule,
    path: Seq<char>,
    i: int,
)
    ensures
        listed@.name == listed.name@,
        listed.values is None <==> listed@.values is None,
        listed.values is Some ==> listed@.values == Some(texts_of(listed.values->0)),
        interaction.contents is None <==> interaction@.contents is None,
        interaction.contents is Some ==> interaction@.contents == Some(interaction.contents->0@),
        interaction@.rules.contains_key(path) <==> lookup(
            interaction.rules.entries@,
            path,
        ) is Some,
        lookup(interaction.rules.entries@, path) matches Some(list) ==> {
            &&& interaction@.rules[path].len() == list@.len()
            &&& 0 <= i < list@.len() ==> interaction@.rules[path][i] == list@[i]@
        },
        interaction@.generators.contains_key(path) <==> lookup(
            interaction.generators.entries@,
            path,
        ) is Some,
        lookup(interaction.generators.entries@, path) matches Some(generator)
            ==> interaction@.generators[path] == generator@,
        interaction.plugin_configuration is None <==> interaction@.plugin_configuration is None,
        interaction.plugin_configuration is Some ==> interaction@.plugin_configuration == Some(
            interaction.plugin_configuration->0@,
        ),
        interaction@.interaction_markup == interaction.interaction_markup@,
        interaction@.interaction_markup_type == interaction.interaction_markup_type,
        interaction@.part_name == interaction.part_name@,
{
}

/// Contents and stored configurations are shown with all that they hold.
pub proof fn parts_of_interactions_are_shown(body: Body, stored: PluginConfiguration)
    ensures
        body@.content_type == body.content_type@,
        body.content is None <==> body@.content is None,
        body.content is Some ==> body@.content == Some(body.content->0@),
        body@.content_type_hint == body.content_type_hint,
        stored.interaction_configuration is None <==> stored@.interaction_configuration is None,
        stored.interaction_configuration is Some ==> stored@.interaction_configuration == Some(
            config_entries(stored.interaction_configuration->0),
        ),
        stored.pact_configuration is None <==> stored@.pact_configuration is None,
        stored.pact_configuration is Some ==> stored@.pact_configuration == Some(
            config_entries(stored.pact_configuration->0),
        ),
{
}

/// Results are shown as what they are: values, one by one, or an error.
pub proof fn results_are_shown(
    list: Vec<InteractionResponse>,
    request: InteractionResponse,
    response: InteractionResponse,
    value: MessageFieldValue,
    error: Error,
    i: int,
)
    ensures
        outcome_of_list(Ok(list)) matches Ok(shown) && shown.len() == list@.len() && (0 <= i
            < list@.len() ==> shown[i] == list@[i]@),
        outcome_of_list(Err(error)) == Err::<Seq<InteractionResponseView>, ErrorView>(error@),
        outcome_of_pair(Ok((request, response))) == Ok::<
            (InteractionResponseView, InteractionResponseView),
            ErrorView,
        >((request@, response@)),
        outcome_of_pair(Err(error)) == Err::<
            (InteractionResponseView, InteractionResponseView),
            ErrorView,
        >(error@),
        optional_outcome(Ok(Some(value))) == Ok::<Option<FieldValueView>, ErrorView>(Some(value@)),
        optional_outcome(Ok(None)) == Ok::<Option<FieldValueView>, ErrorView>(None),
        optional_outcome(Err(error)) == Err::<Option<FieldValueView>, ErrorView>(error@),
{
}

/// A path is shown as its expression, the messages of a method as they are, and files under the
/// names that they are kept by.
pub proof fn paths_and_files_are_shown(
    path: DocPath,
    messages: MethodMessages<'_>,
    files: TextMap<&FileDescriptorProto>,
    name: Seq<char>,
)
    ensures
        path@ == path.expr@,
        messages@.request == *messages.request,
        messages@.request_name == messages.request_name@,
        messages@.response == *messages.response,
        messages@.response_name == messages.response_name@,
        file_map(files).contains_key(name) <==> lookup(files.entries@, name) is Some,
        lookup(files.entries@, name) matches Some(file) ==> file_map(files)[name] == *file,
{
}

} // verus!
