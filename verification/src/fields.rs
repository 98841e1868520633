//! The fields of a message, built from their configuration.
use crate::descriptors::{
    declared_type, find_field, first_field, DescriptorProto, FieldDescriptorProto, FieldType,
    TYPE_MESSAGE,
};
use crate::error::{outcome_of, Error, ErrorView};
use crate::matching::{
    parse_matcher_def, parsed_definition, DefinedRule, DefinedRuleView, Definition, DefinitionView,
};
use crate::message_builder::{
    boolean_value, double_value, empty_message, entry_for, float_value, integer_32_value,
    integer_64_value, made_from, uinteger_32_value, uinteger_64_value, with_field,
    with_more_values, FieldValueView, FloatBits, MessageBuilder, MessageFieldValue, MessageView,
    RType, RTypeView,
};
use crate::path::{field_step, DocPath};
use crate::rules::{
    with_generator, with_rule, Collected, CollectedRule, CollectedRuleView, CollectedView,
};
use crate::text::starts_with;
use crate::text_map::TextMap;
use crate::utils::{find_nested_type, has_repeated_label, is_repeated, nested_type_of};
use crate::value::{
    config_entries, proto_value_to_string, struct_value_view, value_text, ConfigKind,
    ConfigKindView, ConfigValue, ConfigValueView,
};
use vstd::prelude::*;
use vstd::utf8::encode_utf8;

verus! {

/// The value of a scalar field that a text stands for. Fields of the other types have none.
pub open spec fn field_value(
    name: Seq<char>,
    text: Seq<char>,
    field: FieldDescriptorProto,
    numbers: Seq<(String, FloatBits)>,
) -> Result<FieldValueView, ErrorView> {
    match declared_type(field) {
        FieldType::Double => double_value(name, text, numbers),
        FieldType::Float => float_value(name, text, numbers),
        FieldType::Int64 | FieldType::Sfixed64 | FieldType::Sint64 => integer_64_value(name, text),
        FieldType::Uint64 | FieldType::Fixed64 => uinteger_64_value(name, text),
        FieldType::Int32 | FieldType::Sfixed32 | FieldType::Sint32 => integer_32_value(name, text),
        FieldType::Uint32 | FieldType::Fixed32 => uinteger_32_value(name, text),
        FieldType::Bool => boolean_value(name, text),
        FieldType::String => Ok(made_from(name, text, RTypeView::String(text))),
        FieldType::Bytes => Ok(made_from(name, text, RTypeView::Bytes(encode_utf8(text)))),
        FieldType::Group | FieldType::Message | FieldType::Enum => Err(
            ErrorView::UnsupportedType { field: name, field_type: declared_type(field) },
        ),
    }
}

/// The value of a scalar field that a text stands for. `numbers` holds the bits of the
/// floating-point numbers that texts stand for.
pub fn value_for_type(
    field_name: &str,
    field_value: &str,
    descriptor: &FieldDescriptorProto,
    numbers: &TextMap<FloatBits>,
) -> (value: Result<MessageFieldValue, Error>)
    ensures
        outcome_of(value) == self::field_value(
            field_name@,
            field_value@,
            *descriptor,
            numbers.entries@,
        ),
{
    let field_type = descriptor.field_type();
    match field_type {
        FieldType::Double => MessageFieldValue::double(field_name, field_value, numbers),
        FieldType::Float => MessageFieldValue::float(field_name, field_value, numbers),
        FieldType::Int64 | FieldType::Sfixed64 | FieldType::Sint64 => MessageFieldValue::integer_64(
            field_name,
            field_value,
        ),
        FieldType::Uint64 | FieldType::Fixed64 => MessageFieldValue::uinteger_64(
            field_name,
            field_value,
        ),
        FieldType::Int32 | FieldType::Sfixed32 | FieldType::Sint32 => MessageFieldValue::integer_32(
            field_name,
            field_value,
        ),
        FieldType::Uint32 | FieldType::Fixed32 => MessageFieldValue::uinteger_32(
            field_name,
            field_value,
        ),
        FieldType::Bool => MessageFieldValue::boolean(field_name, field_value),
        FieldType::String => Ok(MessageFieldValue::string(field_name, field_value)),
        FieldType::Bytes => Ok(MessageFieldValue::bytes(field_name, field_value)),
        FieldType::Group | FieldType::Message | FieldType::Enum => Err(
            Error::UnsupportedType { field: field_name.to_owned(), field_type },
        ),
    }
}

/// The rules of a definition from `index` on, added for a path one by one, up to the first that is
/// a reference; and the name of that reference.
pub open spec fn added_rules(
    collected: CollectedView,
    path: Seq<char>,
    text: Seq<char>,
    rules: Seq<DefinedRuleView>,
    index: int,
) -> (CollectedView, Option<Seq<char>>)
    decreases rules.len() - index,
{
    if index < 0 || index >= rules.len() {
        (collected, None)
    } else {
        match rules[index] {
            DefinedRuleView::Rule { name, parts } => added_rules(
                with_rule(collected, path, CollectedRuleView { name, definition: text, index }),
                path,
                text,
                rules,
                index + 1,
            ),
            DefinedRuleView::Reference(name) => (collected, Some(name)),
        }
    }
}

/// The value of a scalar field that a definition gives, and what is collected of its rules and its
/// generator for the path of the field. No rule may be a reference.
pub open spec fn defined_field_value(
    path: Seq<char>,
    field: FieldDescriptorProto,
    key: Seq<char>,
    text: Seq<char>,
    definition: DefinitionView,
    collected: CollectedView,
    numbers: Seq<(String, FloatBits)>,
) -> (CollectedView, Result<FieldValueView, ErrorView>) {
    let (with_rules, reference) = added_rules(collected, path, text, definition.rules, 0);
    match reference {
        Some(reference) => (
            with_rules,
            Err(ErrorView::UnexpectedReference { path, reference }),
        ),
        None => (
            match definition.generator {
                Some(generator) => with_generator(with_rules, path, generator),
                None => with_rules,
            },
            field_value(key, definition.value, field, numbers),
        ),
    }
}

/// The value of a scalar field from its configuration, and what is collected for its path. A null
/// stands for no value; any other text is a matching rule definition.
pub open spec fn built_field_value(
    path: Seq<char>,
    field: FieldDescriptorProto,
    key: Seq<char>,
    value: ConfigValueView,
    collected: CollectedView,
    numbers: Seq<(String, FloatBits)>,
) -> (CollectedView, Result<Option<FieldValueView>, ErrorView>) {
    match value_text(value) {
        None => (
            collected,
            match value.kind {
                Some(_) => Ok(None),
                None => Err(ErrorView::UnknownValue { field: key }),
            },
        ),
        Some(text) => match parsed_definition(text) {
            Err(report) => (collected, Err(ErrorView::InvalidDefinition { report })),
            Ok(definition) => {
                let (after, built) = defined_field_value(
                    path + field_step(key),
                    field,
                    key,
                    text,
                    definition,
                    collected,
                    numbers,
                );
                (
                    after,
                    match built {
                        Ok(field_value) => Ok(Some(field_value)),
                        Err(error) => Err(error),
                    },
                )
            },
        },
    }
}

/// The value of a scalar field that a definition gives. `text` is the text of the definition; its
/// rules and its generator are collected for `path`, the path of the field.
pub fn use_definition(
    path: &DocPath,
    descriptor: &FieldDescriptorProto,
    key: &str,
    text: &str,
    definition: Definition,
    collected: &mut Collected,
    numbers: &TextMap<FloatBits>,
) -> (value: Result<MessageFieldValue, Error>)
    requires
        old(collected).well_formed(),
    ensures
        final(collected).well_formed(),
        (final(collected)@, outcome_of(value)) == defined_field_value(
            path@,
            *descriptor,
            key@,
            text@,
            definition@,
            old(collected)@,
            numbers.entries@,
        ),
{
    let ghost start = collected@;
    let ghost rules = definition@.rules;
    let mut i: usize = 0;
    while i < definition.rules.len()
        invariant
            i <= definition.rules@.len(),
            collected.well_formed(),
            rules == definition@.rules,
            added_rules(start, path@, text@, rules, 0) == added_rules(
                collected@,
                path@,
                text@,
                rules,
                i as int,
            ),
            start == old(collected)@,
        decreases definition.rules.len() - i,
    {
        assert(rules[i as int] == definition.rules@[i as int]@);
        match &definition.rules[i] {
            DefinedRule::Rule { name, parts: _ } => {
                let rule = CollectedRule {
                    name: name.clone(),
                    definition: text.to_owned(),
                    index: i,
                };
                collected.add_rule(path.expr.as_str(), rule);
            },
            DefinedRule::Reference(name) => {
                return Err(
                    Error::UnexpectedReference {
                        path: path.expr.clone(),
                        reference: name.clone(),
                    },
                );
            },
        }
        i += 1;
    }
    let Definition { value, rules: _, generator } = definition;
    match generator {
        Some(generator) => {
            collected.add_generator(path.expr.as_str(), generator);
        },
        None => {},
    }
    value_for_type(key, value.as_str(), descriptor, numbers)
}

/// The model of a value that may be missing, or an error.
pub open spec fn optional_outcome(built: Result<Option<MessageFieldValue>, Error>) -> Result<
    Option<FieldValueView>,
    ErrorView,
> {
    match built {
        Ok(Some(value)) => Ok(Some(value@)),
        Ok(None) => Ok(None),
        Err(error) => Err(error@),
    }
}

/// The value of a scalar field from its configuration, or none where the configuration is null.
/// Rules and a generator are collected for the path of the field.
pub fn build_field_value(
    path: &DocPath,
    descriptor: &FieldDescriptorProto,
    key: &str,
    value: &ConfigValue,
    collected: &mut Collected,
    numbers: &TextMap<FloatBits>,
) -> (built: Result<Option<MessageFieldValue>, Error>)
    requires
        old(collected).well_formed(),
    ensures
        final(collected).well_formed(),
        (final(collected)@, optional_outcome(built)) == built_field_value(
            path@,
            *descriptor,
            key@,
            value@,
            old(collected)@,
            numbers.entries@,
        ),
{
    match proto_value_to_string(value) {
        None => {
            match &value.kind {
                Some(_) => Ok(None),
                None => Err(Error::UnknownValue { field: key.to_owned() }),
            }
        },
        Some(text) => {
            match parse_matcher_def(text.as_str()) {
                Err(report) => Err(Error::InvalidDefinition { report }),
                Ok(definition) => {
                    let field_path = path.field(key);
                    match use_definition(
                        &field_path,
                        descriptor,
                        key,
                        text.as_str(),
                        definition,
                        collected,
                        numbers,
                    ) {
                        Ok(field_value) => Ok(Some(field_value)),
                        Err(error) => Err(error),
                    }
                },
            }
        },
    }
}

/// What is built of a message so far: its fields, and the rules and generators of the fields.
#[verifier::ext_equal]
pub struct BuildView {
    pub message: MessageView,
    pub collected: CollectedView,
}

/// Whether a setting is one of the plugin itself, and not a field of the message.
pub open spec fn is_plugin_key(key: Seq<char>) -> bool {
    "pact:"@.is_prefix_of(key)
}

/// The name of a message type, or a word in its place.
pub open spec fn message_type_name(message: DescriptorProto) -> Seq<char> {
    match message.name {
        Some(name) => name@,
        None => "Unknown"@,
    }
}

/// The build with one more field, from its configuration; or as far as it came, and why it came no
/// further. `path` is the path of the message, `message_name` the name that errors give it.
pub open spec fn constructed_field(
    message: DescriptorProto,
    message_name: Seq<char>,
    path: Seq<char>,
    key: Seq<char>,
    value: ConfigValueView,
    build: BuildView,
    numbers: Seq<(String, FloatBits)>,
) -> (BuildView, Result<(), ErrorView>)
    decreases value, 1int,
{
    if is_plugin_key(key) {
        (build, Ok(()))
    } else {
        match first_field(message.field@, key) {
            None => (build, Err(ErrorView::NoSuchField { message: message_name, field: key })),
            Some(field) => match field.type_number {
                None => (build, Err(ErrorView::UntypedField { message: message_name, field: key })),
                Some(number) => if number == TYPE_MESSAGE {
                    let (collected, built) = built_message_value(
                        message,
                        path,
                        field,
                        key,
                        value,
                        build.collected,
                        numbers,
                    );
                    match built {
                        Err(error) => (BuildView { collected, ..build }, Err(error)),
                        Ok(field_value) => (
                            BuildView {
                                message: if has_repeated_label(field) {
                                    with_more_values(
                                        build.message,
                                        entry_for(field, key, field_value),
                                    )
                                } else {
                                    with_field(build.message, entry_for(field, key, field_value))
                                },
                                collected,
                            },
                            Ok(()),
                        ),
                    }
                } else {
                    let (collected, built) = built_field_value(
                        path,
                        field,
                        key,
                        value,
                        build.collected,
                        numbers,
                    );
                    match built {
                        Err(error) => (BuildView { collected, ..build }, Err(error)),
                        Ok(None) => (BuildView { collected, ..build }, Ok(())),
                        Ok(Some(field_value)) => (
                            BuildView {
                                message: with_field(
                                    build.message,
                                    entry_for(field, key, field_value),
                                ),
                                collected,
                            },
                            Ok(()),
                        ),
                    }
                },
            },
        }
    }
}

/// The value of a field that holds a message, from its configuration, and what is collected for the
/// fields inside of it. The configuration is a map; the type of the message is declared inside of
/// the message that has the field. A repeated field gets a message without fields.
pub open spec fn built_message_value(
    message: DescriptorProto,
    path: Seq<char>,
    field: FieldDescriptorProto,
    key: Seq<char>,
    value: ConfigValueView,
    collected: CollectedView,
    numbers: Seq<(String, FloatBits)>,
) -> (CollectedView, Result<FieldValueView, ErrorView>)
    decreases value, 0int,
{
    match value.kind {
        None => (collected, Err(ErrorView::UnknownValue { field: key })),
        Some(ConfigKindView::StructValue(entries)) => match nested_type_of(message, field) {
            None => (collected, Err(ErrorView::NoNestedType { field: key })),
            Some(nested) => {
                let name = message_type_name(nested);
                let start = BuildView { message: empty_message(name), collected };
                let (build, outcome) = if has_repeated_label(field) {
                    (start, Ok(()))
                } else {
                    nested_fields(nested, name, path, entries, start, numbers)
                };
                (
                    build.collected,
                    match outcome {
                        Err(error) => Err(error),
                        Ok(_) => Ok(
                            FieldValueView {
                                name: key,
                                raw_value: None,
                                rtype: RTypeView::Message(Box::new(build.message)),
                            },
                        ),
                    },
                )
            },
        },
        Some(_) => (collected, Err(ErrorView::NotAMap { field: key })),
    }
}

/// The build with the fields of a message inside of a message, one by one. Each is built with a
/// path of its own, one step down from `path`.
pub open spec fn nested_fields(
    message: DescriptorProto,
    message_name: Seq<char>,
    path: Seq<char>,
    entries: Seq<(Seq<char>, ConfigValueView)>,
    build: BuildView,
    numbers: Seq<(String, FloatBits)>,
) -> (BuildView, Result<(), ErrorView>)
    decreases entries, 2int,
{
    if entries.len() == 0 {
        (build, Ok(()))
    } else {
        let (key, value) = entries[0];
        let (after, outcome) = constructed_field(
            message,
            message_name,
            path + field_step(key),
            key,
            value,
            build,
            numbers,
        );
        match outcome {
            Err(error) => (after, Err(error)),
            Ok(_) => nested_fields(
                message,
                message_name,
                path,
                entries.drop_first(),
                after,
                numbers,
            ),
        }
    }
}

/// Adds a field to a message, from its configuration. Settings of the plugin itself are passed
/// over.
pub fn construct_message_field(
    message_descriptor: &DescriptorProto,
    message_name: &str,
    message_builder: &mut MessageBuilder,
    collected: &mut Collected,
    key: &str,
    value: &ConfigValue,
    path: &DocPath,
    numbers: &TextMap<FloatBits>,
) -> (outcome: Result<(), Error>)
    requires
        old(collected).well_formed(),
    ensures
        final(collected).well_formed(),
        ((BuildView { message: final(message_builder)@, collected: final(collected)@ }), outcome_of(
            outcome,
        )) == constructed_field(
            *message_descriptor,
            message_name@,
            path@,
            key@,
            value@,
            (BuildView { message: old(message_builder)@, collected: old(collected)@ }),
            numbers.entries@,
        ),
    decreases value, 1int,
{
    if starts_with(key, "pact:") {
        return Ok(());
    }
    match find_field(&message_descriptor.field, key) {
        None => Err(
            Error::NoSuchField { message: message_name.to_owned(), field: key.to_owned() },
        ),
        Some(field) => match field.type_number {
            None => Err(
                Error::UntypedField { message: message_name.to_owned(), field: key.to_owned() },
            ),
            Some(number) => if number == TYPE_MESSAGE {
                match build_message_field_value(
                    message_descriptor,
                    path,
                    field,
                    key,
                    value,
                    collected,
                    numbers,
                ) {
                    Err(error) => Err(error),
                    Ok(message_value) => {
                        if is_repeated(field) {
                            message_builder.add_repeated_field_value(field, key, message_value);
                        } else {
                            message_builder.set_field(field, key, message_value);
                        }
                        Ok(())
                    },
                }
            } else {
                match build_field_value(path, field, key, value, collected, numbers) {
                    Err(error) => Err(error),
                    Ok(None) => Ok(()),
                    Ok(Some(field_value)) => {
                        message_builder.set_field(field, key, field_value);
                        Ok(())
                    },
                }
            },
        },
    }
}

/// The value of a field that holds a message, from its configuration. Rules and generators are
/// collected for the fields inside of it.
pub fn build_message_field_value(
    message_descriptor: &DescriptorProto,
    path: &DocPath,
    descriptor: &FieldDescriptorProto,
    field: &str,
    value: &ConfigValue,
    collected: &mut Collected,
    numbers: &TextMap<FloatBits>,
) -> (built: Result<MessageFieldValue, Error>)
    requires
        old(collected).well_formed(),
    ensures
        final(collected).well_formed(),
        (final(collected)@, outcome_of(built)) == built_message_value(
            *message_descriptor,
            path@,
            *descriptor,
            field@,
            value@,
            old(collected)@,
            numbers.entries@,
        ),
    decreases value, 0int,
{
    let fields = match &value.kind {
        None => {
            return Err(Error::UnknownValue { field: field.to_owned() });
        },
        Some(kind) => match kind {
            ConfigKind::StructValue(fields) => fields,
            _ => {
                return Err(Error::NotAMap { field: field.to_owned() });
            },
        },
    };
    let nested_type = match find_nested_type(message_descriptor, descriptor) {
        None => {
            return Err(Error::NoNestedType { field: field.to_owned() });
        },
        Some(nested_type) => nested_type,
    };
    let message_name = match &nested_type.name {
        Some(name) => name.clone(),
        None => "Unknown".to_owned(),
    };
    let mut builder = MessageBuilder::new(message_name.as_str());
    let ghost entries = config_entries(*fields);
    let ghost start = BuildView { message: builder@, collected: collected@ };
    proof {
        struct_value_view(*value, *fields);
    }
    if !is_repeated(descriptor) {
        let mut i: usize = 0;
        assert(entries.skip(0) =~= entries);
        while i < fields.entries.len()
            invariant
                i <= fields.entries@.len(),
                entries == config_entries(*fields),
                value.kind == Some(ConfigKind::StructValue(*fields)),
                collected.well_formed(),
                nested_fields(
                    *nested_type,
                    message_name@,
                    path@,
                    entries,
                    start,
                    numbers.entries@,
                ) == nested_fields(
                    *nested_type,
                    message_name@,
                    path@,
                    entries.skip(i as int),
                    (BuildView { message: builder@, collected: collected@ }),
                    numbers.entries@,
                ),
                nested_type_of(*message_descriptor, *descriptor) == Some(*nested_type),
                message_name@ == message_type_name(*nested_type),
                !has_repeated_label(*descriptor),
                value@.kind == Some(ConfigKindView::StructValue(entries)),
                start == (BuildView {
                    message: empty_message(message_name@),
                    collected: old(collected)@,
                }),
            decreases fields.entries.len() - i,
        {
            let (k, v) = &fields.entries[i];
            let ghost rest = entries.skip(i as int);
            proof {
                assert(rest[0] == (k@, v@));
                assert(rest.drop_first() =~= entries.skip(i + 1));
                assert(decreases_to!(*value => fields.entries@[i as int].1));
            }
            let field_path = path.field(k.as_str());
            match construct_message_field(
                nested_type,
                message_name.as_str(),
                &mut builder,
                collected,
                k.as_str(),
                v,
                &field_path,
                numbers,
            ) {
                Ok(_) => {},
                Err(error) => {
                    return Err(error);
                },
            }
            i += 1;
        }
        assert(entries.skip(i as int) =~= Seq::empty());
    }
    Ok(
        MessageFieldValue {
            name: field.to_owned(),
            raw_value: None,
            rtype: RType::Message(Box::new(builder)),
        },
    )
}

} // verus!
