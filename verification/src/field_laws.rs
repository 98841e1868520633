//! What becomes of one field of a message: the value that it is set to, and the rules and the
//! generator that are collected for it.
use crate::build_laws::{
    all_rules_are_collected, are_orderly, constructed_field_is_orderly, is_orderly,
    is_orderly_value, rules_from,
};
use crate::collect_laws::{nested_fields_are_a_step_down, nothing_built, rules_of};
use crate::descriptors::{declared_type, first_field, DescriptorProto, FieldDescriptorProto};
use crate::error::ErrorView;
use crate::fields::{
    added_rules, built_field_value, built_message_value, constructed_field, defined_field_value,
    field_value, message_type_name, nested_fields, BuildView,
};
use crate::lookup_laws::given_name;
use crate::matching::{
    parsed_definition, DefinedRuleView, DefinitionView, NamedValuesView,
};
use crate::message_builder::{
    empty_message, entry_for, field_index, field_index_is_first, found_field,
    more_values_are_found, order_of, place_for, place_for_parts, set_field_is_found, with_field,
    with_field_keeps_order, FieldEntryView, FieldValueView, FloatBits, MessageView, RTypeView,
};
use crate::path::field_step;
use crate::protobuf::constructed_fields;
use crate::rules::{
    nothing_collected, rules_at, with_generator, with_rule, CollectedRuleView, CollectedView,
};
use crate::utils::nested_type_of;
use crate::value::{value_text, ConfigKindView, ConfigValueView};
use vstd::prelude::*;

verus! {

/// One more rule for a path stands behind those that are there; the rules of other paths, and all
/// generators, stay as they are.
pub proof fn a_rule_is_added(
    collected: CollectedView,
    path: Seq<char>,
    rule: CollectedRuleView,
    other: Seq<char>,
)
    ensures
        ({
            let after = with_rule(collected, path, rule);
            &&& after.rules.contains_key(path)
            &&& after.rules[path] == rules_of(collected, path).push(rule)
            &&& other != path ==> after.rules.contains_key(other) == collected.rules.contains_key(
                other,
            ) && rules_of(after, other) == rules_of(collected, other)
            &&& after.generators == collected.generators
        }),
{
}

/// The generator of a path takes the place of any that is there; other generators, and all rules,
/// stay as they are.
pub proof fn a_generator_is_added(
    collected: CollectedView,
    path: Seq<char>,
    generator: NamedValuesView,
    other: Seq<char>,
)
    ensures
        ({
            let after = with_generator(collected, path, generator);
            &&& after.generators.contains_key(path)
            &&& after.generators[path] == generator
            &&& other != path ==> after.generators.contains_key(other)
                == collected.generators.contains_key(other) && after.generators[other]
                == collected.generators[other]
            &&& after.rules == collected.rules
        }),
{
}

/// Whether some rules are those of a definition up to one of them, by their names and their places.
pub open spec fn are_the_rules(
    collected: Seq<CollectedRuleView>,
    text: Seq<char>,
    rules: Seq<DefinedRuleView>,
    count: int,
) -> bool {
    collected.len() == count && forall|i: int|
        0 <= i < count ==> {
            &&& rules[i] is Rule
            &&& (#[trigger] collected[i]).name == rules[i]->Rule_name
            &&& collected[i].definition == text
            &&& collected[i].index == i
        }
}

/// Where no rule of a definition is a reference, all of its rules are collected for the path, and
/// for no other; its generator is collected for the path; and the value is what its text gives.
pub proof fn definitions_are_used(
    path: Seq<char>,
    field: FieldDescriptorProto,
    key: Seq<char>,
    text: Seq<char>,
    definition: DefinitionView,
    numbers: Seq<(String, FloatBits)>,
    at: Seq<char>,
)
    requires
        forall|i: int| 0 <= i < definition.rules.len() ==> (#[trigger] definition.rules[i]) is Rule,
    ensures
        ({
            let (after, built) = defined_field_value(
                path,
                field,
                key,
                text,
                definition,
                nothing_collected(),
                numbers,
            );
            &&& built == field_value(key, definition.value, field, numbers)
            &&& after.rules.contains_key(at) <==> at == path && definition.rules.len() > 0
            &&& are_the_rules(
                rules_of(after, path),
                text,
                definition.rules,
                definition.rules.len() as int,
            )
            &&& after.generators.contains_key(at) <==> at == path && definition.generator is Some
            &&& definition.generator is Some ==> after.generators[path] == definition.generator->0
        }),
{
    let none = nothing_collected();
    all_rules_are_collected(none, path, text, definition.rules, 0);
    let with_rules = added_rules(none, path, text, definition.rules, 0).0;
    only_the_path_gets_rules(none, path, text, definition.rules, 0, at);
    let list = rules_from(text, definition.rules, 0);
    assert(rules_at(none, path) + list =~= list);
    assert(rules_at(with_rules, path) == list);
    assert(rules_of(with_rules, path) == list);
    assert forall|i: int| 0 <= i < list.len() implies {
        &&& definition.rules[i] is Rule
        &&& (#[trigger] list[i]).name == definition.rules[i]->Rule_name
        &&& list[i].definition == text
        &&& list[i].index == i
    } by {
        assert(definition.rules[i] is Rule);
    }
    match definition.generator {
        Some(generator) => {
            let after = with_generator(with_rules, path, generator);
            assert(rules_of(after, path) == list);
        },
        None => {},
    }
}

proof fn only_the_path_gets_rules(
    collected: CollectedView,
    path: Seq<char>,
    text: Seq<char>,
    rules: Seq<DefinedRuleView>,
    index: int,
    at: Seq<char>,
)
    requires
        0 <= index <= rules.len(),
        forall|i: int| 0 <= i < rules.len() ==> (#[trigger] rules[i]) is Rule,
    ensures
        added_rules(collected, path, text, rules, index).0.rules.contains_key(at)
            <==> collected.rules.contains_key(at) || (at == path && index < rules.len()),
    decreases rules.len() - index,
{
    if index < rules.len() {
        assert(rules[index] is Rule);
        let rule = CollectedRuleView { name: rules[index]->Rule_name, definition: text, index };
        only_the_path_gets_rules(
            with_rule(collected, path, rule),
            path,
            text,
            rules,
            index + 1,
            at,
        );
    }
}

/// Where a rule of a definition is a reference, the first one is an error that names the path and
/// the reference; the rules before it are collected, and no generator is.
pub proof fn references_are_refused(
    path: Seq<char>,
    field: FieldDescriptorProto,
    key: Seq<char>,
    text: Seq<char>,
    definition: DefinitionView,
    numbers: Seq<(String, FloatBits)>,
    first: int,
)
    requires
        0 <= first < definition.rules.len(),
        definition.rules[first] is Reference,
        forall|i: int| 0 <= i < first ==> (#[trigger] definition.rules[i]) is Rule,
    ensures
        ({
            let (after, built) = defined_field_value(
                path,
                field,
                key,
                text,
                definition,
                nothing_collected(),
                numbers,
            );
            &&& built == Err::<FieldValueView, ErrorView>(
                ErrorView::UnexpectedReference {
                    path,
                    reference: definition.rules[first]->Reference_0,
                },
            )
            &&& are_the_rules(rules_of(after, path), text, definition.rules, first)
            &&& after.generators == Map::<
                Seq<char>,
                NamedValuesView,
            >::empty()
        }),
{
    rules_before_a_reference(nothing_collected(), path, text, definition.rules, 0, first);
}

proof fn rules_before_a_reference(
    collected: CollectedView,
    path: Seq<char>,
    text: Seq<char>,
    rules: Seq<DefinedRuleView>,
    index: int,
    first: int,
)
    requires
        0 <= index <= first < rules.len(),
        rules[first] is Reference,
        forall|i: int| 0 <= i < first ==> (#[trigger] rules[i]) is Rule,
        are_the_rules(rules_of(collected, path), text, rules, index),
    ensures
        ({
            let (after, reference) = added_rules(collected, path, text, rules, index);
            &&& reference == Some(rules[first]->Reference_0)
            &&& are_the_rules(rules_of(after, path), text, rules, first)
            &&& after.generators == collected.generators
        }),
    decreases first - index,
{
    if index < first {
        assert(rules[index] is Rule);
        let rule = CollectedRuleView { name: rules[index]->Rule_name, definition: text, index };
        rules_before_a_reference(
            with_rule(collected, path, rule),
            path,
            text,
            rules,
            index + 1,
            first,
        );
    }
}

/// A scalar field is built from the definition that the text of its value is, a step down from the
/// path of its message. A null builds nothing; a value without a kind, and a text that is no
/// definition, are errors. In these cases nothing is collected.
pub proof fn scalars_are_built_from_their_definitions(
    path: Seq<char>,
    field: FieldDescriptorProto,
    key: Seq<char>,
    value: ConfigValueView,
    numbers: Seq<(String, FloatBits)>,
)
    ensures
        ({
            let (after, built) = built_field_value(
                path,
                field,
                key,
                value,
                nothing_collected(),
                numbers,
            );
            &&& value.kind is None ==> after == nothing_collected() && built == Err::<
                Option<FieldValueView>,
                ErrorView,
            >(ErrorView::UnknownValue { field: key })
            &&& value.kind == Some(ConfigKindView::NullValue) ==> after == nothing_collected()
                && built == Ok::<Option<FieldValueView>, ErrorView>(None)
            &&& value_text(value) matches Some(text) ==> match parsed_definition(text) {
                Err(report) => after == nothing_collected() && built == Err::<
                    Option<FieldValueView>,
                    ErrorView,
                >(ErrorView::InvalidDefinition { report }),
                Ok(definition) => {
                    let (collected, given) = defined_field_value(
                        path + field_step(key),
                        field,
                        key,
                        text,
                        definition,
                        nothing_collected(),
                        numbers,
                    );
                    &&& after == collected
                    &&& given matches Ok(v) ==> built == Ok::<Option<FieldValueView>, ErrorView>(
                        Some(v),
                    )
                    &&& given matches Err(e) ==> built == Err::<Option<FieldValueView>, ErrorView>(
                        e,
                    )
                },
            }
        }),
{
}

/// A scalar field of a message inside of a message, with a definition without references, has all
/// its rules and its generator at one path: two steps with its name down from the path of the map.
pub proof fn nested_scalars_have_their_own_path(
    message: DescriptorProto,
    message_name: Seq<char>,
    path: Seq<char>,
    key: Seq<char>,
    value: ConfigValueView,
    text: Seq<char>,
    definition: DefinitionView,
    numbers: Seq<(String, FloatBits)>,
    at: Seq<char>,
)
    requires
        !"pact:"@.is_prefix_of(key),
        first_field(message.field@, key) matches Some(field) && field.type_number is Some
            && field.type_number != Some(11i32),
        value_text(value) == Some(text),
        parsed_definition(text) == Ok::<DefinitionView, Seq<char>>(definition),
        forall|i: int| 0 <= i < definition.rules.len() ==> (#[trigger] definition.rules[i]) is Rule,
    ensures
        ({
            let own = path + field_step(key) + field_step(key);
            let after = nested_fields(
                message,
                message_name,
                path,
                seq![(key, value)],
                nothing_built(message_name),
                numbers,
            ).0.collected;
            &&& after.rules.contains_key(at) <==> at == own && definition.rules.len() > 0
            &&& are_the_rules(
                rules_of(after, own),
                text,
                definition.rules,
                definition.rules.len() as int,
            )
            &&& after.generators.contains_key(at) <==> at == own && definition.generator is Some
            &&& definition.generator is Some ==> after.generators[own] == definition.generator->0
        }),
{
    let field = first_field(message.field@, key)->0;
    nested_fields_are_a_step_down(
        message,
        message_name,
        path,
        key,
        value,
        nothing_built(message_name),
        numbers,
    );
    definitions_are_used(
        path + field_step(key) + field_step(key),
        field,
        key,
        text,
        definition,
        numbers,
        at,
    );
}

/// A scalar field of a message, with a definition without references, has all its rules and its
/// generator at one path: a step with its name down from the path of the message.
pub proof fn scalars_have_their_own_path(
    message: DescriptorProto,
    message_name: Seq<char>,
    path: Seq<char>,
    key: Seq<char>,
    value: ConfigValueView,
    text: Seq<char>,
    definition: DefinitionView,
    numbers: Seq<(String, FloatBits)>,
    at: Seq<char>,
)
    requires
        !"pact:"@.is_prefix_of(key),
        first_field(message.field@, key) matches Some(field) && field.type_number is Some
            && field.type_number != Some(11i32),
        value_text(value) == Some(text),
        parsed_definition(text) == Ok::<DefinitionView, Seq<char>>(definition),
        forall|i: int| 0 <= i < definition.rules.len() ==> (#[trigger] definition.rules[i]) is Rule,
    ensures
        ({
            let own = path + field_step(key);
            let after = constructed_field(
                message,
                message_name,
                path,
                key,
                value,
                nothing_built(message_name),
                numbers,
            ).0.collected;
            &&& after.rules.contains_key(at) <==> at == own && definition.rules.len() > 0
            &&& are_the_rules(
                rules_of(after, own),
                text,
                definition.rules,
                definition.rules.len() as int,
            )
            &&& after.generators.contains_key(at) <==> at == own && definition.generator is Some
            &&& definition.generator is Some ==> after.generators[own] == definition.generator->0
        }),
{
    let field = first_field(message.field@, key)->0;
    definitions_are_used(path + field_step(key), field, key, text, definition, numbers, at);
}

/// The field of a message that a descriptor and a name give, with one value.
pub open spec fn entry_of(
    field: FieldDescriptorProto,
    key: Seq<char>,
    value: FieldValueView,
) -> FieldEntryView {
    FieldEntryView {
        name: key,
        number: field.number,
        field_type: declared_type(field),
        repeated: field.label == Some(3i32),
        named_type: given_name(field.named_type),
        values: seq![value],
    }
}

/// A field of the message is set to what its configuration gives, under its name and with what its
/// descriptor says of it, and no other field is changed. Settings of the plugin, nulls and errors
/// change no field at all.
pub proof fn fields_are_set(
    message: DescriptorProto,
    message_name: Seq<char>,
    path: Seq<char>,
    key: Seq<char>,
    value: ConfigValueView,
    build: BuildView,
    numbers: Seq<(String, FloatBits)>,
    name: Seq<char>,
)
    requires
        is_orderly(build.message),
    ensures
        ({
            let (after, outcome) = constructed_field(
                message,
                message_name,
                path,
                key,
                value,
                build,
                numbers,
            );
            let before = found_field(build.message, name);
            let found = found_field(after.message, name);
            let field = first_field(message.field@, key)->0;
            let scalar = built_field_value(path, field, key, value, build.collected, numbers).1;
            let nested = built_message_value(
                message,
                path,
                field,
                key,
                value,
                build.collected,
                numbers,
            ).1;
            &&& is_orderly(after.message)
            &&& after.message.name == build.message.name
            &&& name != key ==> found == before
            &&& "pact:"@.is_prefix_of(key) ==> after == build && outcome is Ok
            &&& outcome is Err ==> after.message == build.message
            &&& outcome is Ok && !"pact:"@.is_prefix_of(key) ==> {
                &&& first_field(message.field@, key) is Some
                &&& field.type_number is Some
                &&& field.type_number != Some(11i32) ==> match scalar->Ok_0 {
                    Some(given) => found_field(after.message, key) == Some(
                        entry_of(field, key, given),
                    ),
                    None => after.message == build.message,
                }
                &&& field.type_number == Some(11i32) && field.label != Some(3i32) ==> found_field(
                    after.message,
                    key,
                ) == Some(entry_of(field, key, nested->Ok_0))
                &&& field.type_number == Some(11i32) && field.label == Some(3i32) ==> found_field(
                    after.message,
                    key,
                ) == (match found_field(build.message, key) {
                    Some(had) => Some(
                        FieldEntryView { values: had.values.push(nested->Ok_0), ..had },
                    ),
                    None => Some(entry_of(field, key, nested->Ok_0)),
                })
            }
        }),
{
    constructed_field_is_orderly(message, message_name, path, key, value, build, numbers);
    match first_field(message.field@, key) {
        Some(field) => {
            let scalar = built_field_value(path, field, key, value, build.collected, numbers).1;
            let nested = built_message_value(
                message,
                path,
                field,
                key,
                value,
                build.collected,
                numbers,
            ).1;
            if scalar is Ok && scalar->Ok_0 is Some {
                let given = scalar->Ok_0->0;
                assert(entry_of(field, key, given) == entry_for(field, key, given));
                set_field_is_found(build.message, entry_for(field, key, given), name);
                set_field_is_found(build.message, entry_for(field, key, given), key);
            }
            if nested is Ok {
                let given = nested->Ok_0;
                let entry = entry_for(field, key, given);
                assert(entry_of(field, key, given) == entry);
                set_field_is_found(build.message, entry, name);
                set_field_is_found(build.message, entry, key);
                more_values_are_found(build.message, entry, name);
                more_values_are_found(build.message, entry, key);
                match found_field(build.message, key) {
                    Some(had) => {
                        assert(had.values + seq![given] =~= had.values.push(given));
                    },
                    None => {},
                }
            }
        },
        None => {},
    }
}

/// Whether fields stand in the order of their numbers.
pub open spec fn ascend(fields: Seq<FieldEntryView>) -> bool {
    forall|i: int, j: int|
        0 <= i < j < fields.len() && (#[trigger] fields[i]).number is Some && (
        #[trigger] fields[j]).number is Some ==> fields[i].number->0 <= fields[j].number->0
}

/// In an orderly message the numbers of the fields ascend, and each name is found at one place
/// alone; and so in the messages inside of it.
pub proof fn orderly_fields_ascend(message: MessageView, i: int, j: int)
    requires
        is_orderly(message),
    ensures
        ascend(message.fields),
        0 <= i < message.fields.len() && 0 <= j < message.fields.len() && i != j
            ==> message.fields[i].name != message.fields[j].name,
        0 <= i < message.fields.len() && 0 <= j < message.fields[i].values.len() ==> (
        message.fields[i].values[j].rtype matches RTypeView::Message(inner) ==> is_orderly(*inner)),
{
    if 0 <= i < message.fields.len() && 0 <= j < message.fields[i].values.len() {
        assert(are_orderly(message.fields[i].values));
        assert(is_orderly_value(message.fields[i].values[j].rtype));
    }
}

/// A field that is set stands behind all fields whose numbers are not larger, and before all whose
/// numbers are. Its place is returned.
pub proof fn fields_stand_behind_their_equals(message: MessageView, entry: FieldEntryView) -> (place:
    int)
    requires
        is_orderly(message),
        entry.number is Some,
        forall|i: int|
            0 <= i < message.fields.len() ==> (#[trigger] message.fields[i]).number is Some,
    ensures
        ({
            let after = with_field(message, entry).fields;
            &&& 0 <= place < after.len()
            &&& after[place] == entry
            &&& forall|j: int|
                0 <= j < after.len() ==> (#[trigger] after[j]).number is Some && (j < place
                    ==> after[j].number->0 <= entry.number->0) && (j > place ==> after[j].number->0
                    > entry.number->0)
        }),
{
    field_index_is_first(message.fields, entry.name);
    let others = match field_index(message.fields, entry.name) {
        Some(i) => message.fields.remove(i),
        None => message.fields,
    };
    let place = place_for(others, order_of(entry));
    place_for_parts(others, order_of(entry));
    let after = with_field(message, entry).fields;
    with_field_keeps_order(message, entry);
    assert forall|k: int| 0 <= k < others.len() implies (#[trigger] others[k]).number is Some by {
        let at = match field_index(message.fields, entry.name) {
            Some(i) => if k < i {
                k
            } else {
                k + 1
            },
            None => k,
        };
        assert(others[k] == message.fields[at]);
    }
    assert forall|j: int| 0 <= j < after.len() implies (#[trigger] after[j]).number is Some && (j
        < place ==> after[j].number->0 <= entry.number->0) && (j > place ==> after[j].number->0
        > entry.number->0) by {
        if j < place {
            assert(after[j] == others[j]);
        } else if j > place {
            assert(after[j] == others[j - 1]);
            assert(after[place + 1] == others[place]);
            assert(order_of(after[place + 1]) > order_of(entry));
            if j > place + 1 {
                assert(order_of(after[place + 1]) <= order_of(after[j]));
            }
        }
    }
    place
}

/// A field is found under its name exactly where one of the name is there, and it is the first of
/// them.
pub proof fn fields_are_found_by_their_names(message: MessageView, name: Seq<char>)
    ensures
        found_field(message, name) is Some <==> exists|i: int|
            0 <= i < message.fields.len() && (#[trigger] message.fields[i]).name == name,
        found_field(message, name) matches Some(entry) ==> entry.name == name && exists|i: int|
            0 <= i < message.fields.len() && (#[trigger] message.fields[i]) == entry,
{
    field_index_is_first(message.fields, name);
    match field_index(message.fields, name) {
        Some(i) => {
            assert(message.fields[i].name == name);
        },
        None => {},
    }
}

/// A field stays as it is while other fields are built.
pub proof fn fields_stay_as_they_are(
    message: DescriptorProto,
    message_name: Seq<char>,
    path: Seq<char>,
    entries: Seq<(Seq<char>, ConfigValueView)>,
    build: BuildView,
    numbers: Seq<(String, FloatBits)>,
    name: Seq<char>,
)
    requires
        is_orderly(build.message),
        forall|i: int| 0 <= i < entries.len() ==> (#[trigger] entries[i]).0 != name,
    ensures
        found_field(
            constructed_fields(message, message_name, path, entries, build, numbers).0.message,
            name,
        ) == found_field(build.message, name),
    decreases entries.len(),
{
    if entries.len() > 0 {
        let (key, value) = entries[0];
        let rest = entries.drop_first();
        fields_are_set(message, message_name, path, key, value, build, numbers, name);
        assert forall|i: int| 0 <= i < rest.len() implies (#[trigger] rest[i]).0 != name by {
            assert(rest[i] == entries[i + 1]);
        }
        let after = constructed_field(message, message_name, path, key, value, build, numbers).0;
        fields_stay_as_they_are(message, message_name, path, rest, after, numbers, name);
    }
}

/// A field of a message inside of a message stays as it is while other fields are built.
pub proof fn nested_fields_stay_as_they_are(
    message: DescriptorProto,
    message_name: Seq<char>,
    path: Seq<char>,
    entries: Seq<(Seq<char>, ConfigValueView)>,
    build: BuildView,
    numbers: Seq<(String, FloatBits)>,
    name: Seq<char>,
)
    requires
        is_orderly(build.message),
        forall|i: int| 0 <= i < entries.len() ==> (#[trigger] entries[i]).0 != name,
    ensures
        found_field(
            nested_fields(message, message_name, path, entries, build, numbers).0.message,
            name,
        ) == found_field(build.message, name),
    decreases entries.len(),
{
    if entries.len() > 0 {
        let (key, value) = entries[0];
        let step = path + field_step(key);
        let rest = entries.drop_first();
        fields_are_set(message, message_name, step, key, value, build, numbers, name);
        assert forall|i: int| 0 <= i < rest.len() implies (#[trigger] rest[i]).0 != name by {
            assert(rest[i] == entries[i + 1]);
        }
        let after = constructed_field(message, message_name, step, key, value, build, numbers).0;
        nested_fields_stay_as_they_are(message, message_name, path, rest, after, numbers, name);
    }
}

/// A field is an error where the message has no such field, where the field has no type, and where
/// its value is one; and nowhere else.
pub proof fn fields_fail_where_they_must(
    message: DescriptorProto,
    message_name: Seq<char>,
    path: Seq<char>,
    key: Seq<char>,
    value: ConfigValueView,
    build: BuildView,
    numbers: Seq<(String, FloatBits)>,
)
    requires
        !"pact:"@.is_prefix_of(key),
    ensures
        ({
            let (after, outcome) = constructed_field(
                message,
                message_name,
                path,
                key,
                value,
                build,
                numbers,
            );
            let found = first_field(message.field@, key);
            let field = found->0;
            let scalar = built_field_value(path, field, key, value, build.collected, numbers);
            let nested = built_message_value(
                message,
                path,
                field,
                key,
                value,
                build.collected,
                numbers,
            );
            &&& found is None ==> after == build && outcome == Err::<(), ErrorView>(
                ErrorView::NoSuchField { message: message_name, field: key },
            )
            &&& found is Some && field.type_number is None ==> after == build && outcome == Err::<
                (),
                ErrorView,
            >(ErrorView::UntypedField { message: message_name, field: key })
            &&& found is Some && field.type_number is Some && field.type_number != Some(11i32) ==> {
                &&& after.collected == scalar.0
                &&& outcome is Ok <==> scalar.1 is Ok
                &&& scalar.1 matches Err(error) ==> outcome == Err::<(), ErrorView>(error)
            }
            &&& found is Some && field.type_number == Some(11i32) ==> {
                &&& after.collected == nested.0
                &&& outcome is Ok <==> nested.1 is Ok
                &&& nested.1 matches Err(error) ==> outcome == Err::<(), ErrorView>(error)
            }
        }),
{
}

/// The value of a field that holds a message is the message that the map of its configuration
/// builds, by the type that is declared inside of the message that has the field. A repeated field
/// gets a message without fields, and nothing is collected for it.
pub proof fn messages_are_built_from_their_maps(
    message: DescriptorProto,
    path: Seq<char>,
    field: FieldDescriptorProto,
    key: Seq<char>,
    value: ConfigValueView,
    numbers: Seq<(String, FloatBits)>,
    nested: DescriptorProto,
    entries: Seq<(Seq<char>, ConfigValueView)>,
)
    requires
        value.kind == Some(ConfigKindView::StructValue(entries)),
        nested_type_of(message, field) == Some(nested),
    ensures
        ({
            let (after, built) = built_message_value(
                message,
                path,
                field,
                key,
                value,
                nothing_collected(),
                numbers,
            );
            let name = if nested.name is Some {
                nested.name->0@
            } else {
                "Unknown"@
            };
            let inner = nested_fields(
                nested,
                name,
                path,
                entries,
                (BuildView {
                    message: MessageView { name, fields: Seq::empty() },
                    collected: nothing_collected(),
                }),
                numbers,
            );
            &&& field.label == Some(3i32) ==> {
                &&& after == nothing_collected()
                &&& built == Ok::<FieldValueView, ErrorView>(
                    FieldValueView {
                        name: key,
                        raw_value: None,
                        rtype: RTypeView::Message(
                            Box::new(MessageView { name, fields: Seq::empty() }),
                        ),
                    },
                )
            }
            &&& field.label != Some(3i32) ==> {
                &&& after == inner.0.collected
                &&& inner.1 is Ok ==> built == Ok::<FieldValueView, ErrorView>(
                    FieldValueView {
                        name: key,
                        raw_value: None,
                        rtype: RTypeView::Message(Box::new(inner.0.message)),
                    },
                )
                &&& inner.1 matches Err(error) ==> built == Err::<FieldValueView, ErrorView>(error)
            }
        }),
{
    assert(empty_message(message_type_name(nested)) == (MessageView {
        name: message_type_name(nested),
        fields: Seq::empty(),
    }));
}

/// A field that holds a message is an error where its configuration has no kind or is no map, and
/// where its type is not declared inside of the message. Nothing is collected then.
pub proof fn messages_need_maps_and_types(
    message: DescriptorProto,
    path: Seq<char>,
    field: FieldDescriptorProto,
    key: Seq<char>,
    value: ConfigValueView,
    collected: CollectedView,
    numbers: Seq<(String, FloatBits)>,
)
    ensures
        ({
            let (after, built) = built_message_value(
                message,
                path,
                field,
                key,
                value,
                collected,
                numbers,
            );
            &&& value.kind is None ==> after == collected && built == Err::<
                FieldValueView,
                ErrorView,
            >(ErrorView::UnknownValue { field: key })
            &&& value.kind is Some && !(value.kind->0 is StructValue) ==> after == collected
                && built == Err::<FieldValueView, ErrorView>(ErrorView::NotAMap { field: key })
            &&& value.kind is Some && value.kind->0 is StructValue && nested_type_of(
                message,
                field,
            ) is None ==> after == collected && built == Err::<FieldValueView, ErrorView>(
                ErrorView::NoNestedType { field: key },
            )
        }),
{
}

} // verus!
