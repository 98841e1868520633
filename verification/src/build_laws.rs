//! What holds of every message that is built, and of every interaction.
use crate::descriptors::{first_field, DescriptorProto, FieldDescriptorProto, TYPE_MESSAGE};
use crate::error::ErrorView;
use crate::fields::{
    added_rules, built_field_value, built_message_value, constructed_field, defined_field_value,
    is_plugin_key, message_type_name, nested_fields, BuildView,
};
use crate::matching::{parsed_definition, DefinedRuleView, DefinitionView};
use crate::message_builder::{
    empty_message, entry_for, field_index, field_index_is_first, in_number_order, names_differ,
    order_of, place_for, place_for_parts, with_field, with_field_keeps_order, with_more_values,
    with_more_values_keeps_order, FieldEntryView, FieldValueView, FloatBits, MessageView,
    RTypeView,
};
use crate::path::field_step;
use crate::protobuf::{built_message, constructed_fields, message_interaction, part_path};
use crate::rules::{
    nothing_collected, rules_at, with_generator, with_rule, CollectedRuleView, CollectedView,
};
use crate::text_map::lookup;
use crate::utils::nested_type_of;
use crate::value::{value_text, ConfigKindView, ConfigValueView};
use vstd::prelude::*;

verus! {

/// The entries of a configuration that are not settings of the plugin itself.
pub open spec fn field_settings(entries: Seq<(Seq<char>, ConfigValueView)>) -> Seq<
    (Seq<char>, ConfigValueView),
>
    decreases entries.len(),
{
    if entries.len() == 0 {
        Seq::empty()
    } else if is_plugin_key(entries[0].0) {
        field_settings(entries.drop_first())
    } else {
        seq![entries[0]] + field_settings(entries.drop_first())
    }
}

proof fn plugin_settings_build_nothing(
    message: DescriptorProto,
    message_name: Seq<char>,
    path: Seq<char>,
    entries: Seq<(Seq<char>, ConfigValueView)>,
    build: BuildView,
    numbers: Seq<(String, FloatBits)>,
)
    ensures
        constructed_fields(message, message_name, path, entries, build, numbers)
            == constructed_fields(
            message,
            message_name,
            path,
            field_settings(entries),
            build,
            numbers,
        ),
    decreases entries.len(),
{
    if entries.len() > 0 {
        let rest = entries.drop_first();
        let (after, outcome) = constructed_field(
            message,
            message_name,
            path,
            entries[0].0,
            entries[0].1,
            build,
            numbers,
        );
        plugin_settings_build_nothing(message, message_name, path, rest, after, numbers);
        if !is_plugin_key(entries[0].0) {
            assert(field_settings(entries).drop_first() =~= field_settings(rest));
        }
    }
}

/// Settings of the plugin itself make no difference to the interaction for a message.
pub proof fn plugin_settings_are_passed_over(
    message: DescriptorProto,
    entries: Seq<(Seq<char>, ConfigValueView)>,
    message_name: Seq<char>,
    part: Seq<char>,
    numbers: Seq<(String, FloatBits)>,
)
    ensures
        message_interaction(message, entries, message_name, part, numbers) == message_interaction(
            message,
            field_settings(entries),
            message_name,
            part,
            numbers,
        ),
{
    plugin_settings_build_nothing(
        message,
        message_name,
        part_path(part),
        entries,
        (BuildView { message: empty_message(message_name), collected: nothing_collected() }),
        numbers,
    );
}

/// Settings of the plugin itself make no difference to a message inside of a message either.
pub proof fn nested_plugin_settings_are_passed_over(
    message: DescriptorProto,
    message_name: Seq<char>,
    path: Seq<char>,
    entries: Seq<(Seq<char>, ConfigValueView)>,
    build: BuildView,
    numbers: Seq<(String, FloatBits)>,
)
    ensures
        nested_fields(message, message_name, path, entries, build, numbers) == nested_fields(
            message,
            message_name,
            path,
            field_settings(entries),
            build,
            numbers,
        ),
    decreases entries.len(),
{
    if entries.len() > 0 {
        let rest = entries.drop_first();
        let (after, outcome) = constructed_field(
            message,
            message_name,
            path + field_step(entries[0].0),
            entries[0].0,
            entries[0].1,
            build,
            numbers,
        );
        nested_plugin_settings_are_passed_over(message, message_name, path, rest, after, numbers);
        if !is_plugin_key(entries[0].0) {
            assert(field_settings(entries).drop_first() =~= field_settings(rest));
        }
    }
}

/// A null leaves a scalar field out: it sets no value, and nothing is collected for it.
pub proof fn null_leaves_the_field_out(
    message: DescriptorProto,
    message_name: Seq<char>,
    path: Seq<char>,
    key: Seq<char>,
    build: BuildView,
    numbers: Seq<(String, FloatBits)>,
)
    requires
        first_field(message.field@, key) matches Some(field) && field.type_number is Some
            && field.type_number != Some(TYPE_MESSAGE),
    ensures
        constructed_field(
            message,
            message_name,
            path,
            key,
            (ConfigValueView { kind: Some(ConfigKindView::NullValue) }),
            build,
            numbers,
        ) == (build, Ok::<(), ErrorView>(())),
{
}

/// Whether the fields of a message are in the order of their numbers, no two with the same name,
/// and the same holds of the messages inside of it.
pub open spec fn is_orderly(message: MessageView) -> bool
    decreases message,
{
    &&& in_number_order(message.fields)
    &&& names_differ(message.fields)
    &&& forall|i: int|
        0 <= i < message.fields.len() ==> are_orderly((#[trigger] message.fields[i]).values)
}

/// Whether the messages among some values are orderly.
pub open spec fn are_orderly(values: Seq<FieldValueView>) -> bool
    decreases values,
{
    forall|i: int| 0 <= i < values.len() ==> is_orderly_value((#[trigger] values[i]).rtype)
}

/// Whether a value, if it is a message, is orderly.
pub open spec fn is_orderly_value(rtype: RTypeView) -> bool
    decreases rtype,
{
    match rtype {
        RTypeView::Message(message) => is_orderly(*message),
        _ => true,
    }
}

/// Setting a field with orderly values leaves a message orderly.
proof fn with_field_is_orderly(message: MessageView, entry: FieldEntryView)
    requires
        is_orderly(message),
        are_orderly(entry.values),
    ensures
        is_orderly(with_field(message, entry)),
{
    with_field_keeps_order(message, entry);
    field_index_is_first(message.fields, entry.name);
    let others = match field_index(message.fields, entry.name) {
        Some(i) => message.fields.remove(i),
        None => message.fields,
    };
    let place = place_for(others, order_of(entry));
    place_for_parts(others, order_of(entry));
    let after = with_field(message, entry).fields;
    assert forall|j: int| 0 <= j < after.len() implies are_orderly(
        (#[trigger] after[j]).values,
    ) by {
        if j != place {
            let kept = if j < place {
                j
            } else {
                j - 1
            };
            assert(after[j] == others[kept]);
            let at = match field_index(message.fields, entry.name) {
                Some(i) => if kept < i {
                    kept
                } else {
                    kept + 1
                },
                None => kept,
            };
            assert(others[kept] == message.fields[at]);
        }
    }
}

/// Giving a field more orderly values leaves a message orderly.
proof fn with_more_values_is_orderly(message: MessageView, entry: FieldEntryView)
    requires
        is_orderly(message),
        are_orderly(entry.values),
    ensures
        is_orderly(with_more_values(message, entry)),
{
    with_more_values_keeps_order(message, entry);
    field_index_is_first(message.fields, entry.name);
    let after = with_more_values(message, entry).fields;
    match field_index(message.fields, entry.name) {
        Some(at) => {
            assert forall|j: int| 0 <= j < after.len() implies are_orderly(
                (#[trigger] after[j]).values,
            ) by {
                let kept = message.fields[j].values;
                assert(are_orderly(kept));
                if j == at {
                    let values = after[j].values;
                    assert forall|k: int| 0 <= k < values.len() implies is_orderly_value(
                        (#[trigger] values[k]).rtype,
                    ) by {
                        if k < kept.len() {
                            assert(values[k] == kept[k]);
                        } else {
                            assert(values[k] == entry.values[k - kept.len()]);
                        }
                    }
                }
            }
        },
        None => {
            with_field_is_orderly(message, entry);
        },
    }
}

/// A field with one orderly value.
proof fn one_value_is_orderly(field: FieldDescriptorProto, key: Seq<char>, value: FieldValueView)
    requires
        is_orderly_value(value.rtype),
    ensures
        are_orderly(entry_for(field, key, value).values),
{
}

/// Building a field leaves an orderly message orderly.
pub proof fn constructed_field_is_orderly(
    message: DescriptorProto,
    message_name: Seq<char>,
    path: Seq<char>,
    key: Seq<char>,
    value: ConfigValueView,
    build: BuildView,
    numbers: Seq<(String, FloatBits)>,
)
    requires
        is_orderly(build.message),
    ensures
        is_orderly(
            constructed_field(message, message_name, path, key, value, build, numbers).0.message,
        ),
    decreases value, 1int,
{
    match first_field(message.field@, key) {
        Some(field) => {
            built_message_value_is_orderly(
                message,
                path,
                field,
                key,
                value,
                build.collected,
                numbers,
            );
            let nested = built_message_value(
                message,
                path,
                field,
                key,
                value,
                build.collected,
                numbers,
            ).1;
            if nested is Ok {
                one_value_is_orderly(field, key, nested->Ok_0);
                with_field_is_orderly(build.message, entry_for(field, key, nested->Ok_0));
                with_more_values_is_orderly(build.message, entry_for(field, key, nested->Ok_0));
            }
            let scalar = built_field_value(path, field, key, value, build.collected, numbers).1;
            if scalar is Ok && scalar->Ok_0 is Some {
                one_value_is_orderly(field, key, scalar->Ok_0->0);
                with_field_is_orderly(build.message, entry_for(field, key, scalar->Ok_0->0));
            }
        },
        None => {},
    }
}

proof fn built_message_value_is_orderly(
    message: DescriptorProto,
    path: Seq<char>,
    field: FieldDescriptorProto,
    key: Seq<char>,
    value: ConfigValueView,
    collected: CollectedView,
    numbers: Seq<(String, FloatBits)>,
)
    ensures
        built_message_value(message, path, field, key, value, collected, numbers).1 matches Ok(
            built,
        ) ==> is_orderly_value(built.rtype),
    decreases value, 0int,
{
    match value.kind {
        Some(ConfigKindView::StructValue(entries)) => {
            match nested_type_of(message, field) {
                Some(nested) => {
                    let name = message_type_name(nested);
                    nested_fields_are_orderly(
                        nested,
                        name,
                        path,
                        entries,
                        (BuildView { message: empty_message(name), collected }),
                        numbers,
                    );
                },
                None => {},
            }
        },
        _ => {},
    }
}

proof fn nested_fields_are_orderly(
    message: DescriptorProto,
    message_name: Seq<char>,
    path: Seq<char>,
    entries: Seq<(Seq<char>, ConfigValueView)>,
    build: BuildView,
    numbers: Seq<(String, FloatBits)>,
)
    requires
        is_orderly(build.message),
    ensures
        is_orderly(
            nested_fields(message, message_name, path, entries, build, numbers).0.message,
        ),
    decreases entries, 2int,
{
    if entries.len() > 0 {
        let (key, value) = entries[0];
        let step = path + field_step(key);
        constructed_field_is_orderly(message, message_name, step, key, value, build, numbers);
        let after = constructed_field(message, message_name, step, key, value, build, numbers).0;
        nested_fields_are_orderly(
            message,
            message_name,
            path,
            entries.drop_first(),
            after,
            numbers,
        );
    }
}

proof fn constructed_fields_are_orderly(
    message: DescriptorProto,
    message_name: Seq<char>,
    path: Seq<char>,
    entries: Seq<(Seq<char>, ConfigValueView)>,
    build: BuildView,
    numbers: Seq<(String, FloatBits)>,
)
    requires
        is_orderly(build.message),
    ensures
        is_orderly(
            constructed_fields(message, message_name, path, entries, build, numbers).0.message,
        ),
    decreases entries.len(),
{
    if entries.len() > 0 {
        let (key, value) = entries[0];
        constructed_field_is_orderly(message, message_name, path, key, value, build, numbers);
        let after = constructed_field(message, message_name, path, key, value, build, numbers).0;
        constructed_fields_are_orderly(
            message,
            message_name,
            path,
            entries.drop_first(),
            after,
            numbers,
        );
    }
}

/// In every message that is built, and in the messages inside of it, the fields are in the order of
/// their numbers, and no two have the same name.
pub proof fn built_messages_are_orderly(
    message: DescriptorProto,
    entries: Seq<(Seq<char>, ConfigValueView)>,
    message_name: Seq<char>,
    part: Seq<char>,
    numbers: Seq<(String, FloatBits)>,
)
    ensures
        is_orderly(built_message(message, entries, message_name, part, numbers).0.message),
{
    constructed_fields_are_orderly(
        message,
        message_name,
        part_path(part),
        entries,
        (BuildView { message: empty_message(message_name), collected: nothing_collected() }),
        numbers,
    );
}

/// What may become of the rules and the generator of the path `at` while something below `path` is
/// built: rules are added behind those that are there, a generator stays or is replaced, and at
/// paths that are not below `path` nothing changes.
pub open spec fn grows_at(
    before: CollectedView,
    after: CollectedView,
    path: Seq<char>,
    at: Seq<char>,
) -> bool {
    &&& rules_at(before, at).is_prefix_of(rules_at(after, at))
    &&& before.rules.contains_key(at) ==> after.rules.contains_key(at)
    &&& before.generators.contains_key(at) ==> after.generators.contains_key(at)
    &&& !path.is_prefix_of(at) ==> {
        &&& before.rules.contains_key(at) == after.rules.contains_key(at)
        &&& before.generators.contains_key(at) == after.generators.contains_key(at)
        &&& rules_at(before, at) == rules_at(after, at)
        &&& before.generators[at] == after.generators[at]
    }
}

/// Whether all that is collected grows only below a path, and nothing of it is lost.
pub open spec fn grows_below(before: CollectedView, after: CollectedView, path: Seq<char>) -> bool {
    forall|at: Seq<char>| #[trigger] grows_at(before, after, path, at)
}

/// What grows below a path twice, grows below it.
proof fn grows_on(
    first: CollectedView,
    second: CollectedView,
    third: CollectedView,
    path: Seq<char>,
)
    requires
        grows_below(first, second, path),
        grows_below(second, third, path),
    ensures
        grows_below(first, third, path),
{
    assert forall|at: Seq<char>| #[trigger] grows_at(first, third, path, at) by {
        assert(grows_at(first, second, path, at));
        assert(grows_at(second, third, path, at));
        let a = rules_at(first, at);
        let b = rules_at(second, at);
        let c = rules_at(third, at);
        assert forall|i: int| 0 <= i < a.len() implies a[i] == c[i] by {
            assert(b.take(a.len() as int)[i] == b[i]);
            assert(c.take(b.len() as int)[i] == c[i]);
        }
    }
}

/// What grows below a longer path, grows below a shorter one.
proof fn grows_above(before: CollectedView, after: CollectedView, path: Seq<char>, step: Seq<char>)
    requires
        grows_below(before, after, path + step),
    ensures
        grows_below(before, after, path),
{
    assert forall|at: Seq<char>| #[trigger] grows_at(before, after, path, at) by {
        assert(grows_at(before, after, path + step, at));
        if (path + step).is_prefix_of(at) {
            assert forall|i: int| 0 <= i < path.len() implies path[i] == at[i] by {
                assert((path + step)[i] == at[i]);
            }
            assert(path.is_prefix_of(at));
        }
    }
}

/// The rules of a definition from `index` on, as they are collected.
pub open spec fn rules_from(text: Seq<char>, rules: Seq<DefinedRuleView>, index: int) -> Seq<
    CollectedRuleView,
> {
    Seq::new(
        (rules.len() - index) as nat,
        |i: int|
            CollectedRuleView {
                name: rules[index + i]->Rule_name,
                definition: text,
                index: index + i,
            },
    )
}

/// Where no rule of a definition is a reference, all of its rules are collected for the path, in
/// their order, behind those that are there, and nothing else changes.
pub proof fn all_rules_are_collected(
    collected: CollectedView,
    path: Seq<char>,
    text: Seq<char>,
    rules: Seq<DefinedRuleView>,
    index: int,
)
    requires
        0 <= index <= rules.len(),
        forall|i: int| 0 <= i < rules.len() ==> (#[trigger] rules[i]) is Rule,
    ensures
        added_rules(collected, path, text, rules, index).1 is None,
        rules_at(added_rules(collected, path, text, rules, index).0, path) == rules_at(
            collected,
            path,
        ) + rules_from(text, rules, index),
        added_rules(collected, path, text, rules, index).0.generators == collected.generators,
        forall|other: Seq<char>|
            other != path ==> rules_at(
                added_rules(collected, path, text, rules, index).0,
                other,
            ) == #[trigger] rules_at(collected, other),
    decreases rules.len() - index,
{
    let here = rules_at(collected, path);
    if index < rules.len() {
        assert(rules[index] is Rule);
        let rule = CollectedRuleView { name: rules[index]->Rule_name, definition: text, index };
        let more = with_rule(collected, path, rule);
        all_rules_are_collected(more, path, text, rules, index + 1);
        assert(rules_from(text, rules, index) =~= seq![rule] + rules_from(text, rules, index + 1));
        assert(here.push(rule) + rules_from(text, rules, index + 1) =~= here + rules_from(
            text,
            rules,
            index,
        ));
        assert forall|other: Seq<char>| other != path implies rules_at(
            added_rules(collected, path, text, rules, index).0,
            other,
        ) == #[trigger] rules_at(collected, other) by {
            assert(rules_at(more, other) == rules_at(collected, other));
        }
    } else {
        assert(here + rules_from(text, rules, index) =~= here);
    }
}

proof fn added_rules_grow(
    collected: CollectedView,
    path: Seq<char>,
    text: Seq<char>,
    rules: Seq<DefinedRuleView>,
    index: int,
)
    ensures
        grows_below(collected, added_rules(collected, path, text, rules, index).0, path),
    decreases rules.len() - index,
{
    if 0 <= index < rules.len() {
        match rules[index] {
            DefinedRuleView::Rule { name, parts } => {
                let rule = CollectedRuleView { name, definition: text, index };
                let more = with_rule(collected, path, rule);
                assert(grows_below(collected, more, path)) by {
                    assert forall|at: Seq<char>| #[trigger]
                        grows_at(collected, more, path, at) by {}
                }
                added_rules_grow(more, path, text, rules, index + 1);
                grows_on(
                    collected,
                    more,
                    added_rules(more, path, text, rules, index + 1).0,
                    path,
                );
            },
            DefinedRuleView::Reference(_) => {},
        }
    }
}

proof fn defined_field_value_grows(
    path: Seq<char>,
    field: FieldDescriptorProto,
    key: Seq<char>,
    text: Seq<char>,
    definition: DefinitionView,
    collected: CollectedView,
    numbers: Seq<(String, FloatBits)>,
)
    ensures
        grows_below(
            collected,
            defined_field_value(path, field, key, text, definition, collected, numbers).0,
            path,
        ),
{
    added_rules_grow(collected, path, text, definition.rules, 0);
    let with_rules = added_rules(collected, path, text, definition.rules, 0).0;
    match definition.generator {
        Some(generator) => {
            let more = with_generator(with_rules, path, generator);
            assert(grows_below(with_rules, more, path)) by {
                assert forall|at: Seq<char>| #[trigger] grows_at(with_rules, more, path, at) by {}
            }
            grows_on(collected, with_rules, more, path);
        },
        None => {},
    }
}

/// Building a field loses no rule and no generator, adds rules behind those that are there, and
/// changes nothing at paths that are not below the path of the message.
pub proof fn constructed_field_grows(
    message: DescriptorProto,
    message_name: Seq<char>,
    path: Seq<char>,
    key: Seq<char>,
    value: ConfigValueView,
    build: BuildView,
    numbers: Seq<(String, FloatBits)>,
)
    ensures
        grows_below(
            build.collected,
            constructed_field(
                message,
                message_name,
                path,
                key,
                value,
                build,
                numbers,
            ).0.collected,
            path,
        ),
    decreases value, 1int,
{
    let before = build.collected;
    match first_field(message.field@, key) {
        Some(field) => {
            built_message_value_grows(message, path, field, key, value, before, numbers);
            match value_text(value) {
                Some(text) => {
                    match parsed_definition(text) {
                        Ok(definition) => {
                            let step = field_step(key);
                            defined_field_value_grows(
                                path + step,
                                field,
                                key,
                                text,
                                definition,
                                before,
                                numbers,
                            );
                            grows_above(
                                before,
                                defined_field_value(
                                    path + step,
                                    field,
                                    key,
                                    text,
                                    definition,
                                    before,
                                    numbers,
                                ).0,
                                path,
                                step,
                            );
                        },
                        Err(_) => {},
                    }
                },
                None => {},
            }
        },
        None => {},
    }
}

proof fn built_message_value_grows(
    message: DescriptorProto,
    path: Seq<char>,
    field: FieldDescriptorProto,
    key: Seq<char>,
    value: ConfigValueView,
    collected: CollectedView,
    numbers: Seq<(String, FloatBits)>,
)
    ensures
        grows_below(
            collected,
            built_message_value(message, path, field, key, value, collected, numbers).0,
            path,
        ),
    decreases value, 0int,
{
    match value.kind {
        Some(ConfigKindView::StructValue(entries)) => {
            match nested_type_of(message, field) {
                Some(nested) => {
                    let name = message_type_name(nested);
                    nested_fields_grow(
                        nested,
                        name,
                        path,
                        entries,
                        (BuildView { message: empty_message(name), collected }),
                        numbers,
                    );
                },
                None => {},
            }
        },
        _ => {},
    }
}

proof fn nested_fields_grow(
    message: DescriptorProto,
    message_name: Seq<char>,
    path: Seq<char>,
    entries: Seq<(Seq<char>, ConfigValueView)>,
    build: BuildView,
    numbers: Seq<(String, FloatBits)>,
)
    ensures
        grows_below(
            build.collected,
            nested_fields(message, message_name, path, entries, build, numbers).0.collected,
            path,
        ),
    decreases entries, 2int,
{
    if entries.len() > 0 {
        let (key, value) = entries[0];
        let step = field_step(key);
        let rest = entries.drop_first();
        constructed_field_grows(message, message_name, path + step, key, value, build, numbers);
        let after = constructed_field(
            message,
            message_name,
            path + step,
            key,
            value,
            build,
            numbers,
        ).0;
        grows_above(build.collected, after.collected, path, step);
        nested_fields_grow(message, message_name, path, rest, after, numbers);
        grows_on(
            build.collected,
            after.collected,
            nested_fields(message, message_name, path, rest, after, numbers).0.collected,
            path,
        );
    }
}

/// Building the fields of a message loses no rule and no generator, adds rules behind those that
/// are there, and changes nothing at paths that are not below the path of the message.
pub proof fn constructed_fields_grow(
    message: DescriptorProto,
    message_name: Seq<char>,
    path: Seq<char>,
    entries: Seq<(Seq<char>, ConfigValueView)>,
    build: BuildView,
    numbers: Seq<(String, FloatBits)>,
)
    ensures
        grows_below(
            build.collected,
            constructed_fields(message, message_name, path, entries, build, numbers).0.collected,
            path,
        ),
    decreases entries.len(),
{
    if entries.len() > 0 {
        let (key, value) = entries[0];
        let rest = entries.drop_first();
        constructed_field_grows(message, message_name, path, key, value, build, numbers);
        let after = constructed_field(message, message_name, path, key, value, build, numbers).0;
        constructed_fields_grow(message, message_name, path, rest, after, numbers);
        grows_on(
            build.collected,
            after.collected,
            constructed_fields(message, message_name, path, rest, after, numbers).0.collected,
            path,
        );
    }
}

/// Every path of a matching rule or a generator of an interaction begins with the path of its part.
pub proof fn paths_are_of_the_part(
    message: DescriptorProto,
    entries: Seq<(Seq<char>, ConfigValueView)>,
    message_name: Seq<char>,
    part: Seq<char>,
    numbers: Seq<(String, FloatBits)>,
    path: Seq<char>,
)
    requires
        message_interaction(message, entries, message_name, part, numbers) matches Some(
            Ok(interaction),
        ) && (interaction.rules.contains_key(path) || interaction.generators.contains_key(path)),
    ensures
        part_path(part).is_prefix_of(path),
{
    let start = BuildView {
        message: empty_message(message_name),
        collected: nothing_collected(),
    };
    constructed_fields_grow(message, message_name, part_path(part), entries, start, numbers);
    let build = built_message(message, entries, message_name, part, numbers).0;
    assert(grows_at(start.collected, build.collected, part_path(part), path));
}

/// Whether every number that is read in one table is read in the other, and the same.
pub open spec fn more_numbers(
    numbers: Seq<(String, FloatBits)>,
    more: Seq<(String, FloatBits)>,
) -> bool {
    forall|text: Seq<char>| #[trigger]
        lookup(numbers, text) is Some ==> lookup(more, text) == lookup(numbers, text)
}

/// Whether an outcome is that a number has still to be read, and which one.
pub open spec fn number_to_read<T>(outcome: Result<T, ErrorView>) -> Option<Seq<char>> {
    match outcome {
        Err(ErrorView::NumberNotRead { text }) => Some(text),
        _ => None,
    }
}

/// Whether a number that has still to be read is not in the table.
pub open spec fn not_read_yet<T>(
    outcome: Result<T, ErrorView>,
    numbers: Seq<(String, FloatBits)>,
) -> bool {
    number_to_read(outcome) matches Some(text) ==> lookup(numbers, text) is None
}

proof fn built_field_value_with_more_numbers(
    path: Seq<char>,
    field: FieldDescriptorProto,
    key: Seq<char>,
    value: ConfigValueView,
    collected: CollectedView,
    numbers: Seq<(String, FloatBits)>,
    more: Seq<(String, FloatBits)>,
)
    requires
        more_numbers(numbers, more),
    ensures
        ({
            let result = built_field_value(path, field, key, value, collected, numbers);
            &&& not_read_yet(result.1, numbers)
            &&& number_to_read(result.1) is None ==> built_field_value(
                path,
                field,
                key,
                value,
                collected,
                more,
            ) == result
        }),
{
    match value_text(value) {
        Some(text) => {
            match parsed_definition(text) {
                Ok(definition) => {
                    assert(lookup(numbers, definition.value) is Some ==> lookup(
                        more,
                        definition.value,
                    ) == lookup(numbers, definition.value));
                },
                Err(_) => {},
            }
        },
        None => {},
    }
}

proof fn constructed_field_with_more_numbers(
    message: DescriptorProto,
    message_name: Seq<char>,
    path: Seq<char>,
    key: Seq<char>,
    value: ConfigValueView,
    build: BuildView,
    numbers: Seq<(String, FloatBits)>,
    more: Seq<(String, FloatBits)>,
)
    requires
        more_numbers(numbers, more),
    ensures
        ({
            let result = constructed_field(
                message,
                message_name,
                path,
                key,
                value,
                build,
                numbers,
            );
            &&& not_read_yet(result.1, numbers)
            &&& number_to_read(result.1) is None ==> constructed_field(
                message,
                message_name,
                path,
                key,
                value,
                build,
                more,
            ) == result
        }),
    decreases value, 1int,
{
    match first_field(message.field@, key) {
        Some(field) => {
            built_message_value_with_more_numbers(
                message,
                path,
                field,
                key,
                value,
                build.collected,
                numbers,
                more,
            );
            built_field_value_with_more_numbers(
                path,
                field,
                key,
                value,
                build.collected,
                numbers,
                more,
            );
        },
        None => {},
    }
}

proof fn built_message_value_with_more_numbers(
    message: DescriptorProto,
    path: Seq<char>,
    field: FieldDescriptorProto,
    key: Seq<char>,
    value: ConfigValueView,
    collected: CollectedView,
    numbers: Seq<(String, FloatBits)>,
    more: Seq<(String, FloatBits)>,
)
    requires
        more_numbers(numbers, more),
    ensures
        ({
            let result = built_message_value(
                message,
                path,
                field,
                key,
                value,
                collected,
                numbers,
            );
            &&& not_read_yet(result.1, numbers)
            &&& number_to_read(result.1) is None ==> built_message_value(
                message,
                path,
                field,
                key,
                value,
                collected,
                more,
            ) == result
        }),
    decreases value, 0int,
{
    match value.kind {
        Some(ConfigKindView::StructValue(entries)) => {
            match nested_type_of(message, field) {
                Some(nested) => {
                    let name = message_type_name(nested);
                    nested_fields_with_more_numbers(
                        nested,
                        name,
                        path,
                        entries,
                        (BuildView { message: empty_message(name), collected }),
                        numbers,
                        more,
                    );
                },
                None => {},
            }
        },
        _ => {},
    }
}

proof fn nested_fields_with_more_numbers(
    message: DescriptorProto,
    message_name: Seq<char>,
    path: Seq<char>,
    entries: Seq<(Seq<char>, ConfigValueView)>,
    build: BuildView,
    numbers: Seq<(String, FloatBits)>,
    more: Seq<(String, FloatBits)>,
)
    requires
        more_numbers(numbers, more),
    ensures
        ({
            let result = nested_fields(message, message_name, path, entries, build, numbers);
            &&& not_read_yet(result.1, numbers)
            &&& number_to_read(result.1) is None ==> nested_fields(
                message,
                message_name,
                path,
                entries,
                build,
                more,
            ) == result
        }),
    decreases entries, 2int,
{
    if entries.len() > 0 {
        let (key, value) = entries[0];
        let step = path + field_step(key);
        constructed_field_with_more_numbers(
            message,
            message_name,
            step,
            key,
            value,
            build,
            numbers,
            more,
        );
        let after = constructed_field(message, message_name, step, key, value, build, numbers).0;
        nested_fields_with_more_numbers(
            message,
            message_name,
            path,
            entries.drop_first(),
            after,
            numbers,
            more,
        );
    }
}

proof fn constructed_fields_with_more_numbers(
    message: DescriptorProto,
    message_name: Seq<char>,
    path: Seq<char>,
    entries: Seq<(Seq<char>, ConfigValueView)>,
    build: BuildView,
    numbers: Seq<(String, FloatBits)>,
    more: Seq<(String, FloatBits)>,
)
    requires
        more_numbers(numbers, more),
    ensures
        ({
            let result = constructed_fields(message, message_name, path, entries, build, numbers);
            &&& not_read_yet(result.1, numbers)
            &&& number_to_read(result.1) is None ==> constructed_fields(
                message,
                message_name,
                path,
                entries,
                build,
                more,
            ) == result
        }),
    decreases entries.len(),
{
    if entries.len() > 0 {
        let (key, value) = entries[0];
        constructed_field_with_more_numbers(
            message,
            message_name,
            path,
            key,
            value,
            build,
            numbers,
            more,
        );
        let after = constructed_field(message, message_name, path, key, value, build, numbers).0;
        constructed_fields_with_more_numbers(
            message,
            message_name,
            path,
            entries.drop_first(),
            after,
            numbers,
            more,
        );
    }
}

/// A floating-point number is asked for only where it has not been read, and what is built without
/// asking for one does not change when more numbers are read.
pub proof fn more_numbers_change_nothing(
    message: DescriptorProto,
    entries: Seq<(Seq<char>, ConfigValueView)>,
    message_name: Seq<char>,
    part: Seq<char>,
    numbers: Seq<(String, FloatBits)>,
    more: Seq<(String, FloatBits)>,
)
    requires
        more_numbers(numbers, more),
    ensures
        ({
            let result = message_interaction(message, entries, message_name, part, numbers);
            &&& result matches Some(outcome) ==> not_read_yet(outcome, numbers)
            &&& (result matches Some(outcome) ==> number_to_read(outcome) is None)
                ==> message_interaction(message, entries, message_name, part, more) == result
        }),
{
    constructed_fields_with_more_numbers(
        message,
        message_name,
        part_path(part),
        entries,
        (BuildView { message: empty_message(message_name), collected: nothing_collected() }),
        numbers,
        more,
    );
}

} // verus!
