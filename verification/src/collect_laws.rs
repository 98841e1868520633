//! What is collected for the fields of a message: each field adds its own rules and its own
//! generator, at its own path, whatever else is built.
use crate::descriptors::{first_field, DescriptorProto, FieldDescriptorProto};
use crate::error::ErrorView;
use crate::fields::{
    added_rules, built_field_value, built_message_value, constructed_field, defined_field_value,
    message_type_name, nested_fields, BuildView,
};
use crate::matching::{parsed_definition, DefinedRuleView, DefinitionView, NamedValuesView};
use crate::message_builder::{empty_message, FloatBits, MessageView};
use crate::path::field_step;
use crate::protobuf::constructed_fields;
use crate::rules::{
    nothing_collected, with_generator, with_rule, CollectedRuleView, CollectedView,
};
use crate::utils::nested_type_of;
use crate::value::{value_text, ConfigKindView, ConfigValueView};
use vstd::prelude::*;

verus! {

/// The rules at a path.
pub open spec fn rules_of(collected: CollectedView, path: Seq<char>) -> Seq<CollectedRuleView> {
    if collected.rules.contains_key(path) {
        collected.rules[path]
    } else {
        Seq::empty()
    }
}

/// Two collections in one: at each path the rules of the second behind those of the first, and the
/// generator of the second, or else that of the first.
pub open spec fn joined(first: CollectedView, second: CollectedView) -> CollectedView {
    CollectedView {
        rules: Map::new(
            |path: Seq<char>| first.rules.contains_key(path) || second.rules.contains_key(path),
            |path: Seq<char>| rules_of(first, path) + rules_of(second, path),
        ),
        generators: Map::new(
            |path: Seq<char>|
                first.generators.contains_key(path) || second.generators.contains_key(path),
            |path: Seq<char>|
                if second.generators.contains_key(path) {
                    second.generators[path]
                } else {
                    first.generators[path]
                },
        ),
    }
}

/// Nothing collected makes no difference to what it is joined with.
pub proof fn nothing_is_joined(collected: CollectedView)
    ensures
        joined(collected, nothing_collected()) == collected,
        joined(nothing_collected(), collected) == collected,
{
    assert forall|path: Seq<char>| collected.rules.contains_key(path) implies rules_of(
        collected,
        path,
    ) + rules_of(nothing_collected(), path) == #[trigger] collected.rules[path] && rules_of(
        nothing_collected(),
        path,
    ) + rules_of(collected, path) == collected.rules[path] by {
        assert(collected.rules[path] + Seq::empty() =~= collected.rules[path]);
        assert(Seq::empty() + collected.rules[path] =~= collected.rules[path]);
    }
    assert(joined(collected, nothing_collected()).rules =~= collected.rules);
    assert(joined(collected, nothing_collected()).generators =~= collected.generators);
    assert(joined(nothing_collected(), collected).rules =~= collected.rules);
    assert(joined(nothing_collected(), collected).generators =~= collected.generators);
}

proof fn joined_in_turn(first: CollectedView, second: CollectedView, third: CollectedView)
    ensures
        joined(joined(first, second), third) == joined(first, joined(second, third)),
{
    let left = joined(joined(first, second), third);
    let right = joined(first, joined(second, third));
    assert forall|path: Seq<char>| left.rules.contains_key(path) implies #[trigger] left.rules[path]
        == right.rules[path] by {
        assert((rules_of(first, path) + rules_of(second, path)) + rules_of(third, path)
            =~= rules_of(first, path) + (rules_of(second, path) + rules_of(third, path)));
        assert(rules_of(joined(first, second), path) =~= rules_of(first, path) + rules_of(
            second,
            path,
        ));
        assert(rules_of(joined(second, third), path) =~= rules_of(second, path) + rules_of(
            third,
            path,
        ));
    }
    assert(left.rules =~= right.rules);
    assert(left.generators =~= right.generators);
}

proof fn rule_is_joined(
    first: CollectedView,
    second: CollectedView,
    path: Seq<char>,
    rule: CollectedRuleView,
)
    ensures
        with_rule(joined(first, second), path, rule) == joined(first, with_rule(second, path, rule)),
{
    let left = with_rule(joined(first, second), path, rule);
    let right = joined(first, with_rule(second, path, rule));
    assert forall|at: Seq<char>| left.rules.contains_key(at) implies #[trigger] left.rules[at]
        == right.rules[at] by {
        if at == path {
            assert((rules_of(first, at) + rules_of(second, at)).push(rule) =~= rules_of(first, at) + (
            rules_of(second, at).push(rule)));
            assert(rules_of(joined(first, second), at) =~= rules_of(first, at) + rules_of(
                second,
                at,
            ));
        } else {
            assert(rules_of(with_rule(second, path, rule), at) == rules_of(second, at));
        }
    }
    assert(left.rules =~= right.rules);
    assert(left.generators =~= right.generators);
}

proof fn generator_is_joined(
    first: CollectedView,
    second: CollectedView,
    path: Seq<char>,
    generator: NamedValuesView,
)
    ensures
        with_generator(joined(first, second), path, generator) == joined(
            first,
            with_generator(second, path, generator),
        ),
{
    let left = with_generator(joined(first, second), path, generator);
    let right = joined(first, with_generator(second, path, generator));
    assert forall|at: Seq<char>| left.rules.contains_key(at) implies #[trigger] left.rules[at]
        == right.rules[at] by {
        assert(rules_of(with_generator(second, path, generator), at) == rules_of(second, at));
    }
    assert(left.rules =~= right.rules);
    assert(left.generators =~= right.generators);
}

proof fn added_rules_are_joined(
    first: CollectedView,
    second: CollectedView,
    path: Seq<char>,
    text: Seq<char>,
    rules: Seq<DefinedRuleView>,
    index: int,
)
    ensures
        added_rules(joined(first, second), path, text, rules, index) == (
            joined(first, added_rules(second, path, text, rules, index).0),
            added_rules(second, path, text, rules, index).1,
        ),
    decreases rules.len() - index,
{
    if 0 <= index < rules.len() {
        match rules[index] {
            DefinedRuleView::Rule { name, parts } => {
                let rule = CollectedRuleView { name, definition: text, index };
                rule_is_joined(first, second, path, rule);
                added_rules_are_joined(
                    first,
                    with_rule(second, path, rule),
                    path,
                    text,
                    rules,
                    index + 1,
                );
            },
            DefinedRuleView::Reference(_) => {},
        }
    }
}

proof fn defined_field_value_is_joined(
    path: Seq<char>,
    field: FieldDescriptorProto,
    key: Seq<char>,
    text: Seq<char>,
    definition: DefinitionView,
    first: CollectedView,
    second: CollectedView,
    numbers: Seq<(String, FloatBits)>,
)
    ensures
        ({
            let alone = defined_field_value(path, field, key, text, definition, second, numbers);
            defined_field_value(
                path,
                field,
                key,
                text,
                definition,
                joined(first, second),
                numbers,
            ) == (joined(first, alone.0), alone.1)
        }),
{
    added_rules_are_joined(first, second, path, text, definition.rules, 0);
    match definition.generator {
        Some(generator) => generator_is_joined(
            first,
            added_rules(second, path, text, definition.rules, 0).0,
            path,
            generator,
        ),
        None => {},
    }
}

/// What a scalar field gives, and what it adds, does not depend on what was collected before: it is
/// joined to it.
pub proof fn scalars_add_to_what_is_collected(
    path: Seq<char>,
    field: FieldDescriptorProto,
    key: Seq<char>,
    value: ConfigValueView,
    first: CollectedView,
    second: CollectedView,
    numbers: Seq<(String, FloatBits)>,
)
    ensures
        ({
            let alone = built_field_value(path, field, key, value, second, numbers);
            built_field_value(path, field, key, value, joined(first, second), numbers) == (
                joined(first, alone.0),
                alone.1,
            )
        }),
{
    match value_text(value) {
        Some(text) => {
            match parsed_definition(text) {
                Ok(definition) => defined_field_value_is_joined(
                    path + field_step(key),
                    field,
                    key,
                    text,
                    definition,
                    first,
                    second,
                    numbers,
                ),
                Err(_) => {},
            }
        },
        None => {},
    }
}

/// The outcome of a field, and what it adds to what is collected, depends neither on the message
/// that it is added to nor on what was collected before.
pub proof fn fields_add_to_what_is_collected(
    message: DescriptorProto,
    message_name: Seq<char>,
    path: Seq<char>,
    key: Seq<char>,
    value: ConfigValueView,
    first: CollectedView,
    second: CollectedView,
    any: MessageView,
    other: MessageView,
    numbers: Seq<(String, FloatBits)>,
)
    ensures
        ({
            let alone = constructed_field(
                message,
                message_name,
                path,
                key,
                value,
                (BuildView { message: any, collected: second }),
                numbers,
            );
            let after = constructed_field(
                message,
                message_name,
                path,
                key,
                value,
                (BuildView { message: other, collected: joined(first, second) }),
                numbers,
            );
            &&& after.1 == alone.1
            &&& after.0.collected == joined(first, alone.0.collected)
            &&& any == other ==> after.0.message == alone.0.message
        }),
    decreases value, 1int,
{
    match first_field(message.field@, key) {
        Some(field) => {
            scalars_add_to_what_is_collected(path, field, key, value, first, second, numbers);
            messages_add_to_what_is_collected(
                message,
                path,
                field,
                key,
                value,
                first,
                second,
                numbers,
            );
        },
        None => {},
    }
}

proof fn messages_add_to_what_is_collected(
    message: DescriptorProto,
    path: Seq<char>,
    field: FieldDescriptorProto,
    key: Seq<char>,
    value: ConfigValueView,
    first: CollectedView,
    second: CollectedView,
    numbers: Seq<(String, FloatBits)>,
)
    ensures
        ({
            let alone = built_message_value(message, path, field, key, value, second, numbers);
            built_message_value(
                message,
                path,
                field,
                key,
                value,
                joined(first, second),
                numbers,
            ) == (joined(first, alone.0), alone.1)
        }),
    decreases value, 0int,
{
    match value.kind {
        Some(ConfigKindView::StructValue(entries)) => {
            match nested_type_of(message, field) {
                Some(nested) => {
                    let name = message_type_name(nested);
                    let start = empty_message(name);
                    nested_fields_add_to_what_is_collected(
                        nested,
                        name,
                        path,
                        entries,
                        first,
                        second,
                        start,
                        start,
                        numbers,
                    );
                },
                None => {},
            }
        },
        _ => {},
    }
}

proof fn nested_fields_add_to_what_is_collected(
    message: DescriptorProto,
    message_name: Seq<char>,
    path: Seq<char>,
    entries: Seq<(Seq<char>, ConfigValueView)>,
    first: CollectedView,
    second: CollectedView,
    any: MessageView,
    other: MessageView,
    numbers: Seq<(String, FloatBits)>,
)
    ensures
        ({
            let alone = nested_fields(
                message,
                message_name,
                path,
                entries,
                (BuildView { message: any, collected: second }),
                numbers,
            );
            let after = nested_fields(
                message,
                message_name,
                path,
                entries,
                (BuildView { message: other, collected: joined(first, second) }),
                numbers,
            );
            &&& after.1 == alone.1
            &&& after.0.collected == joined(first, alone.0.collected)
            &&& any == other ==> after.0.message == alone.0.message
        }),
    decreases entries, 2int,
{
    if entries.len() > 0 {
        let (key, value) = entries[0];
        let step = path + field_step(key);
        fields_add_to_what_is_collected(
            message,
            message_name,
            step,
            key,
            value,
            first,
            second,
            any,
            other,
            numbers,
        );
        let one = constructed_field(
            message,
            message_name,
            step,
            key,
            value,
            (BuildView { message: any, collected: second }),
            numbers,
        ).0;
        let two = constructed_field(
            message,
            message_name,
            step,
            key,
            value,
            (BuildView { message: other, collected: joined(first, second) }),
            numbers,
        ).0;
        nested_fields_add_to_what_is_collected(
            message,
            message_name,
            path,
            entries.drop_first(),
            first,
            one.collected,
            one.message,
            two.message,
            numbers,
        );
    }
}

proof fn constructed_fields_add_to_what_is_collected(
    message: DescriptorProto,
    message_name: Seq<char>,
    path: Seq<char>,
    entries: Seq<(Seq<char>, ConfigValueView)>,
    first: CollectedView,
    second: CollectedView,
    any: MessageView,
    other: MessageView,
    numbers: Seq<(String, FloatBits)>,
)
    ensures
        ({
            let alone = constructed_fields(
                message,
                message_name,
                path,
                entries,
                (BuildView { message: any, collected: second }),
                numbers,
            );
            let after = constructed_fields(
                message,
                message_name,
                path,
                entries,
                (BuildView { message: other, collected: joined(first, second) }),
                numbers,
            );
            &&& after.1 == alone.1
            &&& after.0.collected == joined(first, alone.0.collected)
            &&& any == other ==> after.0.message == alone.0.message
        }),
    decreases entries.len(),
{
    if entries.len() > 0 {
        let (key, value) = entries[0];
        fields_add_to_what_is_collected(
            message,
            message_name,
            path,
            key,
            value,
            first,
            second,
            any,
            other,
            numbers,
        );
        let one = constructed_field(
            message,
            message_name,
            path,
            key,
            value,
            (BuildView { message: any, collected: second }),
            numbers,
        ).0;
        let two = constructed_field(
            message,
            message_name,
            path,
            key,
            value,
            (BuildView { message: other, collected: joined(first, second) }),
            numbers,
        ).0;
        constructed_fields_add_to_what_is_collected(
            message,
            message_name,
            path,
            entries.drop_first(),
            first,
            one.collected,
            one.message,
            two.message,
            numbers,
        );
    }
}

/// A message without fields, and nothing collected.
pub open spec fn nothing_built(message_name: Seq<char>) -> BuildView {
    BuildView {
        message: MessageView { name: message_name, fields: Seq::empty() },
        collected: CollectedView { rules: Map::empty(), generators: Map::empty() },
    }
}

/// A message that is not built yet has its name and no fields, and nothing is collected for it.
pub proof fn nothing_is_built_yet(message_name: Seq<char>)
    ensures
        empty_message(message_name).name == message_name,
        empty_message(message_name).fields.len() == 0,
        forall|path: Seq<char>| !#[trigger] nothing_collected().rules.contains_key(path),
        forall|path: Seq<char>| !#[trigger] nothing_collected().generators.contains_key(path),
        (BuildView { message: empty_message(message_name), collected: nothing_collected() })
            == nothing_built(message_name),
{
}

/// The fields of a message inside of a message are built one run behind the other, each from the
/// same path: what the second run is built with is what the first one has built.
pub proof fn nested_fields_are_built_in_turn(
    message: DescriptorProto,
    message_name: Seq<char>,
    path: Seq<char>,
    first: Seq<(Seq<char>, ConfigValueView)>,
    second: Seq<(Seq<char>, ConfigValueView)>,
    build: BuildView,
    numbers: Seq<(String, FloatBits)>,
)
    ensures
        ({
            let (between, outcome) = nested_fields(
                message,
                message_name,
                path,
                first,
                build,
                numbers,
            );
            nested_fields(message, message_name, path, first + second, build, numbers) == (
            if outcome is Ok {
                nested_fields(message, message_name, path, second, between, numbers)
            } else {
                (between, outcome)
            })
        }),
    decreases first.len(),
{
    if first.len() == 0 {
        assert(first + second =~= second);
    } else {
        let (key, value) = first[0];
        let after = constructed_field(
            message,
            message_name,
            path + field_step(key),
            key,
            value,
            build,
            numbers,
        ).0;
        assert((first + second)[0] == first[0]);
        assert((first + second).drop_first() =~= first.drop_first() + second);
        nested_fields_are_built_in_turn(
            message,
            message_name,
            path,
            first.drop_first(),
            second,
            after,
            numbers,
        );
    }
}

/// One field of a message inside of a message is built a step down from the path of the message.
pub proof fn nested_fields_are_a_step_down(
    message: DescriptorProto,
    message_name: Seq<char>,
    path: Seq<char>,
    key: Seq<char>,
    value: ConfigValueView,
    build: BuildView,
    numbers: Seq<(String, FloatBits)>,
)
    ensures
        nested_fields(message, message_name, path, seq![(key, value)], build, numbers)
            == constructed_field(
            message,
            message_name,
            path + field_step(key),
            key,
            value,
            build,
            numbers,
        ),
{
    let one = seq![(key, value)];
    assert(one.drop_first() =~= Seq::empty());
    let (after, outcome) = constructed_field(
        message,
        message_name,
        path + field_step(key),
        key,
        value,
        build,
        numbers,
    );
    assert(nested_fields(message, message_name, path, one.drop_first(), after, numbers) == (
        after,
        Ok::<(), ErrorView>(()),
    ));
}

/// What the fields of a message inside of a message add does not depend on each other: where the
/// first run of them is built, both runs together add just what each of them adds alone. So a path
/// has rules exactly where one of the runs alone gives it rules, and so with generators.
pub proof fn nested_fields_add_what_each_adds_alone(
    message: DescriptorProto,
    message_name: Seq<char>,
    path: Seq<char>,
    first: Seq<(Seq<char>, ConfigValueView)>,
    second: Seq<(Seq<char>, ConfigValueView)>,
    numbers: Seq<(String, FloatBits)>,
)
    ensures
        ({
            let start = nothing_built(message_name);
            let one = nested_fields(message, message_name, path, first, start, numbers);
            let two = nested_fields(message, message_name, path, second, start, numbers);
            let both = nested_fields(message, message_name, path, first + second, start, numbers);
            &&& one.1 is Ok ==> {
                &&& both.1 == two.1
                &&& both.0.collected == joined(one.0.collected, two.0.collected)
                &&& forall|at: Seq<char>| #[trigger]
                    both.0.collected.rules.contains_key(at)
                        <==> one.0.collected.rules.contains_key(at)
                        || two.0.collected.rules.contains_key(at)
                &&& forall|at: Seq<char>| #[trigger]
                    both.0.collected.generators.contains_key(at)
                        <==> one.0.collected.generators.contains_key(at)
                        || two.0.collected.generators.contains_key(at)
            }
            &&& one.1 is Err ==> both == one
        }),
{
    let start = nothing_built(message_name);
    let one = nested_fields(message, message_name, path, first, start, numbers).0;
    nested_fields_are_built_in_turn(message, message_name, path, first, second, start, numbers);
    nothing_is_joined(one.collected);
    nested_fields_add_to_what_is_collected(
        message,
        message_name,
        path,
        second,
        one.collected,
        nothing_collected(),
        start.message,
        one.message,
        numbers,
    );
}

/// The fields of a message are built one run behind the other, all from the path of the message.
pub proof fn fields_are_built_in_turn(
    message: DescriptorProto,
    message_name: Seq<char>,
    path: Seq<char>,
    first: Seq<(Seq<char>, ConfigValueView)>,
    second: Seq<(Seq<char>, ConfigValueView)>,
    build: BuildView,
    numbers: Seq<(String, FloatBits)>,
)
    ensures
        ({
            let (between, outcome) = constructed_fields(
                message,
                message_name,
                path,
                first,
                build,
                numbers,
            );
            constructed_fields(message, message_name, path, first + second, build, numbers) == (
            if outcome is Ok {
                constructed_fields(message, message_name, path, second, between, numbers)
            } else {
                (between, outcome)
            })
        }),
    decreases first.len(),
{
    if first.len() == 0 {
        assert(first + second =~= second);
    } else {
        let (key, value) = first[0];
        let after = constructed_field(
            message,
            message_name,
            path,
            key,
            value,
            build,
            numbers,
        ).0;
        assert((first + second)[0] == first[0]);
        assert((first + second).drop_first() =~= first.drop_first() + second);
        fields_are_built_in_turn(
            message,
            message_name,
            path,
            first.drop_first(),
            second,
            after,
            numbers,
        );
    }
}

/// One field of a message is built from the path of the message.
pub proof fn fields_are_built_from_the_path(
    message: DescriptorProto,
    message_name: Seq<char>,
    path: Seq<char>,
    key: Seq<char>,
    value: ConfigValueView,
    build: BuildView,
    numbers: Seq<(String, FloatBits)>,
)
    ensures
        constructed_fields(message, message_name, path, seq![(key, value)], build, numbers)
            == constructed_field(message, message_name, path, key, value, build, numbers),
        constructed_fields(message, message_name, path, Seq::empty(), build, numbers) == (
            build,
            Ok::<(), ErrorView>(()),
        ),
{
    let one = seq![(key, value)];
    assert(one.drop_first() =~= Seq::empty());
    let (after, outcome) = constructed_field(
        message,
        message_name,
        path,
        key,
        value,
        build,
        numbers,
    );
    assert(constructed_fields(message, message_name, path, one.drop_first(), after, numbers) == (
        after,
        Ok::<(), ErrorView>(()),
    ));
}

/// What the fields of a message add does not depend on each other: where the first run of them is
/// built, both runs together add just what each of them adds alone.
pub proof fn fields_add_what_each_adds_alone(
    message: DescriptorProto,
    message_name: Seq<char>,
    path: Seq<char>,
    first: Seq<(Seq<char>, ConfigValueView)>,
    second: Seq<(Seq<char>, ConfigValueView)>,
    numbers: Seq<(String, FloatBits)>,
)
    ensures
        ({
            let start = nothing_built(message_name);
            let one = constructed_fields(message, message_name, path, first, start, numbers);
            let two = constructed_fields(message, message_name, path, second, start, numbers);
            let both = constructed_fields(
                message,
                message_name,
                path,
                first + second,
                start,
                numbers,
            );
            &&& one.1 is Ok ==> {
                &&& both.1 == two.1
                &&& both.0.collected == joined(one.0.collected, two.0.collected)
            }
            &&& one.1 is Err ==> both == one
        }),
{
    let start = nothing_built(message_name);
    let one = constructed_fields(message, message_name, path, first, start, numbers).0;
    fields_are_built_in_turn(message, message_name, path, first, second, start, numbers);
    nothing_is_joined(one.collected);
    constructed_fields_add_to_what_is_collected(
        message,
        message_name,
        path,
        second,
        one.collected,
        nothing_collected(),
        start.message,
        one.message,
        numbers,
    );
}

} // verus!
