//! What is built below one path is built below another path in the same way.
use crate::descriptors::{first_field, DescriptorProto, FieldDescriptorProto};
use crate::error::ErrorView;
use crate::fields::{
    added_rules, built_field_value, built_message_value, constructed_field, defined_field_value,
    message_type_name, nested_fields, BuildView,
};
use crate::matching::{parsed_definition, DefinedRuleView, DefinitionView};
use crate::message_builder::{empty_message, FloatBits};
use crate::path::field_step;
use crate::protobuf::constructed_fields;
use crate::rules::{
    list_resolves, rules_at, rules_resolve, with_generator, with_rule,
    CollectedRuleView, CollectedView,
};
use crate::utils::nested_type_of;
use crate::value::{value_text, ConfigKindView, ConfigValueView};
use vstd::prelude::*;

verus! {

/// A path with its beginning `from` replaced by `to`.
pub open spec fn moved_path(path: Seq<char>, from: Seq<char>, to: Seq<char>) -> Seq<char> {
    to + path.skip(from.len() as int)
}

/// A map with the beginning `from` of each of its paths replaced by `to`.
pub open spec fn moved<V>(map: Map<Seq<char>, V>, from: Seq<char>, to: Seq<char>) -> Map<
    Seq<char>,
    V,
> {
    Map::new(
        |path: Seq<char>| to.is_prefix_of(path) && map.contains_key(moved_path(path, to, from)),
        |path: Seq<char>| map[moved_path(path, to, from)],
    )
}

/// An error with the beginning `from` of the path that it names, if any, replaced by `to`.
pub open spec fn moved_error(error: ErrorView, from: Seq<char>, to: Seq<char>) -> ErrorView {
    match error {
        ErrorView::UnexpectedReference { path, reference } => ErrorView::UnexpectedReference {
            path: moved_path(path, from, to),
            reference,
        },
        _ => error,
    }
}

/// Whether two outcomes are the same but for the beginning of the path that an error names.
pub open spec fn same_outcome<T>(
    first: Result<T, ErrorView>,
    second: Result<T, ErrorView>,
    from: Seq<char>,
    to: Seq<char>,
) -> bool {
    match (first, second) {
        (Ok(a), Ok(b)) => a == b,
        (Err(a), Err(b)) => b == moved_error(a, from, to),
        _ => false,
    }
}

/// Whether the same is collected at `rest` below one path and below another.
pub open spec fn alike_at(
    first: CollectedView,
    second: CollectedView,
    from: Seq<char>,
    to: Seq<char>,
    rest: Seq<char>,
) -> bool {
    &&& first.rules.contains_key(from + rest) == second.rules.contains_key(to + rest)
    &&& rules_at(first, from + rest) == rules_at(second, to + rest)
    &&& first.generators.contains_key(from + rest) == second.generators.contains_key(to + rest)
    &&& first.generators.contains_key(from + rest) ==> first.generators[from + rest]
        == second.generators[to + rest]
}

/// Whether the same is collected below one path and below another.
pub open spec fn alike(
    first: CollectedView,
    second: CollectedView,
    from: Seq<char>,
    to: Seq<char>,
) -> bool {
    forall|rest: Seq<char>| #[trigger] alike_at(first, second, from, to, rest)
}

/// Two paths with the same beginning are the same where what follows it is.
proof fn same_rest(from: Seq<char>, a: Seq<char>, b: Seq<char>)
    ensures
        from + a == from + b <==> a == b,
{
    if from + a == from + b {
        assert((from + a).skip(from.len() as int) =~= a);
        assert((from + b).skip(from.len() as int) =~= b);
    }
}

proof fn added_rules_are_alike(
    first: CollectedView,
    second: CollectedView,
    from: Seq<char>,
    to: Seq<char>,
    rest: Seq<char>,
    text: Seq<char>,
    rules: Seq<DefinedRuleView>,
    index: int,
)
    requires
        alike(first, second, from, to),
    ensures
        ({
            let one = added_rules(first, from + rest, text, rules, index);
            let two = added_rules(second, to + rest, text, rules, index);
            one.1 == two.1 && alike(one.0, two.0, from, to)
        }),
    decreases rules.len() - index,
{
    if 0 <= index < rules.len() {
        match rules[index] {
            DefinedRuleView::Rule { name, parts } => {
                let rule = CollectedRuleView { name, definition: text, index };
                let one = with_rule(first, from + rest, rule);
                let two = with_rule(second, to + rest, rule);
                assert forall|at: Seq<char>| #[trigger] alike_at(one, two, from, to, at) by {
                    assert(alike_at(first, second, from, to, at));
                    assert(alike_at(first, second, from, to, rest));
                    same_rest(from, at, rest);
                    same_rest(to, at, rest);
                }
                added_rules_are_alike(one, two, from, to, rest, text, rules, index + 1);
            },
            DefinedRuleView::Reference(_) => {},
        }
    }
}

proof fn defined_field_values_are_alike(
    first: CollectedView,
    second: CollectedView,
    from: Seq<char>,
    to: Seq<char>,
    rest: Seq<char>,
    field: FieldDescriptorProto,
    key: Seq<char>,
    text: Seq<char>,
    definition: DefinitionView,
    numbers: Seq<(String, FloatBits)>,
)
    requires
        alike(first, second, from, to),
    ensures
        ({
            let one = defined_field_value(
                from + rest,
                field,
                key,
                text,
                definition,
                first,
                numbers,
            );
            let two = defined_field_value(
                to + rest,
                field,
                key,
                text,
                definition,
                second,
                numbers,
            );
            same_outcome(one.1, two.1, from, to) && alike(one.0, two.0, from, to)
        }),
{
    added_rules_are_alike(first, second, from, to, rest, text, definition.rules, 0);
    assert(moved_path(from + rest, from, to) =~= to + rest);
    let a = added_rules(first, from + rest, text, definition.rules, 0).0;
    let b = added_rules(second, to + rest, text, definition.rules, 0).0;
    match definition.generator {
        Some(generator) => {
            let one = with_generator(a, from + rest, generator);
            let two = with_generator(b, to + rest, generator);
            assert forall|at: Seq<char>| #[trigger] alike_at(one, two, from, to, at) by {
                assert(alike_at(a, b, from, to, at));
                same_rest(from, at, rest);
                same_rest(to, at, rest);
            }
        },
        None => {},
    }
}

proof fn built_field_values_are_alike(
    first: CollectedView,
    second: CollectedView,
    from: Seq<char>,
    to: Seq<char>,
    rest: Seq<char>,
    field: FieldDescriptorProto,
    key: Seq<char>,
    value: ConfigValueView,
    numbers: Seq<(String, FloatBits)>,
)
    requires
        alike(first, second, from, to),
    ensures
        ({
            let one = built_field_value(from + rest, field, key, value, first, numbers);
            let two = built_field_value(to + rest, field, key, value, second, numbers);
            same_outcome(one.1, two.1, from, to) && alike(one.0, two.0, from, to)
        }),
{
    let step = field_step(key);
    assert((from + rest) + step =~= from + (rest + step));
    assert((to + rest) + step =~= to + (rest + step));
    match value_text(value) {
        Some(text) => {
            match parsed_definition(text) {
                Ok(definition) => {
                    defined_field_values_are_alike(
                        first,
                        second,
                        from,
                        to,
                        rest + step,
                        field,
                        key,
                        text,
                        definition,
                        numbers,
                    );
                },
                Err(_) => {},
            }
        },
        None => {},
    }
}

proof fn constructed_fields_of_a_key_are_alike(
    message: DescriptorProto,
    message_name: Seq<char>,
    from: Seq<char>,
    to: Seq<char>,
    rest: Seq<char>,
    key: Seq<char>,
    value: ConfigValueView,
    first: BuildView,
    second: BuildView,
    numbers: Seq<(String, FloatBits)>,
)
    requires
        first.message == second.message,
        alike(first.collected, second.collected, from, to),
    ensures
        ({
            let one = constructed_field(
                message,
                message_name,
                from + rest,
                key,
                value,
                first,
                numbers,
            );
            let two = constructed_field(
                message,
                message_name,
                to + rest,
                key,
                value,
                second,
                numbers,
            );
            &&& same_outcome(one.1, two.1, from, to)
            &&& one.0.message == two.0.message
            &&& alike(one.0.collected, two.0.collected, from, to)
        }),
    decreases value, 1int,
{
    match first_field(message.field@, key) {
        Some(field) => {
            built_message_values_are_alike(
                message,
                from,
                to,
                rest,
                field,
                key,
                value,
                first.collected,
                second.collected,
                numbers,
            );
            built_field_values_are_alike(
                first.collected,
                second.collected,
                from,
                to,
                rest,
                field,
                key,
                value,
                numbers,
            );
        },
        None => {},
    }
}

proof fn built_message_values_are_alike(
    message: DescriptorProto,
    from: Seq<char>,
    to: Seq<char>,
    rest: Seq<char>,
    field: FieldDescriptorProto,
    key: Seq<char>,
    value: ConfigValueView,
    first: CollectedView,
    second: CollectedView,
    numbers: Seq<(String, FloatBits)>,
)
    requires
        alike(first, second, from, to),
    ensures
        ({
            let one = built_message_value(
                message,
                from + rest,
                field,
                key,
                value,
                first,
                numbers,
            );
            let two = built_message_value(message, to + rest, field, key, value, second, numbers);
            same_outcome(one.1, two.1, from, to) && alike(one.0, two.0, from, to)
        }),
    decreases value, 0int,
{
    match value.kind {
        Some(ConfigKindView::StructValue(entries)) => {
            match nested_type_of(message, field) {
                Some(nested) => {
                    let name = message_type_name(nested);
                    nested_fields_are_alike(
                        nested,
                        name,
                        from,
                        to,
                        rest,
                        entries,
                        (BuildView { message: empty_message(name), collected: first }),
                        (BuildView { message: empty_message(name), collected: second }),
                        numbers,
                    );
                },
                None => {},
            }
        },
        _ => {},
    }
}

proof fn nested_fields_are_alike(
    message: DescriptorProto,
    message_name: Seq<char>,
    from: Seq<char>,
    to: Seq<char>,
    rest: Seq<char>,
    entries: Seq<(Seq<char>, ConfigValueView)>,
    first: BuildView,
    second: BuildView,
    numbers: Seq<(String, FloatBits)>,
)
    requires
        first.message == second.message,
        alike(first.collected, second.collected, from, to),
    ensures
        ({
            let one = nested_fields(message, message_name, from + rest, entries, first, numbers);
            let two = nested_fields(message, message_name, to + rest, entries, second, numbers);
            &&& same_outcome(one.1, two.1, from, to)
            &&& one.0.message == two.0.message
            &&& alike(one.0.collected, two.0.collected, from, to)
        }),
    decreases entries, 2int,
{
    if entries.len() > 0 {
        let (key, value) = entries[0];
        let step = field_step(key);
        assert((from + rest) + step =~= from + (rest + step));
        assert((to + rest) + step =~= to + (rest + step));
        constructed_fields_of_a_key_are_alike(
            message,
            message_name,
            from,
            to,
            rest + step,
            key,
            value,
            first,
            second,
            numbers,
        );
        let one = constructed_field(
            message,
            message_name,
            from + (rest + step),
            key,
            value,
            first,
            numbers,
        ).0;
        let two = constructed_field(
            message,
            message_name,
            to + (rest + step),
            key,
            value,
            second,
            numbers,
        ).0;
        nested_fields_are_alike(
            message,
            message_name,
            from,
            to,
            rest,
            entries.drop_first(),
            one,
            two,
            numbers,
        );
    }
}

/// Building the fields of a message below two paths gives the same message, collects the same below
/// the paths, and comes as far.
pub proof fn constructed_fields_are_alike(
    message: DescriptorProto,
    message_name: Seq<char>,
    from: Seq<char>,
    to: Seq<char>,
    entries: Seq<(Seq<char>, ConfigValueView)>,
    first: BuildView,
    second: BuildView,
    numbers: Seq<(String, FloatBits)>,
)
    requires
        first.message == second.message,
        alike(first.collected, second.collected, from, to),
    ensures
        ({
            let one = constructed_fields(message, message_name, from, entries, first, numbers);
            let two = constructed_fields(message, message_name, to, entries, second, numbers);
            &&& same_outcome(one.1, two.1, from, to)
            &&& one.0.message == two.0.message
            &&& alike(one.0.collected, two.0.collected, from, to)
        }),
    decreases entries.len(),
{
    if entries.len() > 0 {
        let (key, value) = entries[0];
        let none = Seq::<char>::empty();
        assert(from + none =~= from);
        assert(to + none =~= to);
        constructed_fields_of_a_key_are_alike(
            message,
            message_name,
            from,
            to,
            none,
            key,
            value,
            first,
            second,
            numbers,
        );
        let one = constructed_field(message, message_name, from, key, value, first, numbers).0;
        let two = constructed_field(message, message_name, to, key, value, second, numbers).0;
        constructed_fields_are_alike(
            message,
            message_name,
            from,
            to,
            entries.drop_first(),
            one,
            two,
            numbers,
        );
    }
}

/// What is collected below one path resolves where what is collected below the other does.
pub proof fn alike_rules_resolve(
    first: CollectedView,
    second: CollectedView,
    from: Seq<char>,
    to: Seq<char>,
)
    requires
        alike(first, second, from, to),
        forall|path: Seq<char>| #[trigger]
            second.rules.contains_key(path) ==> to.is_prefix_of(path),
        rules_resolve(first),
    ensures
        rules_resolve(second),
{
    assert forall|path: Seq<char>| #[trigger] second.rules.contains_key(path) implies list_resolves(
        second.rules[path],
    ) by {
        let rest = path.skip(to.len() as int);
        assert(path =~= to + rest);
        assert(alike_at(first, second, from, to, rest));
        assert(first.rules.contains_key(from + rest));
    }
}

/// Where the same is collected below two paths, and nothing beside them, the maps differ by the
/// beginnings of the paths.
pub proof fn alike_maps_are_moved<V>(
    first: Map<Seq<char>, V>,
    second: Map<Seq<char>, V>,
    from: Seq<char>,
    to: Seq<char>,
)
    requires
        forall|rest: Seq<char>| #[trigger]
            first.contains_key(from + rest) == second.contains_key(to + rest),
        forall|rest: Seq<char>|
            first.contains_key(from + rest) ==> #[trigger] first[from + rest] == second[to + rest],
        forall|path: Seq<char>| #[trigger] second.contains_key(path) ==> to.is_prefix_of(path),
    ensures
        second == moved(first, from, to),
{
    assert forall|path: Seq<char>|
        #![trigger second.dom().contains(path)]
        #![trigger moved(first, from, to).dom().contains(path)]
        {
            &&& second.dom().contains(path) == moved(first, from, to).dom().contains(path)
            &&& second.dom().contains(path) ==> second[path] == moved(first, from, to)[path]
        } by {
        if to.is_prefix_of(path) {
            let rest = path.skip(to.len() as int);
            assert(path =~= to + rest);
            assert(moved_path(path, to, from) == from + rest);
            assert(first.contains_key(from + rest) == second.contains_key(to + rest));
            if first.contains_key(from + rest) {
                assert(first[from + rest] == second[to + rest]);
            }
        } else {
            assert(!second.contains_key(path));
        }
    }
    assert(second =~= moved(first, from, to));
}

} // verus!
