//! Configuration values: the dynamically typed values of a Protobuf `Struct`.
use crate::text_map::{lookup, TextMap};
use pact_plugin_driver::utils;
use prost_types::value::Kind;
use prost_types::{ListValue, Struct};
use vstd::prelude::*;

verus! {

/// A configuration value, or nothing where its kind is not set.
pub struct ConfigValue {
    pub kind: Option<ConfigKind>,
}

/// The kinds of configuration values. A number is held by the text that it prints as.
pub enum ConfigKind {
    NullValue,
    NumberValue(String),
    StringValue(String),
    BoolValue(bool),
    StructValue(TextMap<ConfigValue>),
    ListValue(Vec<ConfigValue>),
}

/// The model of a [`ConfigValue`].
pub struct ConfigValueView {
    pub kind: Option<ConfigKindView>,
}

/// The model of a [`ConfigKind`].
pub enum ConfigKindView {
    NullValue,
    NumberValue(Seq<char>),
    StringValue(Seq<char>),
    BoolValue(bool),
    StructValue(Seq<(Seq<char>, ConfigValueView)>),
    ListValue(Seq<ConfigValueView>),
}

impl View for ConfigValue {
    type V = ConfigValueView;

    open spec fn view(&self) -> ConfigValueView
        decreases self,
    {
        ConfigValueView {
            kind: match self.kind {
                Some(kind) => Some(kind.view()),
                None => None,
            },
        }
    }
}

impl View for ConfigKind {
    type V = ConfigKindView;

    open spec fn view(&self) -> ConfigKindView
        decreases self,
    {
        match self {
            ConfigKind::NullValue => ConfigKindView::NullValue,
            ConfigKind::NumberValue(text) => ConfigKindView::NumberValue(text@),
            ConfigKind::StringValue(text) => ConfigKindView::StringValue(text@),
            ConfigKind::BoolValue(b) => ConfigKindView::BoolValue(*b),
            ConfigKind::StructValue(fields) => ConfigKindView::StructValue(
                entries_view(fields.entries@),
            ),
            ConfigKind::ListValue(items) => ConfigKindView::ListValue(items_view(items@)),
        }
    }
}

/// The models of keys and values.
pub open spec fn entries_view(entries: Seq<(String, ConfigValue)>) -> Seq<
    (Seq<char>, ConfigValueView),
>
    decreases entries,
{
    Seq::new(
        entries.len(),
        |i: int|
            if 0 <= i < entries.len() {
                (entries[i].0@, entries[i].1.view())
            } else {
                arbitrary()
            },
    )
}

/// The models of values.
pub open spec fn items_view(items: Seq<ConfigValue>) -> Seq<ConfigValueView>
    decreases items,
{
    Seq::new(
        items.len(),
        |i: int|
            if 0 <= i < items.len() {
                items[i].view()
            } else {
                arbitrary()
            },
    )
}

/// The model of the fields of a configuration, in their order.
pub open spec fn config_entries(config: TextMap<ConfigValue>) -> Seq<(Seq<char>, ConfigValueView)> {
    entries_view(config.entries@)
}

/// The model of a struct is the model of its fields.
pub proof fn struct_value_view(value: ConfigValue, fields: TextMap<ConfigValue>)
    requires
        value.kind == Some(ConfigKind::StructValue(fields)),
    ensures
        value@.kind == Some(ConfigKindView::StructValue(config_entries(fields))),
{
}

/// The value of the first entry with the given key.
pub open spec fn setting(entries: Seq<(Seq<char>, ConfigValueView)>, key: Seq<char>) -> Option<
    ConfigValueView,
>
    decreases entries.len(),
{
    if entries.len() == 0 {
        None
    } else if entries[0].0 == key {
        Some(entries[0].1)
    } else {
        setting(entries.drop_first(), key)
    }
}

/// The value of a key is the model of the value that a lookup of the key finds.
proof fn setting_is_looked_up(entries: Seq<(String, ConfigValue)>, key: Seq<char>)
    ensures
        setting(entries_view(entries), key) == (match lookup(entries, key) {
            Some(value) => Some(value@),
            None => None,
        }),
    decreases entries.len(),
{
    let viewed = entries_view(entries);
    if entries.len() > 0 {
        assert(viewed[0] == (entries[0].0@, entries[0].1@));
        setting_is_looked_up(entries.drop_first(), key);
        assert(viewed.drop_first() =~= entries_view(entries.drop_first()));
    }
}

/// The value of the given key.
pub fn get_setting<'a>(config: &'a TextMap<ConfigValue>, key: &str) -> (value: Option<
    &'a ConfigValue,
>)
    ensures
        match value {
            Some(v) => setting(config_entries(*config), key@) == Some(v@),
            None => setting(config_entries(*config), key@) is None,
        },
{
    proof {
        setting_is_looked_up(config.entries@, key@);
    }
    config.get(key)
}

/// The fields of the struct that is the value of the given key.
pub open spec fn struct_setting(
    entries: Seq<(Seq<char>, ConfigValueView)>,
    key: Seq<char>,
) -> Option<Seq<(Seq<char>, ConfigValueView)>> {
    match setting(entries, key) {
        Some(value) => match value.kind {
            Some(ConfigKindView::StructValue(fields)) => Some(fields),
            _ => None,
        },
        None => None,
    }
}

/// The fields of the struct that is the value of the given key.
pub fn get_struct<'a>(config: &'a TextMap<ConfigValue>, key: &str) -> (fields: Option<
    &'a TextMap<ConfigValue>,
>)
    ensures
        match fields {
            Some(map) => struct_setting(config_entries(*config), key@) == Some(
                config_entries(*map),
            ),
            None => struct_setting(config_entries(*config), key@) is None,
        },
{
    match get_setting(config, key) {
        Some(value) => match &value.kind {
            Some(kind) => match kind {
                ConfigKind::StructValue(fields) => {
                    proof {
                        struct_value_view(*value, *fields);
                    }
                    Some(fields)
                },
                _ => None,
            },
            None => None,
        },
        None => None,
    }
}

/// A Protobuf value as the `prost-types` crate holds it.
#[verifier::external_type_specification]
#[verifier::external_body]
pub struct ExProtoValue(prost_types::Value);

/// The text that `pact_plugin_driver::utils::proto_value_to_string` gives for a struct or a list:
/// compact JSON, with the members of a struct in the order of their names.
pub uninterp spec fn json_text(value: ConfigValueView) -> Seq<char>;

/// The text of a value: what a string holds, what a number or a Boolean prints as, and JSON for a
/// struct or a list. A null value and a value without a kind have none.
pub open spec fn value_text(value: ConfigValueView) -> Option<Seq<char>> {
    match value.kind {
        None | Some(ConfigKindView::NullValue) => None,
        Some(ConfigKindView::NumberValue(text)) => Some(text),
        Some(ConfigKindView::StringValue(text)) => Some(text),
        Some(ConfigKindView::BoolValue(b)) => Some(
            if b {
                "true"@
            } else {
                "false"@
            },
        ),
        Some(ConfigKindView::StructValue(_)) | Some(ConfigKindView::ListValue(_)) => Some(
            json_text(value),
        ),
    }
}

/// The same value as a `prost_types::Value`, kind for kind. A number is read from its text by
/// `serde_json` and made a value by `pact_plugin_driver::utils::to_proto_value`; a text that is no
/// JSON number, such as that of an infinite number, becomes a null, as JSON has it.
#[verifier::external_body]
fn to_prost(value: &ConfigValue) -> prost_types::Value {
    let kind = value.kind.as_ref().map(|kind| match kind {
        ConfigKind::NullValue => Kind::NullValue(0),
        ConfigKind::NumberValue(n) => {
            let json = serde_json::from_str(n).unwrap_or_default();
            utils::to_proto_value(&json).kind.unwrap_or(Kind::NullValue(0))
        },
        ConfigKind::StringValue(s) => Kind::StringValue(s.clone()),
        ConfigKind::BoolValue(b) => Kind::BoolValue(*b),
        ConfigKind::StructValue(map) => Kind::StructValue(Struct {
            fields: map.entries.iter().map(|(k, v)| (k.clone(), to_prost(v))).collect(),
        }),
        ConfigKind::ListValue(l) => Kind::ListValue(ListValue { values: l.iter().map(to_prost).collect() }),
    });
    prost_types::Value { kind }
}

/// `pact_plugin_driver::utils::proto_value_to_string` on a struct or a list. The text depends on
/// nothing but the value.
#[verifier::external_body]
fn print_json(value: &ConfigValue) -> (text: String)
    requires
        value.kind is Some && (value.kind->0 is StructValue || value.kind->0 is ListValue),
    ensures
        text@ == json_text(value@),
{
    utils::proto_value_to_string(&to_prost(value)).unwrap_or_default()
}

/// The text of a value: what a string holds, what a number or a Boolean prints as, and JSON for a
/// struct or a list. A null value and a value without a kind have none.
pub fn proto_value_to_string(value: &ConfigValue) -> (text: Option<String>)
    ensures
        match text {
            Some(t) => value_text(value@) == Some(t@),
            None => value_text(value@) is None,
        },
{
    match &value.kind {
        None => None,
        Some(kind) => match kind {
            ConfigKind::NullValue => None,
            ConfigKind::NumberValue(text) => Some(text.clone()),
            ConfigKind::StringValue(text) => Some(text.clone()),
            ConfigKind::BoolValue(b) => Some(
                if *b {
                    "true".to_owned()
                } else {
                    "false".to_owned()
                },
            ),
            ConfigKind::StructValue(_) => Some(print_json(value)),
            ConfigKind::ListValue(_) => Some(print_json(value)),
        },
    }
}

} // verus!
