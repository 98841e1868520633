use pact_protobuf_plugin::descriptors::{DescriptorProto, FieldDescriptorProto, FileDescriptorProto};
use pact_protobuf_plugin::error::Error;
use pact_protobuf_plugin::fields::value_for_type;
use pact_protobuf_plugin::interaction::InteractionResponse;
use pact_protobuf_plugin::message_builder::RType;
use pact_protobuf_plugin::protobuf::{
    configure_protobuf_message, construct_protobuf_interaction_for_message, message_has_outcome,
};
use pact_protobuf_plugin::text_map::TextMap;
use pact_protobuf_plugin::value::{ConfigKind, ConfigValue};

fn field(name: &str, number: i32, type_number: i32, named_type: &str) -> FieldDescriptorProto {
    FieldDescriptorProto {
        name: Some(name.to_string()),
        number: Some(number),
        label: None,
        type_number: Some(type_number),
        named_type: Some(named_type.to_string()),
    }
}

fn text(value: &str) -> ConfigValue {
    ConfigValue { kind: Some(ConfigKind::StringValue(value.to_string())) }
}

fn config(entries: Vec<(&str, ConfigValue)>) -> TextMap<ConfigValue> {
    let mut map = TextMap::new();
    for (key, value) in entries {
        map.insert(key.to_string(), value);
    }
    map
}

fn map(entries: Vec<(&str, ConfigValue)>) -> ConfigValue {
    ConfigValue { kind: Some(ConfigKind::StructValue(config(entries))) }
}

fn test_message() -> DescriptorProto {
    DescriptorProto {
        name: Some("test_message".to_string()),
        field: vec![
            field("implementation", 1, 9, "string"),
            field("version", 2, 9, "string"),
            field("length", 3, 3, "int64"),
            field("hash", 4, 4, "uint64"),
        ],
        nested_type: vec![],
    }
}

fn rule_names(interaction: &InteractionResponse) -> Vec<(String, Vec<String>)> {
    interaction.rules.entries.iter()
        .map(|(path, rules)| (path.clone(), rules.iter().map(|rule| rule.name.clone()).collect()))
        .collect()
}

fn content(interaction: &InteractionResponse) -> Vec<u8> {
    interaction.contents.as_ref().unwrap().content.clone().unwrap()
}

#[test]
fn value_for_type_test() {
    let descriptor = FieldDescriptorProto {
        name: None,
        number: None,
        label: None,
        type_number: Some(9),
        named_type: Some("test".to_string()),
    };
    let result = value_for_type("test", "test", &descriptor, &TextMap::new()).unwrap();
    assert_eq!(result.name, "test");
    assert_eq!(result.raw_value, Some("test".to_string()));
    assert_eq!(result.rtype, RType::String("test".to_string()));

    let descriptor = FieldDescriptorProto {
        name: None,
        number: None,
        label: None,
        type_number: Some(4),
        named_type: Some("uint64".to_string()),
    };
    let result = value_for_type("test", "100", &descriptor, &TextMap::new()).unwrap();
    assert_eq!(result.name, "test");
    assert_eq!(result.raw_value, Some("100".to_string()));
    assert_eq!(result.rtype, RType::UInteger64(100));
}

#[test]
fn construct_protobuf_interaction_for_message_test() {
    let message_descriptor = test_message();
    let config = config(vec![
        ("implementation", text("notEmpty('plugin-driver-rust')")),
        ("version", text("matching(semver, '0.0.0')")),
        ("hash", text("matching(integer, 1234)")),
    ]);

    let result = construct_protobuf_interaction_for_message(
        &message_descriptor, &config, "test_message", "", &TextMap::new()).unwrap();

    let body = result.contents.as_ref().unwrap();
    assert_eq!(body.content_type.as_str(), "application/protobuf;message=test_message");
    assert_eq!(body.content_type_hint, 2);
    assert_eq!(body.content.as_ref(), Some(&vec![
        10, // field 1 length encoded (1 << 3 + 2 == 10)
        18, // 18 bytes
        112, 108, 117, 103, 105, 110, 45, 100, 114, 105, 118, 101, 114, 45, 114, 117, 115, 116,
        18, // field 2 length encoded (2 << 3 + 2 == 18)
        5, // 5 bytes
        48, 46, 48, 46, 48,
        32, // field 4 varint encoded (4 << 3 + 0 == 32)
        210, 9 // 9 << 7 + 210 == 1234
    ]));

    let mut rules = vec![];
    for (path, list) in &result.rules.entries {
        for rule in list {
            rules.push((path.as_str(), rule.name.as_str(), rule.values.is_none()));
        }
    }
    assert_eq!(rules, vec![
        ("$.hash", "integer", true),
        ("$.implementation", "not-empty", true),
        ("$.version", "semver", true),
    ]);

    assert!(result.generators.entries.is_empty());

    assert_eq!(result.interaction_markup_type, 0);
    assert_eq!(result.interaction_markup, "```protobuf
message test_message {
    string implementation = 1;
    string version = 2;
    uint64 hash = 4;
}
```
");
}

#[test]
fn an_interaction_names_its_part() {
    let config = config(vec![("hash", text("matching(integer, 1)"))]);
    let result = construct_protobuf_interaction_for_message(
        &test_message(), &config, "test_message", "request", &TextMap::new()).unwrap();
    assert_eq!(result.part_name, "request");
    assert_eq!(rule_names(&result),
        vec![("$.request.hash".to_string(), vec!["integer".to_string()])]);
    assert!(result.plugin_configuration.is_none());
}

#[test]
fn settings_of_the_plugin_make_no_difference() {
    let plain = config(vec![("hash", text("matching(integer, 1234)"))]);
    let more = config(vec![
        ("hash", text("matching(integer, 1234)")),
        ("pact:content-type", text("application/protobuf")),
        ("pact:proto", text("plugin.proto")),
    ]);
    let message = test_message();
    let one = construct_protobuf_interaction_for_message(
        &message, &plain, "test_message", "", &TextMap::new()).unwrap();
    let two = construct_protobuf_interaction_for_message(
        &message, &more, "test_message", "", &TextMap::new()).unwrap();
    assert_eq!(content(&one), content(&two));
    assert_eq!(rule_names(&one), rule_names(&two));
    assert_eq!(one.interaction_markup, two.interaction_markup);
}

#[test]
fn a_null_leaves_a_field_out() {
    let config = config(vec![
        ("hash", text("matching(integer, 1)")),
        ("version", ConfigValue { kind: Some(ConfigKind::NullValue) }),
    ]);
    let result = construct_protobuf_interaction_for_message(
        &test_message(), &config, "test_message", "", &TextMap::new()).unwrap();
    assert_eq!(content(&result), vec![32, 1]);
    assert_eq!(result.rules.entries.len(), 1);
}

#[test]
fn rules_and_generators_have_their_values() {
    let config = config(vec![("version", text("matching(datetime, 'yyyy-MM-dd', '2000-01-01')"))]);
    let result = construct_protobuf_interaction_for_message(
        &test_message(), &config, "test_message", "", &TextMap::new()).unwrap();
    assert_eq!(content(&result), vec![18, 10, 50, 48, 48, 48, 45, 48, 49, 45, 48, 49]);
    let rule = &result.rules.get("$.version").unwrap()[0];
    assert_eq!(rule.name, "datetime");
    assert_eq!(rule.values.as_ref().unwrap().entries,
        vec![("format".to_string(), "\"yyyy-MM-dd\"".to_string())]);
    let generator = result.generators.get("$.version").unwrap();
    assert_eq!(generator.name, "DateTime");
    assert_eq!(generator.values.as_ref().unwrap().get("format"),
        Some(&"\"yyyy-MM-dd\"".to_string()));
}

#[test]
fn values_are_listed_in_the_order_of_their_keys() {
    let config = config(vec![("version", text("eachKey(matching(type, 'a'))"))]);
    let result = construct_protobuf_interaction_for_message(
        &test_message(), &config, "test_message", "", &TextMap::new()).unwrap();
    let rule = &result.rules.get("$.version").unwrap()[0];
    assert_eq!(rule.name, "each-key");
    let values = &rule.values.as_ref().unwrap().entries;
    assert_eq!(values.iter().map(|(key, _)| key.as_str()).collect::<Vec<_>>(),
        vec!["rules", "value"]);
    assert_eq!(values[1].1, "\"a\"");
}

#[test]
fn parts_differ_by_their_paths() {
    let entries = || config(vec![
        ("hash", text("matching(integer, 1234)")),
        ("version", text("matching(datetime, 'yyyy', '2000')")),
    ]);
    let message = test_message();
    let one = construct_protobuf_interaction_for_message(
        &message, &entries(), "M", "request", &TextMap::new()).unwrap();
    let two = construct_protobuf_interaction_for_message(
        &message, &entries(), "M", "other part", &TextMap::new()).unwrap();
    assert_eq!(content(&one), content(&two));
    assert_eq!(one.interaction_markup, two.interaction_markup);
    let moved = |path: &String| path.replacen("$.request", "$['other part']", 1);
    let names = rule_names(&one).iter()
        .map(|(path, rules)| (moved(path), rules.clone())).collect::<Vec<_>>();
    assert_eq!(names, rule_names(&two));
    assert_eq!(moved(&one.generators.entries[0].0), two.generators.entries[0].0);
    assert_eq!(one.generators.entries[0].1.name, two.generators.entries[0].1.name);
    let refused = |part: &str| match construct_protobuf_interaction_for_message(
        &message, &config(vec![("hash", text("matching($'x')"))]), "M", part, &TextMap::new()) {
        Ok(_) => panic!("expected an error"),
        Err(Error::UnexpectedReference { path, .. }) => path,
        Err(_) => panic!("expected another error"),
    };
    assert_eq!(moved(&refused("request")), refused("other part"));
}

#[test]
fn two_rules_of_a_field_are_listed_in_their_order() {
    let config = config(vec![
        ("version", text("matching(semver, '1.0.0'), matching(type, '1.0.0')")),
    ]);
    let result = construct_protobuf_interaction_for_message(
        &test_message(), &config, "test_message", "", &TextMap::new()).unwrap();
    assert_eq!(rule_names(&result),
        vec![("$.version".to_string(), vec!["semver".to_string(), "type".to_string()])]);
}

fn outer_message() -> DescriptorProto {
    DescriptorProto {
        name: Some("Outer".to_string()),
        field: vec![field("tail", 2, 8, ""), field("inner", 1, 11, ".pkg.Outer.Inner")],
        nested_type: vec![
            DescriptorProto {
                name: Some("Inner".to_string()),
                field: vec![field("count", 7, 5, "")],
                nested_type: vec![],
            },
        ],
    }
}

#[test]
fn messages_inside_of_messages_are_built() {
    let config = config(vec![
        ("inner", map(vec![("count", text("matching(integer, 300)"))])),
        ("tail", text("matching(boolean, true)")),
    ]);
    let result = construct_protobuf_interaction_for_message(
        &outer_message(), &config, "Outer", "", &TextMap::new()).unwrap();
    assert_eq!(content(&result), vec![10, 3, 56, 172, 2, 16, 1]);
    assert_eq!(rule_names(&result), vec![
        ("$.count.count".to_string(), vec!["integer".to_string()]),
        ("$.tail".to_string(), vec!["boolean".to_string()]),
    ]);
    assert_eq!(result.interaction_markup, "```protobuf
message Outer {
    message Inner {
        int32 count = 7;
    }
    Inner inner = 1;
    bool tail = 2;
}
```
");
}

#[test]
fn repeated_messages_are_empty() {
    let mut message = outer_message();
    message.field[1].label = Some(3);
    let config = config(vec![("inner", map(vec![("count", text("matching(integer, 300)"))]))]);
    let result = construct_protobuf_interaction_for_message(
        &message, &config, "Outer", "", &TextMap::new()).unwrap();
    assert_eq!(content(&result), vec![10, 0]);
    assert!(result.rules.entries.is_empty());
    assert!(result.interaction_markup.contains("    repeated Inner inner = 1;\n"));
}

#[test]
fn fields_are_in_the_order_of_their_numbers() {
    let config = config(vec![
        ("hash", text("matching(integer, 1)")),
        ("implementation", text("notEmpty('a')")),
        ("length", text("matching(integer, 2)")),
    ]);
    let result = construct_protobuf_interaction_for_message(
        &test_message(), &config, "test_message", "", &TextMap::new()).unwrap();
    assert_eq!(content(&result), vec![10, 1, 97, 24, 2, 32, 1]);
}

fn refused(message: &DescriptorProto, entries: Vec<(&str, ConfigValue)>) -> Error {
    match construct_protobuf_interaction_for_message(
        message, &config(entries), "M", "", &TextMap::new()) {
        Ok(_) => panic!("expected an error"),
        Err(error) => error,
    }
}

#[test]
fn configurations_are_refused() {
    let message = test_message();
    assert_eq!(refused(&message, vec![("other", text("notEmpty('a')"))]).message(),
        "Message M has no field other");
    let mut untyped = test_message();
    untyped.field[3].type_number = None;
    assert_eq!(refused(&untyped, vec![("hash", text("notEmpty('a')"))]).message(),
        "Message M field hash is of an unknown type");
    assert_eq!(refused(&message, vec![("hash", ConfigValue { kind: None })]).message(),
        "Field 'hash' has an unknown type, can not do anything with it");
    assert_eq!(refused(&outer_message(), vec![("inner", ConfigValue { kind: None })]).message(),
        "Field 'inner' has an unknown type, can not do anything with it");
    assert_eq!(refused(&outer_message(), vec![("inner", text("notEmpty('a')"))]).message(),
        "Message field 'inner' must be configured with a map structure");
    let mut homeless = outer_message();
    homeless.nested_type = vec![];
    assert_eq!(refused(&homeless, vec![("inner", map(vec![]))]).message(),
        "Did not find the nested type for field 'inner'");
    assert_eq!(refused(&message, vec![("version", text("matching($'thing')"))]).message(),
        "Was expecting a value for '$.version', but got a matching reference \
MatchingReference { name: \"thing\" }");
    assert!(matches!(refused(&message, vec![("version", text("nonsense"))]),
        Error::InvalidDefinition { .. }));
    assert_eq!(refused(&message, vec![("hash", text("notEmpty('a')"))]),
        Error::InvalidValue {
            field: "hash".to_string(),
            value: "a".to_string(),
            field_type: pact_protobuf_plugin::descriptors::FieldType::Uint64,
        });
    let mut unnumbered = test_message();
    unnumbered.field[3].number = None;
    assert_eq!(refused(&unnumbered, vec![("hash", text("matching(integer, 1)"))]),
        Error::InvalidFieldNumber { field: "hash".to_string() });
    let mut enumerated = test_message();
    enumerated.field[3].type_number = Some(14);
    assert_eq!(refused(&enumerated, vec![("hash", text("notEmpty('a')"))]).message(),
        "Protobuf field hash has an unsupported type Enum");
}

#[test]
fn rules_with_unresolved_references_have_no_outcome() {
    let unresolved = config(vec![("version", text("eachKey(matching($'thing'))"))]);
    assert!(!message_has_outcome(&test_message(), &unresolved, "M", "", &TextMap::new()));
    let resolved = config(vec![("version", text("eachKey(matching(type, 'a'))"))]);
    assert!(message_has_outcome(&test_message(), &resolved, "M", "", &TextMap::new()));
}

#[test]
fn the_name_of_the_message_is_stored() {
    let file = FileDescriptorProto {
        name: Some("test.proto".to_string()),
        message_type: vec![test_message()],
        service: vec![],
    };
    let config = config(vec![("hash", text("matching(integer, 1)"))]);
    let result = configure_protobuf_message(
        "test_message", &config, &file, "abc", &TextMap::new()).unwrap();
    let stored = result.plugin_configuration.unwrap().interaction_configuration.unwrap();
    let texts: Vec<(String, String)> = stored.entries.into_iter().map(|(key, value)| {
        match value.kind {
            Some(ConfigKind::StringValue(text)) => (key, text),
            _ => panic!("expected a text"),
        }
    }).collect();
    assert_eq!(texts, vec![
        ("descriptorKey".to_string(), "abc".to_string()),
        ("message".to_string(), "test_message".to_string()),
    ]);
    match configure_protobuf_message("other", &config, &file, "abc", &TextMap::new()) {
        Ok(_) => panic!("expected an error"),
        Err(error) => assert_eq!(error.message(), "Did not find a descriptor for message 'other'"),
    }
}
