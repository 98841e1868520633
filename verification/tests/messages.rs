use pact_protobuf_plugin::descriptors::{DescriptorProto, FieldDescriptorProto, FieldType};
use pact_protobuf_plugin::error::Error;
use pact_protobuf_plugin::fields::{build_field_value, use_definition, value_for_type};
use pact_protobuf_plugin::matching::{
    rule_resolves, says_values, DefinedRule, Definition, NamedValues,
};
use pact_protobuf_plugin::message_builder::{
    FloatBits, MessageBuilder, MessageFieldValue, RType,
};
use pact_protobuf_plugin::path::DocPath;
use pact_protobuf_plugin::rules::{values_or_none, Collected};
use pact_protobuf_plugin::text_map::TextMap;
use pact_protobuf_plugin::utils::{find_nested_type, is_repeated, last_name};
use pact_protobuf_plugin::value::{proto_value_to_string, ConfigKind, ConfigValue};

fn field(number: Option<i32>, type_number: i32) -> FieldDescriptorProto {
    FieldDescriptorProto {
        name: None,
        number,
        label: None,
        type_number: Some(type_number),
        named_type: None,
    }
}

fn value_of(text: &str, type_number: i32) -> Result<RType, Error> {
    value_for_type("f", text, &field(None, type_number), &numbers()).map(|value| value.rtype)
}

fn numbers() -> TextMap<FloatBits> {
    let mut numbers = TextMap::new();
    numbers.insert("2.5".to_string(),
        FloatBits { double: Some(2.5f64.to_bits()), float: Some(2.5f32.to_bits()) });
    numbers.insert("x".to_string(), FloatBits { double: None, float: None });
    numbers
}

fn encoded(type_number: i32, rtype: RType) -> Vec<u8> {
    let mut builder = MessageBuilder::new("M");
    builder.set_field(&field(Some(1), type_number), "f",
        MessageFieldValue { name: "f".to_string(), raw_value: None, rtype });
    builder.encode_message().unwrap()
}

#[test]
fn values_are_read_by_their_types() {
    assert_eq!(value_of("2.5", 1).unwrap(), RType::Double(2.5f64.to_bits()));
    assert_eq!(value_of("2.5", 2).unwrap(), RType::Float(2.5f32.to_bits()));
    for type_number in [3, 16, 18] {
        assert_eq!(value_of("-9223372036854775808", type_number).unwrap(), RType::Integer64(i64::MIN));
    }
    for type_number in [4, 6] {
        assert_eq!(value_of("18446744073709551615", type_number).unwrap(), RType::UInteger64(u64::MAX));
    }
    for type_number in [5, 15, 17] {
        assert_eq!(value_of("-2147483648", type_number).unwrap(), RType::Integer32(i32::MIN));
    }
    for type_number in [7, 13] {
        assert_eq!(value_of("+4294967295", type_number).unwrap(), RType::UInteger32(u32::MAX));
    }
    assert_eq!(value_of("true", 8).unwrap(), RType::Boolean(true));
    assert_eq!(value_of("false", 8).unwrap(), RType::Boolean(false));
    assert_eq!(value_of("h\u{e9}", 9).unwrap(), RType::String("h\u{e9}".to_string()));
    assert_eq!(value_of("h\u{e9}", 12).unwrap(), RType::Bytes(vec![104, 0xc3, 0xa9]));
}

#[test]
fn values_are_refused_by_their_types() {
    let invalid = |text: &str, type_number: i32, field_type: FieldType| assert_eq!(
        value_of(text, type_number),
        Err(Error::InvalidValue { field: "f".to_string(), value: text.to_string(), field_type }));
    invalid("x", 1, FieldType::Double);
    invalid("x", 2, FieldType::Float);
    invalid("9223372036854775808", 3, FieldType::Int64);
    invalid("-1", 4, FieldType::Uint64);
    invalid("2147483648", 5, FieldType::Int32);
    invalid("4294967296", 13, FieldType::Uint32);
    invalid("True", 8, FieldType::Bool);
    invalid("", 3, FieldType::Int64);
    invalid("-", 3, FieldType::Int64);
    assert_eq!(value_of("x", 1).unwrap_err().message(), "Value 'x' of field 'f' is not a valid double");
    assert_eq!(value_of("3.5", 1), Err(Error::NumberNotRead { text: "3.5".to_string() }));
    assert_eq!(value_of("3.5", 2).unwrap_err().message(),
        "The floating-point number '3.5' was not read");
    for (type_number, name) in [(10, "Group"), (11, "Message"), (14, "Enum")] {
        assert_eq!(value_of("a", type_number).unwrap_err().message(),
            format!("Protobuf field f has an unsupported type {}", name));
    }
    assert_eq!(value_of("2.5", 99).unwrap(), RType::Double(2.5f64.to_bits()));
}

#[test]
fn integers_are_read_back() {
    for n in [i64::MIN, -1, 0, 1, 1234567890123, i64::MAX] {
        assert_eq!(value_of(&n.to_string(), 3).unwrap(), RType::Integer64(n));
    }
    for n in [i32::MIN, -10, 0, i32::MAX] {
        assert_eq!(value_of(&n.to_string(), 17).unwrap(), RType::Integer32(n));
    }
}

#[test]
fn values_are_encoded_by_their_types() {
    assert_eq!(encoded(9, RType::String("abc".to_string())), vec![10, 3, 97, 98, 99]);
    assert_eq!(encoded(8, RType::Boolean(true)), vec![8, 1]);
    assert_eq!(encoded(8, RType::Boolean(false)), vec![8, 0]);
    assert_eq!(encoded(13, RType::UInteger32(300)), vec![8, 172, 2]);
    assert_eq!(encoded(7, RType::UInteger32(300)), vec![13, 44, 1, 0, 0]);
    assert_eq!(encoded(5, RType::Integer32(-1)),
        vec![8, 255, 255, 255, 255, 255, 255, 255, 255, 255, 1]);
    assert_eq!(encoded(15, RType::Integer32(-2)), vec![13, 254, 255, 255, 255]);
    assert_eq!(encoded(17, RType::Integer32(-2)), vec![8, 3]);
    assert_eq!(encoded(4, RType::UInteger64(u64::MAX)),
        vec![8, 255, 255, 255, 255, 255, 255, 255, 255, 255, 1]);
    assert_eq!(encoded(6, RType::UInteger64(1)), vec![9, 1, 0, 0, 0, 0, 0, 0, 0]);
    assert_eq!(encoded(3, RType::Integer64(150)), vec![8, 150, 1]);
    assert_eq!(encoded(16, RType::Integer64(-1)), vec![9, 255, 255, 255, 255, 255, 255, 255, 255]);
    assert_eq!(encoded(18, RType::Integer64(2)), vec![8, 4]);
    assert_eq!(encoded(2, RType::Float(1.0f32.to_bits())), vec![13, 0, 0, 128, 63]);
    assert_eq!(encoded(1, RType::Double(1.0f64.to_bits())), vec![9, 0, 0, 0, 0, 0, 0, 240, 63]);
    assert_eq!(encoded(12, RType::Bytes(vec![1, 2])), vec![10, 2, 1, 2]);
    assert_eq!(encoded(11, RType::Message(Box::new(MessageBuilder::new("N")))), vec![10, 0]);
}

fn number(n: u64) -> MessageFieldValue {
    MessageFieldValue { name: String::new(), raw_value: None, rtype: RType::UInteger64(n) }
}

#[test]
fn a_field_that_is_set_again_is_replaced() {
    let mut builder = MessageBuilder::new("M");
    builder.set_field(&field(Some(2), 4), "b", number(1));
    builder.set_field(&field(Some(1), 4), "a", number(2));
    builder.set_field(&field(Some(2), 4), "b", number(3));
    assert_eq!(builder.encode_message().unwrap(), vec![8, 2, 16, 3]);
    let mut once = MessageBuilder::new("M");
    once.set_field(&field(Some(1), 4), "a", number(2));
    once.set_field(&field(Some(2), 4), "b", number(3));
    assert_eq!(builder, once);
}

#[test]
fn repeated_fields_gather_values() {
    let mut repeated = field(Some(3), 4);
    repeated.label = Some(3);
    assert!(is_repeated(&repeated));
    let mut builder = MessageBuilder::new("M");
    builder.add_repeated_field_value(&repeated, "r", number(1));
    builder.set_field(&field(Some(1), 4), "a", number(9));
    builder.add_repeated_field_value(&repeated, "r", number(2));
    assert_eq!(builder.encode_message().unwrap(), vec![8, 9, 24, 1, 24, 2]);
    assert_eq!(builder.generate_markup("  ").unwrap(),
        "  message M {\n      uint64 a = 1;\n      repeated uint64 r = 3;\n  }\n");
}

#[test]
fn field_numbers_are_checked() {
    for n in [None, Some(0), Some(-1), Some(536870912)] {
        let mut builder = MessageBuilder::new("M");
        builder.set_field(&field(n, 4), "a", number(9));
        let error = Error::InvalidFieldNumber { field: "a".to_string() };
        assert_eq!(error.message(), "Field 'a' does not have a valid field number");
        assert_eq!(builder.encode_message(), Err(error));
        assert!(builder.generate_markup("").is_err());
    }
    let mut builder = MessageBuilder::new("M");
    builder.set_field(&field(Some(536870911), 4), "a", number(9));
    assert_eq!(builder.encode_message().unwrap(), vec![0xf8, 0xff, 0xff, 0xff, 0x0f, 9]);
    let mut outer = MessageBuilder::new("O");
    let mut inner = MessageBuilder::new("I");
    inner.set_field(&field(None, 4), "deep", number(9));
    outer.set_field(&field(Some(1), 11), "m", MessageFieldValue {
        name: "m".to_string(),
        raw_value: None,
        rtype: RType::Message(Box::new(inner)),
    });
    assert_eq!(outer.encode_message(), Err(Error::InvalidFieldNumber { field: "deep".to_string() }));
}

#[test]
fn values_have_texts() {
    let text_of = |kind: ConfigKind| proto_value_to_string(&ConfigValue { kind: Some(kind) });
    assert_eq!(text_of(ConfigKind::NullValue), None);
    assert_eq!(proto_value_to_string(&ConfigValue { kind: None }), None);
    assert_eq!(text_of(ConfigKind::NumberValue("1.5".to_string())), Some("1.5".to_string()));
    assert_eq!(text_of(ConfigKind::StringValue("a".to_string())), Some("a".to_string()));
    assert_eq!(text_of(ConfigKind::BoolValue(true)), Some("true".to_string()));
    assert_eq!(text_of(ConfigKind::BoolValue(false)), Some("false".to_string()));
    let item = |kind: ConfigKind| ConfigValue { kind: Some(kind) };
    let mut fields = TextMap::new();
    fields.insert("b".to_string(), item(ConfigKind::StringValue("x\"y".to_string())));
    fields.insert("a".to_string(), item(ConfigKind::ListValue(vec![
        item(ConfigKind::BoolValue(true)),
        item(ConfigKind::NullValue),
        item(ConfigKind::NumberValue("0.5".to_string())),
    ])));
    assert_eq!(text_of(ConfigKind::StructValue(fields)),
        Some("{\"a\":[true,null,0.5],\"b\":\"x\\\"y\"}".to_string()));
    assert_eq!(text_of(ConfigKind::ListValue(vec![])), Some("[]".to_string()));
}

#[test]
fn paths_quote_names_that_are_no_identifiers() {
    let mut path = DocPath::root();
    assert_eq!(path.expr, "$");
    path.push_field("a_1");
    assert_eq!(path.expr, "$.a_1");
    assert_eq!(path.field("b c").expr, "$.a_1['b c']");
    assert_eq!(path.field("1b").expr, "$.a_1['1b']");
    assert_eq!(path.field("it's").expr, "$.a_1['it\\'s']");
    assert_eq!(path.field("").expr, "$.a_1['']");
}

#[test]
fn definitions_are_used() {
    let definition = |rules| Definition {
        value: "7".to_string(),
        rules,
        generator: Some(NamedValues { name: "RandomInt".to_string(), values: TextMap::new() }),
    };
    let rule = |name: &str| DefinedRule::Rule { name: name.to_string(), parts: vec![] };
    let path = DocPath::root();
    let mut collected = Collected::new();
    let value = use_definition(&path, &field(Some(1), 5), "f", "text",
        definition(vec![rule("one"), rule("two")]), &mut collected, &TextMap::new()).unwrap();
    assert_eq!(value.rtype, RType::Integer32(7));
    let rules = collected.rules.get("$").unwrap();
    assert_eq!(rules.len(), 2);
    assert_eq!((rules[1].name.as_str(), rules[1].definition.as_str(), rules[1].index), ("two", "text", 1));
    assert_eq!(collected.generators.get("$").unwrap().name, "RandomInt");

    let mut collected = Collected::new();
    let refused = use_definition(&path, &field(Some(1), 5), "f", "text",
        definition(vec![rule("one"), DefinedRule::Reference("r".to_string()), rule("two")]),
        &mut collected, &TextMap::new());
    assert_eq!(refused, Err(Error::UnexpectedReference {
        path: "$".to_string(),
        reference: "r".to_string(),
    }));
    assert_eq!(collected.rules.get("$").unwrap().len(), 1);
    assert!(collected.generators.entries.is_empty());
}

#[test]
fn rules_are_collected_behind_each_other() {
    let path = DocPath::root();
    let mut collected = Collected::new();
    let value = ConfigValue { kind: Some(ConfigKind::StringValue("matching(type, 'a')".to_string())) };
    for _ in 0..2 {
        let built = build_field_value(
            &path, &field(Some(1), 9), "f", &value, &mut collected, &TextMap::new()).unwrap().unwrap();
        assert_eq!(built.rtype, RType::String("a".to_string()));
    }
    let other = build_field_value(
        &path, &field(Some(1), 9), "g", &value, &mut collected, &TextMap::new());
    assert!(other.is_ok());
    assert_eq!(collected.rules.get("$.f").unwrap().len(), 2);
    assert_eq!(collected.rules.get("$.g").unwrap().len(), 1);
    assert!(collected.all_resolve());
}

#[test]
fn no_values_are_none() {
    assert!(values_or_none(&TextMap::new()).is_none());
    let mut values = TextMap::new();
    values.insert("min".to_string(), "2".to_string());
    assert_eq!(values_or_none(&values).unwrap().get("min"), Some(&"2".to_string()));
    let pair = |key: &str, text: &str| (key.to_string(), text.to_string());
    let unordered = TextMap {
        entries: vec![pair("b", "1"), pair("c", "2"), pair("a", "3"), pair("b", "4")],
    };
    assert_eq!(values_or_none(&unordered).unwrap().entries,
        vec![pair("a", "3"), pair("b", "1"), pair("c", "2")]);
}

#[test]
fn references_are_found_at_any_depth() {
    let rule = |parts| DefinedRule::Rule { name: "each-key".to_string(), parts };
    let reference = || DefinedRule::Reference("r".to_string());
    assert!(rule_resolves(&rule(vec![])));
    assert!(rule_resolves(&rule(vec![rule(vec![]), rule(vec![rule(vec![])])])));
    assert!(!rule_resolves(&reference()));
    assert!(!rule_resolves(&rule(vec![rule(vec![]), reference()])));
    assert!(!rule_resolves(&rule(vec![rule(vec![rule(vec![reference()])])])));
}

#[test]
fn rules_say_their_values() {
    assert!(says_values("matching(type, 'a')", 0));
    assert!(!says_values("matching(type, 'a')", 1));
    assert!(!says_values("matching($'a')", 0));
    assert!(!says_values("eachKey(matching($'a'))", 0));
    assert!(says_values("eachKey(matching(type, 'a'))", 0));
    assert!(says_values("eachKey(eachValue(matching(type, 'a')))", 0));
    assert!(!says_values("eachKey(eachValue(matching($'a')))", 0));
    assert!(!says_values("nonsense", 0));
}

#[test]
fn names_have_last_parts() {
    assert_eq!(last_name(".area_calculator.ShapeMessage"), "ShapeMessage");
    assert_eq!(last_name("ShapeMessage"), "ShapeMessage");
    assert_eq!(last_name("a."), "");
    assert_eq!(last_name(last_name("a.b.c")), "c");
}

#[test]
fn nested_types_are_found_by_their_last_names() {
    let inner = |name: &str| DescriptorProto {
        name: Some(name.to_string()),
        field: vec![],
        nested_type: vec![],
    };
    let message = DescriptorProto {
        name: None,
        field: vec![],
        nested_type: vec![inner("A"), inner("B")],
    };
    let mut named = field(Some(1), 11);
    named.named_type = Some(".pkg.Outer.B".to_string());
    assert_eq!(find_nested_type(&message, &named).unwrap().name, Some("B".to_string()));
    named.type_number = Some(9);
    assert!(find_nested_type(&message, &named).is_none());
}
