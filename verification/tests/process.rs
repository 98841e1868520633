use pact_protobuf_plugin::descriptors::{
    DescriptorProto, FieldDescriptorProto, FileDescriptorProto, MethodDescriptorProto,
    ServiceDescriptorProto,
};
use pact_protobuf_plugin::digest::{can_encode, hex_of, md5_text};
use pact_protobuf_plugin::error::Error;
use pact_protobuf_plugin::files::{find_message_descriptor, index_files};
use pact_protobuf_plugin::interaction::InteractionResponse;
use pact_protobuf_plugin::message_builder::FloatBits;
use pact_protobuf_plugin::process::{plugin_configuration, process_proto, try_process_proto};
use pact_protobuf_plugin::services::{
    configure_protobuf_service, construct_protobuf_interaction_for_service, service_has_outcome,
};
use pact_protobuf_plugin::text_map::TextMap;
use pact_protobuf_plugin::value::{ConfigKind, ConfigValue};

fn text(value: &str) -> ConfigValue {
    ConfigValue { kind: Some(ConfigKind::StringValue(value.to_string())) }
}

fn config(entries: Vec<(&str, ConfigValue)>) -> TextMap<ConfigValue> {
    let mut map = TextMap::new();
    for (key, value) in entries {
        map.insert(key.to_string(), value);
    }
    map
}

fn map(entries: Vec<(&str, ConfigValue)>) -> ConfigValue {
    ConfigValue { kind: Some(ConfigKind::StructValue(config(entries))) }
}

fn message(name: &str, field: &str, type_number: i32) -> DescriptorProto {
    DescriptorProto {
        name: Some(name.to_string()),
        field: vec![FieldDescriptorProto {
            name: Some(field.to_string()),
            number: Some(1),
            label: None,
            type_number: Some(type_number),
            named_type: None,
        }],
        nested_type: vec![],
    }
}

fn method(name: &str, input: Option<&str>, output: Option<&str>) -> MethodDescriptorProto {
    MethodDescriptorProto {
        name: Some(name.to_string()),
        input_type: input.map(|text| text.to_string()),
        output_type: output.map(|text| text.to_string()),
    }
}

fn files() -> Vec<FileDescriptorProto> {
    vec![
        FileDescriptorProto {
            name: Some("calc.proto".to_string()),
            message_type: vec![message("Value", "number", 5)],
            service: vec![ServiceDescriptorProto {
                name: Some("Calculator".to_string()),
                method: vec![
                    method("area", Some(".shapes.Shape"), Some(".calc.Value")),
                    method("vague", None, Some(".calc.Value")),
                    method("void", Some(".calc.Value"), None),
                    method("lost", Some(".calc.Lost"), Some(".calc.Value")),
                    method("mislaid", Some(".calc.Value"), Some(".calc.Mislaid")),
                ],
            }],
        },
        FileDescriptorProto {
            name: Some("shapes.proto".to_string()),
            message_type: vec![message("Shape", "side", 9)],
            service: vec![],
        },
    ]
}

fn process(config: TextMap<ConfigValue>) -> Result<Vec<InteractionResponse>, Error> {
    try_process_proto(&files(), "calc.proto", &[1, 2, 3], &config, &TextMap::new()).unwrap()
}

fn refused(config: TextMap<ConfigValue>) -> String {
    match process(config) {
        Ok(_) => panic!("expected an error"),
        Err(error) => error.message(),
    }
}

fn content(interaction: &InteractionResponse) -> Vec<u8> {
    interaction.contents.as_ref().unwrap().content.clone().unwrap()
}

fn stored(interaction: &InteractionResponse) -> Vec<(String, String)> {
    let configuration = interaction.plugin_configuration.as_ref().unwrap();
    assert!(configuration.pact_configuration.is_none());
    configuration.interaction_configuration.as_ref().unwrap().entries.iter()
        .map(|(key, value)| match &value.kind {
            Some(ConfigKind::StringValue(text)) => (key.clone(), text.clone()),
            _ => panic!("expected a text"),
        }).collect()
}

fn area() -> Vec<(&'static str, ConfigValue)> {
    vec![
        ("pact:proto-service", text("Calculator/area")),
        ("request", map(vec![("side", text("matching(type, 'long')"))])),
        ("response", map(vec![("number", text("matching(integer, 12)"))])),
    ]
}

#[test]
fn a_message_is_one_interaction() {
    let interactions = process(config(vec![
        ("pact:message-type", text("Value")),
        ("number", text("matching(integer, 7)")),
    ])).unwrap();
    assert_eq!(interactions.len(), 1);
    assert_eq!(content(&interactions[0]), vec![8, 7]);
    assert_eq!(interactions[0].part_name, "");
    assert_eq!(stored(&interactions[0]), vec![
        ("descriptorKey".to_string(), md5_text(&[1, 2, 3])),
        ("message".to_string(), "Value".to_string()),
    ]);
}

#[test]
fn a_method_is_two_interactions() {
    let interactions = process(config(area())).unwrap();
    assert_eq!(interactions.len(), 2);
    assert_eq!(interactions[0].part_name, "request");
    assert_eq!(interactions[1].part_name, "response");
    assert_eq!(content(&interactions[0]), vec![10, 4, 108, 111, 110, 103]);
    assert_eq!(content(&interactions[1]), vec![8, 12]);
    assert_eq!(interactions[0].contents.as_ref().unwrap().content_type,
        "application/protobuf;message=Shape");
    assert_eq!(interactions[1].contents.as_ref().unwrap().content_type,
        "application/protobuf;message=Value");
    let expected = vec![
        ("descriptorKey".to_string(), "5289df737df57326fcdd22597afb1fac".to_string()),
        ("service".to_string(), "Calculator/area".to_string()),
    ];
    assert_eq!(stored(&interactions[0]), expected);
    assert_eq!(stored(&interactions[1]), expected);
    assert_eq!(interactions[0].rules.entries[0].0, "$.request.side");
    assert_eq!(interactions[1].rules.entries[0].0, "$.response.number");
}

#[test]
fn nothing_asked_for_is_no_interaction() {
    assert_eq!(process(config(vec![("number", text("matching(integer, 7)"))])).unwrap().len(), 0);
}

#[test]
fn a_message_comes_before_a_service() {
    let mut entries = area();
    entries.push(("pact:message-type", text("Value")));
    assert_eq!(refused(config(entries)), "Message Value has no field request");
}

#[test]
fn settings_must_have_a_text() {
    let null = || ConfigValue { kind: Some(ConfigKind::NullValue) };
    assert_eq!(refused(config(vec![("pact:message-type", null())])),
        "Did not get a valid value for 'pact:message-type'. It should be a string");
    assert_eq!(refused(config(vec![("pact:proto-service", null())])),
        "Did not get a valid value for 'pact:proto-service'. It should be a string");
}

#[test]
fn services_are_refused() {
    let with = |service: &str| {
        let mut entries = area();
        entries[0].1 = text(service);
        refused(config(entries))
    };
    assert_eq!(with("Calculator"),
        "Service name 'Calculator' is not valid, it should be of the form <SERVICE>/<METHOD>");
    assert_eq!(with("Other/area"), "Did not find a descriptor for service 'Other/area'");
    assert_eq!(with("Calculator/other"),
        "Did not find a method descriptor for method 'other' in service 'Calculator'");
    assert_eq!(with("Calculator/area/x"),
        "Did not find a method descriptor for method 'area/x' in service 'Calculator'");
    assert_eq!(with("Calculator/vague"), "Input message name is empty for service Calculator/vague");
    assert_eq!(with("Calculator/void"), "Input message name is empty for service Calculator/void");
    assert_eq!(with("Calculator/lost"), "Did not find the descriptor for message Lost");
    assert_eq!(with("Calculator/mislaid"), "Did not find the descriptor for message Mislaid");
}

#[test]
fn parts_of_services_are_refused() {
    let mut entries = area();
    entries.remove(2);
    assert_eq!(refused(config(entries)), "A Protobuf service requires a 'response' configuration");
    let mut entries = area();
    entries.remove(1);
    assert_eq!(refused(config(entries)),
        "A Protobuf service requires a 'request' configuration in map format");
    let mut entries = area();
    entries[2].1 = text("12");
    assert_eq!(refused(config(entries)),
        "A Protobuf service requires a 'response' configuration in map format");
    let mut entries = area();
    entries[1].1 = map(vec![("other", text("notEmpty('a')"))]);
    entries[2].1 = text("12");
    assert_eq!(refused(config(entries)), "Message Shape has no field other");
}

#[test]
fn the_file_must_have_a_descriptor() {
    match process_proto(&files(), "other.proto", &[], &config(vec![]), &TextMap::new()) {
        Ok(_) => panic!("expected an error"),
        Err(error) => assert_eq!(error.message(),
            "Did not find a file proto descriptor for the provided proto file 'other.proto'"),
    }
}

#[test]
fn unresolved_references_have_no_outcome() {
    let unresolved = || text("eachValue(matching($'thing'))");
    assert!(try_process_proto(&files(), "calc.proto", &[], &config(vec![
        ("pact:message-type", text("Value")),
        ("number", text("matching(integer, 1)")),
    ]), &TextMap::new()).is_some());
    let mut entries = area();
    entries[1].1 = map(vec![("side", unresolved())]);
    assert!(try_process_proto(
        &files(), "calc.proto", &[], &config(entries), &TextMap::new()).is_none());
}

#[test]
fn the_response_counts_only_where_the_request_is_built() {
    let files = files();
    let all = index_files(&files);
    let service = &files[0].service[0];
    let unresolved = || map(vec![("side", text("eachValue(matching($'thing'))"))]);
    let broken = || map(vec![("other", text("notEmpty('a')"))]);
    let both = |request, response| config(vec![("request", request), ("response", response)]);
    let swapped = ServiceDescriptorProto {
        name: service.name.clone(),
        method: vec![method("same", Some("Shape"), Some("Shape"))],
    };
    let has = |config: TextMap<ConfigValue>| service_has_outcome(
        &swapped, &config, "Calculator", "same", &all, &TextMap::new());
    assert!(has(both(broken(), unresolved())));
    assert!(!has(both(unresolved(), broken())));
    assert!(!has(both(map(vec![]), unresolved())));
    assert!(has(both(map(vec![]), broken())));
}

#[test]
fn services_can_be_constructed_by_name() {
    let files = files();
    let all = index_files(&files);
    let (request, response) = construct_protobuf_interaction_for_service(
        &files[0].service[0], &config(area()), "Calculator", "area", &all, &TextMap::new()).unwrap();
    assert!(request.plugin_configuration.is_none());
    assert!(response.plugin_configuration.is_none());
    let (request, response) = configure_protobuf_service(
        "Calculator/area", &config(area()), &files[0], &all, "k", &TextMap::new()).unwrap();
    assert_eq!(stored(&request), stored(&response));
    assert_eq!(stored(&request)[0].1, "k");
}

#[test]
fn numbers_are_asked_for() {
    let files = vec![FileDescriptorProto {
        name: Some("n.proto".to_string()),
        message_type: vec![message("N", "d", 1)],
        service: vec![],
    }];
    let config = config(vec![
        ("d", text("matching(decimal, 1.5)")),
        ("pact:message-type", text("N")),
    ]);
    let mut numbers = TextMap::new();
    match process_proto(&files, "n.proto", &[], &config, &numbers) {
        Ok(_) => panic!("expected an error"),
        Err(error) => assert_eq!(error, Error::NumberNotRead { text: "1.5".to_string() }),
    }
    numbers.insert("1.5".to_string(),
        FloatBits { double: Some(1.5f64.to_bits()), float: Some(1.5f32.to_bits()) });
    let interactions = process_proto(&files, "n.proto", &[], &config, &numbers).unwrap();
    assert_eq!(content(&interactions[0]), vec![9, 0, 0, 0, 0, 0, 0, 0xf8, 0x3f]);
    numbers.insert("2.5".to_string(), FloatBits { double: None, float: None });
    let again = process_proto(&files, "n.proto", &[], &config, &numbers).unwrap();
    assert_eq!(content(&interactions[0]), content(&again[0]));
}

#[test]
fn messages_are_found_in_the_first_file() {
    let files = vec![
        FileDescriptorProto {
            name: Some("b.proto".to_string()),
            message_type: vec![message("M", "of_b", 9)],
            service: vec![],
        },
        FileDescriptorProto {
            name: Some("a.proto".to_string()),
            message_type: vec![message("Other", "x", 9), message("M", "of_a", 9)],
            service: vec![],
        },
        FileDescriptorProto { name: None, message_type: vec![], service: vec![] },
        FileDescriptorProto {
            name: Some("a.proto".to_string()),
            message_type: vec![message("M", "of_last_a", 9)],
            service: vec![],
        },
    ];
    let all = index_files(&files);
    assert_eq!(all.entries.len(), 3);
    let found = find_message_descriptor("M", &all).unwrap();
    assert_eq!(found.field[0].name, Some("of_last_a".to_string()));
    assert!(find_message_descriptor("Other", &all).is_err());
}

#[test]
fn the_protobuf_file_is_stored() {
    assert!(can_encode(b"hello"));
    let configuration = plugin_configuration(&[0x0f, 0xa0], "syntax = \"proto3\";", b"hello");
    assert!(configuration.interaction_configuration.is_none());
    let stored = configuration.pact_configuration.unwrap();
    assert_eq!(stored.entries.len(), 1);
    assert_eq!(stored.entries[0].0, "0fa0");
    match &stored.entries[0].1.kind {
        Some(ConfigKind::StructValue(fields)) => {
            let value = |key: &str| match &fields.get(key).unwrap().kind {
                Some(ConfigKind::StringValue(text)) => text.clone(),
                _ => panic!("expected a text"),
            };
            assert_eq!(value("protoFile"), "syntax = \"proto3\";");
            assert_eq!(value("protoDescriptors"), "aGVsbG8=");
            assert_eq!(fields.entries.len(), 2);
        },
        _ => panic!("expected a struct"),
    }
}

#[test]
fn descriptors_are_found_by_their_key() {
    let interactions = process(config(area())).unwrap();
    let digest = md5::compute([1, 2, 3]);
    let configuration = plugin_configuration(&digest.0, "", &[1, 2, 3]);
    let stored_key = &configuration.pact_configuration.as_ref().unwrap().entries[0].0;
    for interaction in &interactions {
        assert_eq!(&stored(interaction)[0].1, stored_key);
    }
}

#[test]
fn descriptors_are_stored_in_base_64() {
    let stored = |bytes: &[u8]| {
        let configuration = plugin_configuration(&[], "", bytes);
        match &configuration.pact_configuration.unwrap().entries[0].1.kind {
            Some(ConfigKind::StructValue(fields)) => match &fields.get("protoDescriptors").unwrap().kind {
                Some(ConfigKind::StringValue(text)) => text.clone(),
                _ => panic!("expected a text"),
            },
            _ => panic!("expected a struct"),
        }
    };
    assert_eq!(stored(b""), "");
    assert_eq!(stored(b"f"), "Zg==");
    assert_eq!(stored(b"fo"), "Zm8=");
    assert_eq!(stored(b"foo"), "Zm9v");
    assert_eq!(stored(b"foob"), "Zm9vYg==");
    assert_eq!(stored(&[0xfb, 0xff, 0xbf]), "+/+/");
    let all: Vec<u8> = (0..=255).collect();
    assert_eq!(stored(&all).len(), 344);
    assert!(stored(&all).starts_with("AAECAwQFBgcICQoLDA0ODxAREhMUFRYXGBkaGxwdHh8gISIjJCUmJygpKiss"));
}

#[test]
fn digests_are_hexadecimal() {
    assert_eq!(md5_text(b""), "d41d8cd98f00b204e9800998ecf8427e");
    assert_eq!(md5_text(b"abc"), "900150983cd24fb0d6963f7d28e17f72");
    assert_eq!(hex_of(&[]), "");
    assert_eq!(hex_of(&[0, 9, 10, 255]), "00090aff");
}
