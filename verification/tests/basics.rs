use pact_protobuf_plugin::decimal::{append_integer, parse_i32, parse_i64, parse_u32, parse_u64};
use pact_protobuf_plugin::descriptors::FieldType;
use pact_protobuf_plugin::text::{
    comes_before, last_part, same_text, split_at_first, starts_with,
};
use pact_protobuf_plugin::text_map::TextMap;
use pact_protobuf_plugin::wire::{
    put_bytes, put_key, put_little_endian, put_varint, unsigned_of, zigzag_of,
};

#[test]
fn decimal_numbers_are_read() {
    assert_eq!(parse_u64("18446744073709551615"), Some(u64::MAX));
    assert_eq!(parse_u64("18446744073709551616"), None);
    assert_eq!(parse_u64("+1"), Some(1));
    assert_eq!(parse_u64("-0"), None);
    assert_eq!(parse_u32("007"), Some(7));
    assert_eq!(parse_u32(""), None);
    assert_eq!(parse_i64("-9223372036854775808"), Some(i64::MIN));
    assert_eq!(parse_i64("-9223372036854775809"), None);
    assert_eq!(parse_i32("-0"), Some(0));
    assert_eq!(parse_i32("1 "), None);
    assert_eq!(parse_i32("+-1"), None);
}

#[test]
fn decimal_numbers_are_written() {
    for n in [0, 7, 10, -1, i32::MAX, i32::MIN] {
        let mut text = "n=".to_string();
        append_integer(&mut text, n);
        assert_eq!(text, format!("n={}", n));
        assert_eq!(parse_i32(&text[2..]), Some(n));
    }
}

#[test]
fn texts_are_compared() {
    assert!(same_text("a\u{e9}", "a\u{e9}"));
    assert!(!same_text("a", "ab"));
    assert!(comes_before("a", "ab"));
    assert!(comes_before("Z", "a"));
    assert!(!comes_before("a", "a"));
    assert!(!comes_before("b", "ab"));
    assert!(starts_with("pact:proto", "pact:"));
    assert!(!starts_with("pact", "pact:"));
}

#[test]
fn texts_are_split() {
    assert_eq!(split_at_first("a/b/c", '/'), Some(("a", "b/c")));
    assert_eq!(split_at_first("/", '/'), Some(("", "")));
    assert_eq!(split_at_first("abc", '/'), None);
    assert_eq!(last_part("a/b/c", '/'), "c");
}

#[test]
fn maps_keep_their_keys_in_order() {
    let mut map = TextMap::new();
    for (key, value) in [("b", 1), ("c", 2), ("a", 3), ("b", 4)] {
        map.insert(key.to_string(), value);
    }
    let entries: Vec<(&str, i32)> = map.entries.iter().map(|(k, v)| (k.as_str(), *v)).collect();
    assert_eq!(entries, vec![("a", 3), ("b", 4), ("c", 2)]);
    assert_eq!(map.get("b"), Some(&4));
    assert!(!map.contains_key("d"));
    assert_eq!(map.remove("b"), Some(4));
    assert_eq!(map.remove("b"), None);
    assert_eq!(map.entries.len(), 2);
}

#[test]
fn the_wire_format_is_written() {
    let mut buffer = vec![];
    put_key(&mut buffer, 16, 2);
    put_varint(&mut buffer, 300);
    put_little_endian(&mut buffer, 0x01020304, 4);
    put_bytes(&mut buffer, &[9]);
    assert_eq!(buffer, vec![130, 1, 172, 2, 4, 3, 2, 1, 9]);
    assert_eq!(zigzag_of(i64::MIN), u64::MAX);
    assert_eq!(zigzag_of(i64::MAX), u64::MAX - 1);
    assert_eq!(zigzag_of(-1), 1);
    assert_eq!(unsigned_of(-1), u64::MAX);
    assert_eq!(unsigned_of(i64::MIN), 1 << 63);
}

#[test]
fn field_types_have_numbers_and_words() {
    let words = ["double", "float", "int64", "uint64", "int32", "fixed64", "fixed32", "bool",
        "string", "group", "", "bytes", "uint32", "", "sfixed32", "sfixed64", "sint32", "sint64"];
    for (i, word) in words.iter().enumerate() {
        let field_type = FieldType::from_number(i as i32 + 1).unwrap();
        assert_eq!(field_type.word_of(), *word);
        assert_eq!(field_type.name_of_variant(), format!("{:?}", field_type));
    }
    assert_eq!(FieldType::from_number(0), None);
    assert_eq!(FieldType::from_number(19), None);
}
