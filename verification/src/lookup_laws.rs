//! What lookups find: the first of those that have a name, and nothing where none has it.
use crate::descriptors::{
    declared_type, first_field, first_message, first_method, first_service, type_of_number,
    DescriptorProto, FieldDescriptorProto, FieldType, FileDescriptorProto, MethodDescriptorProto,
    ServiceDescriptorProto,
};
use crate::error::ErrorView;
use crate::files::{declared_message, declares, declares_first, files_by_name};
use crate::text::{after_last, after_last_is_a_suffix, first_split, text_less};
use crate::utils::{has_repeated_label, nested_type_of};
use crate::value::{
    json_text, setting, struct_setting, value_text, ConfigKindView, ConfigValueView,
};
use vstd::prelude::*;

verus! {

/// A name that may be missing, and is then empty.
pub open spec fn given_name(name: Option<String>) -> Seq<char> {
    if name is Some {
        name->0@
    } else {
        Seq::empty()
    }
}

/// A field is found exactly where one of the name is declared, and it is the first of them. The
/// place of that field is returned.
pub proof fn fields_are_found(fields: Seq<FieldDescriptorProto>, name: Seq<char>) -> (i: int)
    ensures
        first_field(fields, name) is Some <==> exists|j: int|
            0 <= j < fields.len() && given_name((#[trigger] fields[j]).name) == name,
        first_field(fields, name) matches Some(found) ==> {
            &&& 0 <= i < fields.len()
            &&& fields[i] == found
            &&& given_name(found.name) == name
            &&& forall|j: int| 0 <= j < i ==> given_name((#[trigger] fields[j]).name) != name
        },
    decreases fields.len(),
{
    if fields.len() == 0 {
        0
    } else if given_name(fields[0].name) == name {
        assert(given_name(fields[0].name) == name);
        0
    } else {
        let rest = fields.drop_first();
        let i = fields_are_found(rest, name);
        if first_field(rest, name) is Some {
            assert(fields[i + 1] == rest[i]);
        }
        assert forall|j: int|
            0 <= j < fields.len() && given_name((#[trigger] fields[j]).name) == name implies j > 0
            && given_name(rest[j - 1].name) == name by {
            assert(rest[j - 1] == fields[j]);
        }
        assert forall|j: int|
            0 <= j < i + 1 && j < fields.len() && first_field(rest, name) is Some implies given_name(
            (#[trigger] fields[j]).name,
        ) != name by {
            if j > 0 {
                assert(rest[j - 1] == fields[j]);
            }
        }
        i + 1
    }
}

/// A message is found exactly where one of the name is declared, and it is the first of them. The
/// place of that message is returned.
pub proof fn messages_are_found(messages: Seq<DescriptorProto>, name: Seq<char>) -> (i: int)
    ensures
        first_message(messages, name) is Some <==> exists|j: int|
            0 <= j < messages.len() && given_name((#[trigger] messages[j]).name) == name,
        first_message(messages, name) matches Some(found) ==> {
            &&& 0 <= i < messages.len()
            &&& messages[i] == found
            &&& given_name(found.name) == name
            &&& forall|j: int| 0 <= j < i ==> given_name((#[trigger] messages[j]).name) != name
        },
    decreases messages.len(),
{
    if messages.len() == 0 {
        0
    } else if given_name(messages[0].name) == name {
        assert(given_name(messages[0].name) == name);
        0
    } else {
        let rest = messages.drop_first();
        let i = messages_are_found(rest, name);
        if first_message(rest, name) is Some {
            assert(messages[i + 1] == rest[i]);
        }
        assert forall|j: int|
            0 <= j < messages.len() && given_name((#[trigger] messages[j]).name) == name implies j > 0
            && given_name(rest[j - 1].name) == name by {
            assert(rest[j - 1] == messages[j]);
        }
        assert forall|j: int|
            0 <= j < i + 1 && j < messages.len() && first_message(rest, name) is Some implies given_name(
            (#[trigger] messages[j]).name,
        ) != name by {
            if j > 0 {
                assert(rest[j - 1] == messages[j]);
            }
        }
        i + 1
    }
}

/// A service is found exactly where one of the name is declared, and it is the first of them. The
/// place of that service is returned.
pub proof fn services_are_found(services: Seq<ServiceDescriptorProto>, name: Seq<char>) -> (i: int)
    ensures
        first_service(services, name) is Some <==> exists|j: int|
            0 <= j < services.len() && given_name((#[trigger] services[j]).name) == name,
        first_service(services, name) matches Some(found) ==> {
            &&& 0 <= i < services.len()
            &&& services[i] == found
            &&& given_name(found.name) == name
            &&& forall|j: int| 0 <= j < i ==> given_name((#[trigger] services[j]).name) != name
        },
    decreases services.len(),
{
    if services.len() == 0 {
        0
    } else if given_name(services[0].name) == name {
        assert(given_name(services[0].name) == name);
        0
    } else {
        let rest = services.drop_first();
        let i = services_are_found(rest, name);
        if first_service(rest, name) is Some {
            assert(services[i + 1] == rest[i]);
        }
        assert forall|j: int|
            0 <= j < services.len() && given_name((#[trigger] services[j]).name) == name implies j > 0
            && given_name(rest[j - 1].name) == name by {
            assert(rest[j - 1] == services[j]);
        }
        assert forall|j: int|
            0 <= j < i + 1 && j < services.len() && first_service(rest, name) is Some implies given_name(
            (#[trigger] services[j]).name,
        ) != name by {
            if j > 0 {
                assert(rest[j - 1] == services[j]);
            }
        }
        i + 1
    }
}

/// A method is found exactly where one of the name is declared, and it is the first of them. The
/// place of that method is returned.
pub proof fn methods_are_found(methods: Seq<MethodDescriptorProto>, name: Seq<char>) -> (i: int)
    ensures
        first_method(methods, name) is Some <==> exists|j: int|
            0 <= j < methods.len() && given_name((#[trigger] methods[j]).name) == name,
        first_method(methods, name) matches Some(found) ==> {
            &&& 0 <= i < methods.len()
            &&& methods[i] == found
            &&& given_name(found.name) == name
            &&& forall|j: int| 0 <= j < i ==> given_name((#[trigger] methods[j]).name) != name
        },
    decreases methods.len(),
{
    if methods.len() == 0 {
        0
    } else if given_name(methods[0].name) == name {
        assert(given_name(methods[0].name) == name);
        0
    } else {
        let rest = methods.drop_first();
        let i = methods_are_found(rest, name);
        if first_method(rest, name) is Some {
            assert(methods[i + 1] == rest[i]);
        }
        assert forall|j: int|
            0 <= j < methods.len() && given_name((#[trigger] methods[j]).name) == name implies j > 0
            && given_name(rest[j - 1].name) == name by {
            assert(rest[j - 1] == methods[j]);
        }
        assert forall|j: int|
            0 <= j < i + 1 && j < methods.len() && first_method(rest, name) is Some implies given_name(
            (#[trigger] methods[j]).name,
        ) != name by {
            if j > 0 {
                assert(rest[j - 1] == methods[j]);
            }
        }
        i + 1
    }
}

/// A setting is found exactly where one of the key is given, and it is the first of them. The place
/// of that setting is returned.
pub proof fn settings_are_found(entries: Seq<(Seq<char>, ConfigValueView)>, key: Seq<char>) -> (i:
    int)
    ensures
        setting(entries, key) is Some <==> exists|j: int|
            0 <= j < entries.len() && (#[trigger] entries[j]).0 == key,
        setting(entries, key) matches Some(value) ==> {
            &&& 0 <= i < entries.len()
            &&& entries[i] == (key, value)
            &&& forall|j: int| 0 <= j < i ==> (#[trigger] entries[j]).0 != key
        },
    decreases entries.len(),
{
    if entries.len() == 0 {
        0
    } else if entries[0].0 == key {
        assert(entries[0].0 == key);
        0
    } else {
        let rest = entries.drop_first();
        let i = settings_are_found(rest, key);
        if setting(rest, key) is Some {
            assert(entries[i + 1] == rest[i]);
        }
        assert forall|j: int| 0 <= j < entries.len() && (#[trigger] entries[j]).0 == key implies j > 0
            && rest[j - 1].0 == key by {
            assert(rest[j - 1] == entries[j]);
        }
        assert forall|j: int|
            0 <= j < i + 1 && j < entries.len() && setting(rest, key) is Some implies (
        #[trigger] entries[j]).0 != key by {
            if j > 0 {
                assert(rest[j - 1] == entries[j]);
            }
        }
        i + 1
    }
}

/// The map under a key is found exactly where the setting of that key is a map, and it is that map.
pub proof fn maps_are_found(
    entries: Seq<(Seq<char>, ConfigValueView)>,
    key: Seq<char>,
    fields: Seq<(Seq<char>, ConfigValueView)>,
)
    ensures
        struct_setting(entries, key) == Some(fields) <==> setting(entries, key) == Some(
            ConfigValueView { kind: Some(ConfigKindView::StructValue(fields)) },
        ),
{
    if struct_setting(entries, key) == Some(fields) {
        assert(setting(entries, key)->0.kind == Some(ConfigKindView::StructValue(fields)));
    }
}

/// A string, a number and a Boolean have their own texts; a null and a value without a kind have
/// none; every map and every list has its text in JSON.
pub proof fn values_have_their_texts(value: ConfigValueView)
    ensures
        value_text(value) is None <==> value.kind is None || value.kind->0 is NullValue,
        value.kind matches Some(ConfigKindView::StringValue(text)) ==> value_text(value) == Some(text),
        value.kind matches Some(ConfigKindView::NumberValue(text)) ==> value_text(value) == Some(text),
        value.kind is Some && (value.kind->0 is StructValue || value.kind->0 is ListValue)
            ==> value_text(value) == Some(json_text(value)),
        value.kind == Some(ConfigKindView::BoolValue(true)) ==> value_text(value) == Some("true"@),
        value.kind == Some(ConfigKindView::BoolValue(false)) ==> value_text(value) == Some("false"@),
{
}

/// A file is found by its name exactly where one of the name is among the files, and it is the last
/// of them. The place of that file is returned.
pub proof fn files_are_found(files: Seq<FileDescriptorProto>, name: Seq<char>) -> (i: int)
    ensures
        files_by_name(files).contains_key(name) <==> exists|j: int|
            0 <= j < files.len() && given_name((#[trigger] files[j]).name) == name,
        files_by_name(files).contains_key(name) ==> {
            &&& 0 <= i < files.len()
            &&& files_by_name(files)[name] == files[i]
            &&& given_name(files[i].name) == name
            &&& forall|j: int| i < j < files.len() ==> given_name((#[trigger] files[j]).name) != name
        },
    decreases files.len(),
{
    if files.len() == 0 {
        0
    } else {
        let last = files.len() - 1;
        if given_name(files[last].name) == name {
            assert(files.last() == files[last]);
            last
        } else {
            let rest = files.drop_last();
            let i = files_are_found(rest, name);
            assert forall|j: int|
                0 <= j < files.len() && given_name((#[trigger] files[j]).name) == name implies j < last
                && given_name(rest[j].name) == name by {
                assert(j < last ==> rest[j] == files[j]);
            }
            if files_by_name(rest).contains_key(name) {
                assert(rest[i] == files[i]);
                assert forall|j: int| i < j < files.len() implies given_name(
                    (#[trigger] files[j]).name,
                ) != name by {
                    if j < last {
                        assert(rest[j] == files[j]);
                    }
                }
            }
            i
        }
    }
}

/// A message that is looked for in all files is one that a file declares under that name, and no
/// file with an earlier name declares one.
pub proof fn messages_are_found_in_files(
    files: Map<Seq<char>, FileDescriptorProto>,
    name: Seq<char>,
) -> (file: Seq<char>)
    ensures
        declared_message(files, name) matches Ok(message) ==> {
            &&& files.contains_key(file)
            &&& first_message(files[file].message_type@, name) == Some(message)
            &&& forall|other: Seq<char>| #[trigger]
                files.contains_key(other) && first_message(
                    files[other].message_type@,
                    name,
                ) is Some ==> !text_less(other, file)
        },
        declared_message(files, name) matches Err(error) ==> error == (ErrorView::UnknownMessage {
            message: name,
        }),
{
    let file = choose|file: Seq<char>| declares_first(files, file, name);
    if declared_message(files, name) is Ok {
        assert forall|other: Seq<char>| #[trigger]
            files.contains_key(other) && first_message(
                files[other].message_type@,
                name,
            ) is Some implies !text_less(other, file) by {
            assert(declares(files, other, name));
        }
    }
    file
}

/// Of two texts the one comes first that has the smaller character at the first place where they
/// differ, or that ends there. That place is returned.
pub proof fn texts_are_ordered_by_their_first_difference(a: Seq<char>, b: Seq<char>) -> (at: int)
    ensures
        0 <= at <= a.len(),
        at <= b.len(),
        forall|i: int| 0 <= i < at ==> a[i] == b[i],
        at < a.len() && at < b.len() ==> a[at] != b[at],
        text_less(a, b) <==> at < b.len() && (at == a.len() || a[at] < b[at]),
    decreases a.len(),
{
    if a.len() > 0 && b.len() > 0 && a[0] == b[0] {
        let ra = a.drop_first();
        let rb = b.drop_first();
        let at = texts_are_ordered_by_their_first_difference(ra, rb);
        assert forall|i: int| 0 <= i < at + 1 implies a[i] == b[i] by {
            if i > 0 {
                assert(ra[i - 1] == a[i] && rb[i - 1] == b[i]);
            }
        }
        if at < ra.len() {
            assert(ra[at] == a[at + 1]);
        }
        if at < rb.len() {
            assert(rb[at] == b[at + 1]);
        }
        at + 1
    } else {
        0
    }
}

/// A text is split exactly where it holds the separator, and there is just one way to do it: the
/// first part holds no separator, and the parts with the separator between them make up the text.
pub proof fn splits_are_unique(
    text: Seq<char>,
    separator: char,
    before: Seq<char>,
    after: Seq<char>,
)
    ensures
        first_split(text, separator) is Some <==> text.contains(separator),
        first_split(text, separator) == Some((before, after)) <==> text == before.push(separator)
            + after && !before.contains(separator),
{
    text.index_of_first_ensures(separator);
    if text.contains(separator) {
        let at = text.index_of_first(separator)->0;
        assert(text =~= text.take(at).push(separator) + text.skip(at + 1));
    }
    if text == before.push(separator) + after && !before.contains(separator) {
        let at = before.len() as int;
        assert(text[at] == separator);
        let first = text.index_of_first(separator)->0;
        assert forall|j: int| 0 <= j < at implies text[j] != separator by {
            assert(text[j] == before[j]);
        }
        assert(first == at);
        assert(text.take(at) =~= before);
        assert(text.skip(at + 1) =~= after);
    }
}

/// The last part of a name is the one text without a separator that the name ends with, and that is
/// the whole name or stands behind a separator.
pub proof fn last_parts_are_unique(before: Seq<char>, last: Seq<char>, separator: char)
    requires
        !last.contains(separator),
    ensures
        after_last(before.push(separator) + last, separator) == last,
        after_last(last, separator) == last,
    decreases last.len(),
{
    let text = before.push(separator) + last;
    if last.len() == 0 {
        assert(text.last() == separator);
        assert(last =~= Seq::empty());
    } else {
        let shorter = last.drop_last();
        assert forall|i: int| 0 <= i < shorter.len() implies shorter[i] != separator by {
            assert(shorter[i] == last[i]);
            assert(last.contains(last[i]));
        }
        assert(last.contains(last.last()));
        last_parts_are_unique(before, shorter, separator);
        assert(text.drop_last() =~= before.push(separator) + shorter);
        assert(text.last() == last.last());
        assert(shorter.push(last.last()) =~= last);
    }
}

/// A field is repeated exactly where its label has the number three.
pub proof fn repeated_fields_have_the_label(field: FieldDescriptorProto)
    ensures
        has_repeated_label(field) <==> field.label == Some(3i32),
{
}

/// Every number from one to eighteen is that of a type, no other number is, and no two types have
/// the same number. A field without a type, or with a number of no type, is a double.
pub proof fn types_have_numbers(a: i32, b: i32, field: FieldDescriptorProto)
    ensures
        type_of_number(a) is Some <==> 1 <= a <= 18,
        type_of_number(a) is Some && type_of_number(a) == type_of_number(b) ==> a == b,
        (field.type_number is None || type_of_number(field.type_number->0) is None)
            ==> declared_type(field) == FieldType::Double,
        field.type_number == Some(a) && type_of_number(a) is Some ==> declared_type(field)
            == type_of_number(a)->0,
{
}

/// The numbers of the types, as descriptors give them.
pub proof fn types_are_numbered(field: FieldDescriptorProto, number: i32)
    requires
        field.type_number == Some(number),
    ensures
        number == 2 <==> declared_type(field) == FieldType::Float,
        number == 3 <==> declared_type(field) == FieldType::Int64,
        number == 4 <==> declared_type(field) == FieldType::Uint64,
        number == 5 <==> declared_type(field) == FieldType::Int32,
        number == 6 <==> declared_type(field) == FieldType::Fixed64,
        number == 7 <==> declared_type(field) == FieldType::Fixed32,
        number == 8 <==> declared_type(field) == FieldType::Bool,
        number == 9 <==> declared_type(field) == FieldType::String,
        number == 10 <==> declared_type(field) == FieldType::Group,
        number == 11 <==> declared_type(field) == FieldType::Message,
        number == 12 <==> declared_type(field) == FieldType::Bytes,
        number == 13 <==> declared_type(field) == FieldType::Uint32,
        number == 14 <==> declared_type(field) == FieldType::Enum,
        number == 15 <==> declared_type(field) == FieldType::Sfixed32,
        number == 16 <==> declared_type(field) == FieldType::Sfixed64,
        number == 17 <==> declared_type(field) == FieldType::Sint32,
        number == 18 <==> declared_type(field) == FieldType::Sint64,
{
}

/// The type of a field that holds a message is found exactly where the message declares one inside
/// of itself whose name is the last part of the name that the field gives, and it is the first of
/// them. That last part and the place of the type are returned.
pub proof fn nested_types_are_found(message: DescriptorProto, field: FieldDescriptorProto) -> (found: (
    Seq<char>,
    int,
))
    requires
        field.type_number == Some(11i32),
    ensures
        ({
            let (last, i) = found;
            let name = given_name(field.named_type);
            let types = message.nested_type@;
            &&& !last.contains('.')
            &&& name == last || exists|before: Seq<char>| name == #[trigger] before.push('.') + last
            &&& nested_type_of(message, field) is Some <==> exists|j: int|
                0 <= j < types.len() && given_name((#[trigger] types[j]).name) == last
            &&& nested_type_of(message, field) matches Some(nested) ==> {
                &&& 0 <= i < types.len()
                &&& types[i] == nested
                &&& given_name(nested.name) == last
                &&& forall|j: int| 0 <= j < i ==> given_name((#[trigger] types[j]).name) != last
            }
        }),
{
    let name = given_name(field.named_type);
    let last = after_last(name, '.');
    after_last_is_a_suffix(name, '.');
    let cut = name.len() - last.len();
    if cut > 0 {
        let before = name.take(cut - 1);
        assert(name =~= before.push('.') + last);
    } else {
        assert(name.skip(0) =~= name);
    }
    let i = messages_are_found(message.nested_type@, last);
    (last, i)
}

} // verus!
