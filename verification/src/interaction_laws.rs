//! What holds of every interaction, and of what the plugin stores with it.
use crate::build_laws::{constructed_fields_grow, grows_at, paths_are_of_the_part};
use crate::decimal::{integer_text, integer_text_reads_back, number_text_reads_back};
use crate::descriptors::{
    declared_type, DescriptorProto, FieldDescriptorProto, FieldType, FileDescriptorProto,
};
use crate::digest::{base64_is_injective, hex_text_is_injective, md5_digest};
use crate::encoding::{encoded_message_reads_back, message_records};
use crate::error::ErrorView;
use crate::fields::{field_value, BuildView};
use crate::interaction::{
    InteractionResponseView, CONTENT_TYPE_HINT_BINARY, MARKUP_COMMON_MARK,
};
use crate::message_builder::{empty_message, made_from, FieldValueView, FloatBits, RTypeView};
use crate::part_laws::{
    alike_at, alike_maps_are_moved, alike_rules_resolve, constructed_fields_are_alike, moved,
    moved_error,
};
use crate::process::{processed, requested, stored_proto, RequestView};
use crate::protobuf::{built_message, message_interaction, part_path};
use crate::rules::{nothing_collected, rules_resolve};
use crate::services::{configured_service, method_messages, named_service};
use crate::value::{setting, struct_setting, value_text, ConfigKindView, ConfigValueView};
use crate::wire::read_records;
use vstd::prelude::*;

verus! {

/// The contents of the interaction for a message read back, from the wire, as the records of the
/// message that its configuration builds; and the interaction says what they are.
pub proof fn contents_read_back(
    message: DescriptorProto,
    entries: Seq<(Seq<char>, ConfigValueView)>,
    message_name: Seq<char>,
    part: Seq<char>,
    numbers: Seq<(String, FloatBits)>,
    interaction: InteractionResponseView,
)
    requires
        message_interaction(message, entries, message_name, part, numbers) == Some(
            Ok::<InteractionResponseView, ErrorView>(interaction),
        ),
    ensures
        interaction.contents matches Some(body) && {
            &&& body.content_type == "application/protobuf;message="@ + message_name
            &&& body.content_type_hint == CONTENT_TYPE_HINT_BINARY
            &&& body.content matches Some(bytes) && read_records(bytes) == Some(
                message_records(
                    built_message(message, entries, message_name, part, numbers).0.message,
                ),
            )
        },
        interaction.interaction_markup_type == MARKUP_COMMON_MARK,
        interaction.part_name == part,
{
    encoded_message_reads_back(
        built_message(message, entries, message_name, part, numbers).0.message,
    );
}

/// The request and the response of a method say which part they are, the same is stored with both,
/// and the rules and generators of each apply to its own part.
pub proof fn service_parts_belong_together(
    service_name: Seq<char>,
    entries: Seq<(Seq<char>, ConfigValueView)>,
    file: FileDescriptorProto,
    files: Map<Seq<char>, FileDescriptorProto>,
    descriptor_hash: Seq<char>,
    numbers: Seq<(String, FloatBits)>,
    request: InteractionResponseView,
    response: InteractionResponseView,
)
    requires
        configured_service(service_name, entries, file, files, descriptor_hash, numbers) == Some(
            Ok::<(InteractionResponseView, InteractionResponseView), ErrorView>(
                (request, response),
            ),
        ),
    ensures
        request.part_name == "request"@,
        response.part_name == "response"@,
        request.plugin_configuration is Some,
        request.plugin_configuration == response.plugin_configuration,
        forall|path: Seq<char>|
            #![trigger request.rules.contains_key(path)]
            #![trigger request.generators.contains_key(path)]
            request.rules.contains_key(path) || request.generators.contains_key(path) ==> part_path(
                "request"@,
            ).is_prefix_of(path),
        forall|path: Seq<char>|
            #![trigger response.rules.contains_key(path)]
            #![trigger response.generators.contains_key(path)]
            response.rules.contains_key(path) || response.generators.contains_key(path)
                ==> part_path("response"@).is_prefix_of(path),
{
    let (service, name, method) = named_service(service_name, file)->Ok_0;
    let messages = method_messages(service, name, method, files)->Ok_0;
    let asked = struct_setting(entries, "request"@)->0;
    let answered = struct_setting(entries, "response"@)->0;
    assert forall|path: Seq<char>|
        #![trigger request.rules.contains_key(path)]
        #![trigger request.generators.contains_key(path)]
        request.rules.contains_key(path) || request.generators.contains_key(
            path,
        ) implies part_path("request"@).is_prefix_of(path) by {
        paths_are_of_the_part(
            messages.request,
            asked,
            messages.request_name,
            "request"@,
            numbers,
            path,
        );
    }
    assert forall|path: Seq<char>|
        #![trigger response.rules.contains_key(path)]
        #![trigger response.generators.contains_key(path)]
        response.rules.contains_key(path) || response.generators.contains_key(
            path,
        ) implies part_path("response"@).is_prefix_of(path) by {
        paths_are_of_the_part(
            messages.response,
            answered,
            messages.response_name,
            "response"@,
            numbers,
            path,
        );
    }
}

/// Whether the interactions for two parts are the same but for the parts that they name and the
/// beginnings of the paths of their rules and generators.
pub open spec fn differ_by_part(
    first: InteractionResponseView,
    second: InteractionResponseView,
    from: Seq<char>,
    to: Seq<char>,
) -> bool {
    &&& second.contents == first.contents
    &&& second.interaction_markup == first.interaction_markup
    &&& second.interaction_markup_type == first.interaction_markup_type
    &&& second.plugin_configuration == first.plugin_configuration
    &&& second.rules == moved(first.rules, from, to)
    &&& second.generators == moved(first.generators, from, to)
}

/// A message has the same contents and the same markup whichever part it is for. Its rules and
/// generators are the same once the path of the one part at the beginning of each path is replaced
/// by that of the other, and so is the path that an error names.
pub proof fn parts_differ_by_their_paths(
    message: DescriptorProto,
    entries: Seq<(Seq<char>, ConfigValueView)>,
    message_name: Seq<char>,
    part: Seq<char>,
    other_part: Seq<char>,
    numbers: Seq<(String, FloatBits)>,
)
    ensures
        match (
            message_interaction(message, entries, message_name, part, numbers),
            message_interaction(message, entries, message_name, other_part, numbers),
        ) {
            (Some(Ok(first)), Some(Ok(second))) => differ_by_part(
                first,
                second,
                part_path(part),
                part_path(other_part),
            ),
            (Some(Err(first)), Some(Err(second))) => second == moved_error(
                first,
                part_path(part),
                part_path(other_part),
            ),
            (None, None) => true,
            _ => false,
        },
{
    let from = part_path(part);
    let to = part_path(other_part);
    let start = BuildView {
        message: empty_message(message_name),
        collected: nothing_collected(),
    };
    assert forall|rest: Seq<char>| #[trigger]
        alike_at(start.collected, start.collected, from, to, rest) by {}
    constructed_fields_are_alike(message, message_name, from, to, entries, start, start, numbers);
    let (one, first_outcome) = built_message(message, entries, message_name, part, numbers);
    let (two, second_outcome) = built_message(message, entries, message_name, other_part, numbers);
    constructed_fields_grow(message, message_name, from, entries, start, numbers);
    constructed_fields_grow(message, message_name, to, entries, start, numbers);
    assert forall|path: Seq<char>| #[trigger]
        one.collected.rules.contains_key(path) implies from.is_prefix_of(path) by {
        assert(grows_at(start.collected, one.collected, from, path));
    }
    assert forall|path: Seq<char>| #[trigger]
        two.collected.rules.contains_key(path) implies to.is_prefix_of(path) by {
        assert(grows_at(start.collected, two.collected, to, path));
    }
    assert forall|rest: Seq<char>| #[trigger]
        alike_at(two.collected, one.collected, to, from, rest) by {
        assert(alike_at(one.collected, two.collected, from, to, rest));
    }
    if rules_resolve(one.collected) {
        alike_rules_resolve(one.collected, two.collected, from, to);
    }
    if rules_resolve(two.collected) {
        alike_rules_resolve(two.collected, one.collected, to, from);
    }
    match (
        message_interaction(message, entries, message_name, part, numbers),
        message_interaction(message, entries, message_name, other_part, numbers),
    ) {
        (Some(Ok(first)), Some(Ok(second))) => {
            assert forall|rest: Seq<char>| #[trigger]
                first.rules.contains_key(from + rest) == second.rules.contains_key(to + rest) by {
                assert(alike_at(one.collected, two.collected, from, to, rest));
            }
            assert forall|rest: Seq<char>|
                first.rules.contains_key(from + rest) implies #[trigger] first.rules[from + rest]
                == second.rules[to + rest] by {
                assert(alike_at(one.collected, two.collected, from, to, rest));
            }
            assert forall|rest: Seq<char>| #[trigger]
                first.generators.contains_key(from + rest) == second.generators.contains_key(
                    to + rest,
                ) by {
                assert(alike_at(one.collected, two.collected, from, to, rest));
            }
            assert forall|rest: Seq<char>|
                first.generators.contains_key(from + rest) implies #[trigger] first.generators[from
                + rest] == second.generators[to + rest] by {
                assert(alike_at(one.collected, two.collected, from, to, rest));
            }
            assert forall|path: Seq<char>| #[trigger]
                second.rules.contains_key(path) implies to.is_prefix_of(path) by {
                paths_are_of_the_part(message, entries, message_name, other_part, numbers, path);
            }
            assert forall|path: Seq<char>| #[trigger]
                second.generators.contains_key(path) implies to.is_prefix_of(path) by {
                paths_are_of_the_part(message, entries, message_name, other_part, numbers, path);
            }
            alike_maps_are_moved(first.rules, second.rules, from, to);
            alike_maps_are_moved(first.generators, second.generators, from, to);
        },
        _ => {},
    }
}

/// A configuration that asks for a message gets one interaction, one that asks for a method of a
/// service gets two, and one that asks for neither gets none.
pub proof fn interactions_are_counted(
    files: Seq<FileDescriptorProto>,
    file_name: Seq<char>,
    descriptor_bytes: Seq<u8>,
    entries: Seq<(Seq<char>, ConfigValueView)>,
    numbers: Seq<(String, FloatBits)>,
    interactions: Seq<InteractionResponseView>,
)
    requires
        processed(files, file_name, descriptor_bytes, entries, numbers) == Some(
            Ok::<Seq<InteractionResponseView>, ErrorView>(interactions),
        ),
    ensures
        interactions.len() == (match requested(entries)->Ok_0 {
            RequestView::Message(_) => 1nat,
            RequestView::Service(_) => 2,
            RequestView::Nothing => 0,
        }),
{
}

/// Where a configuration names both a message and a service, the service makes no difference to
/// what it asks for.
pub proof fn message_comes_before_service(entries: Seq<(Seq<char>, ConfigValueView)>)
    requires
        setting(entries, "pact:message-type"@) is Some,
    ensures
        requested(entries) == (match value_text(setting(entries, "pact:message-type"@)->0) {
            Some(name) => Ok::<RequestView, ErrorView>(RequestView::Message(name)),
            None => Err::<RequestView, ErrorView>(
                ErrorView::NotAString { key: "pact:message-type"@ },
            ),
        }),
{
}

/// The digest, the text of the Protobuf file and the descriptors can be read back from what is
/// stored with a pact file.
pub proof fn stored_proto_is_injective(
    digest: Seq<u8>,
    file_contents: Seq<char>,
    descriptor_bytes: Seq<u8>,
    other_digest: Seq<u8>,
    other_contents: Seq<char>,
    other_bytes: Seq<u8>,
)
    requires
        stored_proto(digest, file_contents, descriptor_bytes) == stored_proto(
            other_digest,
            other_contents,
            other_bytes,
        ),
    ensures
        digest == other_digest,
        file_contents == other_contents,
        descriptor_bytes == other_bytes,
{
    let one = stored_proto(digest, file_contents, descriptor_bytes).pact_configuration->0[0];
    let two = stored_proto(other_digest, other_contents, other_bytes).pact_configuration->0[0];
    let stored = one.1.kind->0->StructValue_0;
    let other = two.1.kind->0->StructValue_0;
    assert(one.0 == two.0);
    hex_text_is_injective(digest, other_digest);
    assert(stored[0].1.kind == other[0].1.kind);
    assert(stored[1].1.kind == other[1].1.kind);
    base64_is_injective(descriptor_bytes, other_bytes);
}

/// Where the digest of the Protobuf file is the MD5 digest of its descriptors, the key by which an
/// interaction finds the descriptors is the one key of what is stored with the pact file.
pub proof fn descriptors_are_found_by_their_key(
    files: Seq<FileDescriptorProto>,
    file_name: Seq<char>,
    descriptor_bytes: Seq<u8>,
    entries: Seq<(Seq<char>, ConfigValueView)>,
    numbers: Seq<(String, FloatBits)>,
    file_contents: Seq<char>,
    interactions: Seq<InteractionResponseView>,
    i: int,
)
    requires
        processed(files, file_name, descriptor_bytes, entries, numbers) == Some(
            Ok::<Seq<InteractionResponseView>, ErrorView>(interactions),
        ),
        0 <= i < interactions.len(),
    ensures
        ({
            let stored = stored_proto(
                md5_digest(descriptor_bytes),
                file_contents,
                descriptor_bytes,
            ).pact_configuration->0;
            &&& stored.len() == 1
            &&& interactions[i].plugin_configuration matches Some(configuration)
                && configuration.interaction_configuration matches Some(settings) && setting(
                settings,
                "descriptorKey"@,
            ) == Some(
                ConfigValueView { kind: Some(ConfigKindView::StringValue(stored[0].0)) },
            )
        }),
{
}

/// The value of a scalar field keeps the name of the field and the text that it was made from.
pub proof fn values_keep_their_text(
    name: Seq<char>,
    text: Seq<char>,
    field: FieldDescriptorProto,
    numbers: Seq<(String, FloatBits)>,
)
    ensures
        field_value(name, text, field, numbers) matches Ok(value) ==> value.name == name
            && value.raw_value == Some(text),
{
}

/// An integer field takes every integer of its range, in decimal digits, as that integer.
pub proof fn integers_are_taken(
    name: Seq<char>,
    n: int,
    field: FieldDescriptorProto,
    numbers: Seq<(String, FloatBits)>,
)
    ensures
        ({
            let value = field_value(name, integer_text(n), field, numbers);
            let taken = |rtype: RTypeView|
                Ok::<FieldValueView, ErrorView>(made_from(name, integer_text(n), rtype));
            match declared_type(field) {
                FieldType::Int64 | FieldType::Sfixed64 | FieldType::Sint64 => i64::MIN <= n
                    <= i64::MAX ==> value == taken(RTypeView::Integer64(n as i64)),
                FieldType::Uint64 | FieldType::Fixed64 => 0 <= n <= u64::MAX ==> value == taken(
                    RTypeView::UInteger64(n as u64),
                ),
                FieldType::Int32 | FieldType::Sfixed32 | FieldType::Sint32 => i32::MIN <= n
                    <= i32::MAX ==> value == taken(RTypeView::Integer32(n as i32)),
                FieldType::Uint32 | FieldType::Fixed32 => 0 <= n <= u32::MAX ==> value == taken(
                    RTypeView::UInteger32(n as u32),
                ),
                _ => true,
            }
        }),
{
    if i64::MIN <= n <= i64::MAX {
        integer_text_reads_back(n, i64::MIN as int, i64::MAX as int);
    }
    if i32::MIN <= n <= i32::MAX {
        integer_text_reads_back(n, i32::MIN as int, i32::MAX as int);
    }
    if n >= 0 {
        number_text_reads_back(n as nat);
    }
}

} // verus!
