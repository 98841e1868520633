//! What the bytes of a message are: each value of each field, by its number, in order.
use crate::descriptors::FieldType;
use crate::encoding::{
    encoded, encoded_message_reads_back, field_records, message_records, misnumbered,
    misnumbered_field, misnumbered_inside, payload, records_bytes_of_one, value_records,
};
use crate::error::ErrorView;
use crate::message_builder::{order_of, FieldEntryView, FieldValueView, MessageView, RTypeView};
use crate::wire::{
    little_endian, little_endian_length, read_records, records_bytes,
    records_bytes_of_concatenation, varint, Payload, Record,
};
use vstd::arithmetic::power::pow;
use vstd::prelude::*;
use vstd::utf8::encode_utf8;

verus! {

/// The number that bytes stand for, seven bits to a byte, the lowest first.
pub open spec fn sevens(bytes: Seq<u8>) -> nat
    decreases bytes.len(),
{
    if bytes.len() == 0 {
        0
    } else {
        (bytes[0] as int % 128 + 128 * sevens(bytes.drop_first())) as nat
    }
}

/// A varint holds its number in groups of seven bits, the lowest first; the top bit is set on all
/// bytes but the last, and there are no more bytes than are needed.
pub proof fn varints_hold_their_numbers(n: nat)
    ensures
        varint(n).len() > 0,
        sevens(varint(n)) == n,
        varint(n).last() < 128,
        forall|i: int| 0 <= i < varint(n).len() - 1 ==> (#[trigger] varint(n)[i]) >= 128,
        varint(n).len() > 1 ==> varint(n).last() != 0,
    decreases n,
{
    let bytes = varint(n);
    if n < 128 {
        assert(bytes.drop_first() =~= Seq::<u8>::empty());
        assert(sevens(bytes.drop_first()) == 0);
    } else {
        varints_hold_their_numbers(n / 128);
        let rest = varint(n / 128);
        assert(bytes.drop_first() =~= rest);
        assert(bytes.last() == rest.last());
        assert forall|i: int| 0 <= i < bytes.len() - 1 implies (#[trigger] bytes[i]) >= 128 by {
            if i > 0 {
                assert(bytes[i] == rest[i - 1]);
            }
        }
        if rest.len() == 1 {
            assert(rest.drop_first() =~= Seq::<u8>::empty());
            assert(sevens(rest.drop_first()) == 0);
            assert(sevens(rest) == rest[0] as int % 128);
        }
    }
}

/// A number of fixed size holds its bytes, the lowest first.
pub proof fn fixed_numbers_hold_their_bytes(n: nat, width: nat, i: nat)
    requires
        i < width,
    ensures
        little_endian(n, width).len() == width,
        little_endian(n, width)[i as int] as int == n as int / pow(256, i) % 256,
    decreases width,
{
    little_endian_length(n, width);
    let rest = little_endian(n / 256, (width - 1) as nat);
    if i == 0 {
        vstd::arithmetic::power::lemma_pow0(256);
    } else {
        fixed_numbers_hold_their_bytes(n / 256, (width - 1) as nat, (i - 1) as nat);
        assert(little_endian(n, width)[i as int] == rest[i - 1]);
        vstd::arithmetic::power::lemma_pow_positive(256, (i - 1) as nat);
        vstd::arithmetic::div_mod::lemma_div_denominator(n as int, 256, pow(256, (i - 1) as nat));
        assert(pow(256, i) == 256 * pow(256, (i - 1) as nat)) by {
            reveal(pow);
        }
    }
}

/// A record is a varint of eight times its number and its wire type, and what it holds: a varint,
/// eight bytes, a length and as many bytes, or four bytes.
pub proof fn records_hold_their_payloads(number: nat, n: nat, bytes: Seq<u8>)
    ensures
        (Record { number, payload: Payload::Varint(n) }).bytes() == varint(8 * number) + varint(n),
        (Record { number, payload: Payload::Fixed64(bytes) }).bytes() == varint(8 * number + 1)
            + bytes,
        (Record { number, payload: Payload::Bytes(bytes) }).bytes() == varint(8 * number + 2) + (
        varint(bytes.len()) + bytes),
        (Record { number, payload: Payload::Fixed32(bytes) }).bytes() == varint(8 * number + 5)
            + bytes,
{
}

/// Records are written one behind the other.
pub proof fn records_are_written_in_order(records: Seq<Record>, record: Record)
    ensures
        records_bytes(records.push(record)) == records_bytes(records) + record.bytes(),
        records_bytes(Seq::empty()) == Seq::<u8>::empty(),
{
    records_bytes_of_concatenation(records, seq![record]);
    records_bytes_of_one(record);
    assert(records.push(record) =~= records + seq![record]);
}

/// Whether bytes are those of a number, the lowest first.
pub open spec fn holds(bytes: Seq<u8>, n: nat, width: nat) -> bool {
    bytes.len() == width && forall|i: nat|
        i < width ==> (#[trigger] bytes[i as int]) as int == n as int / pow(256, i) % 256
}

proof fn little_endian_holds(n: nat, width: nat)
    ensures
        holds(little_endian(n, width), n, width),
{
    little_endian_length(n, width);
    assert forall|i: nat| i < width implies (#[trigger] little_endian(n, width)[i as int]) as int == n
        as int / pow(256, i) % 256 by {
        fixed_numbers_hold_their_bytes(n, width, i);
    }
}

/// Texts and bytes are written as they are, Booleans as one or zero, and numbers by the type of
/// their field: as varints, in zigzag form, or in four or eight bytes.
pub proof fn scalars_are_written(field_type: FieldType, rtype: RTypeView)
    ensures
        match rtype {
            RTypeView::String(text) => payload(field_type, rtype) == Payload::Bytes(
                encode_utf8(text),
            ),
            RTypeView::Bytes(bytes) => payload(field_type, rtype) == Payload::Bytes(bytes),
            RTypeView::Boolean(b) => payload(field_type, rtype) == Payload::Varint(
                if b {
                    1
                } else {
                    0
                },
            ),
            RTypeView::UInteger32(n) => if field_type == FieldType::Fixed32 {
                payload(field_type, rtype) matches Payload::Fixed32(bytes) && holds(
                    bytes,
                    n as nat,
                    4,
                )
            } else {
                payload(field_type, rtype) == Payload::Varint(n as nat)
            },
            RTypeView::UInteger64(n) => if field_type == FieldType::Fixed64 {
                payload(field_type, rtype) matches Payload::Fixed64(bytes) && holds(
                    bytes,
                    n as nat,
                    8,
                )
            } else {
                payload(field_type, rtype) == Payload::Varint(n as nat)
            },
            RTypeView::Integer32(n) => {
                let unsigned = if n < 0 {
                    (n + 0x1_0000_0000_0000_0000) as nat
                } else {
                    n as nat
                };
                if field_type == FieldType::Sfixed32 {
                    payload(field_type, rtype) matches Payload::Fixed32(bytes) && holds(
                        bytes,
                        unsigned,
                        4,
                    )
                } else if field_type == FieldType::Sint32 {
                    payload(field_type, rtype) == Payload::Varint(
                        if n < 0 {
                            (-1 - 2 * n) as nat
                        } else {
                            (2 * n) as nat
                        },
                    )
                } else {
                    payload(field_type, rtype) == Payload::Varint(unsigned)
                }
            },
            RTypeView::Integer64(n) => {
                let unsigned = if n < 0 {
                    (n + 0x1_0000_0000_0000_0000) as nat
                } else {
                    n as nat
                };
                if field_type == FieldType::Sfixed64 {
                    payload(field_type, rtype) matches Payload::Fixed64(bytes) && holds(
                        bytes,
                        unsigned,
                        8,
                    )
                } else if field_type == FieldType::Sint64 {
                    payload(field_type, rtype) == Payload::Varint(
                        if n < 0 {
                            (-1 - 2 * n) as nat
                        } else {
                            (2 * n) as nat
                        },
                    )
                } else {
                    payload(field_type, rtype) == Payload::Varint(unsigned)
                }
            },
            RTypeView::Float(bits) => payload(field_type, rtype) matches Payload::Fixed32(bytes)
                && holds(bytes, bits as nat, 4),
            RTypeView::Double(bits) => payload(field_type, rtype) matches Payload::Fixed64(bytes)
                && holds(bytes, bits as nat, 8),
            RTypeView::Message(_) => payload(field_type, rtype) is Bytes,
        },
{
    match rtype {
        RTypeView::UInteger32(n) => little_endian_holds(n as nat, 4),
        RTypeView::Integer32(n) => little_endian_holds(
            if n < 0 {
                (n + 0x1_0000_0000_0000_0000) as nat
            } else {
                n as nat
            },
            4,
        ),
        RTypeView::UInteger64(n) => little_endian_holds(n as nat, 8),
        RTypeView::Integer64(n) => little_endian_holds(
            if n < 0 {
                (n + 0x1_0000_0000_0000_0000) as nat
            } else {
                n as nat
            },
            8,
        ),
        RTypeView::Float(bits) => little_endian_holds(bits as nat, 4),
        RTypeView::Double(bits) => little_endian_holds(bits as nat, 8),
        _ => {},
    }
}

proof fn value_records_by_index(
    number: nat,
    field_type: FieldType,
    values: Seq<FieldValueView>,
    j: int,
)
    ensures
        value_records(number, field_type, values).len() == values.len(),
        0 <= j < values.len() ==> value_records(number, field_type, values)[j] == (Record {
            number,
            payload: payload(field_type, values[j].rtype),
        }),
    decreases values.len(),
{
    if values.len() > 0 {
        value_records_by_index(number, field_type, values.drop_first(), j - 1);
        if j > 0 && j < values.len() {
            assert(values.drop_first()[j - 1] == values[j]);
        }
    }
}

/// The number of values of the fields before the one at `i`.
pub open spec fn values_before(fields: Seq<FieldEntryView>, i: int) -> int
    decreases i,
{
    if i <= 0 {
        0
    } else {
        values_before(fields, i - 1) + fields[i - 1].values.len()
    }
}

proof fn values_before_in_rest(fields: Seq<FieldEntryView>, i: int)
    requires
        1 <= i <= fields.len(),
    ensures
        values_before(fields, i) == fields[0].values.len() + values_before(
            fields.drop_first(),
            i - 1,
        ),
    decreases i,
{
    reveal_with_fuel(values_before, 2);
    if i > 1 {
        values_before_in_rest(fields, i - 1);
        assert(fields.drop_first()[i - 2] == fields[i - 1]);
    }
}

/// A message has one record for each value of each of its fields, in the order of the fields and of
/// their values, with the number of the field.
pub proof fn every_value_has_a_record(message: MessageView, i: int, j: int)
    requires
        0 <= i < message.fields.len(),
        0 <= j < message.fields[i].values.len(),
        message.fields[i].number is Some,
        message.fields[i].number->0 >= 0,
    ensures
        ({
            let records = message_records(message);
            let at = values_before(message.fields, i) + j;
            &&& 0 <= at < records.len()
            &&& records[at].number == message.fields[i].number->0
            &&& records[at].payload == payload(
                message.fields[i].field_type,
                message.fields[i].values[j].rtype,
            )
        }),
{
    field_records_by_index(message.fields, i, j);
}

proof fn field_records_by_index(fields: Seq<FieldEntryView>, i: int, j: int)
    requires
        0 <= i < fields.len(),
        0 <= j < fields[i].values.len(),
        fields[i].number is Some,
        fields[i].number->0 >= 0,
    ensures
        ({
            let records = field_records(fields);
            let at = values_before(fields, i) + j;
            &&& 0 <= at < records.len()
            &&& records[at].number == fields[i].number->0
            &&& records[at].payload == payload(fields[i].field_type, fields[i].values[j].rtype)
        }),
    decreases fields.len(),
{
    let number = order_of(fields[0]) as nat;
    value_records_by_index(number, fields[0].field_type, fields[0].values, j);
    if i > 0 {
        let rest = fields.drop_first();
        assert(rest[i - 1] == fields[i]);
        field_records_by_index(rest, i - 1, j);
        values_before_in_rest(fields, i);
    }
}

/// A message has no more records than its fields have values.
pub proof fn every_record_has_a_value(message: MessageView)
    ensures
        message_records(message).len() == values_before(
            message.fields,
            message.fields.len() as int,
        ),
{
    field_records_length(message.fields);
}

proof fn field_records_length(fields: Seq<FieldEntryView>)
    ensures
        field_records(fields).len() == values_before(fields, fields.len() as int),
    decreases fields.len(),
{
    if fields.len() > 0 {
        let number = order_of(fields[0]) as nat;
        value_records_by_index(number, fields[0].field_type, fields[0].values, 0);
        field_records_length(fields.drop_first());
        values_before_in_rest(fields, fields.len() as int);
    }
}

/// A field that holds a message holds its records, all of them, and reads back as them: just what
/// the message is written as by itself.
pub proof fn messages_inside_read_back(field_type: FieldType, message: MessageView)
    ensures
        payload(field_type, RTypeView::Message(Box::new(message))) matches Payload::Bytes(bytes) && {
            &&& bytes == records_bytes(message_records(message))
            &&& misnumbered(message) is None ==> {
                &&& encoded(message) == Ok::<Seq<u8>, ErrorView>(bytes)
                &&& read_records(bytes) == Some(message_records(message))
            }
        },
{
    if misnumbered(message) is None {
        encoded_message_reads_back(message);
    }
}

/// A message that can be written is written as its records, one behind the other.
pub proof fn messages_are_written_as_their_records(message: MessageView)
    ensures
        encoded(message) matches Ok(bytes) ==> bytes == records_bytes(message_records(message)),
{
}

/// Whether the fields of a message, and of the messages inside of it, have numbers that fields can
/// have.
pub open spec fn is_numbered(message: MessageView) -> bool
    decreases message,
{
    forall|i: int|
        0 <= i < message.fields.len() ==> {
            &&& (#[trigger] message.fields[i]).number is Some
            &&& 1 <= message.fields[i].number->0 <= 536_870_911
            &&& are_numbered(message.fields[i].values)
        }
}

/// Whether the messages among some values are numbered.
pub open spec fn are_numbered(values: Seq<FieldValueView>) -> bool
    decreases values,
{
    forall|i: int|
        0 <= i < values.len() ==> ((#[trigger] values[i]).rtype matches RTypeView::Message(message)
            ==> is_numbered(*message))
}

proof fn misnumbered_means_not_numbered(message: MessageView)
    ensures
        misnumbered(message) is None <==> is_numbered(message),
    decreases message,
{
    misnumbered_field_means_not_numbered(message.fields);
}

proof fn misnumbered_field_means_not_numbered(fields: Seq<FieldEntryView>)
    ensures
        misnumbered_field(fields) is None <==> forall|i: int|
            0 <= i < fields.len() ==> {
                &&& (#[trigger] fields[i]).number is Some
                &&& 1 <= fields[i].number->0 <= 536_870_911
                &&& are_numbered(fields[i].values)
            },
    decreases fields,
{
    if fields.len() > 0 {
        let rest = fields.drop_first();
        misnumbered_inside_means_not_numbered(fields[0].values);
        misnumbered_field_means_not_numbered(rest);
        assert forall|i: int| 1 <= i < fields.len() implies #[trigger] fields[i] == rest[i - 1] by {}
        assert forall|i: int| 0 <= i < rest.len() implies #[trigger] rest[i] == fields[i + 1] by {}
    }
}

proof fn misnumbered_inside_means_not_numbered(values: Seq<FieldValueView>)
    ensures
        misnumbered_inside(values) is None <==> are_numbered(values),
    decreases values,
{
    if values.len() > 0 {
        let rest = values.drop_first();
        match values[0].rtype {
            RTypeView::Message(message) => misnumbered_means_not_numbered(*message),
            _ => {},
        }
        misnumbered_inside_means_not_numbered(rest);
        assert forall|i: int| 1 <= i < values.len() implies #[trigger] values[i] == rest[i - 1] by {}
        assert forall|i: int| 0 <= i < rest.len() implies #[trigger] rest[i] == values[i + 1] by {}
    }
}

/// Of two runs of fields, one behind the other, the first run says which field has no number that a
/// field can have, if it holds one; and of a field and those inside of it, the field itself does.
pub proof fn the_first_misnumbered_field_is_named(
    first: Seq<FieldEntryView>,
    second: Seq<FieldEntryView>,
    entry: FieldEntryView,
)
    ensures
        misnumbered_field(first + second) == (if misnumbered_field(first) is Some {
            misnumbered_field(first)
        } else {
            misnumbered_field(second)
        }),
        misnumbered_field(seq![entry]) == (if entry.number is Some && 1 <= entry.number->0
            <= 536_870_911 {
            misnumbered_inside(entry.values)
        } else {
            Some(entry.name)
        }),
    decreases first.len(),
{
    let one = seq![entry];
    assert(one.drop_first() =~= Seq::empty());
    assert(misnumbered_field(one.drop_first()) is None);
    if first.len() == 0 {
        assert(first + second =~= second);
    } else {
        the_first_misnumbered_field_is_named(first.drop_first(), second, entry);
        assert((first + second).drop_first() =~= first.drop_first() + second);
    }
}

/// The messages among some values say which field has no number that a field can have, in the order
/// of the values; and the error for a message names that field.
pub proof fn the_first_misnumbered_value_is_named(
    first: Seq<FieldValueView>,
    second: Seq<FieldValueView>,
    value: FieldValueView,
    message: MessageView,
)
    ensures
        misnumbered_inside(first + second) == (if misnumbered_inside(first) is Some {
            misnumbered_inside(first)
        } else {
            misnumbered_inside(second)
        }),
        misnumbered_inside(seq![value]) == (match value.rtype {
            RTypeView::Message(inner) => misnumbered_field(inner.fields),
            _ => None,
        }),
        misnumbered_field(message.fields) matches Some(field) ==> encoded(message) == Err::<
            Seq<u8>,
            ErrorView,
        >(ErrorView::InvalidFieldNumber { field }),
    decreases first.len(),
{
    let one = seq![value];
    assert(one.drop_first() =~= Seq::empty());
    assert(misnumbered_inside(one.drop_first()) is None);
    assert(misnumbered(message) == misnumbered_field(message.fields));
    match value.rtype {
        RTypeView::Message(inner) => {
            assert(misnumbered(*inner) == misnumbered_field(inner.fields));
        },
        _ => {},
    }
    if first.len() == 0 {
        assert(first + second =~= second);
    } else {
        the_first_misnumbered_value_is_named(first.drop_first(), second, value, message);
        assert((first + second).drop_first() =~= first.drop_first() + second);
    }
}

/// A message can be written exactly where its fields, and those of the messages inside of it, have
/// numbers that fields can have.
pub proof fn numbered_messages_are_written(message: MessageView)
    ensures
        encoded(message) is Ok <==> is_numbered(message),
        encoded(message) matches Err(error) ==> error is InvalidFieldNumber,
{
    misnumbered_means_not_numbered(message);
}

} // verus!
