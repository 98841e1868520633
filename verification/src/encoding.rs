//! The bytes of a message on the wire.
use crate::descriptors::FieldType;
use crate::error::{outcome_of, Error, ErrorView};
use crate::message_builder::{
    order_of, FieldEntry, FieldEntryView, FieldValueView, MessageBuilder, MessageView, RType,
    RTypeView,
};
use crate::wire::{
    little_endian, little_endian_length, put_bytes, put_key, put_little_endian, put_varint,
    records_bytes, records_bytes_of_concatenation, records_read_back, read_records, two_complement,
    unsigned_of, zigzag, zigzag_of, Payload, Record,
};
use vstd::prelude::*;
use vstd::utf8::encode_utf8;

verus! {

/// The largest number that a field can have.
pub const MAX_FIELD_NUMBER: i32 = 0x1FFF_FFFF;

/// Whether a field can have this number.
pub open spec fn is_field_number(number: Option<i32>) -> bool {
    match number {
        Some(n) => 1 <= n <= MAX_FIELD_NUMBER,
        None => false,
    }
}

/// The name of the first field, in a message and the messages inside of it, with a number that no
/// field can have.
pub open spec fn misnumbered(message: MessageView) -> Option<Seq<char>>
    decreases message,
{
    misnumbered_field(message.fields)
}

/// The name of the first of the fields, and of the fields inside of them, with a number that no
/// field can have.
pub open spec fn misnumbered_field(fields: Seq<FieldEntryView>) -> Option<Seq<char>>
    decreases fields,
{
    if fields.len() == 0 {
        None
    } else if !is_field_number(fields[0].number) {
        Some(fields[0].name)
    } else {
        match misnumbered_inside(fields[0].values) {
            Some(name) => Some(name),
            None => misnumbered_field(fields.drop_first()),
        }
    }
}

/// The name of the first field inside of the values with a number that no field can have.
pub open spec fn misnumbered_inside(values: Seq<FieldValueView>) -> Option<Seq<char>>
    decreases values,
{
    if values.len() == 0 {
        None
    } else {
        let here = match values[0].rtype {
            RTypeView::Message(message) => misnumbered(*message),
            _ => None,
        };
        match here {
            Some(name) => Some(name),
            None => misnumbered_inside(values.drop_first()),
        }
    }
}

impl MessageBuilder {
    /// The name of the first field, in this message and the messages inside of it, with a number
    /// that no field can have.
    pub(crate) fn find_misnumbered(&self) -> (name: Option<String>)
        ensures
            match name {
                Some(n) => misnumbered(self@) == Some(n@),
                None => misnumbered(self@) is None,
            },
        decreases self,
    {
        let ghost fields = self@.fields;
        let mut i: usize = 0;
        assert(fields.skip(0) =~= fields);
        while i < self.fields.len()
            invariant
                i <= self.fields@.len(),
                fields == self@.fields,
                misnumbered_field(fields) == misnumbered_field(fields.skip(i as int)),
            decreases self.fields.len() - i,
        {
            proof {
                assert(fields.skip(i as int)[0] == self.fields@[i as int]@);
                assert(fields.skip(i as int).drop_first() =~= fields.skip(i + 1));
                assert(decreases_to!(*self => self.fields@[i as int]));
            }
            match self.fields[i].find_misnumbered() {
                Some(name) => {
                    return Some(name);
                },
                None => {},
            }
            i += 1;
        }
        None
    }
}

impl FieldEntry {
    /// The name of the field, or of the first field inside of its values, if it has a number that
    /// no field can have.
    pub(crate) fn find_misnumbered(&self) -> (name: Option<String>)
        ensures
            match name {
                Some(n) => Some(n@) == (if is_field_number(self@.number) {
                    misnumbered_inside(self@.values)
                } else {
                    Some(self@.name)
                }),
                None => is_field_number(self@.number) && misnumbered_inside(self@.values) is None,
            },
        decreases self,
    {
        match self.number {
            Some(number) if 1 <= number && number <= MAX_FIELD_NUMBER => {},
            _ => {
                return Some(self.name.clone());
            },
        }
        let ghost values = self@.values;
        let mut i: usize = 0;
        assert(values.skip(0) =~= values);
        while i < self.values.len()
            invariant
                i <= self.values@.len(),
                values == self@.values,
                is_field_number(self@.number),
                misnumbered_inside(values) == misnumbered_inside(values.skip(i as int)),
            decreases self.values.len() - i,
        {
            proof {
                assert(values.skip(i as int)[0] == self.values@[i as int]@);
                assert(values.skip(i as int).drop_first() =~= values.skip(i + 1));
            }
            match &self.values[i].rtype {
                RType::Message(message) => {
                    assert(decreases_to!(*self => self.values@[i as int].rtype));
                    match message.find_misnumbered() {
                        Some(name) => {
                            return Some(name);
                        },
                        None => {},
                    }
                },
                _ => {},
            }
            i += 1;
        }
        None
    }
}

/// What follows the key of a value on the wire. The type of the field says how an integer is
/// written; a message is written as its own records.
pub open spec fn payload(field_type: FieldType, rtype: RTypeView) -> Payload
    decreases rtype,
{
    match rtype {
        RTypeView::String(text) => Payload::Bytes(encode_utf8(text)),
        RTypeView::Boolean(b) => Payload::Varint(
            if b {
                1
            } else {
                0
            },
        ),
        RTypeView::UInteger32(n) => if field_type == FieldType::Fixed32 {
            Payload::Fixed32(little_endian(n as nat, 4))
        } else {
            Payload::Varint(n as nat)
        },
        RTypeView::Integer32(n) => if field_type == FieldType::Sfixed32 {
            Payload::Fixed32(little_endian(two_complement(n as int), 4))
        } else if field_type == FieldType::Sint32 {
            Payload::Varint(zigzag(n as int))
        } else {
            Payload::Varint(two_complement(n as int))
        },
        RTypeView::UInteger64(n) => if field_type == FieldType::Fixed64 {
            Payload::Fixed64(little_endian(n as nat, 8))
        } else {
            Payload::Varint(n as nat)
        },
        RTypeView::Integer64(n) => if field_type == FieldType::Sfixed64 {
            Payload::Fixed64(little_endian(two_complement(n as int), 8))
        } else if field_type == FieldType::Sint64 {
            Payload::Varint(zigzag(n as int))
        } else {
            Payload::Varint(two_complement(n as int))
        },
        RTypeView::Float(bits) => Payload::Fixed32(little_endian(bits as nat, 4)),
        RTypeView::Double(bits) => Payload::Fixed64(little_endian(bits as nat, 8)),
        RTypeView::Bytes(bytes) => Payload::Bytes(bytes),
        RTypeView::Message(message) => Payload::Bytes(records_bytes(message_records(*message))),
    }
}

/// The records of a message: those of its fields, one behind the other.
pub open spec fn message_records(message: MessageView) -> Seq<Record>
    decreases message,
{
    field_records(message.fields)
}

/// The records of a run of fields.
pub open spec fn field_records(fields: Seq<FieldEntryView>) -> Seq<Record>
    decreases fields,
{
    if fields.len() == 0 {
        Seq::empty()
    } else {
        value_records(order_of(fields[0]) as nat, fields[0].field_type, fields[0].values)
            + field_records(fields.drop_first())
    }
}

/// The records of the values of a field: one each.
pub open spec fn value_records(
    number: nat,
    field_type: FieldType,
    values: Seq<FieldValueView>,
) -> Seq<Record>
    decreases values,
{
    if values.len() == 0 {
        Seq::empty()
    } else {
        seq![Record { number, payload: payload(field_type, values[0].rtype) }] + value_records(
            number,
            field_type,
            values.drop_first(),
        )
    }
}

/// The bytes of a message, if all of its fields have numbers that fields can have.
pub open spec fn encoded(message: MessageView) -> Result<Seq<u8>, ErrorView> {
    match misnumbered(message) {
        Some(field) => Err(ErrorView::InvalidFieldNumber { field }),
        None => Ok(records_bytes(message_records(message))),
    }
}

/// The bytes of a run of one record.
pub proof fn records_bytes_of_one(record: Record)
    ensures
        records_bytes(seq![record]) == record.bytes(),
{
    let records = seq![record];
    assert(records.drop_first() =~= Seq::<Record>::empty());
    assert(records_bytes(records.drop_first()) =~= Seq::<u8>::empty());
    assert(records_bytes(records) =~= record.bytes());
}

/// Writes the bytes of a value, with its key, at the end of `buffer`.
fn put_value(buffer: &mut Vec<u8>, number: u32, field_type: FieldType, value: &RType)
    requires
        value@ matches RTypeView::Message(message) ==> misnumbered(*message) is None,
    ensures
        final(buffer)@ == old(buffer)@ + (Record {
            number: number as nat,
            payload: payload(field_type, value@),
        }).bytes(),
    decreases value,
{
    let ghost before = buffer@;
    let ghost record = Record { number: number as nat, payload: payload(field_type, value@) };
    match value {
        RType::String(text) => {
            let bytes = text.as_str().as_bytes_vec();
            put_key(buffer, number, 2);
            put_varint(buffer, bytes.len() as u64);
            put_bytes(buffer, bytes.as_slice());
        },
        RType::Boolean(b) => {
            put_key(buffer, number, 0);
            put_varint(
                buffer,
                if *b {
                    1
                } else {
                    0
                },
            );
        },
        RType::UInteger32(n) => if field_type == FieldType::Fixed32 {
            put_key(buffer, number, 5);
            put_little_endian(buffer, *n as u64, 4);
        } else {
            put_key(buffer, number, 0);
            put_varint(buffer, *n as u64);
        },
        RType::Integer32(n) => if field_type == FieldType::Sfixed32 {
            put_key(buffer, number, 5);
            put_little_endian(buffer, unsigned_of(*n as i64), 4);
        } else if field_type == FieldType::Sint32 {
            put_key(buffer, number, 0);
            put_varint(buffer, zigzag_of(*n as i64));
        } else {
            put_key(buffer, number, 0);
            put_varint(buffer, unsigned_of(*n as i64));
        },
        RType::UInteger64(n) => if field_type == FieldType::Fixed64 {
            put_key(buffer, number, 1);
            put_little_endian(buffer, *n, 8);
        } else {
            put_key(buffer, number, 0);
            put_varint(buffer, *n);
        },
        RType::Integer64(n) => if field_type == FieldType::Sfixed64 {
            put_key(buffer, number, 1);
            put_little_endian(buffer, unsigned_of(*n), 8);
        } else if field_type == FieldType::Sint64 {
            put_key(buffer, number, 0);
            put_varint(buffer, zigzag_of(*n));
        } else {
            put_key(buffer, number, 0);
            put_varint(buffer, unsigned_of(*n));
        },
        RType::Float(bits) => {
            put_key(buffer, number, 5);
            put_little_endian(buffer, *bits as u64, 4);
        },
        RType::Double(bits) => {
            put_key(buffer, number, 1);
            put_little_endian(buffer, *bits, 8);
        },
        RType::Bytes(bytes) => {
            put_key(buffer, number, 2);
            put_varint(buffer, bytes.len() as u64);
            put_bytes(buffer, bytes.as_slice());
        },
        RType::Message(message) => {
            let mut bytes: Vec<u8> = Vec::new();
            message.put_fields(&mut bytes);
            put_key(buffer, number, 2);
            put_varint(buffer, bytes.len() as u64);
            put_bytes(buffer, bytes.as_slice());
            assert(bytes@ =~= records_bytes(message_records(message@)));
        },
    }
    assert(buffer@ =~= before + record.bytes());
}

impl FieldEntry {
    /// Writes the records of the field at the end of `buffer`.
    fn put_records(&self, buffer: &mut Vec<u8>)
        requires
            is_field_number(self@.number),
            misnumbered_inside(self@.values) is None,
        ensures
            final(buffer)@ == old(buffer)@ + records_bytes(
                value_records(order_of(self@) as nat, self@.field_type, self@.values),
            ),
        decreases self,
    {
        let number: u32 = match self.number {
            Some(number) => number as u32,
            None => 0,
        };
        let ghost values = self@.values;
        let ghost before = buffer@;
        let ghost all = value_records(number as nat, self.field_type, values);
        let mut i: usize = 0;
        assert(values.skip(0) =~= values);
        assert(buffer@ + records_bytes(all) =~= before + records_bytes(all));
        while i < self.values.len()
            invariant
                i <= self.values@.len(),
                values == self@.values,
                misnumbered_inside(values.skip(i as int)) is None,
                all == value_records(number as nat, self.field_type, values),
                buffer@ + records_bytes(
                    value_records(number as nat, self.field_type, values.skip(i as int)),
                ) == before + records_bytes(all),
            decreases self.values.len() - i,
        {
            let ghost so_far = buffer@;
            let ghost rest = values.skip(i as int);
            let ghost record = Record {
                number: number as nat,
                payload: payload(self.field_type, rest[0].rtype),
            };
            proof {
                assert(rest[0] == self.values@[i as int]@);
                assert(rest.drop_first() =~= values.skip(i + 1));
                assert(decreases_to!(*self => self.values@[i as int].rtype));
                records_bytes_of_one(record);
                records_bytes_of_concatenation(
                    seq![record],
                    value_records(number as nat, self.field_type, values.skip(i + 1)),
                );
            }
            put_value(buffer, number, self.field_type, &self.values[i].rtype);
            i += 1;
            assert(buffer@ + records_bytes(
                value_records(number as nat, self.field_type, values.skip(i as int)),
            ) =~= so_far + records_bytes(
                value_records(number as nat, self.field_type, rest),
            ));
        }
        assert(values.skip(i as int) =~= Seq::empty());
        assert(buffer@ =~= before + records_bytes(all));
    }
}

impl MessageBuilder {
    /// Writes the records of the message at the end of `buffer`.
    fn put_fields(&self, buffer: &mut Vec<u8>)
        requires
            misnumbered(self@) is None,
        ensures
            final(buffer)@ == old(buffer)@ + records_bytes(message_records(self@)),
        decreases self,
    {
        let ghost fields = self@.fields;
        let ghost before = buffer@;
        let ghost all = field_records(fields);
        let mut i: usize = 0;
        assert(fields.skip(0) =~= fields);
        while i < self.fields.len()
            invariant
                i <= self.fields@.len(),
                fields == self@.fields,
                misnumbered_field(fields.skip(i as int)) is None,
                all == field_records(fields),
                buffer@ + records_bytes(field_records(fields.skip(i as int))) == before
                    + records_bytes(all),
            decreases self.fields.len() - i,
        {
            let ghost so_far = buffer@;
            let ghost rest = fields.skip(i as int);
            proof {
                assert(rest[0] == self.fields@[i as int]@);
                assert(rest.drop_first() =~= fields.skip(i + 1));
                assert(decreases_to!(*self => self.fields@[i as int]));
                records_bytes_of_concatenation(
                    value_records(order_of(rest[0]) as nat, rest[0].field_type, rest[0].values),
                    field_records(fields.skip(i + 1)),
                );
            }
            self.fields[i].put_records(buffer);
            i += 1;
            assert(buffer@ + records_bytes(field_records(fields.skip(i as int))) =~= so_far
                + records_bytes(field_records(rest)));
        }
        assert(fields.skip(i as int) =~= Seq::empty());
        assert(buffer@ =~= before + records_bytes(all));
    }

    /// The bytes of the message on the wire, if all of its fields have numbers that fields can
    /// have.
    pub fn encode_message(&self) -> (bytes: Result<Vec<u8>, Error>)
        ensures
            outcome_of(bytes) == encoded(self@),
    {
        match self.find_misnumbered() {
            Some(field) => Err(Error::InvalidFieldNumber { field }),
            None => {
                let mut bytes: Vec<u8> = Vec::new();
                self.put_fields(&mut bytes);
                assert(bytes@ =~= records_bytes(message_records(self@)));
                Ok(bytes)
            },
        }
    }
}

/// Every payload of a fixed size has that size.
pub proof fn payloads_are_sized(field_type: FieldType, rtype: RTypeView)
    ensures
        payload(field_type, rtype).is_sized(),
{
    match rtype {
        RTypeView::UInteger32(n) => little_endian_length(n as nat, 4),
        RTypeView::Integer32(n) => little_endian_length(two_complement(n as int), 4),
        RTypeView::UInteger64(n) => little_endian_length(n as nat, 8),
        RTypeView::Integer64(n) => little_endian_length(two_complement(n as int), 8),
        RTypeView::Float(bits) => little_endian_length(bits as nat, 4),
        RTypeView::Double(bits) => little_endian_length(bits as nat, 8),
        _ => {},
    }
}

proof fn value_records_are_sized(number: nat, field_type: FieldType, values: Seq<FieldValueView>)
    ensures
        forall|i: int|
            0 <= i < value_records(number, field_type, values).len() ==> (
            #[trigger] value_records(number, field_type, values)[i]).payload.is_sized(),
    decreases values.len(),
{
    if values.len() > 0 {
        payloads_are_sized(field_type, values[0].rtype);
        value_records_are_sized(number, field_type, values.drop_first());
    }
}

proof fn field_records_are_sized(fields: Seq<FieldEntryView>)
    ensures
        forall|i: int|
            0 <= i < field_records(fields).len() ==> (
            #[trigger] field_records(fields)[i]).payload.is_sized(),
    decreases fields.len(),
{
    if fields.len() > 0 {
        value_records_are_sized(
            order_of(fields[0]) as nat,
            fields[0].field_type,
            fields[0].values,
        );
        field_records_are_sized(fields.drop_first());
    }
}

/// The bytes of a message read back as its records: one for each value of each field, in the order
/// of the fields.
pub proof fn encoded_message_reads_back(message: MessageView)
    requires
        encoded(message) is Ok,
    ensures
        read_records(encoded(message)->Ok_0) == Some(message_records(message)),
{
    field_records_are_sized(message.fields);
    records_read_back(message_records(message));
}

} // verus!
