//! How values are read back from the wire, and that they read back as they were written.
use crate::descriptors::{declared_type, FieldDescriptorProto, FieldType};
use crate::encoding::payload;
use crate::fields::field_value;
use crate::message_builder::{FloatBits, RTypeView};
use crate::wire::{little_endian, two_complement, Payload};
use vstd::prelude::*;
use vstd::utf8::{decode_utf8, encode_utf8_decode_utf8};

verus! {

/// The number that some bytes stand for, the lowest byte first.
pub open spec fn read_little_endian(bytes: Seq<u8>) -> nat
    decreases bytes.len(),
{
    if bytes.len() == 0 {
        0
    } else {
        (bytes[0] + 256 * read_little_endian(bytes.drop_first())) as nat
    }
}

/// The signed number of 32 bits with the given bits.
pub open spec fn signed_32(bits: int) -> int {
    if bits < 0x8000_0000 {
        bits
    } else {
        bits - 0x1_0000_0000
    }
}

/// The signed number of 64 bits with the given bits.
pub open spec fn signed_64(bits: int) -> int {
    if bits < 0x8000_0000_0000_0000 {
        bits
    } else {
        bits - 0x1_0000_0000_0000_0000
    }
}

/// The number that a zigzag number stands for.
pub open spec fn unzigzag(n: int) -> int {
    if n % 2 == 0 {
        n / 2
    } else {
        -(n / 2) - 1
    }
}

/// The value of a scalar field of the given type that a payload holds.
pub open spec fn read_value(field_type: FieldType, payload: Payload) -> Option<RTypeView> {
    match (field_type, payload) {
        (FieldType::Double, Payload::Fixed64(bytes)) => Some(
            RTypeView::Double(read_little_endian(bytes) as u64),
        ),
        (FieldType::Float, Payload::Fixed32(bytes)) => Some(
            RTypeView::Float(read_little_endian(bytes) as u32),
        ),
        (FieldType::Int64, Payload::Varint(n)) => Some(
            RTypeView::Integer64(signed_64(n as int) as i64),
        ),
        (FieldType::Sint64, Payload::Varint(n)) => Some(
            RTypeView::Integer64(unzigzag(n as int) as i64),
        ),
        (FieldType::Sfixed64, Payload::Fixed64(bytes)) => Some(
            RTypeView::Integer64(signed_64(read_little_endian(bytes) as int) as i64),
        ),
        (FieldType::Uint64, Payload::Varint(n)) => Some(RTypeView::UInteger64(n as u64)),
        (FieldType::Fixed64, Payload::Fixed64(bytes)) => Some(
            RTypeView::UInteger64(read_little_endian(bytes) as u64),
        ),
        (FieldType::Int32, Payload::Varint(n)) => Some(
            RTypeView::Integer32(signed_64(n as int) as i32),
        ),
        (FieldType::Sint32, Payload::Varint(n)) => Some(
            RTypeView::Integer32(unzigzag(n as int) as i32),
        ),
        (FieldType::Sfixed32, Payload::Fixed32(bytes)) => Some(
            RTypeView::Integer32(signed_32(read_little_endian(bytes) as int) as i32),
        ),
        (FieldType::Uint32, Payload::Varint(n)) => Some(RTypeView::UInteger32(n as u32)),
        (FieldType::Fixed32, Payload::Fixed32(bytes)) => Some(
            RTypeView::UInteger32(read_little_endian(bytes) as u32),
        ),
        (FieldType::Bool, Payload::Varint(n)) => Some(RTypeView::Boolean(n != 0)),
        (FieldType::String, Payload::Bytes(bytes)) => Some(RTypeView::String(decode_utf8(bytes))),
        (FieldType::Bytes, Payload::Bytes(bytes)) => Some(RTypeView::Bytes(bytes)),
        _ => None,
    }
}

/// The number of different numbers that some bytes can stand for.
pub open spec fn byte_range(width: nat) -> nat
    decreases width,
{
    if width == 0 {
        1
    } else {
        256 * byte_range((width - 1) as nat)
    }
}

/// The lowest bytes of a number read back as the number, without what is above them.
pub proof fn little_endian_reads_back(n: nat, width: nat)
    ensures
        byte_range(width) > 0,
        read_little_endian(little_endian(n, width)) == n % byte_range(width),
    decreases width,
{
    if width > 0 {
        let rest = (width - 1) as nat;
        let high = byte_range(rest);
        little_endian_reads_back(n / 256, rest);
        let bytes = little_endian(n, width);
        assert(bytes.drop_first() =~= little_endian(n / 256, rest));
        assert(bytes[0] == n % 256);
        assert(n % 256 + 256 * ((n / 256) % high) == n % (256 * high)) by {
            vstd::arithmetic::div_mod::lemma_mod_breakdown(n as int, 256, high as int);
        }
    }
}

proof fn four_and_eight_bytes()
    ensures
        byte_range(4) == 0x1_0000_0000,
        byte_range(8) == 0x1_0000_0000_0000_0000,
{
    reveal_with_fuel(byte_range, 9);
}

/// A scalar field reads back from the wire as the value that its text gives.
pub proof fn values_read_back(
    name: Seq<char>,
    text: Seq<char>,
    field: FieldDescriptorProto,
    numbers: Seq<(String, FloatBits)>,
)
    ensures
        field_value(name, text, field, numbers) matches Ok(value) ==> read_value(
            declared_type(field),
            payload(declared_type(field), value.rtype),
        ) == Some(value.rtype),
{
    four_and_eight_bytes();
    match field_value(name, text, field, numbers) {
        Ok(value) => {
            match value.rtype {
                RTypeView::String(s) => encode_utf8_decode_utf8(s),
                RTypeView::UInteger32(n) => little_endian_reads_back(n as nat, 4),
                RTypeView::Integer32(n) => {
                    little_endian_reads_back(two_complement(n as int), 4);
                },
                RTypeView::UInteger64(n) => little_endian_reads_back(n as nat, 8),
                RTypeView::Integer64(n) => {
                    little_endian_reads_back(two_complement(n as int), 8);
                },
                RTypeView::Float(bits) => little_endian_reads_back(bits as nat, 4),
                RTypeView::Double(bits) => little_endian_reads_back(bits as nat, 8),
                _ => {},
            }
        },
        Err(_) => {},
    }
}

} // verus!
