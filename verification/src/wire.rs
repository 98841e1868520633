//! The Protobuf wire format: a message is a run of records, each a key followed by a payload.
use vstd::prelude::*;

verus! {

/// What follows the key of a record, by its wire type.
pub enum Payload {
    /// Wire type 0: a number in groups of seven bits, the lowest first.
    Varint(nat),
    /// Wire type 1: eight bytes.
    Fixed64(Seq<u8>),
    /// Wire type 2: a length, and as many bytes.
    Bytes(Seq<u8>),
    /// Wire type 5: four bytes.
    Fixed32(Seq<u8>),
}

/// One record of a message: the number of the field and the payload.
pub struct Record {
    pub number: nat,
    pub payload: Payload,
}

/// The bytes of `n` as a varint: seven bits to a byte, the lowest first, the top bit set on all
/// bytes but the last.
pub open spec fn varint(n: nat) -> Seq<u8>
    decreases n,
{
    if n < 128 {
        seq![n as u8]
    } else {
        seq![(n % 128 + 128) as u8] + varint(n / 128)
    }
}

/// The lowest `width` bytes of `n`, the lowest first.
pub open spec fn little_endian(n: nat, width: nat) -> Seq<u8>
    decreases width,
{
    if width == 0 {
        Seq::empty()
    } else {
        seq![(n % 256) as u8] + little_endian(n / 256, (width - 1) as nat)
    }
}

/// A signed number as an unsigned one, so that numbers close to zero stay small.
pub open spec fn zigzag(n: int) -> nat {
    if n < 0 {
        (-2 * n - 1) as nat
    } else {
        (2 * n) as nat
    }
}

/// The number of 64 bits with the same bits as the two's complement of `n`.
pub open spec fn two_complement(n: int) -> nat {
    if n < 0 {
        (n + 0x1_0000_0000_0000_0000) as nat
    } else {
        n as nat
    }
}

impl Payload {
    /// The number of the wire type.
    pub open spec fn wire_type(self) -> nat {
        match self {
            Payload::Varint(_) => 0,
            Payload::Fixed64(_) => 1,
            Payload::Bytes(_) => 2,
            Payload::Fixed32(_) => 5,
        }
    }

    /// The bytes behind the key.
    pub open spec fn bytes(self) -> Seq<u8> {
        match self {
            Payload::Varint(n) => varint(n),
            Payload::Fixed64(bytes) => bytes,
            Payload::Bytes(bytes) => varint(bytes.len()) + bytes,
            Payload::Fixed32(bytes) => bytes,
        }
    }

    /// Whether a payload of fixed size has that size.
    pub open spec fn is_sized(self) -> bool {
        match self {
            Payload::Fixed64(bytes) => bytes.len() == 8,
            Payload::Fixed32(bytes) => bytes.len() == 4,
            _ => true,
        }
    }
}

impl Record {
    /// The bytes of the record.
    pub open spec fn bytes(self) -> Seq<u8> {
        varint(self.number * 8 + self.payload.wire_type()) + self.payload.bytes()
    }
}

/// The bytes of a run of records.
pub open spec fn records_bytes(records: Seq<Record>) -> Seq<u8>
    decreases records.len(),
{
    if records.len() == 0 {
        Seq::empty()
    } else {
        records[0].bytes() + records_bytes(records.drop_first())
    }
}

/// The number that a varint at the start of `bytes` stands for, and what follows it.
pub open spec fn read_varint(bytes: Seq<u8>) -> Option<(nat, Seq<u8>)>
    decreases bytes.len(),
{
    if bytes.len() == 0 {
        None
    } else if bytes[0] < 128 {
        Some((bytes[0] as nat, bytes.drop_first()))
    } else {
        match read_varint(bytes.drop_first()) {
            Some((high, rest)) => Some((high * 128 + (bytes[0] - 128) as nat, rest)),
            None => None,
        }
    }
}

/// The first `n` bytes and what follows them.
pub open spec fn read_bytes(bytes: Seq<u8>, n: nat) -> Option<(Seq<u8>, Seq<u8>)> {
    if n <= bytes.len() {
        Some((bytes.take(n as int), bytes.skip(n as int)))
    } else {
        None
    }
}

/// The payload of the given wire type at the start of `bytes`, and what follows it.
pub open spec fn read_payload(wire_type: nat, bytes: Seq<u8>) -> Option<(Payload, Seq<u8>)> {
    if wire_type == 0 {
        match read_varint(bytes) {
            Some((n, rest)) => Some((Payload::Varint(n), rest)),
            None => None,
        }
    } else if wire_type == 1 {
        match read_bytes(bytes, 8) {
            Some((eight, rest)) => Some((Payload::Fixed64(eight), rest)),
            None => None,
        }
    } else if wire_type == 2 {
        match read_varint(bytes) {
            Some((n, tail)) => match read_bytes(tail, n) {
                Some((content, rest)) => Some((Payload::Bytes(content), rest)),
                None => None,
            },
            None => None,
        }
    } else if wire_type == 5 {
        match read_bytes(bytes, 4) {
            Some((four, rest)) => Some((Payload::Fixed32(four), rest)),
            None => None,
        }
    } else {
        None
    }
}

/// The record at the start of `bytes`, and what follows it.
pub open spec fn read_record(bytes: Seq<u8>) -> Option<(Record, Seq<u8>)> {
    match read_varint(bytes) {
        Some((key, tail)) => match read_payload(key % 8, tail) {
            Some((payload, rest)) => Some((Record { number: key / 8, payload }, rest)),
            None => None,
        },
        None => None,
    }
}

/// The records that `bytes` is made of.
pub open spec fn read_records(bytes: Seq<u8>) -> Option<Seq<Record>>
    decreases bytes.len(),
{
    if bytes.len() == 0 {
        Some(Seq::empty())
    } else {
        match read_record(bytes) {
            Some((record, rest)) => if rest.len() < bytes.len() {
                match read_records(rest) {
                    Some(records) => Some(seq![record] + records),
                    None => None,
                }
            } else {
                None
            },
            None => None,
        }
    }
}

/// Reading a varint gives back the number that it was written for, and leaves what follows.
pub proof fn varint_reads_back(n: nat, rest: Seq<u8>)
    ensures
        varint(n).len() > 0,
        read_varint(varint(n) + rest) == Some((n, rest)),
    decreases n,
{
    let bytes = varint(n) + rest;
    if n < 128 {
        assert(bytes.drop_first() =~= rest);
    } else {
        varint_reads_back(n / 128, rest);
        assert(bytes.drop_first() =~= varint(n / 128) + rest);
    }
}

/// Reading a record gives back the record that was written, and leaves what follows.
pub proof fn record_reads_back(record: Record, rest: Seq<u8>)
    requires
        record.payload.is_sized(),
    ensures
        record.bytes().len() > 0,
        read_record(record.bytes() + rest) == Some((record, rest)),
{
    let key = record.number * 8 + record.payload.wire_type();
    let tail = record.payload.bytes() + rest;
    varint_reads_back(key, tail);
    assert(record.bytes() + rest =~= varint(key) + tail);
    assert(key % 8 == record.payload.wire_type() && key / 8 == record.number);
    match record.payload {
        Payload::Varint(n) => varint_reads_back(n, rest),
        Payload::Fixed64(eight) => {
            assert(tail.take(8) =~= eight);
            assert(tail.skip(8) =~= rest);
        },
        Payload::Bytes(content) => {
            varint_reads_back(content.len(), content + rest);
            assert(tail =~= varint(content.len()) + (content + rest));
            assert((content + rest).take(content.len() as int) =~= content);
            assert((content + rest).skip(content.len() as int) =~= rest);
        },
        Payload::Fixed32(four) => {
            assert(tail.take(4) =~= four);
            assert(tail.skip(4) =~= rest);
        },
    }
}

/// Reading a run of records gives back the records that were written, in their order.
pub proof fn records_read_back(records: Seq<Record>)
    requires
        forall|i: int| 0 <= i < records.len() ==> (#[trigger] records[i]).payload.is_sized(),
    ensures
        read_records(records_bytes(records)) == Some(records),
    decreases records.len(),
{
    if records.len() == 0 {
        assert(records =~= Seq::empty());
    } else {
        let rest = records.drop_first();
        assert forall|i: int| 0 <= i < rest.len() implies (
        #[trigger] rest[i]).payload.is_sized() by {
            assert(rest[i] == records[i + 1]);
        }
        records_read_back(rest);
        assert(records[0].payload.is_sized());
        record_reads_back(records[0], records_bytes(rest));
        assert(records =~= seq![records[0]] + rest);
    }
}

/// The bytes of two runs of records, one behind the other.
pub proof fn records_bytes_of_concatenation(first: Seq<Record>, second: Seq<Record>)
    ensures
        records_bytes(first + second) == records_bytes(first) + records_bytes(second),
    decreases first.len(),
{
    if first.len() == 0 {
        assert(first + second =~= second);
        assert(records_bytes(first) + records_bytes(second) =~= records_bytes(second));
    } else {
        records_bytes_of_concatenation(first.drop_first(), second);
        assert((first + second).drop_first() =~= first.drop_first() + second);
        assert(records_bytes(first + second) =~= records_bytes(first) + records_bytes(second));
    }
}

/// A number of `width` bytes has `width` bytes.
pub proof fn little_endian_length(n: nat, width: nat)
    ensures
        little_endian(n, width).len() == width,
    decreases width,
{
    if width > 0 {
        little_endian_length(n / 256, (width - 1) as nat);
    }
}

/// Writes `n` as a varint at the end of `buffer`.
pub fn put_varint(buffer: &mut Vec<u8>, n: u64)
    ensures
        final(buffer)@ == old(buffer)@ + varint(n as nat),
    decreases n,
{
    if n < 128 {
        buffer.push(n as u8);
        assert(buffer@ =~= old(buffer)@ + varint(n as nat));
    } else {
        buffer.push((n % 128) as u8 + 128);
        put_varint(buffer, n / 128);
        assert(buffer@ =~= old(buffer)@ + varint(n as nat));
    }
}

/// Writes the lowest `width` bytes of `n` at the end of `buffer`, the lowest first.
pub fn put_little_endian(buffer: &mut Vec<u8>, n: u64, width: u8)
    ensures
        final(buffer)@ == old(buffer)@ + little_endian(n as nat, width as nat),
    decreases width,
{
    if width == 0 {
        assert(buffer@ =~= old(buffer)@ + little_endian(n as nat, 0));
    } else {
        buffer.push((n % 256) as u8);
        put_little_endian(buffer, n / 256, width - 1);
        assert(buffer@ =~= old(buffer)@ + little_endian(n as nat, width as nat));
    }
}

/// Writes `bytes` at the end of `buffer`.
pub fn put_bytes(buffer: &mut Vec<u8>, bytes: &[u8])
    ensures
        final(buffer)@ == old(buffer)@ + bytes@,
{
    buffer.extend_from_slice(bytes);
    assert(buffer@ =~= old(buffer)@ + bytes@);
}

/// Writes the key of a record at the end of `buffer`.
pub fn put_key(buffer: &mut Vec<u8>, number: u32, wire_type: u8)
    requires
        wire_type < 8,
    ensures
        final(buffer)@ == old(buffer)@ + varint((number * 8 + wire_type) as nat),
{
    put_varint(buffer, number as u64 * 8 + wire_type as u64);
}

/// The zigzag form of `n`.
pub fn zigzag_of(n: i64) -> (z: u64)
    ensures
        z == zigzag(n as int),
{
    if n < 0 {
        (-(n + 1)) as u64 * 2 + 1
    } else {
        n as u64 * 2
    }
}

/// The unsigned number with the bits of `n`.
pub fn unsigned_of(n: i64) -> (u: u64)
    ensures
        u == two_complement(n as int),
{
    if n < 0 {
        u64::MAX - (-(n + 1)) as u64
    } else {
        n as u64
    }
}

/// Zigzag numbers stand for different numbers where they differ.
pub proof fn zigzag_is_injective(a: int, b: int)
    requires
        zigzag(a) == zigzag(b),
    ensures
        a == b,
{
}

} // verus!
