//! One parameter record: `time:8 id:4 flags:4 type:1 value:n`, where `n`
//! follows from the type tag.

use vstd::prelude::*;
use vstd::bytes::*;
use crate::error::Error;
use crate::flags::Flags;
use crate::id::Id;
use crate::parameter::Parameter;
use crate::value::{TypeId, Value};
use crate::wire::bytes::{
    lemma_le_lengths, read_u32_at, read_u64_at, splice, write_u32_at, write_u64_at, write_u8_at,
};

verus! {

/// Offset of the time field.
pub const TIME: usize = 0;

/// Offset of the id field.
pub const ID: usize = 8;

/// Offset of the flags field.
pub const FLAGS: usize = 12;

/// Offset of the value type tag.
pub const VALUE_TYPE_ID: usize = 16;

/// Offset of the value bytes, which is also the length of the fixed part.
pub const HEADER_LEN: usize = 17;

/// The value bytes of `v` on the wire.
pub open spec fn value_bytes(v: Value) -> Seq<u8> {
    match v {
        Value::Empty => Seq::empty(),
        Value::Notification => Seq::empty(),
        Value::Bool(b) => seq![if b { 1u8 } else { 0u8 }],
        Value::U8(x) => seq![x],
        Value::I8(x) => seq![#[verifier::truncate] (x as u8)],
        Value::U32(x) => spec_u32_to_le_bytes(x),
        Value::I32(x) => spec_u32_to_le_bytes(#[verifier::truncate] (x as u32)),
        Value::U64(x) => spec_u64_to_le_bytes(x),
        Value::I64(x) => spec_u64_to_le_bytes(#[verifier::truncate] (x as u64)),
        Value::F32(x) => spec_u32_to_le_bytes(x),
    }
}

/// The value that tag `tag` and value bytes `b` stand for.
pub open spec fn decode_value(tag: u8, b: Seq<u8>) -> Value {
    match TypeId::spec_from_u8(tag) {
        TypeId::Empty => Value::Empty,
        TypeId::Notification => Value::Notification,
        TypeId::Bool => Value::Bool(b[0] != 0),
        TypeId::U8 => Value::U8(b[0]),
        TypeId::I8 => Value::I8(#[verifier::truncate] (b[0] as i8)),
        TypeId::U32 => Value::U32(spec_u32_from_le_bytes(b)),
        TypeId::I32 => Value::I32(#[verifier::truncate] (spec_u32_from_le_bytes(b) as i32)),
        TypeId::U64 => Value::U64(spec_u64_from_le_bytes(b)),
        TypeId::I64 => Value::I64(#[verifier::truncate] (spec_u64_from_le_bytes(b) as i64)),
        TypeId::F32 => Value::F32(spec_u32_from_le_bytes(b)),
    }
}

/// The record of `p` on the wire.
pub open spec fn record_bytes(p: Parameter) -> Seq<u8> {
    spec_u64_to_le_bytes(p.local_time_ms) + spec_u32_to_le_bytes(p.id.0) + spec_u32_to_le_bytes(
        p.flags.0,
    ) + seq![p.value.spec_type_id().spec_as_u8()] + value_bytes(p.value)
}

/// Length of the record that starts at `at`, read from its type tag.
pub open spec fn record_len_at(buf: Seq<u8>, at: int) -> int {
    HEADER_LEN + TypeId::spec_from_u8(buf[at + VALUE_TYPE_ID]).spec_wire_size()
}

/// The parameter of a record whose bytes are exactly `b`.
pub open spec fn decode_record(b: Seq<u8>) -> Parameter {
    Parameter {
        local_time_ms: spec_u64_from_le_bytes(b.subrange(0, 8)),
        id: Id(spec_u32_from_le_bytes(b.subrange(8, 12))),
        flags: Flags(spec_u32_from_le_bytes(b.subrange(12, 16))),
        value: decode_value(b[16], b.subrange(17, b.len() as int)),
    }
}

/// Reading the record at `at`: it fails when the fixed part or the value
/// bytes that its tag asks for run past the end of `buf`.
pub open spec fn read_record_spec(buf: Seq<u8>, at: int) -> Result<Parameter, Error> {
    if at + HEADER_LEN > buf.len() {
        Err(Error::WireTruncated)
    } else if at + record_len_at(buf, at) > buf.len() {
        Err(Error::WireTruncated)
    } else {
        Ok(decode_record(buf.subrange(at, at + record_len_at(buf, at))))
    }
}

pub proof fn lemma_value_bytes_len(v: Value)
    ensures
        value_bytes(v).len() == v.spec_type_id().spec_wire_size(),
{
    lemma_le_lengths();
}

pub proof fn lemma_record_bytes_len(p: Parameter)
    ensures
        record_bytes(p).len() == p.spec_wire_size(),
        record_bytes(p)[VALUE_TYPE_ID as int] == p.value.spec_type_id().spec_as_u8(),
{
    lemma_le_lengths();
    lemma_value_bytes_len(p.value);
}

/// Decoding the encoding of a value gives the value back.
pub proof fn lemma_value_round_trip(v: Value)
    ensures
        decode_value(v.spec_type_id().spec_as_u8(), value_bytes(v)) == v,
{
    lemma_le_lengths();
    lemma_auto_spec_u32_to_from_le_bytes();
    lemma_auto_spec_u64_to_from_le_bytes();
    match v {
        Value::Bool(b) => {
            if b {
                assert(value_bytes(v)[0] == 1u8);
            } else {
                assert(value_bytes(v)[0] == 0u8);
            }
        },
        Value::U8(x) => {
            assert(value_bytes(v)[0] == x);
        },
        Value::I8(x) => {
            assert(value_bytes(v)[0] == #[verifier::truncate] (x as u8));
            assert((x as u8) as i8 == x) by (bit_vector);
        },
        Value::I32(x) => {
            assert(spec_u32_to_le_bytes(x as u32).len() == 4);
            assert((x as u32) as i32 == x) by (bit_vector);
        },
        Value::I64(x) => {
            assert((x as u64) as i64 == x) by (bit_vector);
        },
        Value::U32(x) => {
            assert(spec_u32_to_le_bytes(x).len() == 4);
        },
        Value::F32(x) => {
            assert(spec_u32_to_le_bytes(x).len() == 4);
        },
        _ => {
        },
    }
}

/// Decoding the record of a parameter gives the parameter back.
pub proof fn lemma_record_round_trip(p: Parameter)
    ensures
        decode_record(record_bytes(p)) == p,
{
    let b = record_bytes(p);
    lemma_le_lengths();
    lemma_auto_spec_u32_to_from_le_bytes();
    lemma_auto_spec_u64_to_from_le_bytes();
    lemma_value_round_trip(p.value);
    assert(b.subrange(0, 8) =~= spec_u64_to_le_bytes(p.local_time_ms));
    assert(b.subrange(8, 12) =~= spec_u32_to_le_bytes(p.id.0));
    assert(b.subrange(12, 16) =~= spec_u32_to_le_bytes(p.flags.0));
    assert(b.subrange(17, b.len() as int) =~= value_bytes(p.value));
}

/// A record read back from where it was written is the parameter written,
/// whatever surrounds it.
pub proof fn lemma_read_after_write(buf: Seq<u8>, at: int, p: Parameter)
    requires
        0 <= at,
        at + p.spec_wire_size() <= buf.len(),
    ensures
        read_record_spec(splice(buf, at, record_bytes(p)), at) == Ok::<Parameter, Error>(p),
{
    let s = splice(buf, at, record_bytes(p));
    lemma_record_bytes_len(p);
    lemma_record_round_trip(p);
    assert(s[at + VALUE_TYPE_ID] == record_bytes(p)[VALUE_TYPE_ID as int]);
    p.value.spec_type_id().lemma_u8_round_trip();
    assert(s.subrange(at, at + record_len_at(s, at)) =~= record_bytes(p));
}

/// Reads the value with tag `tag` whose bytes start at `v`.
fn read_value(buf: &[u8], tag: u8, v: usize) -> (r: Value)
    requires
        v + TypeId::spec_from_u8(tag).spec_wire_size() <= buf@.len(),
    ensures
        r == decode_value(
            tag,
            buf@.subrange(v as int, v + TypeId::spec_from_u8(tag).spec_wire_size()),
        ),
{
    match TypeId::from_u8(tag) {
        TypeId::Empty => Value::Empty,
        TypeId::Notification => Value::Notification,
        TypeId::Bool => Value::Bool(buf[v] != 0),
        TypeId::U8 => Value::U8(buf[v]),
        TypeId::I8 => Value::I8(#[verifier::truncate] (buf[v] as i8)),
        TypeId::U32 => Value::U32(read_u32_at(buf, v)),
        TypeId::I32 => Value::I32(#[verifier::truncate] (read_u32_at(buf, v) as i32)),
        TypeId::U64 => Value::U64(read_u64_at(buf, v)),
        TypeId::I64 => Value::I64(#[verifier::truncate] (read_u64_at(buf, v) as i64)),
        TypeId::F32 => Value::F32(read_u32_at(buf, v)),
    }
}

/// Reads the record that starts at `at`.
pub fn read_record(buf: &[u8], at: usize) -> (r: Result<Parameter, Error>)
    ensures
        r == read_record_spec(buf@, at as int),
{
    if buf.len() < HEADER_LEN || at > buf.len() - HEADER_LEN {
        return Err(Error::WireTruncated);
    }
    let tag = buf[at + VALUE_TYPE_ID];
    let size = TypeId::from_u8(tag).wire_size();
    if size > buf.len() - HEADER_LEN - at {
        return Err(Error::WireTruncated);
    }
    let len = HEADER_LEN + size;
    let ghost b = buf@.subrange(at as int, at + len);
    let local_time_ms = read_u64_at(buf, at + TIME);
    let id = read_u32_at(buf, at + ID);
    let flags = read_u32_at(buf, at + FLAGS);
    let value = read_value(buf, tag, at + HEADER_LEN);
    assert(b.subrange(0, 8) =~= buf@.subrange(at + TIME, at + TIME + 8));
    assert(b.subrange(8, 12) =~= buf@.subrange(at + ID, at + ID + 4));
    assert(b.subrange(12, 16) =~= buf@.subrange(at + FLAGS, at + FLAGS + 4));
    assert(b.subrange(17, b.len() as int) =~= buf@.subrange(at + HEADER_LEN, at + len));
    Ok(Parameter { local_time_ms, id: Id(id), flags: Flags(flags), value })
}

/// Writes the value bytes of `v` at `at`.
fn write_value(buf: &mut Vec<u8>, at: usize, v: Value)
    requires
        at + v.spec_type_id().spec_wire_size() <= old(buf)@.len(),
    ensures
        final(buf)@ == splice(old(buf)@, at as int, value_bytes(v)),
{
    proof {
        lemma_le_lengths();
    }
    match v {
        Value::Empty => {
            assert(buf@ =~= splice(old(buf)@, at as int, value_bytes(v)));
        },
        Value::Notification => {
            assert(buf@ =~= splice(old(buf)@, at as int, value_bytes(v)));
        },
        Value::Bool(b) => write_u8_at(buf, at, if b { 1 } else { 0 }),
        Value::U8(x) => write_u8_at(buf, at, x),
        Value::I8(x) => write_u8_at(buf, at, x as u8),
        Value::U32(x) => write_u32_at(buf, at, x),
        Value::I32(x) => write_u32_at(buf, at, x as u32),
        Value::U64(x) => write_u64_at(buf, at, x),
        Value::I64(x) => write_u64_at(buf, at, x as u64),
        Value::F32(x) => write_u32_at(buf, at, x),
    }
}

/// Writes the record of `p` at `at`.
pub fn write_record(buf: &mut Vec<u8>, at: usize, p: Parameter)
    requires
        at + p.spec_wire_size() <= old(buf)@.len(),
    ensures
        final(buf)@ == splice(old(buf)@, at as int, record_bytes(p)),
{
    proof {
        lemma_le_lengths();
        lemma_value_bytes_len(p.value);
    }
    let ghost s0 = buf@;
    let end = buf.len();
    assert(at + p.spec_wire_size() <= end);
    write_u64_at(buf, at + TIME, p.local_time_ms);
    write_u32_at(buf, at + ID, p.id.0);
    write_u32_at(buf, at + FLAGS, p.flags.0);
    write_u8_at(buf, at + VALUE_TYPE_ID, p.value.type_id().as_u8());
    write_value(buf, at + HEADER_LEN, p.value);
    assert(buf@ =~= splice(s0, at as int, record_bytes(p)));
}

/// A view of one parameter record at the start of a buffer.
#[derive(Clone, Debug)]
pub struct Packet {
    pub(crate) buffer: Vec<u8>,
}

impl View for Packet {
    type V = Seq<u8>;

    open(crate) spec fn view(&self) -> Seq<u8> {
        self.buffer@
    }
}

impl Packet {
    pub fn new_unchecked(buffer: Vec<u8>) -> (r: Packet)
        ensures
            r@ == buffer@,
    {
        Packet { buffer }
    }

    /// Wraps `buffer` if it holds at least the fixed part of a record.
    pub fn new_checked(buffer: Vec<u8>) -> (r: Result<Packet, Error>)
        ensures
            buffer@.len() >= HEADER_LEN ==> (r matches Ok(p) && p@ == buffer@),
            buffer@.len() < HEADER_LEN ==> r == Err::<Packet, Error>(Error::WireTruncated),
    {
        let packet = Packet::new_unchecked(buffer);
        match packet.check_len() {
            Ok(()) => Ok(packet),
            Err(e) => Err(e),
        }
    }

    pub fn check_len(&self) -> (r: Result<(), Error>)
        ensures
            self@.len() >= HEADER_LEN ==> r is Ok,
            self@.len() < HEADER_LEN ==> r == Err::<(), Error>(Error::WireTruncated),
    {
        if self.buffer.len() < HEADER_LEN {
            Err(Error::WireTruncated)
        } else {
            Ok(())
        }
    }

    pub fn into_inner(self) -> (r: Vec<u8>)
        ensures
            r@ == self@,
    {
        self.buffer
    }

    pub fn as_slice(&self) -> (r: &[u8])
        ensures
            r@ == self@,
    {
        self.buffer.as_slice()
    }

    pub fn header_len() -> (r: usize)
        ensures
            r == HEADER_LEN,
    {
        HEADER_LEN
    }

    pub fn buffer_len(payload_len: usize) -> (r: usize)
        requires
            payload_len <= usize::MAX - HEADER_LEN,
        ensures
            r == HEADER_LEN + payload_len,
    {
        HEADER_LEN + payload_len
    }

    pub fn local_time_ms(&self) -> (r: u64)
        requires
            self@.len() >= HEADER_LEN,
        ensures
            r == spec_u64_from_le_bytes(self@.subrange(0, 8)),
    {
        read_u64_at(self.buffer.as_slice(), TIME)
    }

    pub fn id(&self) -> (r: Id)
        requires
            self@.len() >= HEADER_LEN,
        ensures
            r == Id(spec_u32_from_le_bytes(self@.subrange(8, 12))),
    {
        Id(read_u32_at(self.buffer.as_slice(), ID))
    }

    pub fn flags(&self) -> (r: Flags)
        requires
            self@.len() >= HEADER_LEN,
        ensures
            r == Flags(spec_u32_from_le_bytes(self@.subrange(12, 16))),
    {
        Flags(read_u32_at(self.buffer.as_slice(), FLAGS))
    }

    pub fn value_type_id(&self) -> (r: TypeId)
        requires
            self@.len() >= HEADER_LEN,
        ensures
            r == TypeId::spec_from_u8(self@[VALUE_TYPE_ID as int]),
    {
        TypeId::from_u8(self.buffer[VALUE_TYPE_ID])
    }

    /// The value; the buffer must hold the bytes its tag asks for.
    pub fn value(&self) -> (r: Value)
        requires
            self@.len() >= HEADER_LEN,
            record_len_at(self@, 0) <= self@.len(),
        ensures
            r == decode_value(self@[VALUE_TYPE_ID as int], self@.subrange(17, record_len_at(self@, 0))),
    {
        read_value(self.buffer.as_slice(), self.buffer[VALUE_TYPE_ID], HEADER_LEN)
    }

    pub fn set_local_time_ms(&mut self, value: u64)
        requires
            old(self)@.len() >= HEADER_LEN,
        ensures
            final(self)@ == splice(old(self)@, 0, spec_u64_to_le_bytes(value)),
    {
        write_u64_at(&mut self.buffer, TIME, value);
    }

    pub fn set_id(&mut self, value: Id)
        requires
            old(self)@.len() >= HEADER_LEN,
        ensures
            final(self)@ == splice(old(self)@, 8, spec_u32_to_le_bytes(value.0)),
    {
        write_u32_at(&mut self.buffer, ID, value.0);
    }

    pub fn set_flags(&mut self, value: Flags)
        requires
            old(self)@.len() >= HEADER_LEN,
        ensures
            final(self)@ == splice(old(self)@, 12, spec_u32_to_le_bytes(value.0)),
    {
        write_u32_at(&mut self.buffer, FLAGS, value.0);
    }

    /// Writes the type tag and the value bytes.
    pub fn set_value(&mut self, value: Value)
        requires
            old(self)@.len() >= HEADER_LEN + value.spec_type_id().spec_wire_size(),
        ensures
            final(self)@ == splice(
                old(self)@,
                16,
                seq![value.spec_type_id().spec_as_u8()] + value_bytes(value),
            ),
    {
        let ghost s0 = self.buffer@;
        write_u8_at(&mut self.buffer, VALUE_TYPE_ID, value.type_id().as_u8());
        write_value(&mut self.buffer, HEADER_LEN, value);
        proof {
            lemma_value_bytes_len(value);
        }
        assert(self.buffer@ =~= splice(
            s0,
            16,
            seq![value.spec_type_id().spec_as_u8()] + value_bytes(value),
        ));
    }
}

} // verus!
