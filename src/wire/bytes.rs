//! Little-endian field access on byte buffers.

use vstd::prelude::*;
use vstd::bytes::*;
use byteorder::{ByteOrder, LittleEndian};

verus! {

/// `s` with the bytes from `at` on replaced by `b`.
pub open spec fn splice(s: Seq<u8>, at: int, b: Seq<u8>) -> Seq<u8> {
    s.subrange(0, at) + b + s.subrange(at + b.len(), s.len() as int)
}

/// Relies on `LittleEndian::read_u16`: the two bytes at the start of the
/// slice it is given, low byte first.
#[verifier::external_body]
pub fn read_u16_at(buf: &[u8], at: usize) -> (r: u16)
    requires
        at + 2 <= buf@.len(),
    ensures
        r == spec_u16_from_le_bytes(buf@.subrange(at as int, at + 2)),
{
    LittleEndian::read_u16(&buf[at..])
}

/// Relies on `LittleEndian::read_u32`: the four bytes at the start of the
/// slice it is given, low byte first.
#[verifier::external_body]
pub fn read_u32_at(buf: &[u8], at: usize) -> (r: u32)
    requires
        at + 4 <= buf@.len(),
    ensures
        r == spec_u32_from_le_bytes(buf@.subrange(at as int, at + 4)),
{
    LittleEndian::read_u32(&buf[at..])
}

/// Relies on `LittleEndian::read_u64`: the eight bytes at the start of the
/// slice it is given, low byte first.
#[verifier::external_body]
pub fn read_u64_at(buf: &[u8], at: usize) -> (r: u64)
    requires
        at + 8 <= buf@.len(),
    ensures
        r == spec_u64_from_le_bytes(buf@.subrange(at as int, at + 8)),
{
    LittleEndian::read_u64(&buf[at..])
}

/// Relies on `LittleEndian::write_u16`: it overwrites the first two bytes of
/// the slice it is given with `n`, low byte first, and nothing else.
#[verifier::external_body]
pub fn write_u16_at(buf: &mut Vec<u8>, at: usize, n: u16)
    requires
        at + 2 <= old(buf)@.len(),
    ensures
        final(buf)@ == splice(old(buf)@, at as int, spec_u16_to_le_bytes(n)),
{
    LittleEndian::write_u16(&mut buf[at..], n)
}

/// Relies on `LittleEndian::write_u32`: it overwrites the first four bytes of
/// the slice it is given with `n`, low byte first, and nothing else.
#[verifier::external_body]
pub fn write_u32_at(buf: &mut Vec<u8>, at: usize, n: u32)
    requires
        at + 4 <= old(buf)@.len(),
    ensures
        final(buf)@ == splice(old(buf)@, at as int, spec_u32_to_le_bytes(n)),
{
    LittleEndian::write_u32(&mut buf[at..], n)
}

/// Relies on `LittleEndian::write_u64`: it overwrites the first eight bytes
/// of the slice it is given with `n`, low byte first, and nothing else.
#[verifier::external_body]
pub fn write_u64_at(buf: &mut Vec<u8>, at: usize, n: u64)
    requires
        at + 8 <= old(buf)@.len(),
    ensures
        final(buf)@ == splice(old(buf)@, at as int, spec_u64_to_le_bytes(n)),
{
    LittleEndian::write_u64(&mut buf[at..], n)
}

/// Writes one byte at `at`.
pub fn write_u8_at(buf: &mut Vec<u8>, at: usize, n: u8)
    requires
        at < old(buf)@.len(),
    ensures
        final(buf)@ == splice(old(buf)@, at as int, seq![n]),
{
    buf[at] = n;
    assert(buf@ =~= splice(old(buf)@, at as int, seq![n]));
}

/// The byte lengths of the little-endian encodings.
pub proof fn lemma_le_lengths()
    ensures
        forall|x: u16| #[trigger] spec_u16_to_le_bytes(x).len() == 2,
        forall|x: u32| #[trigger] spec_u32_to_le_bytes(x).len() == 4,
        forall|x: u64| #[trigger] spec_u64_to_le_bytes(x).len() == 8,
{
    lemma_auto_spec_u16_to_from_le_bytes();
    lemma_auto_spec_u32_to_from_le_bytes();
    lemma_auto_spec_u64_to_from_le_bytes();
}

} // verus!
