//! Id-list sub-packet: a count byte, then that many little-endian `u32` ids.

use vstd::prelude::*;
use vstd::bytes::*;
use crate::bounded::{id_items, id_vec_new, id_vec_push, IdVec};
use crate::error::Error;
use crate::getset::MAX_PARAMS_PER_OP;
use crate::id::Id;
use crate::wire::bytes::{lemma_le_lengths, read_u32_at, splice, write_u32_at, write_u8_at};

verus! {

/// Offset of the count byte.
pub const COUNT: usize = 0;

/// Offset of the first id, which is also the header length.
pub const HEADER_LEN: usize = 1;

/// Bytes of one id on the wire.
pub const ID_LEN: usize = 4;

/// Reading id `index` of the packet `buf`.
pub open spec fn id_at_spec(buf: Seq<u8>, index: int) -> Result<Id, Error> {
    if buf.len() < HEADER_LEN {
        Err(Error::WireTruncated)
    } else if index >= buf[COUNT as int] as int {
        Err(Error::WireIndexOutOfBounds)
    } else if HEADER_LEN + ID_LEN * index + ID_LEN > buf.len() {
        Err(Error::WireTruncated)
    } else {
        Ok(
            Id(
                spec_u32_from_le_bytes(
                    buf.subrange(HEADER_LEN + ID_LEN * index, HEADER_LEN + ID_LEN * index + ID_LEN),
                ),
            ),
        )
    }
}

/// Writing `id` as id `index` of the packet `buf`: the result, and the bytes
/// afterwards.
pub open spec fn set_id_at_spec(buf: Seq<u8>, index: int, id: Id) -> (Result<(), Error>, Seq<u8>) {
    if index >= MAX_PARAMS_PER_OP {
        (Err(Error::WireIndexOutOfBounds), buf)
    } else if HEADER_LEN + ID_LEN * index + ID_LEN > buf.len() {
        (Err(Error::WireTruncated), buf)
    } else {
        (Ok(()), splice(buf, HEADER_LEN + ID_LEN * index, spec_u32_to_le_bytes(id.0)))
    }
}

/// The ids of `ids`, back to back.
pub open spec fn ids_bytes(ids: Seq<Id>) -> Seq<u8>
    decreases ids.len(),
{
    if ids.len() == 0 {
        Seq::empty()
    } else {
        ids_bytes(ids.drop_last()) + spec_u32_to_le_bytes(ids.last().0)
    }
}

/// The packet that holds exactly `ids`.
pub open spec fn id_list_bytes(ids: Seq<Id>) -> Seq<u8> {
    seq![ids.len() as u8] + ids_bytes(ids)
}

/// Reading the first `n` ids of the packet `buf` in order, as a bounded list
/// of at most `MAX_PARAMS_PER_OP` does: the first failure wins.
pub open spec fn parse_ids_spec(buf: Seq<u8>, n: nat) -> Result<Seq<Id>, Error>
    decreases n,
{
    if n == 0 {
        Ok(Seq::empty())
    } else {
        match parse_ids_spec(buf, (n - 1) as nat) {
            Err(e) => Err(e),
            Ok(ids) => match id_at_spec(buf, n - 1) {
                Err(e) => Err(e),
                Ok(id) => if n - 1 >= MAX_PARAMS_PER_OP {
                    Err(Error::Capacity)
                } else {
                    Ok(ids.push(id))
                },
            },
        }
    }
}

pub proof fn lemma_ids_bytes(ids: Seq<Id>)
    ensures
        ids_bytes(ids).len() == ID_LEN * ids.len(),
        forall|i: int|
            #![trigger ids[i]]
            0 <= i < ids.len() ==> ids_bytes(ids).subrange(ID_LEN * i, ID_LEN * i + ID_LEN)
                == spec_u32_to_le_bytes(ids[i].0),
    decreases ids.len(),
{
    lemma_le_lengths();
    if ids.len() > 0 {
        let d = ids.drop_last();
        lemma_ids_bytes(d);
        let b = ids_bytes(ids);
        assert forall|i: int| #![trigger ids[i]] 0 <= i < ids.len() implies b.subrange(
            ID_LEN * i,
            ID_LEN * i + ID_LEN,
        ) == spec_u32_to_le_bytes(ids[i].0) by {
            if i < d.len() {
                assert(d[i] == ids[i]);
                assert(b.subrange(ID_LEN * i, ID_LEN * i + ID_LEN) =~= ids_bytes(d).subrange(
                    ID_LEN * i,
                    ID_LEN * i + ID_LEN,
                ));
            } else {
                assert(b.subrange(ID_LEN * i, ID_LEN * i + ID_LEN) =~= spec_u32_to_le_bytes(
                    ids[i].0,
                ));
            }
        }
    }
}

/// In a packet that holds at most 255 ids, id `i` reads back as `ids[i]`.
pub proof fn lemma_id_at_list(ids: Seq<Id>, rest: Seq<u8>, i: int)
    requires
        0 <= i < ids.len(),
        ids.len() <= 255,
    ensures
        id_at_spec(id_list_bytes(ids) + rest, i) == Ok::<Id, Error>(ids[i]),
{
    let b = id_list_bytes(ids) + rest;
    lemma_ids_bytes(ids);
    lemma_auto_spec_u32_to_from_le_bytes();
    assert(ids[i] == ids[i]);
    assert(b.subrange(HEADER_LEN + ID_LEN * i, HEADER_LEN + ID_LEN * i + ID_LEN) =~= ids_bytes(
        ids,
    ).subrange(ID_LEN * i, ID_LEN * i + ID_LEN));
    assert(b[0] == ids.len() as u8);
}

/// Reading all ids of a packet that holds at most `MAX_PARAMS_PER_OP` of
/// them gives them back in order.
pub proof fn lemma_parse_ids(ids: Seq<Id>, rest: Seq<u8>, n: nat)
    requires
        n <= ids.len() <= MAX_PARAMS_PER_OP,
    ensures
        parse_ids_spec(id_list_bytes(ids) + rest, n) == Ok::<Seq<Id>, Error>(ids.take(n as int)),
    decreases n,
{
    if n == 0 {
        assert(ids.take(0) =~= Seq::<Id>::empty());
    } else {
        lemma_parse_ids(ids, rest, (n - 1) as nat);
        lemma_id_at_list(ids, rest, n - 1);
        assert(ids.take(n - 1).push(ids[n - 1]) =~= ids.take(n as int));
    }
}

/// Once reading fails at some length, it fails the same way at every
/// greater length.
pub proof fn lemma_parse_ids_stops(buf: Seq<u8>, m: nat, n: nat)
    requires
        m <= n,
        parse_ids_spec(buf, m) is Err,
    ensures
        parse_ids_spec(buf, n) == parse_ids_spec(buf, m),
    decreases n - m,
{
    if m < n {
        lemma_parse_ids_stops(buf, m, (n - 1) as nat);
    }
}

/// Reads id `index` of the packet `buf`.
pub fn id_at_in(buf: &[u8], index: usize) -> (r: Result<Id, Error>)
    ensures
        r == id_at_spec(buf@, index as int),
{
    let len = buf.len();
    if len < HEADER_LEN {
        return Err(Error::WireTruncated);
    }
    if index >= buf[COUNT] as usize {
        return Err(Error::WireIndexOutOfBounds);
    }
    if (len - HEADER_LEN) / ID_LEN <= index {
        return Err(Error::WireTruncated);
    }
    Ok(Id(read_u32_at(buf, HEADER_LEN + ID_LEN * index)))
}

/// Reads the first `n` ids of the packet `buf` into a bounded vector.
pub fn parse_ids(buf: &[u8], n: usize) -> (r: Result<IdVec, Error>)
    ensures
        match parse_ids_spec(buf@, n as nat) {
            Ok(ids) => r matches Ok(v) && id_items(v) == ids,
            Err(e) => r matches Err(x) && x == e,
        },
{
    let mut out = id_vec_new();
    let mut i: usize = 0;
    while i < n
        invariant
            i <= n,
            parse_ids_spec(buf@, i as nat) == Ok::<Seq<Id>, Error>(id_items(out)),
            id_items(out).len() == i,
        decreases n - i,
    {
        let id = match id_at_in(buf, i) {
            Ok(id) => id,
            Err(e) => {
                proof {
                    lemma_parse_ids_stops(buf@, (i + 1) as nat, n as nat);
                }
                return Err(e);
            },
        };
        match id_vec_push(&mut out, id) {
            Ok(()) => {},
            Err(_) => {
                proof {
                    lemma_parse_ids_stops(buf@, (i + 1) as nat, n as nat);
                }
                return Err(Error::Capacity);
            },
        }
        i = i + 1;
    }
    Ok(out)
}

/// Writes the packet that holds exactly `ids` at `base`.
pub fn write_ids(buf: &mut Vec<u8>, base: usize, ids: &[Id])
    requires
        ids@.len() <= 255,
        base + HEADER_LEN + ID_LEN * ids@.len() <= old(buf)@.len(),
    ensures
        final(buf)@ == splice(old(buf)@, base as int, id_list_bytes(ids@)),
{
    let ghost s0 = buf@;
    let len = buf.len();
    write_u8_at(buf, base + COUNT, ids.len() as u8);
    let mut i: usize = 0;
    proof {
        assert(ids@.take(0) =~= Seq::<Id>::empty());
        assert(ids_bytes(ids@.take(0)) =~= Seq::<u8>::empty());
        assert(buf@ =~= splice(s0, base as int, seq![ids@.len() as u8] + ids_bytes(ids@.take(0))));
    }
    while i < ids.len()
        invariant
            i <= ids@.len() <= 255,
            len == buf@.len(),
            len == s0.len(),
            base + HEADER_LEN + ID_LEN * ids@.len() <= len,
            buf@ == splice(s0, base as int, seq![ids@.len() as u8] + ids_bytes(ids@.take(i as int))),
        decreases ids@.len() - i,
    {
        proof {
            lemma_le_lengths();
            lemma_ids_bytes(ids@.take(i as int));
            assert(ids@.take(i + 1).drop_last() =~= ids@.take(i as int));
            assert(ID_LEN * i + ID_LEN <= ID_LEN * ids@.len()) by (nonlinear_arith)
                requires
                    i < ids@.len(),
            ;
        }
        write_u32_at(buf, base + HEADER_LEN + ID_LEN * i, ids[i].0);
        proof {
            assert(buf@ =~= splice(
                s0,
                base as int,
                seq![ids@.len() as u8] + ids_bytes(ids@.take(i + 1)),
            ));
        }
        i = i + 1;
    }
    proof {
        assert(ids@.take(ids@.len() as int) =~= ids@);
    }
}

/// A view of an id-list sub-packet.
#[derive(Clone, Debug)]
pub struct Packet {
    pub(crate) buffer: Vec<u8>,
}

impl View for Packet {
    type V = Seq<u8>;

    open(crate) spec fn view(&self) -> Seq<u8> {
        self.buffer@
    }
}

impl Packet {
    pub fn new_unchecked(buffer: Vec<u8>) -> (r: Packet)
        ensures
            r@ == buffer@,
    {
        Packet { buffer }
    }

    /// Wraps `buffer` if it holds at least the count byte.
    pub fn new_checked(buffer: Vec<u8>) -> (r: Result<Packet, Error>)
        ensures
            buffer@.len() >= HEADER_LEN ==> (r matches Ok(p) && p@ == buffer@),
            buffer@.len() < HEADER_LEN ==> r == Err::<Packet, Error>(Error::WireTruncated),
    {
        let packet = Packet::new_unchecked(buffer);
        match packet.check_len() {
            Ok(()) => Ok(packet),
            Err(e) => Err(e),
        }
    }

    pub fn check_len(&self) -> (r: Result<(), Error>)
        ensures
            self@.len() >= HEADER_LEN ==> r is Ok,
            self@.len() < HEADER_LEN ==> r == Err::<(), Error>(Error::WireTruncated),
    {
        if self.buffer.len() < HEADER_LEN {
            Err(Error::WireTruncated)
        } else {
            Ok(())
        }
    }

    pub fn into_inner(self) -> (r: Vec<u8>)
        ensures
            r@ == self@,
    {
        self.buffer
    }

    pub fn header_len() -> (r: usize)
        ensures
            r == HEADER_LEN,
    {
        HEADER_LEN
    }

    pub fn buffer_len(payload_len: usize) -> (r: usize)
        requires
            payload_len <= usize::MAX - HEADER_LEN,
        ensures
            r == HEADER_LEN + payload_len,
    {
        HEADER_LEN + payload_len
    }

    pub fn count(&self) -> (r: u8)
        requires
            self@.len() >= HEADER_LEN,
        ensures
            r == self@[COUNT as int],
    {
        self.buffer[COUNT]
    }

    pub fn id_at(&self, index: usize) -> (r: Result<Id, Error>)
        ensures
            r == id_at_spec(self@, index as int),
    {
        id_at_in(self.buffer.as_slice(), index)
    }

    pub fn set_count(&mut self, value: u8)
        requires
            old(self)@.len() >= HEADER_LEN,
        ensures
            final(self)@ == old(self)@.update(COUNT as int, value),
    {
        self.buffer[COUNT] = value;
    }

    pub fn set_id_at(&mut self, index: usize, value: Id) -> (r: Result<(), Error>)
        ensures
            (r, final(self)@) == set_id_at_spec(old(self)@, index as int, value),
    {
        if index >= MAX_PARAMS_PER_OP {
            return Err(Error::WireIndexOutOfBounds);
        }
        let len = self.buffer.len();
        if len < HEADER_LEN || (len - HEADER_LEN) / ID_LEN <= index {
            return Err(Error::WireTruncated);
        }
        write_u32_at(&mut self.buffer, HEADER_LEN + ID_LEN * index, value.0);
        Ok(())
    }
}

} // verus!
