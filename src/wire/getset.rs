//! The frame envelope: `preamble:4 node_id:4 flags:4 version:1 op:1
//! payload_type:1 payload_size:2`, then the payload.

use vstd::prelude::*;
use vstd::bytes::*;
use vstd::slice::slice_subrange;
use crate::error::Error;
use crate::getset::{Flags, NodeId, Op, PayloadType, Version, PREAMBLE_WORD, VERSION};
use crate::wire::bytes::{
    lemma_le_lengths, read_u16_at, read_u32_at, splice, write_u16_at, write_u32_at, write_u8_at,
};

verus! {

pub const PREAMBLE: usize = 0;

pub const NODE_ID: usize = 4;

pub const FLAGS: usize = 8;

pub const VERSION_AT: usize = 12;

pub const OP: usize = 13;

pub const PAYLOAD_TYPE: usize = 14;

pub const PAYLOAD_SIZE: usize = 15;

/// Offset of the payload, which is also the header length.
pub const PAYLOAD: usize = 17;

/// The header bytes of a frame.
pub open spec fn header_bytes(
    node_id: NodeId,
    flags: Flags,
    op: Op,
    payload_type: PayloadType,
    payload_size: u16,
) -> Seq<u8> {
    spec_u32_to_le_bytes(PREAMBLE_WORD) + spec_u32_to_le_bytes(node_id) + spec_u32_to_le_bytes(
        flags,
    ) + seq![VERSION, op.spec_as_u8(), payload_type.spec_as_u8()] + spec_u16_to_le_bytes(
        payload_size,
    )
}

/// The `u32` at `at` of `buf`.
pub open spec fn u32_at(buf: Seq<u8>, at: int) -> u32 {
    spec_u32_from_le_bytes(buf.subrange(at, at + 4))
}

/// The `u16` at `at` of `buf`.
pub open spec fn u16_at(buf: Seq<u8>, at: int) -> u16 {
    spec_u16_from_le_bytes(buf.subrange(at, at + 2))
}

/// The payload of the frame `buf`.
pub open spec fn payload_of(buf: Seq<u8>) -> Seq<u8> {
    buf.subrange(PAYLOAD as int, buf.len() as int)
}

/// Checking a frame: its length first, then its preamble.
pub open spec fn check_spec(buf: Seq<u8>) -> Result<(), Error> {
    if buf.len() < PAYLOAD {
        Err(Error::WireTruncated)
    } else if u32_at(buf, PREAMBLE as int) != PREAMBLE_WORD {
        Err(Error::WirePreamble)
    } else {
        Ok(())
    }
}

/// Reading back the header fields of a frame gives what was written.
pub proof fn lemma_header_round_trip(
    buf: Seq<u8>,
    node_id: NodeId,
    flags: Flags,
    op: Op,
    payload_type: PayloadType,
    payload_size: u16,
)
    requires
        buf.len() >= PAYLOAD,
        buf.subrange(0, PAYLOAD as int) == header_bytes(
            node_id,
            flags,
            op,
            payload_type,
            payload_size,
        ),
    ensures
        u32_at(buf, PREAMBLE as int) == PREAMBLE_WORD,
        u32_at(buf, NODE_ID as int) == node_id,
        u32_at(buf, FLAGS as int) == flags,
        buf[VERSION_AT as int] == VERSION,
        Op::spec_from_u8(buf[OP as int]) == op,
        PayloadType::spec_from_u8(buf[PAYLOAD_TYPE as int]) == payload_type,
        u16_at(buf, PAYLOAD_SIZE as int) == payload_size,
        check_spec(buf) is Ok,
{
    let h = header_bytes(node_id, flags, op, payload_type, payload_size);
    lemma_le_lengths();
    lemma_auto_spec_u16_to_from_le_bytes();
    lemma_auto_spec_u32_to_from_le_bytes();
    assert(buf.subrange(0, 4) =~= h.subrange(0, 4));
    assert(h.subrange(0, 4) =~= spec_u32_to_le_bytes(PREAMBLE_WORD));
    assert(buf.subrange(4, 8) =~= h.subrange(4, 8));
    assert(h.subrange(4, 8) =~= spec_u32_to_le_bytes(node_id));
    assert(buf.subrange(8, 12) =~= h.subrange(8, 12));
    assert(h.subrange(8, 12) =~= spec_u32_to_le_bytes(flags));
    assert(buf.subrange(15, 17) =~= h.subrange(15, 17));
    assert(h.subrange(15, 17) =~= spec_u16_to_le_bytes(payload_size));
    assert(buf[12] == h[12]);
    assert(buf[13] == h[13]);
    assert(buf[14] == h[14]);
    op.lemma_u8_round_trip();
    payload_type.lemma_u8_round_trip();
}

/// Writes a frame header at the start of `buf`.
pub fn write_header(
    buf: &mut Vec<u8>,
    node_id: NodeId,
    flags: Flags,
    op: Op,
    payload_type: PayloadType,
    payload_size: u16,
)
    requires
        old(buf)@.len() >= PAYLOAD,
    ensures
        final(buf)@ == splice(
            old(buf)@,
            0,
            header_bytes(node_id, flags, op, payload_type, payload_size),
        ),
{
    let ghost s0 = buf@;
    proof {
        lemma_le_lengths();
    }
    write_u32_at(buf, PREAMBLE, PREAMBLE_WORD);
    write_u32_at(buf, NODE_ID, node_id);
    write_u32_at(buf, FLAGS, flags);
    write_u8_at(buf, VERSION_AT, VERSION);
    write_u8_at(buf, OP, op.as_u8());
    write_u8_at(buf, PAYLOAD_TYPE, payload_type.as_u8());
    write_u16_at(buf, PAYLOAD_SIZE, payload_size);
    assert(buf@ =~= splice(s0, 0, header_bytes(node_id, flags, op, payload_type, payload_size)));
}

/// A view of a frame: header fields by offset, then the payload.
#[derive(Clone, Debug)]
pub struct Frame {
    pub(crate) buffer: Vec<u8>,
}

impl View for Frame {
    type V = Seq<u8>;

    open(crate) spec fn view(&self) -> Seq<u8> {
        self.buffer@
    }
}

impl Frame {
    pub fn new_unchecked(buffer: Vec<u8>) -> (r: Frame)
        ensures
            r@ == buffer@,
    {
        Frame { buffer }
    }

    /// Wraps `buffer` if it holds a header that starts with the preamble.
    pub fn new_checked(buffer: Vec<u8>) -> (r: Result<Frame, Error>)
        ensures
            match check_spec(buffer@) {
                Ok(()) => r matches Ok(f) && f@ == buffer@,
                Err(e) => r == Err::<Frame, Error>(e),
            },
    {
        let frame = Frame::new_unchecked(buffer);
        match frame.check_len() {
            Ok(()) => {},
            Err(e) => return Err(e),
        }
        match frame.check_preamble() {
            Ok(()) => Ok(frame),
            Err(e) => Err(e),
        }
    }

    pub fn check_len(&self) -> (r: Result<(), Error>)
        ensures
            self@.len() >= PAYLOAD ==> r is Ok,
            self@.len() < PAYLOAD ==> r == Err::<(), Error>(Error::WireTruncated),
    {
        if self.buffer.len() < PAYLOAD {
            Err(Error::WireTruncated)
        } else {
            Ok(())
        }
    }

    /// Fails with `WirePreamble` unless the first four bytes are the
    /// preamble; a buffer too short to hold them is `WireTruncated`.
    pub fn check_preamble(&self) -> (r: Result<(), Error>)
        ensures
            self@.len() < 4 ==> r == Err::<(), Error>(Error::WireTruncated),
            self@.len() >= 4 && u32_at(self@, PREAMBLE as int) != PREAMBLE_WORD ==> r == Err::<
                (),
                Error,
            >(Error::WirePreamble),
            self@.len() >= 4 && u32_at(self@, PREAMBLE as int) == PREAMBLE_WORD ==> r is Ok,
    {
        if self.buffer.len() < 4 {
            Err(Error::WireTruncated)
        } else if read_u32_at(self.buffer.as_slice(), PREAMBLE) != PREAMBLE_WORD {
            Err(Error::WirePreamble)
        } else {
            Ok(())
        }
    }

    pub fn into_inner(self) -> (r: Vec<u8>)
        ensures
            r@ == self@,
    {
        self.buffer
    }

    pub fn as_slice(&self) -> (r: &[u8])
        ensures
            r@ == self@,
    {
        self.buffer.as_slice()
    }

    pub fn header_len() -> (r: usize)
        ensures
            r == PAYLOAD,
    {
        PAYLOAD
    }

    pub fn buffer_len(payload_len: usize) -> (r: usize)
        requires
            payload_len <= usize::MAX - PAYLOAD,
        ensures
            r == PAYLOAD + payload_len,
    {
        PAYLOAD + payload_len
    }

    pub fn preamble(&self) -> (r: u32)
        requires
            self@.len() >= PAYLOAD,
        ensures
            r == u32_at(self@, PREAMBLE as int),
    {
        read_u32_at(self.buffer.as_slice(), PREAMBLE)
    }

    pub fn node_id(&self) -> (r: NodeId)
        requires
            self@.len() >= PAYLOAD,
        ensures
            r == u32_at(self@, NODE_ID as int),
    {
        read_u32_at(self.buffer.as_slice(), NODE_ID)
    }

    pub fn flags(&self) -> (r: Flags)
        requires
            self@.len() >= PAYLOAD,
        ensures
            r == u32_at(self@, FLAGS as int),
    {
        read_u32_at(self.buffer.as_slice(), FLAGS)
    }

    pub fn version(&self) -> (r: Version)
        requires
            self@.len() >= PAYLOAD,
        ensures
            r == self@[VERSION_AT as int],
    {
        self.buffer[VERSION_AT]
    }

    pub fn op(&self) -> (r: Op)
        requires
            self@.len() >= PAYLOAD,
        ensures
            r == Op::spec_from_u8(self@[OP as int]),
    {
        Op::from_u8(self.buffer[OP])
    }

    pub fn payload_type(&self) -> (r: PayloadType)
        requires
            self@.len() >= PAYLOAD,
        ensures
            r == PayloadType::spec_from_u8(self@[PAYLOAD_TYPE as int]),
    {
        PayloadType::from_u8(self.buffer[PAYLOAD_TYPE])
    }

    pub fn payload_size(&self) -> (r: u16)
        requires
            self@.len() >= PAYLOAD,
        ensures
            r == u16_at(self@, PAYLOAD_SIZE as int),
    {
        read_u16_at(self.buffer.as_slice(), PAYLOAD_SIZE)
    }

    /// The bytes after the header.
    pub fn payload(&self) -> (r: &[u8])
        requires
            self@.len() >= PAYLOAD,
        ensures
            r@ == payload_of(self@),
    {
        slice_subrange(self.buffer.as_slice(), PAYLOAD, self.buffer.len())
    }

    pub fn set_preamble(&mut self, value: u32)
        requires
            old(self)@.len() >= PAYLOAD,
        ensures
            final(self)@ == splice(old(self)@, PREAMBLE as int, spec_u32_to_le_bytes(value)),
    {
        write_u32_at(&mut self.buffer, PREAMBLE, value);
    }

    pub fn set_node_id(&mut self, value: NodeId)
        requires
            old(self)@.len() >= PAYLOAD,
        ensures
            final(self)@ == splice(old(self)@, NODE_ID as int, spec_u32_to_le_bytes(value)),
    {
        write_u32_at(&mut self.buffer, NODE_ID, value);
    }

    pub fn set_flags(&mut self, value: Flags)
        requires
            old(self)@.len() >= PAYLOAD,
        ensures
            final(self)@ == splice(old(self)@, FLAGS as int, spec_u32_to_le_bytes(value)),
    {
        write_u32_at(&mut self.buffer, FLAGS, value);
    }

    pub fn set_version(&mut self, value: Version)
        requires
            old(self)@.len() >= PAYLOAD,
        ensures
            final(self)@ == old(self)@.update(VERSION_AT as int, value),
    {
        self.buffer[VERSION_AT] = value;
    }

    pub fn set_op(&mut self, value: Op)
        requires
            old(self)@.len() >= PAYLOAD,
        ensures
            final(self)@ == old(self)@.update(OP as int, value.spec_as_u8()),
    {
        self.buffer[OP] = value.as_u8();
    }

    pub fn set_payload_type(&mut self, value: PayloadType)
        requires
            old(self)@.len() >= PAYLOAD,
        ensures
            final(self)@ == old(self)@.update(PAYLOAD_TYPE as int, value.spec_as_u8()),
    {
        self.buffer[PAYLOAD_TYPE] = value.as_u8();
    }

    pub fn set_payload_size(&mut self, value: u16)
        requires
            old(self)@.len() >= PAYLOAD,
        ensures
            final(self)@ == splice(old(self)@, PAYLOAD_SIZE as int, spec_u16_to_le_bytes(value)),
    {
        write_u16_at(&mut self.buffer, PAYLOAD_SIZE, value);
    }

    /// Copies `data` to the start of the payload.
    pub fn set_payload(&mut self, data: &[u8])
        requires
            PAYLOAD + data@.len() <= old(self)@.len(),
        ensures
            final(self)@ == splice(old(self)@, PAYLOAD as int, data@),
    {
        let ghost s0 = self.buffer@;
        let len = self.buffer.len();
        let mut i: usize = 0;
        while i < data.len()
            invariant
                i <= data@.len(),
                len == s0.len(),
                PAYLOAD + data@.len() <= s0.len(),
                self.buffer@ == splice(s0, PAYLOAD as int, data@.take(i as int)),
            decreases data@.len() - i,
        {
            self.buffer[PAYLOAD + i] = data[i];
            i = i + 1;
            assert(self.buffer@ =~= splice(s0, PAYLOAD as int, data@.take(i as int)));
        }
        assert(data@.take(data@.len() as int) =~= data@);
    }
}

} // verus!
