//! Responses whose parameters are borrowed, for emitting straight from a
//! store.

use vstd::prelude::*;
use crate::error::Error;
use crate::getset::{Flags, NodeId, Op, MAX_PARAMS_PER_OP};
use crate::parameter::Parameter;
use crate::response::{emit_parameter_list, lemma_list_payload_len, list_frame_bytes, list_payload_len};
use crate::wire::bytes::splice;
use crate::wire::getset::{Frame, PAYLOAD};
use crate::wire::parameter_list::list_wire_size;

verus! {

/// A response over a borrowed slice of parameters; emit only.
pub struct RefResponse<'a> {
    pub node_id: NodeId,
    pub flags: Flags,
    pub op: Op,
    pub params: &'a [Parameter],
}

impl<'a> RefResponse<'a> {
    pub fn new(node_id: NodeId, flags: Flags, op: Op, params: &'a [Parameter]) -> (r: Self)
        ensures
            r.node_id == node_id,
            r.flags == flags,
            r.op == op,
            r.params@ == params@,
    {
        RefResponse { node_id, flags, op, params }
    }

    pub fn op(&self) -> (r: Op)
        ensures
            r == self.op,
    {
        self.op
    }

    /// Bytes of the payload on the wire.
    pub fn payload_wire_size(&self) -> (r: usize)
        requires
            self.params@.len() <= MAX_PARAMS_PER_OP,
        ensures
            r == list_payload_len(self.params@),
            r <= 1 + MAX_PARAMS_PER_OP * 25,
    {
        proof {
            lemma_list_payload_len(self.params@);
        }
        list_wire_size(self.params)
    }

    /// Bytes of the whole frame on the wire.
    pub fn wire_size(&self) -> (r: usize)
        requires
            self.params@.len() <= MAX_PARAMS_PER_OP,
        ensures
            r == PAYLOAD + list_payload_len(self.params@),
    {
        PAYLOAD + self.payload_wire_size()
    }

    /// Writes the same frame as a `Response` with these parameters would.
    /// More than `MAX_PARAMS_PER_OP` parameters is `WireIndexOutOfBounds`, a
    /// frame that does not fit is `WireTruncated`; either way the buffer
    /// stays as it was.
    pub fn emit(&self, frame: &mut Frame) -> (r: Result<(), Error>)
        ensures
            self.params@.len() > MAX_PARAMS_PER_OP ==> r == Err::<(), Error>(
                Error::WireIndexOutOfBounds,
            ) && final(frame)@ == old(frame)@,
            self.params@.len() <= MAX_PARAMS_PER_OP && PAYLOAD + list_payload_len(self.params@)
                > old(frame)@.len() ==> r == Err::<(), Error>(Error::WireTruncated) && final(frame)@
                == old(frame)@,
            self.params@.len() <= MAX_PARAMS_PER_OP && PAYLOAD + list_payload_len(self.params@)
                <= old(frame)@.len() ==> r is Ok && final(frame)@ == splice(
                old(frame)@,
                0,
                list_frame_bytes(self.node_id, self.flags, self.op, self.params@),
            ),
    {
        emit_parameter_list(frame, self.node_id, self.flags, self.op, self.params)
    }
}

} // verus!
