//! Responses: an operation and a parameter list.

use vstd::prelude::*;
use crate::bounded::{
    param_items, param_vec_as_slice, param_vec_clear, param_vec_new,
    param_vec_pop, param_vec_push, ParamVec,
};
use crate::error::Error;
use crate::getset::{Flags, NodeId, Op, PayloadType, MAX_PARAMS_PER_OP};
use crate::parameter::Parameter;
use crate::wire::bytes::{lemma_le_lengths, splice};
use crate::wire::getset::{
    check_spec, header_bytes, lemma_header_round_trip, payload_of, u32_at, write_header, Frame,
    OP, PAYLOAD, PAYLOAD_TYPE,
};
use crate::wire::parameter_list::{
    lemma_parse_list, lemma_records_len, list_bytes, list_wire_size, parse_list, parse_list_spec,
    records_len, write_list,
};

verus! {

/// What a response holds.
pub struct ResponseView {
    pub node_id: NodeId,
    pub flags: Flags,
    pub op: Op,
    pub params: Seq<Parameter>,
}

/// Payload length of a parameter-list frame that carries `ps`.
pub open spec fn list_payload_len(ps: Seq<Parameter>) -> nat {
    1 + records_len(ps)
}

/// The parameter-list frame that carries `ps`.
pub open spec fn list_frame_bytes(node_id: NodeId, flags: Flags, op: Op, ps: Seq<Parameter>) -> Seq<
    u8,
> {
    header_bytes(
        node_id,
        flags,
        op,
        PayloadType::ParameterListPacket,
        list_payload_len(ps) as u16,
    ) + list_bytes(ps)
}

/// Parsing a response frame: length and preamble, then a parameter-list
/// payload type, then the list.
pub open spec fn parse_response_spec(buf: Seq<u8>) -> Result<ResponseView, Error> {
    match check_spec(buf) {
        Err(e) => Err(e),
        Ok(()) => {
            let payload = payload_of(buf);
            if PayloadType::spec_from_u8(buf[PAYLOAD_TYPE as int])
                != PayloadType::ParameterListPacket {
                Err(Error::WireInvalidPayloadType)
            } else if payload.len() < 1 {
                Err(Error::WireTruncated)
            } else {
                match parse_list_spec(payload, payload[0] as nat) {
                    Ok(params) => Ok(
                        ResponseView {
                            node_id: u32_at(buf, 4),
                            flags: u32_at(buf, 8),
                            op: Op::spec_from_u8(buf[OP as int]),
                            params,
                        },
                    ),
                    Err(e) => Err(e),
                }
            }
        },
    }
}

pub proof fn lemma_list_payload_len(ps: Seq<Parameter>)
    ensures
        list_bytes(ps).len() == list_payload_len(ps),
        ps.len() <= MAX_PARAMS_PER_OP ==> list_payload_len(ps) <= 1 + MAX_PARAMS_PER_OP * 25,
{
    lemma_records_len(ps);
    if ps.len() <= MAX_PARAMS_PER_OP {
        assert(ps.len() * 25 <= MAX_PARAMS_PER_OP * 25) by (nonlinear_arith)
            requires
                ps.len() <= MAX_PARAMS_PER_OP,
        ;
    }
}

pub proof fn lemma_list_frame_len(node_id: NodeId, flags: Flags, op: Op, ps: Seq<Parameter>)
    ensures
        list_frame_bytes(node_id, flags, op, ps).len() == PAYLOAD + list_payload_len(ps),
{
    lemma_le_lengths();
    lemma_list_payload_len(ps);
}

/// Writes a parameter-list frame that carries `ps`. More than
/// `MAX_PARAMS_PER_OP` parameters is `WireIndexOutOfBounds`, a frame that
/// does not fit is `WireTruncated`; either way the buffer stays as it was.
pub fn emit_parameter_list(
    frame: &mut Frame,
    node_id: NodeId,
    flags: Flags,
    op: Op,
    ps: &[Parameter],
) -> (r: Result<(), Error>)
    ensures
        ps@.len() > MAX_PARAMS_PER_OP ==> r == Err::<(), Error>(Error::WireIndexOutOfBounds)
            && final(frame)@ == old(frame)@,
        ps@.len() <= MAX_PARAMS_PER_OP && PAYLOAD + list_payload_len(ps@) > old(frame)@.len()
            ==> r == Err::<(), Error>(Error::WireTruncated) && final(frame)@ == old(frame)@,
        ps@.len() <= MAX_PARAMS_PER_OP && PAYLOAD + list_payload_len(ps@) <= old(frame)@.len()
            ==> r is Ok && final(frame)@ == splice(
            old(frame)@,
            0,
            list_frame_bytes(node_id, flags, op, ps@),
        ),
{
    if ps.len() > MAX_PARAMS_PER_OP {
        return Err(Error::WireIndexOutOfBounds);
    }
    let size = list_wire_size(ps);
    proof {
        lemma_list_payload_len(ps@);
    }
    let len = frame.buffer.len();
    if len < PAYLOAD || len - PAYLOAD < size {
        return Err(Error::WireTruncated);
    }
    let ghost s0 = frame.buffer@;
    write_header(
        &mut frame.buffer,
        node_id,
        flags,
        op,
        PayloadType::ParameterListPacket,
        size as u16,
    );
    write_list(&mut frame.buffer, PAYLOAD, ps);
    proof {
        lemma_le_lengths();
        assert(frame.buffer@ =~= splice(s0, 0, list_frame_bytes(node_id, flags, op, ps@)));
    }
    Ok(())
}

/// A response: an operation and the parameters it reports.
#[derive(PartialEq, Debug)]
pub struct Response {
    node_id: NodeId,
    flags: Flags,
    op: Op,
    params: ParamVec,
}

impl View for Response {
    type V = ResponseView;

    closed spec fn view(&self) -> ResponseView {
        ResponseView {
            node_id: self.node_id,
            flags: self.flags,
            op: self.op,
            params: param_items(self.params),
        }
    }
}

impl Response {
    pub fn new(node_id: NodeId, flags: Flags, op: Op) -> (r: Self)
        ensures
            r@ == (ResponseView { node_id, flags, op, params: Seq::empty() }),
    {
        Response { node_id, flags, op, params: param_vec_new() }
    }

    pub fn op(&self) -> (r: Op)
        ensures
            r == self@.op,
    {
        self.op
    }

    pub fn node_id(&self) -> (r: NodeId)
        ensures
            r == self@.node_id,
    {
        self.node_id
    }

    /// Appends a parameter; `Capacity` when the list is full.
    pub fn push(&mut self, param: Parameter) -> (r: Result<(), Error>)
        ensures
            old(self)@.params.len() < MAX_PARAMS_PER_OP ==> r is Ok && final(self)@ == (
            ResponseView { params: old(self)@.params.push(param), ..old(self)@ }),
            old(self)@.params.len() >= MAX_PARAMS_PER_OP ==> r == Err::<(), Error>(Error::Capacity)
                && final(self)@ == old(self)@,
    {
        match param_vec_push(&mut self.params, param) {
            Ok(()) => Ok(()),
            Err(_) => Err(Error::Capacity),
        }
    }

    pub fn pop(&mut self) -> (r: Option<Parameter>)
        ensures
            old(self)@.params.len() == 0 ==> r is None && final(self)@ == old(self)@,
            old(self)@.params.len() > 0 ==> r == Some(old(self)@.params.last()) && final(self)@
                == (ResponseView { params: old(self)@.params.drop_last(), ..old(self)@ }),
    {
        param_vec_pop(&mut self.params)
    }

    pub fn parameters(&self) -> (r: &[Parameter])
        ensures
            r@ == self@.params,
    {
        param_vec_as_slice(&self.params)
    }

    pub fn clear(&mut self)
        ensures
            final(self)@ == (ResponseView { params: Seq::empty(), ..old(self)@ }),
    {
        param_vec_clear(&mut self.params);
    }

    /// Bytes of the payload on the wire.
    pub fn payload_wire_size(&self) -> (r: usize)
        ensures
            r == list_payload_len(self@.params),
            r <= 1 + MAX_PARAMS_PER_OP * 25,
    {
        let params = param_vec_as_slice(&self.params);
        proof {
            lemma_list_payload_len(self@.params);
        }
        list_wire_size(params)
    }

    /// Bytes of the whole frame on the wire.
    pub fn wire_size(&self) -> (r: usize)
        ensures
            r == PAYLOAD + list_payload_len(self@.params),
    {
        PAYLOAD + self.payload_wire_size()
    }

    /// Reads a response from `frame`.
    pub fn parse(frame: &Frame) -> (r: Result<Self, Error>)
        ensures
            match parse_response_spec(frame@) {
                Ok(v) => r matches Ok(q) && q@ == v,
                Err(e) => r matches Err(x) && x == e,
            },
    {
        match frame.check_len() {
            Ok(()) => {},
            Err(e) => return Err(e),
        }
        match frame.check_preamble() {
            Ok(()) => {},
            Err(e) => return Err(e),
        }
        let node_id = frame.node_id();
        let flags = frame.flags();
        let op = frame.op();
        if frame.payload_type() != PayloadType::ParameterListPacket {
            return Err(Error::WireInvalidPayloadType);
        }
        let payload = frame.payload();
        if payload.len() < 1 {
            return Err(Error::WireTruncated);
        }
        match parse_list(payload, payload[0] as usize) {
            Ok(params) => Ok(Response { node_id, flags, op, params }),
            Err(e) => Err(e),
        }
    }

    /// Writes this response as a frame at the start of `frame`'s buffer;
    /// `WireTruncated`, with the buffer untouched, when it does not fit.
    pub fn emit(&self, frame: &mut Frame) -> (r: Result<(), Error>)
        ensures
            PAYLOAD + list_payload_len(self@.params) <= old(frame)@.len() ==> r is Ok
                && final(frame)@ == splice(
                old(frame)@,
                0,
                list_frame_bytes(self@.node_id, self@.flags, self@.op, self@.params),
            ),
            PAYLOAD + list_payload_len(self@.params) > old(frame)@.len() ==> r == Err::<(), Error>(
                Error::WireTruncated,
            ) && final(frame)@ == old(frame)@,
    {
        emit_parameter_list(
            frame,
            self.node_id,
            self.flags,
            self.op,
            param_vec_as_slice(&self.params),
        )
    }
}

/// Parsing an emitted response gives the same response back, whatever the
/// buffer held beyond the frame.
pub proof fn lemma_response_round_trip(r: ResponseView, buf: Seq<u8>)
    requires
        r.params.len() <= MAX_PARAMS_PER_OP,
        PAYLOAD + list_payload_len(r.params) <= buf.len(),
    ensures
        parse_response_spec(splice(buf, 0, list_frame_bytes(r.node_id, r.flags, r.op, r.params)))
            == Ok::<ResponseView, Error>(r),
{
    let fb = list_frame_bytes(r.node_id, r.flags, r.op, r.params);
    let s = splice(buf, 0, fb);
    let size = list_payload_len(r.params) as u16;
    let h = header_bytes(r.node_id, r.flags, r.op, PayloadType::ParameterListPacket, size);
    lemma_le_lengths();
    lemma_list_payload_len(r.params);
    assert(s.subrange(0, PAYLOAD as int) =~= h);
    lemma_header_round_trip(s, r.node_id, r.flags, r.op, PayloadType::ParameterListPacket, size);
    let rest = buf.subrange(fb.len() as int, buf.len() as int);
    assert(payload_of(s) =~= list_bytes(r.params) + rest);
    lemma_parse_list(r.params, rest, r.params.len());
    assert(r.params.take(r.params.len() as int) =~= r.params);
    assert(payload_of(s)[0] == r.params.len() as u8);
}

} // verus!
