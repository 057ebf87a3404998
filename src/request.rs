//! Requests: an operation with an id list or a parameter list.

use vstd::prelude::*;
use crate::bounded::{
    id_items, id_vec_as_slice, id_vec_clear, id_vec_len, id_vec_new, id_vec_pop, id_vec_push,
    param_items, param_vec_as_slice, param_vec_clear, param_vec_new,
    param_vec_pop, param_vec_push, IdVec, ParamVec,
};
use crate::error::Error;
use crate::getset::{request_payload_type, Flags, NodeId, Op, PayloadType, MAX_PARAMS_PER_OP};
use crate::id::Id;
use crate::parameter::Parameter;
use crate::wire::bytes::{lemma_le_lengths, splice};
use crate::wire::getset::{
    check_spec, header_bytes, lemma_header_round_trip, payload_of, u32_at, write_header, Frame,
    OP, PAYLOAD, PAYLOAD_TYPE,
};
use crate::wire::parameter_id_list::{
    id_list_bytes, lemma_parse_ids, parse_ids, parse_ids_spec, write_ids, ID_LEN,
};
use crate::wire::parameter_list::{
    lemma_parse_list, lemma_records_len, list_bytes, list_wire_size, parse_list, parse_list_spec,
    records_len, write_list,
};

verus! {

/// What a request holds.
pub struct RequestView {
    pub node_id: NodeId,
    pub flags: Flags,
    pub op: Op,
    pub payload_type: PayloadType,
    pub ids: Seq<Id>,
    pub params: Seq<Parameter>,
}

impl RequestView {
    /// Both lists within their capacity.
    pub open spec fn wf(self) -> bool {
        self.ids.len() <= MAX_PARAMS_PER_OP && self.params.len() <= MAX_PARAMS_PER_OP
    }

    /// One of the three legal requests: the payload type that the operation
    /// asks for, and no items in the list that the payload type leaves out.
    pub open spec fn is_legal(self) -> bool {
        &&& self.payload_type == request_payload_type(self.op)
        &&& self.payload_type != PayloadType::ParameterIdListPacket ==> self.ids.len() == 0
        &&& self.payload_type != PayloadType::ParameterListPacket ==> self.params.len() == 0
    }

    /// Payload length on the wire.
    pub open spec fn payload_len(self) -> nat {
        match self.payload_type {
            PayloadType::Empty => 0,
            PayloadType::ParameterIdListPacket => (1 + ID_LEN * self.ids.len()) as nat,
            PayloadType::ParameterListPacket => (1 + records_len(self.params)) as nat,
        }
    }

    /// Payload bytes on the wire.
    pub open spec fn payload_bytes(self) -> Seq<u8> {
        match self.payload_type {
            PayloadType::Empty => Seq::empty(),
            PayloadType::ParameterIdListPacket => id_list_bytes(self.ids),
            PayloadType::ParameterListPacket => list_bytes(self.params),
        }
    }

    /// The whole frame on the wire.
    pub open spec fn frame_bytes(self) -> Seq<u8> {
        header_bytes(
            self.node_id,
            self.flags,
            self.op,
            self.payload_type,
            self.payload_len() as u16,
        ) + self.payload_bytes()
    }
}

/// Parsing a request frame: length and preamble, then a payload type that
/// fits the operation, then the payload's list.
pub open spec fn parse_request_spec(buf: Seq<u8>) -> Result<RequestView, Error> {
    match check_spec(buf) {
        Err(e) => Err(e),
        Ok(()) => {
            let op = Op::spec_from_u8(buf[OP as int]);
            let payload_type = PayloadType::spec_from_u8(buf[PAYLOAD_TYPE as int]);
            let base = RequestView {
                node_id: u32_at(buf, 4),
                flags: u32_at(buf, 8),
                op,
                payload_type,
                ids: Seq::empty(),
                params: Seq::empty(),
            };
            let payload = payload_of(buf);
            if payload_type != request_payload_type(op) {
                Err(Error::WireInvalidPayloadType)
            } else {
                match payload_type {
                    PayloadType::Empty => Ok(base),
                    PayloadType::ParameterIdListPacket => if payload.len() < 1 {
                        Err(Error::WireTruncated)
                    } else {
                        match parse_ids_spec(payload, payload[0] as nat) {
                            Ok(ids) => Ok(RequestView { ids, ..base }),
                            Err(e) => Err(e),
                        }
                    },
                    PayloadType::ParameterListPacket => if payload.len() < 1 {
                        Err(Error::WireTruncated)
                    } else {
                        match parse_list_spec(payload, payload[0] as nat) {
                            Ok(params) => Ok(RequestView { params, ..base }),
                            Err(e) => Err(e),
                        }
                    },
                }
            }
        },
    }
}

/// A request with an operation and, depending on its payload type, a list
/// of ids or of parameters.
#[derive(PartialEq, Debug)]
pub struct Request {
    node_id: NodeId,
    flags: Flags,
    op: Op,
    payload_type: PayloadType,
    ids: IdVec,
    params: ParamVec,
}

impl View for Request {
    type V = RequestView;

    closed spec fn view(&self) -> RequestView {
        RequestView {
            node_id: self.node_id,
            flags: self.flags,
            op: self.op,
            payload_type: self.payload_type,
            ids: id_items(self.ids),
            params: param_items(self.params),
        }
    }
}

impl Request {
    pub fn new(node_id: NodeId, flags: Flags, op: Op, payload_type: PayloadType) -> (r: Self)
        ensures
            r@ == (RequestView {
                node_id,
                flags,
                op,
                payload_type,
                ids: Seq::empty(),
                params: Seq::empty(),
            }),
    {
        Request { node_id, flags, op, payload_type, ids: id_vec_new(), params: param_vec_new() }
    }

    pub fn op(&self) -> (r: Op)
        ensures
            r == self@.op,
    {
        self.op
    }

    pub fn node_id(&self) -> (r: NodeId)
        ensures
            r == self@.node_id,
    {
        self.node_id
    }

    pub fn payload_type(&self) -> (r: PayloadType)
        ensures
            r == self@.payload_type,
    {
        self.payload_type
    }

    pub fn ids(&self) -> (r: &[Id])
        ensures
            r@ == self@.ids,
            r@.len() <= MAX_PARAMS_PER_OP,
    {
        id_vec_as_slice(&self.ids)
    }

    pub fn parameters(&self) -> (r: &[Parameter])
        ensures
            r@ == self@.params,
            r@.len() <= MAX_PARAMS_PER_OP,
    {
        param_vec_as_slice(&self.params)
    }

    /// Appends an id; `Capacity` when the id list is full.
    pub fn push_id(&mut self, id: Id) -> (r: Result<(), Error>)
        ensures
            old(self)@.ids.len() < MAX_PARAMS_PER_OP ==> r is Ok && final(self)@ == (RequestView {
                ids: old(self)@.ids.push(id),
                ..old(self)@
            }),
            old(self)@.ids.len() >= MAX_PARAMS_PER_OP ==> r == Err::<(), Error>(Error::Capacity)
                && final(self)@ == old(self)@,
    {
        match id_vec_push(&mut self.ids, id) {
            Ok(()) => Ok(()),
            Err(_) => Err(Error::Capacity),
        }
    }

    /// Appends a parameter; `Capacity` when the parameter list is full.
    pub fn push_parameter(&mut self, parameter: Parameter) -> (r: Result<(), Error>)
        ensures
            old(self)@.params.len() < MAX_PARAMS_PER_OP ==> r is Ok && final(self)@ == (
            RequestView { params: old(self)@.params.push(parameter), ..old(self)@ }),
            old(self)@.params.len() >= MAX_PARAMS_PER_OP ==> r == Err::<(), Error>(Error::Capacity)
                && final(self)@ == old(self)@,
    {
        match param_vec_push(&mut self.params, parameter) {
            Ok(()) => Ok(()),
            Err(_) => Err(Error::Capacity),
        }
    }

    pub fn pop_id(&mut self) -> (r: Option<Id>)
        ensures
            old(self)@.ids.len() == 0 ==> r is None && final(self)@ == old(self)@,
            old(self)@.ids.len() > 0 ==> r == Some(old(self)@.ids.last()) && final(self)@ == (
            RequestView { ids: old(self)@.ids.drop_last(), ..old(self)@ }),
    {
        id_vec_pop(&mut self.ids)
    }

    pub fn pop_parameter(&mut self) -> (r: Option<Parameter>)
        ensures
            old(self)@.params.len() == 0 ==> r is None && final(self)@ == old(self)@,
            old(self)@.params.len() > 0 ==> r == Some(old(self)@.params.last()) && final(self)@
                == (RequestView { params: old(self)@.params.drop_last(), ..old(self)@ }),
    {
        param_vec_pop(&mut self.params)
    }

    /// Empties both lists.
    pub fn clear(&mut self)
        ensures
            final(self)@ == (RequestView {
                ids: Seq::empty(),
                params: Seq::empty(),
                ..old(self)@
            }),
    {
        id_vec_clear(&mut self.ids);
        param_vec_clear(&mut self.params);
    }

    /// Bytes of the payload on the wire.
    pub fn payload_wire_size(&self) -> (r: usize)
        ensures
            r == self@.payload_len(),
            r <= 1 + MAX_PARAMS_PER_OP * 25,
            self@.wf(),
    {
        let n_ids = id_vec_len(&self.ids);
        let params = param_vec_as_slice(&self.params);
        proof {
            lemma_payload_len(self@);
        }
        match self.payload_type {
            PayloadType::Empty => 0,
            PayloadType::ParameterIdListPacket => 1 + ID_LEN * n_ids,
            PayloadType::ParameterListPacket => list_wire_size(params),
        }
    }

    /// Bytes of the whole frame on the wire.
    pub fn wire_size(&self) -> (r: usize)
        ensures
            r == PAYLOAD + self@.payload_len(),
    {
        PAYLOAD + self.payload_wire_size()
    }

    /// Reads a request from `frame`.
    pub fn parse(frame: &Frame) -> (r: Result<Self, Error>)
        ensures
            match parse_request_spec(frame@) {
                Ok(v) => r matches Ok(q) && q@ == v,
                Err(e) => r matches Err(x) && x == e,
            },
    {
        match frame.check_len() {
            Ok(()) => {},
            Err(e) => return Err(e),
        }
        match frame.check_preamble() {
            Ok(()) => {},
            Err(e) => return Err(e),
        }
        let node_id = frame.node_id();
        let flags = frame.flags();
        let op = frame.op();
        let payload_type = frame.payload_type();
        if !crate::getset::is_legal_request(op, payload_type) {
            return Err(Error::WireInvalidPayloadType);
        }
        let mut r = Request::new(node_id, flags, op, payload_type);
        let payload = frame.payload();
        match payload_type {
            PayloadType::Empty => Ok(r),
            PayloadType::ParameterIdListPacket => {
                if payload.len() < 1 {
                    return Err(Error::WireTruncated);
                }
                match parse_ids(payload, payload[0] as usize) {
                    Ok(ids) => {
                        r.ids = ids;
                        Ok(r)
                    },
                    Err(e) => Err(e),
                }
            },
            PayloadType::ParameterListPacket => {
                if payload.len() < 1 {
                    return Err(Error::WireTruncated);
                }
                match parse_list(payload, payload[0] as usize) {
                    Ok(params) => {
                        r.params = params;
                        Ok(r)
                    },
                    Err(e) => Err(e),
                }
            },
        }
    }

    /// Writes this request as a frame at the start of `frame`'s buffer;
    /// `WireTruncated`, with the buffer untouched, when it does not fit.
    pub fn emit(&self, frame: &mut Frame) -> (r: Result<(), Error>)
        ensures
            PAYLOAD + self@.payload_len() <= old(frame)@.len() ==> r is Ok && final(frame)@
                == splice(old(frame)@, 0, self@.frame_bytes()),
            PAYLOAD + self@.payload_len() > old(frame)@.len() ==> r == Err::<(), Error>(
                Error::WireTruncated,
            ) && final(frame)@ == old(frame)@,
    {
        let size = self.payload_wire_size();
        let len = frame.buffer.len();
        if len < PAYLOAD || len - PAYLOAD < size {
            return Err(Error::WireTruncated);
        }
        let ghost s0 = frame.buffer@;
        proof {
            lemma_records_len(self@.params);
        }
        write_header(
            &mut frame.buffer,
            self.node_id,
            self.flags,
            self.op,
            self.payload_type,
            size as u16,
        );
        match self.payload_type {
            PayloadType::Empty => {},
            PayloadType::ParameterIdListPacket => {
                write_ids(&mut frame.buffer, PAYLOAD, id_vec_as_slice(&self.ids));
            },
            PayloadType::ParameterListPacket => {
                write_list(&mut frame.buffer, PAYLOAD, param_vec_as_slice(&self.params));
            },
        }
        proof {
            lemma_le_lengths();
            lemma_payload_len(self@);
            assert(frame.buffer@ =~= splice(s0, 0, self@.frame_bytes()));
        }
        Ok(())
    }
}

/// The payload bytes are as long as the payload length says.
pub proof fn lemma_payload_len(r: RequestView)
    ensures
        r.payload_bytes().len() == r.payload_len(),
        r.wf() ==> r.payload_len() <= 1 + MAX_PARAMS_PER_OP * 25,
{
    lemma_le_lengths();
    lemma_records_len(r.params);
    crate::wire::parameter_id_list::lemma_ids_bytes(r.ids);
    if r.wf() {
        assert(r.params.len() * 25 <= MAX_PARAMS_PER_OP * 25) by (nonlinear_arith)
            requires
                r.params.len() <= MAX_PARAMS_PER_OP,
        ;
    }
}

/// Parsing an emitted legal request gives the same request back, whatever
/// the buffer held beyond the frame.
pub proof fn lemma_request_round_trip(r: RequestView, buf: Seq<u8>)
    requires
        r.wf(),
        r.is_legal(),
        PAYLOAD + r.payload_len() <= buf.len(),
    ensures
        parse_request_spec(splice(buf, 0, r.frame_bytes())) == Ok::<RequestView, Error>(r),
{
    let fb = r.frame_bytes();
    let s = splice(buf, 0, fb);
    let h = header_bytes(r.node_id, r.flags, r.op, r.payload_type, r.payload_len() as u16);
    lemma_le_lengths();
    lemma_payload_len(r);
    assert(h.len() == PAYLOAD);
    assert(s.subrange(0, PAYLOAD as int) =~= h);
    lemma_header_round_trip(s, r.node_id, r.flags, r.op, r.payload_type, r.payload_len() as u16);
    let rest = buf.subrange(fb.len() as int, buf.len() as int);
    assert(payload_of(s) =~= r.payload_bytes() + rest);
    match r.payload_type {
        PayloadType::Empty => {
            assert(r.ids =~= Seq::<Id>::empty());
            assert(r.params =~= Seq::<Parameter>::empty());
        },
        PayloadType::ParameterIdListPacket => {
            lemma_parse_ids(r.ids, rest, r.ids.len());
            assert(r.ids.take(r.ids.len() as int) =~= r.ids);
            assert(payload_of(s)[0] == r.ids.len() as u8);
            assert(r.params =~= Seq::<Parameter>::empty());
        },
        PayloadType::ParameterListPacket => {
            lemma_parse_list(r.params, rest, r.params.len());
            assert(r.params.take(r.params.len() as int) =~= r.params);
            assert(payload_of(s)[0] == r.params.len() as u8);
            assert(r.ids =~= Seq::<Id>::empty());
        },
    }
}

} // verus!
