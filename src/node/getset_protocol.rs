//! Serving one received frame: classify it, apply it to the store, and
//! write the reply into the same buffer.

use vstd::prelude::*;
use vstd::slice::{slice_subrange, slice_to_vec};
use crate::getset::{is_legal_request, request_payload_type, NodeId, Op, PayloadType, MAX_PARAMS_PER_OP};
use crate::id::Id;
use crate::node::error::Error;
use crate::node::params::{lookup, set_spec, store_wf, Params};
use crate::parameter::Parameter;
use crate::ref_response::RefResponse;
use crate::request::{parse_request_spec, Request};
use crate::response::{lemma_list_frame_len, list_frame_bytes, list_payload_len, Response, ResponseView};
use crate::wire::bytes::splice;
use crate::wire::getset::{check_spec, header_bytes, write_header, Frame, OP, PAYLOAD, PAYLOAD_TYPE};

verus! {

/// Largest frame the transport carries in one datagram or stream burst.
pub const MTU: usize = 1500;

/// A full parameter list whose values take at most four bytes each fits in
/// one `MTU` together with the frame header.
pub proof fn lemma_mtu_bound(t: crate::value::TypeId)
    requires
        t.spec_wire_size() <= 4,
    ensures
        PAYLOAD + 1 + MAX_PARAMS_PER_OP * (crate::wire::parameter::HEADER_LEN + t.spec_wire_size())
            <= MTU,
{
    assert(MAX_PARAMS_PER_OP * (crate::wire::parameter::HEADER_LEN + t.spec_wire_size()) <= 64 * 21)
        by (nonlinear_arith)
        requires
            t.spec_wire_size() <= 4,
            MAX_PARAMS_PER_OP == 64,
            crate::wire::parameter::HEADER_LEN == 17,
    ;
}

/// The parameters of `s` whose ids are in `ids`, in the order of `ids`;
/// unknown ids are left out.
pub open spec fn get_results(s: Seq<Parameter>, ids: Seq<Id>) -> Seq<Parameter>
    decreases ids.len(),
{
    if ids.len() == 0 {
        Seq::empty()
    } else {
        get_results(s, ids.drop_last()) + match lookup(s, ids.last()) {
            Some(p) => seq![p],
            None => Seq::empty(),
        }
    }
}

/// Applying the parameters of a Set request in order, as an outside client
/// may: the parameters that were set, as stored afterwards, and the store
/// afterwards. Refused ones are left out.
pub open spec fn apply_sets(s: Seq<Parameter>, ps: Seq<Parameter>, now: u64) -> (Seq<Parameter>, Seq<
    Parameter,
>)
    decreases ps.len(),
{
    if ps.len() == 0 {
        (Seq::empty(), s)
    } else {
        let (out, s0) = apply_sets(s, ps.drop_last(), now);
        let p = ps.last();
        let (r, s1) = set_spec(s0, p.id, p.value, false, now);
        if r is Ok {
            (out.push(lookup(s1, p.id).unwrap()), s1)
        } else {
            (out, s0)
        }
    }
}

/// The reply to a frame whose payload type does not fit its operation: the
/// operation echoed, no payload.
pub open spec fn malformed_reply(node_id: NodeId, op: Op) -> Seq<u8> {
    header_bytes(node_id, 0, op, PayloadType::Empty, 0)
}

/// Serving the frame `rx` against the store `s`: the reply frame (or why
/// there is none), and the store afterwards.
pub open spec fn handle_spec(s: Seq<Parameter>, rx: Seq<u8>, node_id: NodeId, now: u64) -> (Result<
    Seq<u8>,
    Error,
>, Seq<Parameter>) {
    match check_spec(rx) {
        Err(e) => (Err(Error::ParamsError(e)), s),
        Ok(()) => {
            let op = Op::spec_from_u8(rx[OP as int]);
            if PayloadType::spec_from_u8(rx[PAYLOAD_TYPE as int]) != request_payload_type(op) {
                (Ok(malformed_reply(node_id, op)), s)
            } else {
                match parse_request_spec(rx) {
                    Err(e) => (Err(Error::ParamsError(e)), s),
                    Ok(req) => match op {
                        Op::ListAll => (Ok(list_frame_bytes(node_id, 0, op, s)), s),
                        Op::Get => (Ok(list_frame_bytes(node_id, 0, op, get_results(s, req.ids))), s),
                        Op::SetParams => {
                            let (out, s1) = apply_sets(s, req.params, now);
                            (Ok(list_frame_bytes(node_id, 0, op, out)), s1)
                        },
                    },
                }
            }
        },
    }
}

pub proof fn lemma_get_results_len(s: Seq<Parameter>, ids: Seq<Id>)
    ensures
        get_results(s, ids).len() <= ids.len(),
    decreases ids.len(),
{
    if ids.len() > 0 {
        lemma_get_results_len(s, ids.drop_last());
    }
}

pub proof fn lemma_apply_sets(s: Seq<Parameter>, ps: Seq<Parameter>, now: u64)
    requires
        store_wf(s),
    ensures
        apply_sets(s, ps, now).0.len() <= ps.len(),
        store_wf(apply_sets(s, ps, now).1),
    decreases ps.len(),
{
    if ps.len() > 0 {
        lemma_apply_sets(s, ps.drop_last(), now);
        let s0 = apply_sets(s, ps.drop_last(), now).1;
        let p = ps.last();
        crate::node::params::lemma_set_wf(s0, p.id, p.value, false, now);
    }
}

/// Within one Set request the later of two values for the same id wins,
/// when both may be set.
pub proof fn lemma_set_order(s: Seq<Parameter>, p1: Parameter, p2: Parameter, now: u64)
    requires
        store_wf(s),
        p1.id == p2.id,
        lookup(s, p1.id) matches Some(p) && !p.flags.spec_read_only() && !p.flags.spec_constant()
            && p.value.spec_type_id() == p1.value.spec_type_id() && p.value.spec_type_id()
            == p2.value.spec_type_id(),
    ensures
        lookup(apply_sets(s, seq![p1, p2], now).1, p1.id) matches Some(q) && q.value == p2.value,
{
    reveal_with_fuel(apply_sets, 3);
    let ps = seq![p1, p2];
    assert(ps.drop_last() =~= seq![p1]);
    assert(seq![p1].drop_last() =~= Seq::<Parameter>::empty());
    let id = p1.id;
    let i = crate::node::params::index_of(s, id);
    crate::node::params::lemma_set_wf(s, id, p1.value, false, now);
    let s1 = set_spec(s, id, p1.value, false, now).1;
    assert(s1[i].id == id);
    crate::node::params::lemma_index_of(s1, id, i);
    crate::node::params::lemma_set_wf(s1, id, p2.value, false, now);
    let s2 = set_spec(s1, id, p2.value, false, now).1;
    assert(s2[i].id == id);
    crate::node::params::lemma_index_of(s2, id, i);
}

/// A node's protocol buffer: it receives a request frame and is overwritten
/// with the reply.
pub struct GetSetProtocol {
    frame: Frame,
}

impl View for GetSetProtocol {
    type V = Seq<u8>;

    closed spec fn view(&self) -> Seq<u8> {
        self.frame@
    }
}

impl GetSetProtocol {
    /// Takes a buffer of at least `MTU` bytes; a shorter one is `Capacity`.
    pub fn new(buffer: Vec<u8>) -> (r: Result<GetSetProtocol, Error>)
        ensures
            buffer@.len() >= MTU ==> (r matches Ok(g) && g@ == buffer@),
            buffer@.len() < MTU ==> r == Err::<GetSetProtocol, Error>(Error::Capacity),
    {
        if buffer.len() < MTU {
            Err(Error::Capacity)
        } else {
            Ok(GetSetProtocol { frame: Frame::new_unchecked(buffer) })
        }
    }

    pub fn buffer(&self) -> (r: &[u8])
        ensures
            r@ == self@,
    {
        self.frame.as_slice()
    }

    /// Replaces the buffer's bytes from the start with `data`, as a
    /// transport does when it receives a frame.
    pub fn receive(&mut self, data: &[u8])
        requires
            data@.len() <= old(self)@.len(),
        ensures
            final(self)@ == splice(old(self)@, 0, data@),
    {
        let ghost s0 = self.frame@;
        let len = self.frame.buffer.len();
        let mut i: usize = 0;
        while i < data.len()
            invariant
                i <= data@.len(),
                data@.len() <= s0.len(),
                len == s0.len(),
                self.frame@ == splice(s0, 0, data@.take(i as int)),
            decreases data@.len() - i,
        {
            self.frame.buffer[i] = data[i];
            i = i + 1;
            assert(self.frame@ =~= splice(s0, 0, data@.take(i as int)));
        }
        assert(data@.take(data@.len() as int) =~= data@);
    }

    /// Classifies the `size` received bytes: the operation of a well-formed
    /// request, `ProtocolMalformed` with the operation when the payload type
    /// does not fit it, or why the frame is no frame.
    pub fn process_buffer(&self, size: usize) -> (r: Result<Op, Error>)
        requires
            size <= self@.len(),
        ensures
            match check_spec(self@.take(size as int)) {
                Err(e) => r == Err::<Op, Error>(Error::ParamsError(e)),
                Ok(()) => {
                    let op = Op::spec_from_u8(self@[OP as int]);
                    if PayloadType::spec_from_u8(self@[PAYLOAD_TYPE as int]) == request_payload_type(
                        op,
                    ) {
                        r == Ok::<Op, Error>(op)
                    } else {
                        r == Err::<Op, Error>(Error::ProtocolMalformed(op))
                    }
                },
            },
    {
        let rx = Frame::new_unchecked(slice_to_vec(slice_subrange(self.frame.as_slice(), 0, size)));
        match rx.check_len() {
            Ok(()) => {},
            Err(e) => return Err(Error::ParamsError(e)),
        }
        match rx.check_preamble() {
            Ok(()) => {},
            Err(e) => return Err(Error::ParamsError(e)),
        }
        let op = rx.op();
        if is_legal_request(op, rx.payload_type()) {
            Ok(op)
        } else {
            Err(Error::ProtocolMalformed(op))
        }
    }

    /// Serves the `size` received bytes against `params` and writes the
    /// reply over the buffer. Returns the reply's length; a reply longer
    /// than the buffer is `WireTruncated` and leaves the buffer as it was.
    pub fn respond(&mut self, params: &mut Params, size: usize, node_id: NodeId, now_ms: u64) -> (r:
        Result<usize, Error>)
        requires
            old(params).wf(),
            size <= old(self)@.len(),
        ensures
            final(params).wf(),
            final(params)@ == handle_spec(old(params)@, old(self)@.take(size as int), node_id, now_ms).1,
            match handle_spec(old(params)@, old(self)@.take(size as int), node_id, now_ms).0 {
                Err(e) => r == Err::<usize, Error>(e) && final(self)@ == old(self)@,
                Ok(reply) => if reply.len() <= old(self)@.len() {
                    r == Ok::<usize, Error>(reply.len() as usize) && final(self)@ == splice(
                        old(self)@,
                        0,
                        reply,
                    )
                } else {
                    r == Err::<usize, Error>(Error::ParamsError(crate::error::Error::WireTruncated))
                        && final(self)@ == old(self)@
                },
            },
    {
        let rx = Frame::new_unchecked(slice_to_vec(slice_subrange(self.frame.as_slice(), 0, size)));
        let op = match self.process_buffer(size) {
            Ok(op) => op,
            Err(Error::ProtocolMalformed(op)) => {
                proof {
                    crate::wire::bytes::lemma_le_lengths();
                }
                if self.frame.buffer.len() < PAYLOAD {
                    return Err(Error::ParamsError(crate::error::Error::WireTruncated));
                }
                write_header(&mut self.frame.buffer, node_id, 0, op, PayloadType::Empty, 0);
                return Ok(PAYLOAD);
            },
            Err(e) => return Err(e),
        };
        let req = match Request::parse(&rx) {
            Ok(req) => req,
            Err(e) => return Err(Error::ParamsError(e)),
        };
        let mut resp = Response::new(node_id, 0, op);
        match op {
            Op::ListAll => {
                proof {
                    lemma_list_frame_len(node_id, 0, op, params@);
                }
                let all = params.as_slice();
                let listed = RefResponse::new(node_id, 0, op, all);
                let size = listed.wire_size();
                return match listed.emit(&mut self.frame) {
                    Ok(()) => Ok(size),
                    Err(e) => Err(Error::ParamsError(e)),
                };
            },
            Op::Get => {
                let ids = req.ids();
                let ghost s0 = params@;
                let mut i: usize = 0;
                while i < ids.len()
                    invariant
                        i <= ids@.len() <= MAX_PARAMS_PER_OP,
                        params.wf(),
                        params@ == s0,
                        resp@ == (ResponseView {
                            node_id,
                            flags: 0,
                            op,
                            params: get_results(params@, ids@.take(i as int)),
                        }),
                    decreases ids@.len() - i,
                {
                    proof {
                        assert(ids@.take(i + 1).drop_last() =~= ids@.take(i as int));
                        lemma_get_results_len(params@, ids@.take(i as int));
                    }
                    assert(ids@.take(i + 1).last() == ids@[i as int]);
                    match params.get(ids[i]) {
                        Some(p) => {
                            assert(get_results(s0, ids@.take(i + 1)) =~= get_results(
                                s0,
                                ids@.take(i as int),
                            ).push(*p));
                            let pushed = resp.push(*p);
                            assert(pushed is Ok);
                        },
                        None => {
                            assert(get_results(s0, ids@.take(i + 1)) =~= get_results(
                                s0,
                                ids@.take(i as int),
                            ));
                        },
                    }
                    i = i + 1;
                }
                proof {
                    assert(ids@.take(ids@.len() as int) =~= ids@);
                }
            },
            Op::SetParams => {
                let ps = req.parameters();
                let ghost s0 = params@;
                let mut i: usize = 0;
                while i < ps.len()
                    invariant
                        i <= ps@.len() <= MAX_PARAMS_PER_OP,
                        store_wf(s0),
                        params.wf(),
                        (resp@.params, params@) == apply_sets(s0, ps@.take(i as int), now_ms),
                        resp@.node_id == node_id,
                        resp@.flags == 0,
                        resp@.op == op,
                    decreases ps@.len() - i,
                {
                    proof {
                        assert(ps@.take(i + 1).drop_last() =~= ps@.take(i as int));
                        lemma_apply_sets(s0, ps@.take(i as int), now_ms);
                    }
                    let p = ps[i];
                    assert(ps@.take(i + 1).last() == p);
                    let ghost before = params@;
                    match params.set(p.id, p.value, false, now_ms) {
                        Ok(()) => {
                            assert(params@[crate::node::params::index_of(before, p.id)].id == p.id);
                            match params.get(p.id) {
                                Some(q) => {
                                    let pushed = resp.push(*q);
                                assert(pushed is Ok);
                                },
                                None => {},
                            }
                        },
                        Err(_) => {},
                    }
                    i = i + 1;
                }
                proof {
                    assert(ps@.take(ps@.len() as int) =~= ps@);
                }
            },
        }
        proof {
            lemma_list_frame_len(node_id, 0, op, resp@.params);
        }
        let size = resp.wire_size();
        match resp.emit(&mut self.frame) {
            Ok(()) => Ok(size),
            Err(e) => Err(Error::ParamsError(e)),
        }
    }
}

/// Writes the broadcast parameters of `params` as a Get response into
/// `frame`. Returns the frame's length, or 0 when there is nothing to
/// broadcast and `frame` is left as it was.
pub fn emit_broadcast(params: &Params, frame: &mut Frame, node_id: NodeId) -> (r: Result<usize, Error>)
    requires
        params.wf(),
    ensures
        ({
            let b = params@.take(crate::node::params::count_bcast(params@) as int);
            &&& b.len() == 0 ==> r == Ok::<usize, Error>(0) && final(frame)@ == old(frame)@
            &&& b.len() > 0 && PAYLOAD + list_payload_len(b) <= old(frame)@.len() ==> r == Ok::<
                usize,
                Error,
            >((PAYLOAD + list_payload_len(b)) as usize) && final(frame)@ == splice(
                old(frame)@,
                0,
                list_frame_bytes(node_id, 0, Op::Get, b),
            )
            &&& b.len() > 0 && PAYLOAD + list_payload_len(b) > old(frame)@.len() ==> r == Err::<
                usize,
                Error,
            >(Error::ParamsError(crate::error::Error::WireTruncated)) && final(frame)@ == old(
                frame,
            )@
        }),
{
    let bcast = params.get_all_broadcast();
    proof {
        crate::node::params::lemma_count_bcast(params@);
    }
    if bcast.len() == 0 {
        return Ok(0);
    }
    let resp = RefResponse::new(node_id, 0, Op::Get, bcast);
    let size = resp.wire_size();
    match resp.emit(frame) {
        Ok(()) => Ok(size),
        Err(e) => Err(Error::ParamsError(e)),
    }
}

} // verus!
