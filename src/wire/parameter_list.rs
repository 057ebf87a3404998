//! Parameter-list sub-packet: a count byte, then that many records, each as
//! long as its type tag says.

use vstd::prelude::*;
use crate::bounded::{param_items, param_vec_new, param_vec_push, ParamVec};
use crate::error::Error;
use crate::getset::MAX_PARAMS_PER_OP;
use crate::parameter::Parameter;
use crate::value::TypeId;
use crate::wire::bytes::{splice, write_u8_at};
use crate::wire::parameter::{
    lemma_record_bytes_len, lemma_record_round_trip, read_record, read_record_spec,
    record_bytes, record_len_at, write_record, HEADER_LEN as RECORD_HEADER_LEN, VALUE_TYPE_ID,
};

verus! {

/// Offset of the count byte.
pub const COUNT: usize = 0;

/// Offset of the first record, which is also the header length.
pub const HEADER_LEN: usize = 1;

/// The offset reached from `off` by skipping `k` records, each of which must
/// fit in `buf`.
pub open spec fn walk(buf: Seq<u8>, off: int, k: nat) -> Option<int>
    decreases k,
{
    if k == 0 {
        Some(off)
    } else if off + RECORD_HEADER_LEN <= buf.len() && off + record_len_at(buf, off) <= buf.len() {
        walk(buf, off + record_len_at(buf, off), (k - 1) as nat)
    } else {
        None
    }
}

/// Reading parameter `index` of the packet `buf`.
pub open spec fn parameter_at_spec(buf: Seq<u8>, index: int) -> Result<Parameter, Error> {
    if buf.len() < HEADER_LEN {
        Err(Error::WireTruncated)
    } else if index >= buf[COUNT as int] as int {
        Err(Error::WireIndexOutOfBounds)
    } else {
        match walk(buf, HEADER_LEN as int, index as nat) {
            Some(off) => read_record_spec(buf, off),
            None => Err(Error::WireTruncated),
        }
    }
}

/// The records of `ps`, back to back.
pub open spec fn records_bytes(ps: Seq<Parameter>) -> Seq<u8>
    decreases ps.len(),
{
    if ps.len() == 0 {
        Seq::empty()
    } else {
        records_bytes(ps.drop_last()) + record_bytes(ps.last())
    }
}

/// Total record length of `ps`.
pub open spec fn records_len(ps: Seq<Parameter>) -> nat
    decreases ps.len(),
{
    if ps.len() == 0 {
        0
    } else {
        records_len(ps.drop_last()) + ps.last().spec_wire_size()
    }
}

/// The packet that holds exactly `ps`.
pub open spec fn list_bytes(ps: Seq<Parameter>) -> Seq<u8> {
    seq![ps.len() as u8] + records_bytes(ps)
}

/// Reading the first `n` parameters of the packet `buf` in order, as a
/// bounded list of at most `MAX_PARAMS_PER_OP` does: the first failure wins.
pub open spec fn parse_list_spec(buf: Seq<u8>, n: nat) -> Result<Seq<Parameter>, Error>
    decreases n,
{
    if n == 0 {
        Ok(Seq::empty())
    } else {
        match parse_list_spec(buf, (n - 1) as nat) {
            Err(e) => Err(e),
            Ok(ps) => match parameter_at_spec(buf, n - 1) {
                Err(e) => Err(e),
                Ok(p) => if n - 1 >= MAX_PARAMS_PER_OP {
                    Err(Error::Capacity)
                } else {
                    Ok(ps.push(p))
                },
            },
        }
    }
}

pub proof fn lemma_records_len(ps: Seq<Parameter>)
    ensures
        records_bytes(ps).len() == records_len(ps),
        records_len(ps) <= ps.len() * (RECORD_HEADER_LEN + 8),
    decreases ps.len(),
{
    if ps.len() > 0 {
        lemma_records_len(ps.drop_last());
        lemma_record_bytes_len(ps.last());
    }
}

/// The records of a prefix of `ps` are a prefix of the records of `ps`.
pub proof fn lemma_records_prefix(ps: Seq<Parameter>, m: int)
    requires
        0 <= m <= ps.len(),
    ensures
        records_bytes(ps.take(m)).len() <= records_bytes(ps).len(),
        records_bytes(ps).subrange(0, records_bytes(ps.take(m)).len() as int) == records_bytes(
            ps.take(m),
        ),
    decreases ps.len(),
{
    if m == ps.len() {
        assert(ps.take(m) =~= ps);
    } else {
        let d = ps.drop_last();
        assert(d.take(m) =~= ps.take(m));
        lemma_records_prefix(d, m);
        let l = records_bytes(ps.take(m)).len() as int;
        assert(records_bytes(ps).subrange(0, l) =~= records_bytes(d).subrange(0, l));
    }
}

/// Record `j` of `ps` sits right after the records of the first `j`.
pub proof fn lemma_record_position(ps: Seq<Parameter>, j: int)
    requires
        0 <= j < ps.len(),
    ensures
        records_bytes(ps.take(j + 1)) == records_bytes(ps.take(j)) + record_bytes(ps[j]),
{
    assert(ps.take(j + 1).drop_last() =~= ps.take(j));
}

/// In a packet that starts with the records of `ps`, skipping `k` records
/// from the end of record `j` lands at the end of record `j + k`.
pub proof fn lemma_walk_list(ps: Seq<Parameter>, rest: Seq<u8>, j: int, k: nat)
    requires
        0 <= j,
        j + k <= ps.len(),
    ensures
        walk(list_bytes(ps) + rest, 1 + records_bytes(ps.take(j)).len() as int, k) == Some(
            1 + records_bytes(ps.take(j + k)).len() as int,
        ),
    decreases k,
{
    if k > 0 {
        let b = list_bytes(ps) + rest;
        let off = 1 + records_bytes(ps.take(j)).len() as int;
        let rec = record_bytes(ps[j]);
        lemma_record_position(ps, j);
        lemma_records_prefix(ps, j + 1);
        lemma_record_bytes_len(ps[j]);
        let pre = records_bytes(ps.take(j + 1));
        assert forall|x: int| 0 <= x < rec.len() implies b[off + x] == rec[x] by {
            assert(pre[off - 1 + x] == rec[x]);
            assert(records_bytes(ps)[off - 1 + x] == pre[off - 1 + x]);
        }
        assert(record_len_at(b, off) == rec.len()) by {
            assert(b[off + VALUE_TYPE_ID] == rec[VALUE_TYPE_ID as int]);
            ps[j].value.spec_type_id().lemma_u8_round_trip();
        }
        lemma_walk_list(ps, rest, j + 1, (k - 1) as nat);
    }
}

/// In a packet that holds `ps`, parameter `i` reads back as `ps[i]`.
pub proof fn lemma_parameter_at_list(ps: Seq<Parameter>, rest: Seq<u8>, i: int)
    requires
        0 <= i < ps.len(),
        ps.len() <= 255,
    ensures
        parameter_at_spec(list_bytes(ps) + rest, i) == Ok::<Parameter, Error>(ps[i]),
{
    let b = list_bytes(ps) + rest;
    assert(ps.take(0) =~= Seq::<Parameter>::empty());
    lemma_walk_list(ps, rest, 0, i as nat);
    let off = 1 + records_bytes(ps.take(i)).len() as int;
    let rec = record_bytes(ps[i]);
    lemma_record_position(ps, i);
    lemma_records_prefix(ps, i + 1);
    lemma_record_bytes_len(ps[i]);
    lemma_record_round_trip(ps[i]);
    let pre = records_bytes(ps.take(i + 1));
    assert forall|x: int| 0 <= x < rec.len() implies b[off + x] == rec[x] by {
        assert(pre[off - 1 + x] == rec[x]);
        assert(records_bytes(ps)[off - 1 + x] == pre[off - 1 + x]);
    }
    assert(b[off + VALUE_TYPE_ID] == rec[VALUE_TYPE_ID as int]);
    ps[i].value.spec_type_id().lemma_u8_round_trip();
    assert(b.subrange(off, off + record_len_at(b, off)) =~= rec);
    assert(b[0] == ps.len() as u8);
}

/// A parameter written into a parameter list reads back unchanged,
/// whatever follows the list.
pub proof fn lemma_codec_round_trip(p: Parameter, rest: Seq<u8>)
    ensures
        parameter_at_spec(list_bytes(seq![p]) + rest, 0) == Ok::<Parameter, Error>(p),
{
    lemma_parameter_at_list(seq![p], rest, 0);
}

/// Reading all parameters of a packet that holds at most
/// `MAX_PARAMS_PER_OP` of them gives them back in order.
pub proof fn lemma_parse_list(ps: Seq<Parameter>, rest: Seq<u8>, n: nat)
    requires
        n <= ps.len() <= MAX_PARAMS_PER_OP,
    ensures
        parse_list_spec(list_bytes(ps) + rest, n) == Ok::<Seq<Parameter>, Error>(ps.take(n as int)),
    decreases n,
{
    if n == 0 {
        assert(ps.take(0) =~= Seq::<Parameter>::empty());
    } else {
        lemma_parse_list(ps, rest, (n - 1) as nat);
        lemma_parameter_at_list(ps, rest, n - 1);
        assert(ps.take(n - 1).push(ps[n - 1]) =~= ps.take(n as int));
    }
}

/// Skips `k` records from `from`; `None` when one of them does not fit.
pub fn skip_records(buf: &[u8], from: usize, k: usize) -> (r: Option<usize>)
    requires
        from <= buf@.len(),
    ensures
        r is Some <==> walk(buf@, from as int, k as nat) is Some,
        r matches Some(o) ==> walk(buf@, from as int, k as nat) == Some(o as int) && o <= buf@.len(),
{
    let len = buf.len();
    let mut offset: usize = from;
    let mut i: usize = 0;
    while i < k
        invariant
            i <= k,
            offset <= len,
            len == buf@.len(),
            walk(buf@, from as int, k as nat) == walk(buf@, offset as int, (k - i) as nat),
        decreases k - i,
    {
        if len - offset < RECORD_HEADER_LEN {
            assert(walk(buf@, offset as int, (k - i) as nat) is None);
            return None;
        }
        let size = TypeId::from_u8(buf[offset + VALUE_TYPE_ID]).wire_size();
        if len - offset - RECORD_HEADER_LEN < size {
            assert(walk(buf@, offset as int, (k - i) as nat) is None);
            return None;
        }
        offset = offset + RECORD_HEADER_LEN + size;
        i = i + 1;
    }
    Some(offset)
}

/// Reads parameter `index` of the packet `buf`, walking the records before it.
pub fn parameter_at_in(buf: &[u8], index: usize) -> (r: Result<Parameter, Error>)
    ensures
        r == parameter_at_spec(buf@, index as int),
{
    if buf.len() < HEADER_LEN {
        return Err(Error::WireTruncated);
    }
    if index >= buf[COUNT] as usize {
        return Err(Error::WireIndexOutOfBounds);
    }
    match skip_records(buf, HEADER_LEN, index) {
        Some(offset) => read_record(buf, offset),
        None => Err(Error::WireTruncated),
    }
}

/// Reads the first `n` parameters of the packet `buf` into a bounded vector.
pub fn parse_list(buf: &[u8], n: usize) -> (r: Result<ParamVec, Error>)
    ensures
        match parse_list_spec(buf@, n as nat) {
            Ok(ps) => r matches Ok(v) && param_items(v) == ps,
            Err(e) => r matches Err(x) && x == e,
        },
{
    let mut out = param_vec_new();
    let mut i: usize = 0;
    while i < n
        invariant
            i <= n,
            parse_list_spec(buf@, i as nat) == Ok::<Seq<Parameter>, Error>(param_items(out)),
            param_items(out).len() == i,
        decreases n - i,
    {
        let p = match parameter_at_in(buf, i) {
            Ok(p) => p,
            Err(e) => {
                proof {
                    lemma_parse_list_stops(buf@, (i + 1) as nat, n as nat);
                }
                return Err(e);
            },
        };
        match param_vec_push(&mut out, p) {
            Ok(()) => {},
            Err(_) => {
                proof {
                    lemma_parse_list_stops(buf@, (i + 1) as nat, n as nat);
                }
                return Err(Error::Capacity);
            },
        }
        i = i + 1;
    }
    Ok(out)
}

/// Total wire length of the packet that holds exactly `ps`.
pub fn list_wire_size(ps: &[Parameter]) -> (r: usize)
    requires
        ps@.len() <= MAX_PARAMS_PER_OP,
    ensures
        r == HEADER_LEN + records_len(ps@),
{
    let mut total: usize = HEADER_LEN;
    let mut i: usize = 0;
    while i < ps.len()
        invariant
            i <= ps@.len() <= MAX_PARAMS_PER_OP,
            total == HEADER_LEN + records_len(ps@.take(i as int)),
        decreases ps@.len() - i,
    {
        proof {
            assert(ps@.take(i + 1).drop_last() =~= ps@.take(i as int));
            lemma_records_len(ps@.take(i as int));
            assert(i * (RECORD_HEADER_LEN + 8) <= MAX_PARAMS_PER_OP * (RECORD_HEADER_LEN + 8))
                by (nonlinear_arith)
                requires
                    i <= MAX_PARAMS_PER_OP,
            ;
        }
        total = total + ps[i].wire_size();
        i = i + 1;
    }
    proof {
        assert(ps@.take(ps@.len() as int) =~= ps@);
    }
    total
}

/// Once reading fails at some length, it fails the same way at every
/// greater length.
pub proof fn lemma_parse_list_stops(buf: Seq<u8>, m: nat, n: nat)
    requires
        m <= n,
        parse_list_spec(buf, m) is Err,
    ensures
        parse_list_spec(buf, n) == parse_list_spec(buf, m),
    decreases n - m,
{
    if m < n {
        lemma_parse_list_stops(buf, m, (n - 1) as nat);
    }
}

/// Writes the packet that holds exactly `ps` at `base`.
pub fn write_list(buf: &mut Vec<u8>, base: usize, ps: &[Parameter])
    requires
        ps@.len() <= 255,
        base + HEADER_LEN + records_len(ps@) <= old(buf)@.len(),
    ensures
        final(buf)@ == splice(old(buf)@, base as int, list_bytes(ps@)),
{
    let ghost s0 = buf@;
    let len = buf.len();
    write_u8_at(buf, base + COUNT, ps.len() as u8);
    let mut offset: usize = base + HEADER_LEN;
    let mut i: usize = 0;
    proof {
        assert(ps@.take(0) =~= Seq::<Parameter>::empty());
        assert(records_bytes(ps@.take(0)) =~= Seq::<u8>::empty());
        assert(buf@ =~= splice(
            s0,
            base as int,
            seq![ps@.len() as u8] + records_bytes(ps@.take(0)),
        ));
    }
    while i < ps.len()
        invariant
            i <= ps@.len() <= 255,
            len == buf@.len(),
            len == s0.len(),
            base + HEADER_LEN + records_len(ps@) <= len,
            offset == base + HEADER_LEN + records_len(ps@.take(i as int)),
            buf@ == splice(
                s0,
                base as int,
                seq![ps@.len() as u8] + records_bytes(ps@.take(i as int)),
            ),
        decreases ps@.len() - i,
    {
        let p = ps[i];
        proof {
            lemma_records_len(ps@.take(i as int));
            lemma_records_len(ps@.take(i + 1));
            lemma_record_position(ps@, i as int);
            lemma_record_bytes_len(p);
            assert(ps@.take(i + 1).drop_last() =~= ps@.take(i as int));
            lemma_records_len_prefix(ps@, i + 1);
        }
        write_record(buf, offset, p);
        proof {
            let head = seq![ps@.len() as u8];
            assert(buf@ =~= splice(
                s0,
                base as int,
                head + records_bytes(ps@.take(i + 1)),
            ));
        }
        offset = offset + p.wire_size();
        i = i + 1;
    }
    proof {
        assert(ps@.take(ps@.len() as int) =~= ps@);
    }
}

/// The records of a prefix are no longer than all of them.
pub proof fn lemma_records_len_prefix(ps: Seq<Parameter>, m: int)
    requires
        0 <= m <= ps.len(),
    ensures
        records_len(ps.take(m)) <= records_len(ps),
{
    lemma_records_prefix(ps, m);
    lemma_records_len(ps);
    lemma_records_len(ps.take(m));
}

/// Writing `p` as parameter `index` of the packet `buf`: the result, and the
/// bytes afterwards.
pub open spec fn set_parameter_at_spec(buf: Seq<u8>, index: int, p: Parameter) -> (Result<
    (),
    Error,
>, Seq<u8>) {
    if index >= MAX_PARAMS_PER_OP {
        (Err(Error::WireIndexOutOfBounds), buf)
    } else {
        match walk(buf, HEADER_LEN as int, index as nat) {
            None => (Err(Error::WireTruncated), buf),
            Some(off) => if off + p.spec_wire_size() > buf.len() {
                (Err(Error::WireTruncated), buf)
            } else {
                (Ok(()), splice(buf, off, record_bytes(p)))
            },
        }
    }
}

/// A view of a parameter-list sub-packet.
#[derive(Clone, Debug)]
pub struct Packet {
    pub(crate) buffer: Vec<u8>,
}

impl View for Packet {
    type V = Seq<u8>;

    open(crate) spec fn view(&self) -> Seq<u8> {
        self.buffer@
    }
}

impl Packet {
    pub fn new_unchecked(buffer: Vec<u8>) -> (r: Packet)
        ensures
            r@ == buffer@,
    {
        Packet { buffer }
    }

    /// Wraps `buffer` if it holds at least the count byte.
    pub fn new_checked(buffer: Vec<u8>) -> (r: Result<Packet, Error>)
        ensures
            buffer@.len() >= HEADER_LEN ==> (r matches Ok(p) && p@ == buffer@),
            buffer@.len() < HEADER_LEN ==> r == Err::<Packet, Error>(Error::WireTruncated),
    {
        let packet = Packet::new_unchecked(buffer);
        match packet.check_len() {
            Ok(()) => Ok(packet),
            Err(e) => Err(e),
        }
    }

    pub fn check_len(&self) -> (r: Result<(), Error>)
        ensures
            self@.len() >= HEADER_LEN ==> r is Ok,
            self@.len() < HEADER_LEN ==> r == Err::<(), Error>(Error::WireTruncated),
    {
        if self.buffer.len() < HEADER_LEN {
            Err(Error::WireTruncated)
        } else {
            Ok(())
        }
    }

    pub fn into_inner(self) -> (r: Vec<u8>)
        ensures
            r@ == self@,
    {
        self.buffer
    }

    pub fn header_len() -> (r: usize)
        ensures
            r == HEADER_LEN,
    {
        HEADER_LEN
    }

    pub fn buffer_len(payload_len: usize) -> (r: usize)
        requires
            payload_len <= usize::MAX - HEADER_LEN,
        ensures
            r == HEADER_LEN + payload_len,
    {
        HEADER_LEN + payload_len
    }

    pub fn count(&self) -> (r: u8)
        requires
            self@.len() >= HEADER_LEN,
        ensures
            r == self@[COUNT as int],
    {
        self.buffer[COUNT]
    }

    pub fn parameter_at(&self, index: usize) -> (r: Result<Parameter, Error>)
        ensures
            r == parameter_at_spec(self@, index as int),
    {
        parameter_at_in(self.buffer.as_slice(), index)
    }

    pub fn set_count(&mut self, value: u8)
        requires
            old(self)@.len() >= HEADER_LEN,
        ensures
            final(self)@ == old(self)@.update(COUNT as int, value),
    {
        self.buffer[COUNT] = value;
    }

    /// Writes `value` as parameter `index`, after the records before it.
    pub fn set_parameter_at(&mut self, index: usize, value: Parameter) -> (r: Result<(), Error>)
        ensures
            (r, final(self)@) == set_parameter_at_spec(old(self)@, index as int, value),
    {
        if index >= MAX_PARAMS_PER_OP {
            return Err(Error::WireIndexOutOfBounds);
        }
        let len = self.buffer.len();
        if len < HEADER_LEN {
            assert(index > 0 ==> walk(self@, HEADER_LEN as int, index as nat) is None);
            return Err(Error::WireTruncated);
        }
        match skip_records(self.buffer.as_slice(), HEADER_LEN, index) {
            None => Err(Error::WireTruncated),
            Some(offset) => {
                if len - offset < value.wire_size() {
                    Err(Error::WireTruncated)
                } else {
                    write_record(&mut self.buffer, offset, value);
                    Ok(())
                }
            },
        }
    }
}

} // verus!
