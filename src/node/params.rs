//! The parameter store: a bounded registry with unique ids, permission
//! rules, type-stable updates, and the broadcast parameters kept in front.

use vstd::prelude::*;
use vstd::slice::slice_subrange;
use crate::bounded::{
    param_items, param_vec_as_slice, param_vec_insert, param_vec_len, param_vec_new,
    param_vec_push, param_vec_set, ParamVec,
};
use crate::getset::MAX_PARAMS_PER_OP;
use crate::id::Id;
use crate::node::error::Error;
use crate::node::event_queue::{dequeue_event, dequeue_spec, Event, EventQueue};
use crate::parameter::Parameter;
use crate::value::Value;

verus! {

pub open spec fn is_bcast(p: Parameter) -> bool {
    p.flags.spec_broadcast()
}

/// No two parameters share an id.
pub open spec fn ids_unique(s: Seq<Parameter>) -> bool {
    forall|i: int, j: int| 0 <= i < s.len() && 0 <= j < s.len() && i != j ==> s[i].id != s[j].id
}

/// Every broadcast parameter comes before every other one.
pub open spec fn partitioned(s: Seq<Parameter>) -> bool {
    forall|i: int, j: int| 0 <= i < j < s.len() && is_bcast(s[j]) ==> is_bcast(s[i])
}

/// What a well-formed store holds.
pub open spec fn store_wf(s: Seq<Parameter>) -> bool {
    s.len() <= MAX_PARAMS_PER_OP && ids_unique(s) && partitioned(s)
}

/// Number of broadcast parameters in `s`.
pub open spec fn count_bcast(s: Seq<Parameter>) -> nat
    decreases s.len(),
{
    if s.len() == 0 {
        0
    } else {
        count_bcast(s.drop_last()) + if is_bcast(s.last()) {
            1nat
        } else {
            0nat
        }
    }
}

pub open spec fn has_id(s: Seq<Parameter>, id: Id) -> bool {
    exists|i: int| 0 <= i < s.len() && s[i].id == id
}

/// The position of the parameter with id `id`.
pub open spec fn index_of(s: Seq<Parameter>, id: Id) -> int {
    choose|i: int| 0 <= i < s.len() && s[i].id == id
}

/// The parameter with id `id`, if any.
pub open spec fn lookup(s: Seq<Parameter>, id: Id) -> Option<Parameter> {
    if has_id(s, id) {
        Some(s[index_of(s, id)])
    } else {
        None
    }
}

/// Adding `p` at time `now`: the result, and the parameters afterwards. A
/// broadcast parameter goes right after the broadcast ones, another one at
/// the end, so that the order of adding is kept within each group.
pub open spec fn add_spec(s: Seq<Parameter>, p: Parameter, now: u64) -> (Result<(), Error>, Seq<
    Parameter,
>) {
    if has_id(s, p.id) {
        (Err(Error::Duplicate), s)
    } else if s.len() >= MAX_PARAMS_PER_OP {
        (Err(Error::Capacity), s)
    } else {
        let q = Parameter { local_time_ms: now, ..p };
        if is_bcast(q) {
            (Ok(()), s.insert(count_bcast(s) as int, q))
        } else {
            (Ok(()), s.push(q))
        }
    }
}

/// Setting the value of parameter `id` at time `now`: the result, and the
/// parameters afterwards.
pub open spec fn set_spec(
    s: Seq<Parameter>,
    id: Id,
    value: Value,
    allow_read_only: bool,
    now: u64,
) -> (Result<(), Error>, Seq<Parameter>) {
    if !has_id(s, id) {
        (Err(Error::NotFound), s)
    } else {
        let i = index_of(s, id);
        let p = s[i];
        if !allow_read_only && p.flags.spec_read_only() {
            (Err(Error::PermissionDenied), s)
        } else if p.flags.spec_constant() {
            (Err(Error::PermissionDenied), s)
        } else if p.value.spec_type_id() != value.spec_type_id() {
            (Err(Error::ParamsError(crate::error::Error::ValueTypeMismatch)), s)
        } else {
            (Ok(()), s.update(i, Parameter { value, local_time_ms: now, ..p }))
        }
    }
}

/// In a partitioned sequence the broadcast parameters are exactly the
/// first `count_bcast` ones.
pub proof fn lemma_count_bcast(s: Seq<Parameter>)
    requires
        partitioned(s),
    ensures
        count_bcast(s) <= s.len(),
        forall|i: int| 0 <= i < count_bcast(s) ==> is_bcast(#[trigger] s[i]),
        forall|i: int| count_bcast(s) <= i < s.len() ==> !is_bcast(#[trigger] s[i]),
    decreases s.len(),
{
    if s.len() > 0 {
        let d = s.drop_last();
        assert(partitioned(d));
        lemma_count_bcast(d);
        let n = s.len() - 1;
        if is_bcast(s.last()) {
            assert forall|i: int| 0 <= i < s.len() implies is_bcast(#[trigger] s[i]) by {
                if i < n {
                    assert(is_bcast(s[n]));
                }
            }
            assert(count_bcast(d) == d.len()) by {
                if count_bcast(d) < d.len() {
                    let k = count_bcast(d) as int;
                    assert(!is_bcast(d[k]));
                    assert(d[k] == s[k]);
                }
            }
        } else {
            assert forall|i: int| 0 <= i < count_bcast(s) implies is_bcast(#[trigger] s[i]) by {
                assert(d[i] == s[i]);
            }
            assert forall|i: int| count_bcast(s) <= i < s.len() implies !is_bcast(
                #[trigger] s[i],
            ) by {
                if i < n {
                    assert(d[i] == s[i]);
                }
            }
        }
    }
}

/// The index found by a search is the one `index_of` names.
pub proof fn lemma_index_of(s: Seq<Parameter>, id: Id, i: int)
    requires
        ids_unique(s),
        0 <= i < s.len(),
        s[i].id == id,
    ensures
        has_id(s, id),
        index_of(s, id) == i,
{
    assert(has_id(s, id));
    let k = index_of(s, id);
    assert(s[k].id == id);
}

/// Adding keeps a store well-formed.
pub proof fn lemma_add_wf(s: Seq<Parameter>, p: Parameter, now: u64)
    requires
        store_wf(s),
    ensures
        store_wf(add_spec(s, p, now).1),
{
    if !has_id(s, p.id) && s.len() < MAX_PARAMS_PER_OP {
        let q = Parameter { local_time_ms: now, ..p };
        lemma_count_bcast(s);
        let c = count_bcast(s) as int;
        let t = add_spec(s, p, now).1;
        if is_bcast(q) {
            assert forall|i: int, j: int| 0 <= i < j < t.len() && is_bcast(t[j]) implies is_bcast(
                t[i],
            ) by {
                if i < c {
                    assert(t[i] == s[i]);
                } else if i == c {
                } else {
                    assert(t[j] == s[j - 1]);
                    assert(!is_bcast(s[j - 1]));
                }
            }
            assert forall|i: int, j: int|
                0 <= i < t.len() && 0 <= j < t.len() && i != j implies t[i].id != t[j].id by {
                if i != c && j != c {
                    let si = if i < c {
                        i
                    } else {
                        i - 1
                    };
                    let sj = if j < c {
                        j
                    } else {
                        j - 1
                    };
                    assert(t[i] == s[si]);
                    assert(t[j] == s[sj]);
                } else if i == c {
                    let sj = if j < c {
                        j
                    } else {
                        j - 1
                    };
                    assert(t[j] == s[sj]);
                } else {
                    let si = if i < c {
                        i
                    } else {
                        i - 1
                    };
                    assert(t[i] == s[si]);
                }
            }
        } else {
            assert forall|i: int, j: int| 0 <= i < j < t.len() && is_bcast(t[j]) implies is_bcast(
                t[i],
            ) by {
                assert(t[j] == s[j]);
                assert(t[i] == s[i]);
            }
            assert forall|i: int, j: int|
                0 <= i < t.len() && 0 <= j < t.len() && i != j implies t[i].id != t[j].id by {
                if i < s.len() {
                    assert(t[i] == s[i]);
                }
                if j < s.len() {
                    assert(t[j] == s[j]);
                }
            }
        }
    }
}

/// Setting keeps a store well-formed, and no parameter changes its value's
/// variant.
pub proof fn lemma_set_wf(s: Seq<Parameter>, id: Id, value: Value, allow_read_only: bool, now: u64)
    requires
        store_wf(s),
    ensures
        store_wf(set_spec(s, id, value, allow_read_only, now).1),
        set_spec(s, id, value, allow_read_only, now).1.len() == s.len(),
        forall|k: int|
            0 <= k < s.len() ==> (#[trigger] set_spec(s, id, value, allow_read_only, now).1[k]).id
                == s[k].id && set_spec(s, id, value, allow_read_only, now).1[k].flags == s[k].flags
                && set_spec(s, id, value, allow_read_only, now).1[k].value.spec_type_id()
                == s[k].value.spec_type_id(),
{
    let t = set_spec(s, id, value, allow_read_only, now).1;
    assert forall|k: int| 0 <= k < s.len() implies (#[trigger] t[k]).id == s[k].id && t[k].flags
        == s[k].flags && t[k].value.spec_type_id() == s[k].value.spec_type_id() by {}
    assert(partitioned(t)) by {
        assert forall|i: int, j: int| 0 <= i < j < t.len() && is_bcast(t[j]) implies is_bcast(
            t[i],
        ) by {
            assert(t[i].flags == s[i].flags);
            assert(t[j].flags == s[j].flags);
        }
    }
    assert(ids_unique(t)) by {
        assert forall|i: int, j: int|
            0 <= i < t.len() && 0 <= j < t.len() && i != j implies t[i].id != t[j].id by {
            assert(t[i].id == s[i].id);
            assert(t[j].id == s[j].id);
        }
    }
}

/// Adding a parameter a second time with the same id fails with
/// `Duplicate` and leaves the store as it was.
pub proof fn lemma_add_duplicate(s: Seq<Parameter>, p: Parameter, t1: u64, t2: u64)
    requires
        store_wf(s),
        add_spec(s, p, t1).0 is Ok,
    ensures
        add_spec(add_spec(s, p, t1).1, p, t2) == (Err::<(), Error>(Error::Duplicate), add_spec(
            s,
            p,
            t1,
        ).1),
{
    let t = add_spec(s, p, t1).1;
    lemma_count_bcast(s);
    let k = if is_bcast(Parameter { local_time_ms: t1, ..p }) {
        count_bcast(s) as int
    } else {
        s.len() as int
    };
    assert(t[k].id == p.id);
}

/// In a well-formed store the broadcast prefix holds only broadcast
/// parameters and is as long as the number of broadcast parameters.
pub proof fn lemma_broadcast_prefix(s: Seq<Parameter>)
    requires
        store_wf(s),
    ensures
        s.take(count_bcast(s) as int).len() == count_bcast(s),
        forall|i: int|
            0 <= i < count_bcast(s) ==> is_bcast(#[trigger] s.take(count_bcast(s) as int)[i]),
        forall|i: int| count_bcast(s) <= i < s.len() ==> !is_bcast(#[trigger] s[i]),
{
    lemma_count_bcast(s);
    let c = count_bcast(s) as int;
    assert forall|i: int| 0 <= i < c implies is_bcast(#[trigger] s.take(c)[i]) by {
        assert(s.take(c)[i] == s[i]);
    }
}

/// The store after adding each of `ps` in turn to an empty one, all at
/// time `now`; the ones refused are left out.
pub open spec fn add_all(ps: Seq<Parameter>, now: u64) -> Seq<Parameter>
    decreases ps.len(),
{
    if ps.len() == 0 {
        Seq::empty()
    } else {
        add_spec(add_all(ps.drop_last(), now), ps.last(), now).1
    }
}

/// After any sequence of adds the broadcast parameters form a prefix whose
/// length is their number, and no other parameter lies in it.
pub proof fn lemma_adds_keep_broadcast_prefix(ps: Seq<Parameter>, now: u64)
    ensures
        store_wf(add_all(ps, now)),
        ({
            let s = add_all(ps, now);
            let b = s.take(count_bcast(s) as int);
            &&& b.len() == count_bcast(s)
            &&& forall|i: int| 0 <= i < b.len() ==> is_bcast(#[trigger] b[i])
            &&& forall|i: int| b.len() <= i < s.len() ==> !is_bcast(#[trigger] s[i])
        }),
    decreases ps.len(),
{
    if ps.len() > 0 {
        lemma_adds_keep_broadcast_prefix(ps.drop_last(), now);
        lemma_add_wf(add_all(ps.drop_last(), now), ps.last(), now);
    }
    lemma_broadcast_prefix(add_all(ps, now));
}

/// A read-only parameter cannot be set from outside; the application may
/// set it unless it is constant.
pub proof fn lemma_read_only(s: Seq<Parameter>, id: Id, v: Value, now: u64)
    requires
        store_wf(s),
        lookup(s, id) matches Some(p) && p.flags.spec_read_only() && !p.flags.spec_constant()
            && p.value.spec_type_id() == v.spec_type_id(),
    ensures
        set_spec(s, id, v, false, now).0 == Err::<(), Error>(Error::PermissionDenied),
        set_spec(s, id, v, true, now).0 is Ok,
{
}

/// A constant parameter cannot be set at all.
pub proof fn lemma_constant(s: Seq<Parameter>, id: Id, v: Value, allow_read_only: bool, now: u64)
    requires
        store_wf(s),
        lookup(s, id) matches Some(p) && p.flags.spec_constant(),
    ensures
        set_spec(s, id, v, allow_read_only, now) == (Err::<(), Error>(Error::PermissionDenied), s),
{
}

/// A value of another variant is refused and the stored value stays, when
/// the permissions let the call get that far.
pub proof fn lemma_type_stability(
    s: Seq<Parameter>,
    id: Id,
    v: Value,
    allow_read_only: bool,
    now: u64,
)
    requires
        store_wf(s),
        lookup(s, id) matches Some(p) && p.value.spec_type_id() != v.spec_type_id()
            && !p.flags.spec_constant() && (allow_read_only || !p.flags.spec_read_only()),
    ensures
        set_spec(s, id, v, allow_read_only, now) == (Err::<(), Error>(
            Error::ParamsError(crate::error::Error::ValueTypeMismatch),
        ), s),
{
}

/// The node's parameters.
pub struct Params {
    params: ParamVec,
}

impl View for Params {
    type V = Seq<Parameter>;

    closed spec fn view(&self) -> Seq<Parameter> {
        param_items(self.params)
    }
}

impl Params {
    pub open spec fn wf(&self) -> bool {
        store_wf(self@)
    }

    pub fn new() -> (r: Self)
        ensures
            r@ == Seq::<Parameter>::empty(),
            r.wf(),
    {
        Params { params: param_vec_new() }
    }

    pub fn len(&self) -> (r: usize)
        ensures
            r == self@.len(),
    {
        param_vec_len(&self.params)
    }

    /// All parameters, broadcast ones first.
    pub fn as_slice(&self) -> (r: &[Parameter])
        ensures
            r@ == self@,
    {
        param_vec_as_slice(&self.params)
    }

    /// The position of the parameter with id `id`, by linear search.
    fn find(&self, id: Id) -> (r: Option<usize>)
        requires
            self.wf(),
        ensures
            r is None ==> !has_id(self@, id),
            r matches Some(i) ==> i < self@.len() && has_id(self@, id) && index_of(self@, id) == i,
    {
        let items = param_vec_as_slice(&self.params);
        let mut i: usize = 0;
        while i < items.len()
            invariant
                i <= items@.len(),
                items@ == self@,
                store_wf(self@),
                forall|k: int| 0 <= k < i ==> items@[k].id != id,
            decreases items@.len() - i,
        {
            if items[i].id == id {
                proof {
                    lemma_index_of(self@, id, i as int);
                }
                return Some(i);
            }
            i = i + 1;
        }
        None
    }

    /// Number of broadcast parameters, scanning from the right for the last
    /// one.
    fn broadcast_len(&self) -> (r: usize)
        requires
            self.wf(),
        ensures
            r == count_bcast(self@),
    {
        let items = param_vec_as_slice(&self.params);
        proof {
            lemma_count_bcast(self@);
        }
        let mut i: usize = items.len();
        while i > 0 && !items[i - 1].flags.broadcast()
            invariant
                i <= items@.len(),
                items@ == self@,
                store_wf(self@),
                count_bcast(self@) <= self@.len(),
                forall|k: int| 0 <= k < count_bcast(self@) ==> is_bcast(#[trigger] self@[k]),
                forall|k: int| i <= k < items@.len() ==> !is_bcast(#[trigger] items@[k]),
            decreases i,
        {
            i = i - 1;
        }
        proof {
            let c = count_bcast(self@) as int;
            if c > i {
                assert(is_bcast(self@[i as int]));
            }
        }
        i
    }

    /// Adds `parameter`, stamped with `now_ms`. A second parameter with the
    /// same id is `Duplicate`, a full store is `Capacity`.
    pub fn add(&mut self, parameter: Parameter, now_ms: u64) -> (r: Result<(), Error>)
        requires
            old(self).wf(),
        ensures
            final(self).wf(),
            (r, final(self)@) == add_spec(old(self)@, parameter, now_ms),
    {
        proof {
            lemma_add_wf(self@, parameter, now_ms);
            lemma_count_bcast(self@);
        }
        match self.find(parameter.id) {
            Some(_) => return Err(Error::Duplicate),
            None => {},
        }
        if param_vec_len(&self.params) >= MAX_PARAMS_PER_OP {
            return Err(Error::Capacity);
        }
        let mut p = parameter;
        p.set_local_time_ms(now_ms);
        let pushed = if p.flags.broadcast() {
            let at = self.broadcast_len();
            param_vec_insert(&mut self.params, at, p)
        } else {
            param_vec_push(&mut self.params, p)
        };
        match pushed {
            Ok(()) => Ok(()),
            Err(_) => Err(Error::Capacity),
        }
    }

    /// The parameter with id `id`, if any.
    pub fn get(&self, id: Id) -> (r: Option<&Parameter>)
        requires
            self.wf(),
        ensures
            r matches Some(p) ==> lookup(self@, id) == Some(*p),
            r is None ==> lookup(self@, id) is None,
    {
        match self.find(id) {
            Some(i) => {
                let items = param_vec_as_slice(&self.params);
                Some(&items[i])
            },
            None => None,
        }
    }

    /// The value of the parameter with id `id`, if any.
    pub fn get_value(&self, id: Id) -> (r: Option<Value>)
        requires
            self.wf(),
        ensures
            r == (match lookup(self@, id) {
                Some(p) => Some(p.value),
                None => None::<Value>,
            }),
    {
        match self.get(id) {
            Some(p) => Some(p.value()),
            None => None,
        }
    }

    /// Sets the value of the parameter with id `id`, stamped with `now_ms`.
    /// A constant parameter is always `PermissionDenied`, a read-only one
    /// unless `allow_read_only`; a value of another variant is refused.
    pub fn set(&mut self, id: Id, value: Value, allow_read_only: bool, now_ms: u64) -> (r: Result<
        (),
        Error,
    >)
        requires
            old(self).wf(),
        ensures
            final(self).wf(),
            (r, final(self)@) == set_spec(old(self)@, id, value, allow_read_only, now_ms),
    {
        proof {
            lemma_set_wf(self@, id, value, allow_read_only, now_ms);
        }
        let i = match self.find(id) {
            Some(i) => i,
            None => return Err(Error::NotFound),
        };
        let items = param_vec_as_slice(&self.params);
        let mut p = items[i];
        if !allow_read_only && p.flags.read_only() {
            return Err(Error::PermissionDenied);
        }
        if p.flags.constant() {
            return Err(Error::PermissionDenied);
        }
        match p.set_value(value) {
            Ok(()) => {},
            Err(e) => return Err(Error::ParamsError(e)),
        }
        p.set_local_time_ms(now_ms);
        param_vec_set(&mut self.params, i, p);
        Ok(())
    }

    /// Applies an event as the application would: read-only parameters may
    /// change, constant ones may not.
    pub fn process_event(&mut self, event: Event, now_ms: u64) -> (r: Result<(), Error>)
        requires
            old(self).wf(),
        ensures
            final(self).wf(),
            (r, final(self)@) == set_spec(old(self)@, event.id, event.value, true, now_ms),
    {
        self.set(event.id, event.value, true, now_ms)
    }

    /// Takes the oldest event off `queue` and applies it; an event that
    /// cannot be applied is dropped. `None` when the queue is empty.
    pub fn apply_next_event(&mut self, queue: &mut EventQueue, now_ms: u64) -> (r: Option<
        Result<(), Error>,
    >)
        requires
            old(self).wf(),
        ensures
            final(self).wf(),
            final(queue)@ == dequeue_spec(old(queue)@).1,
            match dequeue_spec(old(queue)@).0 {
                None => r is None && final(self)@ == old(self)@,
                Some(e) => r == Some(set_spec(old(self)@, e.id, e.value, true, now_ms).0)
                    && final(self)@ == set_spec(old(self)@, e.id, e.value, true, now_ms).1,
            },
    {
        match dequeue_event(queue) {
            Some(e) => Some(self.process_event(e, now_ms)),
            None => None,
        }
    }

    /// The broadcast parameters: a prefix of the store.
    pub fn get_all_broadcast(&self) -> (r: &[Parameter])
        requires
            self.wf(),
        ensures
            r@ == self@.take(count_bcast(self@) as int),
    {
        let n = self.broadcast_len();
        proof {
            lemma_count_bcast(self@);
        }
        slice_subrange(param_vec_as_slice(&self.params), 0, n)
    }
}

} // verus!
