//! Fixed-capacity vectors of ids and parameters, held in `heapless::Vec`.

use vstd::prelude::*;
use crate::getset::MAX_PARAMS_PER_OP;
use crate::id::Id;
use crate::parameter::Parameter;

verus! {

#[verifier::external_type_specification]
#[verifier::external_body]
#[verifier::reject_recursive_types(T)]
pub struct ExHeaplessVec<T, const N: usize>(heapless::Vec<T, N>);

/// A vector of at most `MAX_PARAMS_PER_OP` ids.
pub type IdVec = heapless::Vec<Id, MAX_PARAMS_PER_OP>;

/// A vector of at most `MAX_PARAMS_PER_OP` parameters.
pub type ParamVec = heapless::Vec<Parameter, MAX_PARAMS_PER_OP>;

/// The ids an `IdVec` holds, in order.
pub uninterp spec fn id_items(v: heapless::Vec<Id, MAX_PARAMS_PER_OP>) -> Seq<Id>;

/// The parameters a `ParamVec` holds, in order.
pub uninterp spec fn param_items(v: heapless::Vec<Parameter, MAX_PARAMS_PER_OP>) -> Seq<
    Parameter,
>;

/// Relies on `heapless::Vec::new`: an empty vector.
#[verifier::external_body]
pub fn id_vec_new() -> (r: IdVec)
    ensures
        id_items(r) == Seq::<Id>::empty(),
{
    heapless::Vec::new()
}

/// Relies on `heapless::Vec::len`: the number of items, never above the
/// capacity.
#[verifier::external_body]
pub fn id_vec_len(v: &IdVec) -> (r: usize)
    ensures
        r == id_items(*v).len(),
        r <= MAX_PARAMS_PER_OP,
{
    v.len()
}

/// Relies on `heapless::Vec::push`: appends when there is room, else hands
/// the item back and leaves the vector as it was.
#[verifier::external_body]
pub fn id_vec_push(v: &mut IdVec, id: Id) -> (r: Result<(), Id>)
    ensures
        id_items(*old(v)).len() < MAX_PARAMS_PER_OP ==> r is Ok && id_items(*final(v)) == id_items(
            *old(v),
        ).push(id),
        id_items(*old(v)).len() >= MAX_PARAMS_PER_OP ==> (r matches Err(x) && x == id) && id_items(
            *final(v),
        ) == id_items(*old(v)),
{
    v.push(id)
}

/// Relies on `heapless::Vec::pop`: removes and returns the last item.
#[verifier::external_body]
pub fn id_vec_pop(v: &mut IdVec) -> (r: Option<Id>)
    ensures
        id_items(*old(v)).len() == 0 ==> r is None && id_items(*final(v)) == id_items(*old(v)),
        id_items(*old(v)).len() > 0 ==> r == Some(id_items(*old(v)).last()) && id_items(*final(v))
            == id_items(*old(v)).drop_last(),
{
    v.pop()
}

/// Relies on `heapless::Vec::clear`: removes every item.
#[verifier::external_body]
pub fn id_vec_clear(v: &mut IdVec)
    ensures
        id_items(*final(v)) == Seq::<Id>::empty(),
{
    v.clear()
}

/// Relies on `heapless::Vec::as_slice`: the items, in order, never more
/// than the capacity.
#[verifier::external_body]
pub fn id_vec_as_slice(v: &IdVec) -> (r: &[Id])
    ensures
        r@ == id_items(*v),
        r@.len() <= MAX_PARAMS_PER_OP,
{
    v.as_slice()
}

/// Relies on `heapless::Vec::new`: an empty vector.
#[verifier::external_body]
pub fn param_vec_new() -> (r: ParamVec)
    ensures
        param_items(r) == Seq::<Parameter>::empty(),
{
    heapless::Vec::new()
}

/// Relies on `heapless::Vec::len`: the number of items, never above the
/// capacity.
#[verifier::external_body]
pub fn param_vec_len(v: &ParamVec) -> (r: usize)
    ensures
        r == param_items(*v).len(),
        r <= MAX_PARAMS_PER_OP,
{
    v.len()
}

/// Relies on `heapless::Vec::push`: appends when there is room, else hands
/// the item back and leaves the vector as it was.
#[verifier::external_body]
pub fn param_vec_push(v: &mut ParamVec, p: Parameter) -> (r: Result<(), Parameter>)
    ensures
        param_items(*old(v)).len() < MAX_PARAMS_PER_OP ==> r is Ok && param_items(*final(v))
            == param_items(*old(v)).push(p),
        param_items(*old(v)).len() >= MAX_PARAMS_PER_OP ==> (r matches Err(x) && x == p)
            && param_items(*final(v)) == param_items(*old(v)),
{
    v.push(p)
}

/// Relies on `heapless::Vec::insert`: when there is room, puts the item at
/// `index` and shifts the ones from there on up by one; else hands it back.
#[verifier::external_body]
pub fn param_vec_insert(v: &mut ParamVec, index: usize, p: Parameter) -> (r: Result<(), Parameter>)
    requires
        index <= param_items(*old(v)).len(),
    ensures
        param_items(*old(v)).len() < MAX_PARAMS_PER_OP ==> r is Ok && param_items(*final(v))
            == param_items(*old(v)).insert(index as int, p),
        param_items(*old(v)).len() >= MAX_PARAMS_PER_OP ==> (r matches Err(x) && x == p)
            && param_items(*final(v)) == param_items(*old(v)),
{
    v.insert(index, p)
}

/// Relies on `heapless::Vec::pop`: removes and returns the last item.
#[verifier::external_body]
pub fn param_vec_pop(v: &mut ParamVec) -> (r: Option<Parameter>)
    ensures
        param_items(*old(v)).len() == 0 ==> r is None && param_items(*final(v)) == param_items(
            *old(v),
        ),
        param_items(*old(v)).len() > 0 ==> r == Some(param_items(*old(v)).last()) && param_items(
            *final(v),
        ) == param_items(*old(v)).drop_last(),
{
    v.pop()
}

/// Relies on `heapless::Vec::clear`: removes every item.
#[verifier::external_body]
pub fn param_vec_clear(v: &mut ParamVec)
    ensures
        param_items(*final(v)) == Seq::<Parameter>::empty(),
{
    v.clear()
}

/// Relies on `heapless::Vec::as_slice`: the items, in order, never more
/// than the capacity.
#[verifier::external_body]
pub fn param_vec_as_slice(v: &ParamVec) -> (r: &[Parameter])
    ensures
        r@ == param_items(*v),
        r@.len() <= MAX_PARAMS_PER_OP,
{
    v.as_slice()
}

/// Relies on indexing through `heapless::Vec`'s `DerefMut` to a slice of its
/// items: item `index` is replaced, the others stay.
#[verifier::external_body]
pub fn param_vec_set(v: &mut ParamVec, index: usize, p: Parameter)
    requires
        index < param_items(*old(v)).len(),
    ensures
        param_items(*final(v)) == param_items(*old(v)).update(index as int, p),
{
    v[index] = p
}

} // verus!
