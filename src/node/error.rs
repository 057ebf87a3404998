use vstd::prelude::*;
use crate::getset::Op;

verus! {

/// Errors of the node-side store and protocol handling.
#[derive(Copy, Clone, PartialEq, Eq, Structural, Debug)]
pub enum Error {
    /// An error of the wire codec or the message layer.
    ParamsError(crate::error::Error),
    /// The store or the event queue is full.
    Capacity,
    /// A parameter with this id is already in the store.
    Duplicate,
    /// The parameter is read-only or constant.
    PermissionDenied,
    /// No parameter with this id is in the store.
    NotFound,
    /// A request whose payload type does not fit its operation.
    ProtocolMalformed(Op),
}

impl From<crate::error::Error> for Error {
    fn from(e: crate::error::Error) -> (r: Self) {
        Error::ParamsError(e)
    }
}

impl vstd::std_specs::convert::FromSpecImpl<crate::error::Error> for Error {
    open spec fn obeys_from_spec() -> bool {
        true
    }

    open spec fn from_spec(e: crate::error::Error) -> Error {
        Error::ParamsError(e)
    }
}

} // verus!
