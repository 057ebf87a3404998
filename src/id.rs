use vstd::prelude::*;

verus! {

/// Identifier of a parameter, unique within a node's store.
#[derive(Copy, Clone, PartialEq, Eq, Structural, Debug, Hash, Default)]
pub struct Id(pub u32);

impl Id {
    pub fn new(id: u32) -> (r: Self)
        ensures
            r.0 == id,
    {
        Id(id)
    }

    /// Bytes an id takes on the wire.
    pub fn wire_size(&self) -> (r: usize)
        ensures
            r == 4,
    {
        4
    }
}

impl From<u32> for Id {
    fn from(id: u32) -> (r: Self) {
        Id(id)
    }
}

impl vstd::std_specs::convert::FromSpecImpl<u32> for Id {
    open spec fn obeys_from_spec() -> bool {
        true
    }

    open spec fn from_spec(id: u32) -> Id {
        Id(id)
    }
}

} // verus!
