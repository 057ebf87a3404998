use vstd::prelude::*;

verus! {

/// Bit of `Flags` that makes a parameter read-only from outside.
pub const RO: u32 = 1;

/// Bit of `Flags` that includes a parameter in the periodic broadcast.
pub const BCAST: u32 = 2;

/// Bit of `Flags` that makes a parameter constant, also for the application.
pub const CONST: u32 = 4;

/// Attribute bits of a parameter.
#[derive(Copy, Clone, PartialEq, Eq, Structural, Debug, Hash, Default)]
pub struct Flags(pub u32);

impl Flags {
    pub open spec fn spec_read_only(self) -> bool {
        self.0 & RO != 0
    }

    pub open spec fn spec_broadcast(self) -> bool {
        self.0 & BCAST != 0
    }

    pub open spec fn spec_constant(self) -> bool {
        self.0 & CONST != 0
    }

    /// `bits` with `mask` set when `on`, cleared otherwise.
    pub open spec fn with_bit(bits: u32, mask: u32, on: bool) -> u32 {
        if on {
            bits | mask
        } else {
            bits & !mask
        }
    }

    pub fn new() -> (r: Self)
        ensures
            r.0 == 0,
    {
        Flags(0)
    }

    pub fn new_from_flags(flags: u32) -> (r: Self)
        ensures
            r.0 == flags,
    {
        Flags(flags)
    }

    pub fn new_read_only() -> (r: Self)
        ensures
            r.0 == RO,
    {
        Flags(RO)
    }

    pub fn new_broadcast() -> (r: Self)
        ensures
            r.0 == BCAST,
    {
        Flags(BCAST)
    }

    pub fn new_read_only_broadcast() -> (r: Self)
        ensures
            r.0 == RO | BCAST,
    {
        Flags(RO | BCAST)
    }

    /// Bytes the flags take on the wire.
    pub fn wire_size(&self) -> (r: usize)
        ensures
            r == 4,
    {
        4
    }

    pub fn read_only(&self) -> (r: bool)
        ensures
            r == self.spec_read_only(),
    {
        self.0 & RO != 0
    }

    pub fn broadcast(&self) -> (r: bool)
        ensures
            r == self.spec_broadcast(),
    {
        self.0 & BCAST != 0
    }

    pub fn constant(&self) -> (r: bool)
        ensures
            r == self.spec_constant(),
    {
        self.0 & CONST != 0
    }

    pub fn set_read_only(&mut self, on: bool)
        ensures
            final(self).0 == Flags::with_bit(old(self).0, RO, on),
    {
        self.0 = if on { self.0 | RO } else { self.0 & !RO };
    }

    pub fn set_broadcast(&mut self, on: bool)
        ensures
            final(self).0 == Flags::with_bit(old(self).0, BCAST, on),
    {
        self.0 = if on { self.0 | BCAST } else { self.0 & !BCAST };
    }

    pub fn set_constant(&mut self, on: bool)
        ensures
            final(self).0 == Flags::with_bit(old(self).0, CONST, on),
    {
        self.0 = if on { self.0 | CONST } else { self.0 & !CONST };
    }
}

impl From<u32> for Flags {
    fn from(f: u32) -> (r: Self) {
        Flags(f)
    }
}

impl vstd::std_specs::convert::FromSpecImpl<u32> for Flags {
    open spec fn obeys_from_spec() -> bool {
        true
    }

    open spec fn from_spec(f: u32) -> Flags {
        Flags(f)
    }
}

} // verus!
