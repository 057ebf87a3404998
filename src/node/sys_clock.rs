//! The node's millisecond counter, advanced by a periodic tick.

use vstd::prelude::*;

verus! {

/// Milliseconds since the node started, wrapping at `u64::MAX`.
pub struct SysClock {
    millis: u64,
}

impl SysClock {
    pub closed spec fn spec_millis(&self) -> u64 {
        self.millis
    }

    pub fn new() -> (r: Self)
        ensures
            r.spec_millis() == 0,
    {
        SysClock { millis: 0 }
    }

    /// One tick: one millisecond more, wrapping.
    pub fn increment(&mut self)
        ensures
            final(self).spec_millis() == if old(self).spec_millis() == u64::MAX {
                0
            } else {
                old(self).spec_millis() + 1
            },
    {
        self.millis = if self.millis == u64::MAX { 0 } else { self.millis + 1 };
    }

    /// Milliseconds since the node started.
    pub fn system_millis(&self) -> (r: u64)
        ensures
            r == self.spec_millis(),
    {
        self.millis
    }
}

} // verus!
