//! The countdown that decides when the broadcast parameters go out: one
//! tick per timer period, a broadcast every `interval` ticks.

use vstd::prelude::*;

verus! {

/// Ticks left until the next broadcast, and the interval it restarts from.
pub struct BroadcastTimer {
    counter: u32,
    reload: u32,
}

impl BroadcastTimer {
    pub closed spec fn spec_counter(&self) -> u32 {
        self.counter
    }

    pub closed spec fn spec_reload(&self) -> u32 {
        self.reload
    }

    /// The interval actually used for a requested one: at least one tick.
    pub open spec fn effective_interval(interval: u32) -> u32 {
        if interval == 0 {
            1
        } else {
            interval
        }
    }

    pub fn new(interval: u32) -> (r: Self)
        ensures
            r.spec_counter() == BroadcastTimer::effective_interval(interval),
            r.spec_reload() == BroadcastTimer::effective_interval(interval),
    {
        let ival = if interval == 0 { 1 } else { interval };
        BroadcastTimer { counter: ival, reload: ival }
    }

    /// Restarts the countdown with a new interval.
    pub fn set_interval(&mut self, interval: u32)
        ensures
            final(self).spec_counter() == BroadcastTimer::effective_interval(interval),
            final(self).spec_reload() == BroadcastTimer::effective_interval(interval),
    {
        let ival = if interval == 0 { 1 } else { interval };
        self.counter = ival;
        self.reload = ival;
    }

    /// One timer period. Returns whether a broadcast is due; when it is, the
    /// countdown starts again from the interval.
    pub fn tick(&mut self) -> (due: bool)
        ensures
            due == (old(self).spec_counter() <= 1),
            final(self).spec_reload() == old(self).spec_reload(),
            due ==> final(self).spec_counter() == old(self).spec_reload(),
            !due ==> final(self).spec_counter() == old(self).spec_counter() - 1,
    {
        let t = if self.counter == 0 { 0 } else { self.counter - 1 };
        if t == 0 {
            self.counter = self.reload;
            true
        } else {
            self.counter = t;
            false
        }
    }
}

} // verus!
