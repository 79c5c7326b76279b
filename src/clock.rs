//! The simulation clock: turns the wall-clock time that passed since the last
//! frame into a whole number of fixed-length logic ticks.
//!
//! Time that does not fill a whole tick is carried over to the next frame, so
//! simulated time keeps pace with wall-clock time. A frame runs at most
//! `max_ticks` ticks; when more are owed, the excess debt is dropped, so a
//! long stall (a suspended process, a slow tick) never makes later frames
//! run away.

use vstd::prelude::*;

verus! {

#[derive(Clone, Copy, Debug, PartialEq, Eq, Structural)]
pub struct SimClock {
    /// Length of one logic tick, in nanoseconds.
    pub tick_nanos: u64,
    /// Most ticks one frame may run.
    pub max_ticks: u64,
    /// Time owed from earlier frames that did not fill a tick, in nanoseconds.
    pub carry_nanos: u64,
    /// Ticks run in the last frame.
    pub ticks_this_frame: u64,
}

/// Ticks owed for `total` nanoseconds, before the cap.
pub open spec fn ticks_due(total: int, tick: int) -> int {
    total / tick
}

impl SimClock {
    pub open spec fn wf(self) -> bool {
        &&& self.tick_nanos > 0
        &&& self.carry_nanos < self.tick_nanos
    }

    /// The clock after a frame in which `elapsed` nanoseconds passed.
    pub open spec fn frame_spec(self, elapsed: int) -> SimClock {
        let total = self.carry_nanos + elapsed;
        let due = ticks_due(total, self.tick_nanos as int);
        if due > self.max_ticks {
            SimClock { carry_nanos: 0, ticks_this_frame: self.max_ticks, ..self }
        } else {
            SimClock { carry_nanos: (total % (self.tick_nanos as int)) as u64, ticks_this_frame: due as u64, ..self }
        }
    }

    pub fn new(tick_nanos: u64, max_ticks: u64) -> (r: SimClock)
        requires
            tick_nanos > 0,
        ensures
            r.wf(),
            r == (SimClock { tick_nanos, max_ticks, carry_nanos: 0, ticks_this_frame: 0 }),
    {
        SimClock { tick_nanos, max_ticks, carry_nanos: 0, ticks_this_frame: 0 }
    }

    /// Accounts for a frame in which `elapsed_nanos` passed and returns how
    /// many ticks to run now.
    pub fn frame(&mut self, elapsed_nanos: u64) -> (ticks: u64)
        requires
            old(self).wf(),
        ensures
            final(self).wf(),
            *final(self) == old(self).frame_spec(elapsed_nanos as int),
            ticks == final(self).ticks_this_frame,
            ticks <= old(self).max_ticks,
            old(self).max_ticks >= 1 && elapsed_nanos >= old(self).tick_nanos ==> ticks >= 1,
            ticks < old(self).max_ticks ==> ticks * old(self).tick_nanos + final(self).carry_nanos
                == old(self).carry_nanos + elapsed_nanos,
    {
        let total: u128 = self.carry_nanos as u128 + elapsed_nanos as u128;
        let tick = self.tick_nanos as u128;
        let due = total / tick;
        proof {
            vstd::arithmetic::div_mod::lemma_fundamental_div_mod(total as int, tick as int);
            assert(due >= 1 || total < tick) by (nonlinear_arith)
                requires
                    total == tick * due + (total as int) % (tick as int),
                    0 <= (total as int) % (tick as int) < tick,
                    due >= 0,
            ;
            assert(due * tick == tick * due) by (nonlinear_arith);
        }
        if due > self.max_ticks as u128 {
            self.carry_nanos = 0;
            self.ticks_this_frame = self.max_ticks;
        } else {
            self.carry_nanos = (total % tick) as u64;
            self.ticks_this_frame = due as u64;
        }
        self.ticks_this_frame
    }
}

} // verus!
