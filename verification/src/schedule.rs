use vstd::prelude::*;

verus! {

/// A fixed-timestep scheduler: it accumulates elapsed wall-clock time, in
/// nanoseconds, and hands out one update per full tick duration that has
/// passed. The caller reads the clock and performs the updates.
pub struct Scheduler {
    pub ticks_per_second: u64,
    pub tick_duration: u64,
    pub dt: u64,
    pub last_tick_time: u64,
    pub accumulated_time: u64,
}

impl Scheduler {
    /// The leftover time is always less than one tick.
    pub open spec fn wf(self) -> bool {
        &&& self.tick_duration > 0
        &&& self.accumulated_time < self.tick_duration
    }

    pub fn new() -> (s: Self)
        ensures
            s.wf(),
            s.ticks_per_second == 60,
            s.tick_duration == 1_000_000_000u64 / 60,
            s.dt == 0,
            s.last_tick_time == 0,
            s.accumulated_time == 0,
    {
        let ticks_per_second: u64 = 60;
        Scheduler {
            ticks_per_second,
            tick_duration: 1_000_000_000 / ticks_per_second,
            dt: 0,
            last_tick_time: 0,
            accumulated_time: 0,
        }
    }

    /// Advances the clock to `now` (nanoseconds on a monotonic clock) and
    /// returns how many fixed-timestep updates are now due: the accumulated
    /// time divided by the tick duration, the remainder carrying over.
    pub fn tick(&mut self, now: u64) -> (n: u64)
        requires
            old(self).wf(),
            now >= old(self).last_tick_time,
            old(self).accumulated_time + (now - old(self).last_tick_time) <= u64::MAX,
        ensures
            final(self).wf(),
            final(self).dt == now - old(self).last_tick_time,
            final(self).last_tick_time == now,
            final(self).ticks_per_second == old(self).ticks_per_second,
            final(self).tick_duration == old(self).tick_duration,
            n == (old(self).accumulated_time + (now - old(self).last_tick_time)) as int / old(
                self,
            ).tick_duration as int,
            final(self).accumulated_time == (old(self).accumulated_time + (now - old(
                self,
            ).last_tick_time)) as int % old(self).tick_duration as int,
    {
        let dt = now - self.last_tick_time;
        self.dt = dt;
        self.last_tick_time = now;
        let td = self.tick_duration;
        let ghost total = self.accumulated_time + dt;
        let mut acc = self.accumulated_time + dt;
        let mut n: u64 = 0;
        while acc >= td
            invariant
                td == self.tick_duration,
                td > 0,
                n * td + acc == total,
                total <= u64::MAX,
            decreases acc,
        {
            proof {
                assert((n + 1) * td <= total && n + 1 <= total) by (nonlinear_arith)
                    requires
                        n * td + acc == total,
                        acc >= td,
                        td >= 1,
                        n >= 0,
                {
                }
            }
            proof {
                assert((n + 1) * td + (acc - td) == n * td + acc) by (nonlinear_arith);
            }
            acc = acc - td;
            n = n + 1;
        }
        self.accumulated_time = acc;
        proof {
            vstd::arithmetic::div_mod::lemma_fundamental_div_mod_converse(
                total as int,
                td as int,
                n as int,
                acc as int,
            );
        }
        n
    }
}

} // verus!
