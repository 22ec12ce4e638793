//! The simulation clock: elapsed wall time and elapsed fixed-step time,
//! tracked independently so render frames can interpolate between fixed
//! physics steps.

use vstd::prelude::*;

verus! {

/// Elapsed wall time and elapsed fixed-step time, in clock ticks.
///
/// While paused, wall time does not advance, so the interpolation
/// fraction cannot drift while physics is frozen.
#[derive(Clone, Copy, Debug, PartialEq, Eq, Structural)]
pub struct SimulationClock {
    pub wall_elapsed: u64,
    pub fixed_elapsed: u64,
    pub fixed_step: u64,
    pub paused: bool,
}

/// Well-formedness: a positive step, and fixed time never ahead of wall
/// time (fixed steps are only consumed once a full step has elapsed).
pub open spec fn valid_clock(c: SimulationClock) -> bool {
    &&& 0 < c.fixed_step
    &&& c.fixed_elapsed <= c.wall_elapsed
}

/// Numerator of the interpolation fraction: the time elapsed past the
/// last fixed step, clamped into [0, fixed_step].
pub open spec fn alpha_num_of(c: SimulationClock) -> int {
    let d = c.wall_elapsed - c.fixed_elapsed;
    if d < 0 {
        0
    } else if d > c.fixed_step {
        c.fixed_step as int
    } else {
        d
    }
}

impl SimulationClock {
    /// A clock at the start of the process, running.
    pub fn new(fixed_step: u64) -> (c: SimulationClock)
        requires
            0 < fixed_step,
        ensures
            c == (SimulationClock {
                wall_elapsed: 0u64,
                fixed_elapsed: 0u64,
                fixed_step,
                paused: false,
            }),
            valid_clock(c),
    {
        SimulationClock { wall_elapsed: 0, fixed_elapsed: 0, fixed_step, paused: false }
    }

    /// Advance wall time by `delta` ticks; wall time is frozen while paused.
    pub fn advance(&mut self, delta: u64)
        requires
            old(self).wall_elapsed + delta <= u64::MAX,
        ensures
            final(self).wall_elapsed == if old(self).paused {
                old(self).wall_elapsed as int
            } else {
                old(self).wall_elapsed + delta
            },
            final(self).fixed_elapsed == old(self).fixed_elapsed,
            final(self).fixed_step == old(self).fixed_step,
            final(self).paused == old(self).paused,
            valid_clock(*old(self)) ==> valid_clock(*final(self)),
    {
        if !self.paused {
            self.wall_elapsed = self.wall_elapsed + delta;
        }
    }

    /// Whether a full fixed step has elapsed and is waiting to be run.
    pub fn needs_fixed_step(&self) -> (r: bool)
        ensures
            r == (self.fixed_elapsed + self.fixed_step <= self.wall_elapsed),
    {
        self.fixed_elapsed <= self.wall_elapsed && self.fixed_step <= self.wall_elapsed
            - self.fixed_elapsed
    }

    /// Consume one pending fixed step worth of time.
    pub fn consume_fixed_step(&mut self)
        requires
            old(self).fixed_elapsed + old(self).fixed_step <= old(self).wall_elapsed,
        ensures
            final(self).fixed_elapsed == old(self).fixed_elapsed + old(self).fixed_step,
            final(self).wall_elapsed == old(self).wall_elapsed,
            final(self).fixed_step == old(self).fixed_step,
            final(self).paused == old(self).paused,
            valid_clock(*old(self)) ==> valid_clock(*final(self)),
    {
        self.fixed_elapsed = self.fixed_elapsed + self.fixed_step;
    }

    /// Freeze wall time.
    pub fn pause(&mut self)
        ensures
            *final(self) == (SimulationClock { paused: true, ..*old(self) }),
    {
        self.paused = true;
    }

    /// Let wall time run again.
    pub fn unpause(&mut self)
        ensures
            *final(self) == (SimulationClock { paused: false, ..*old(self) }),
    {
        self.paused = false;
    }

    /// The interpolation fraction as an exact rational `num / den`,
    /// clamped into [0, 1]: how far between the last two fixed steps the
    /// current render frame falls.
    pub fn alpha(&self) -> (r: (u64, u64))
        requires
            valid_clock(*self),
        ensures
            r.1 == self.fixed_step,
            0 <= r.0 <= r.1,
            r.0 == alpha_num_of(*self),
    {
        let d: u64 = self.wall_elapsed - self.fixed_elapsed;
        if d > self.fixed_step {
            (self.fixed_step, self.fixed_step)
        } else {
            (d, self.fixed_step)
        }
    }
}

} // verus!
