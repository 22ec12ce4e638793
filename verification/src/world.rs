//! The simulation world: the body registry, the pause state machine, the
//! clock and the configuration, with the operations the host loop drives.

use vstd::prelude::*;

use crate::body::{spawned_body, valid_body, valid_coord, Body, Vec2i, Vec2Wide};
use crate::clock::{alpha_num_of, valid_clock, SimulationClock};
use crate::forces::{accumulate_forces, net_force_x, net_force_y};
use crate::integrate::{integrate_bodies, stepped_body};
use crate::interp::{lerp1, render_position};
use crate::{BODY_LIMIT, DENSITY_LIMIT, DT_LIMIT, G_LIMIT, MASS_LIMIT};

verus! {

/// Whether the fixed-rate physics passes run. Exactly one mode is active;
/// transitions happen only through an explicit toggle intent.
#[derive(Clone, Copy, Debug, PartialEq, Eq, Structural)]
pub enum SimulationMode {
    Running,
    Paused,
}

/// The mode after one toggle intent.
pub open spec fn toggled(m: SimulationMode) -> SimulationMode {
    match m {
        SimulationMode::Running => SimulationMode::Paused,
        SimulationMode::Paused => SimulationMode::Running,
    }
}

/// Toggling pause twice returns the state machine to where it began.
pub proof fn lemma_toggle_twice(m: SimulationMode)
    ensures
        toggled(toggled(m)) == m,
{
}

/// Fixed configuration of a simulation run.
#[derive(Clone, Copy, Debug, PartialEq, Eq, Structural)]
pub struct SimulationConfig {
    /// Gravitational constant, already scaled into force units per step.
    pub gravitational_constant: i64,
    /// Simulated time units that one fixed step advances.
    pub fixed_dt: i64,
    /// Wall-clock ticks between two fixed steps.
    pub fixed_step_ticks: u64,
    /// Mass given to a spawned body.
    pub spawn_mass: i64,
    /// Density of a spawned body; sets its visual scale.
    pub spawn_density: i64,
}

/// Well-formedness of a configuration.
pub open spec fn valid_config(c: SimulationConfig) -> bool {
    &&& 0 < c.gravitational_constant <= G_LIMIT
    &&& 0 < c.fixed_dt <= DT_LIMIT
    &&& 0 < c.fixed_step_ticks
    &&& 0 < c.spawn_mass <= MASS_LIMIT
    &&& 0 < c.spawn_density <= DENSITY_LIMIT
}

impl Default for SimulationConfig {
    /// Twenty fixed steps per second of millisecond ticks, each step
    /// advancing one twentieth of a simulated year of seconds, with the
    /// spawn mass and density of the interactive front end.
    fn default() -> (c: Self)
        ensures
            c == (SimulationConfig {
                gravitational_constant: 1000i64,
                fixed_dt: 1_539_000i64,
                fixed_step_ticks: 50u64,
                spawn_mass: 4i64,
                spawn_density: 2i64,
            }),
            valid_config(c),
    {
        SimulationConfig {
            gravitational_constant: 1000,
            fixed_dt: 1_539_000,
            fixed_step_ticks: 50,
            spawn_mass: 4,
            spawn_density: 2,
        }
    }
}

/// The whole simulation state, passed explicitly into every operation:
/// no ambient globals.
#[derive(Clone, Debug)]
pub struct SimulationWorld {
    pub bodies: Vec<Body>,
    pub mode: SimulationMode,
    pub clock: SimulationClock,
    pub config: SimulationConfig,
}

/// Well-formedness of the world. Between passes every body is valid and
/// its force accumulator is back at zero, and the clock is frozen exactly
/// when the mode is Paused.
pub open spec fn valid_world(w: SimulationWorld) -> bool {
    &&& valid_config(w.config)
    &&& valid_clock(w.clock)
    &&& w.clock.fixed_step == w.config.fixed_step_ticks
    &&& w.bodies.len() <= BODY_LIMIT
    &&& forall|k: int| 0 <= k < w.bodies.len() ==> valid_body(#[trigger] w.bodies[k])
    &&& forall|k: int|
        0 <= k < w.bodies.len() ==> (#[trigger] w.bodies[k]).accumulated_force.x == 0
            && w.bodies[k].accumulated_force.y == 0
    &&& w.clock.paused == (w.mode == SimulationMode::Paused)
}

/// Whether a spawn intent at this cursor state may insert a body.
pub open spec fn spawn_admissible(cursor: Option<Vec2i>, len: int) -> bool {
    match cursor {
        Some(p) => valid_coord(p.x as int) && valid_coord(p.y as int) && len < BODY_LIMIT,
        None => false,
    }
}

/// The point under the cursor, when there is one.
pub open spec fn cursor_point(cursor: Option<Vec2i>) -> Vec2i {
    match cursor {
        Some(p) => p,
        None => Vec2i { x: 0, y: 0 },
    }
}

/// A body of the registry with its accumulated force replaced by the net
/// gravitational force the others exert on it.
pub open spec fn body_with_net_force(bodies: Seq<Body>, g: int, k: int) -> Body {
    Body {
        accumulated_force: Vec2Wide {
            x: net_force_x(bodies, g, k) as i128,
            y: net_force_y(bodies, g, k) as i128,
        },
        ..bodies[k]
    }
}

/// The body after one full fixed step of the world: net force
/// accumulated, then integrated over the configured timestep.
pub open spec fn fixed_stepped_body(bodies: Seq<Body>, g: int, dt: int, k: int) -> Body {
    stepped_body(body_with_net_force(bodies, g, k), dt)
}

impl SimulationWorld {
    /// A fresh world: empty registry, Running, clocks at zero.
    pub fn new(config: SimulationConfig) -> (w: SimulationWorld)
        requires
            valid_config(config),
        ensures
            valid_world(w),
            w.bodies@ == Seq::<Body>::empty(),
            w.mode == SimulationMode::Running,
            w.config == config,
            w.clock == (SimulationClock {
                wall_elapsed: 0u64,
                fixed_elapsed: 0u64,
                fixed_step: config.fixed_step_ticks,
                paused: false,
            }),
    {
        let w = SimulationWorld {
            bodies: Vec::new(),
            mode: SimulationMode::Running,
            clock: SimulationClock::new(config.fixed_step_ticks),
            config,
        };
        proof {
            assert(w.bodies@ =~= Seq::<Body>::empty());
        }
        w
    }

    /// The current mode, for display.
    pub fn current_mode(&self) -> (m: SimulationMode)
        ensures
            m == self.mode,
    {
        self.mode
    }

    /// How many bodies the registry holds.
    pub fn body_count(&self) -> (n: usize)
        ensures
            n == self.bodies.len(),
    {
        self.bodies.len()
    }

    /// The body at an index, for inspection.
    pub fn body_at(&self, i: usize) -> (b: Body)
        requires
            i < self.bodies.len(),
        ensures
            b == self.bodies[i as int],
    {
        self.bodies[i]
    }

    /// Insert one new body at a world point, with the configured spawn
    /// mass and density. Spawning is independent of the mode: it succeeds
    /// while paused exactly as while running.
    pub fn spawn_at(&mut self, position: Vec2i)
        requires
            valid_world(*old(self)),
            valid_coord(position.x as int),
            valid_coord(position.y as int),
            old(self).bodies.len() < BODY_LIMIT,
        ensures
            valid_world(*final(self)),
            final(self).bodies@ == old(self).bodies@.push(
                spawned_body(
                    position,
                    old(self).config.spawn_mass,
                    old(self).config.spawn_density,
                ),
            ),
            final(self).mode == old(self).mode,
            final(self).clock == old(self).clock,
            final(self).config == old(self).config,
    {
        let b = Body::new(position, self.config.spawn_mass, self.config.spawn_density);
        self.bodies.push(b);
    }

    /// The spawn controller: given the edge-triggered spawn intent and
    /// the cursor's world position (when the pointer is inside the
    /// viewport), insert exactly one body. A missing cursor is not an
    /// error: the spawn simply does not occur.
    pub fn handle_spawn_intent(&mut self, spawn_intent: bool, cursor: Option<Vec2i>) -> (spawned:
        bool)
        requires
            valid_world(*old(self)),
        ensures
            valid_world(*final(self)),
            spawned == (spawn_intent && spawn_admissible(cursor, old(self).bodies.len() as int)),
            spawned ==> final(self).bodies@ == old(self).bodies@.push(
                spawned_body(
                    cursor_point(cursor),
                    old(self).config.spawn_mass,
                    old(self).config.spawn_density,
                ),
            ),
            !spawned ==> final(self).bodies@ == old(self).bodies@,
            final(self).mode == old(self).mode,
            final(self).clock == old(self).clock,
            final(self).config == old(self).config,
    {
        if !spawn_intent {
            return false;
        }
        match cursor {
            None => false,
            Some(p) => {
                if -crate::POS_LIMIT <= p.x && p.x <= crate::POS_LIMIT && -crate::POS_LIMIT <= p.y
                    && p.y <= crate::POS_LIMIT && self.bodies.len() < BODY_LIMIT {
                    self.spawn_at(p);
                    true
                } else {
                    false
                }
            },
        }
    }

    /// One pause/resume intent: flip the mode. Pausing also freezes the
    /// wall clock, so the interpolation fraction cannot drift while the
    /// physics is frozen; resuming lets it run again. Bodies are
    /// untouched either way.
    pub fn toggle_pause(&mut self)
        requires
            valid_world(*old(self)),
        ensures
            valid_world(*final(self)),
            final(self).mode == toggled(old(self).mode),
            final(self).bodies@ == old(self).bodies@,
            final(self).config == old(self).config,
            final(self).clock.wall_elapsed == old(self).clock.wall_elapsed,
            final(self).clock.fixed_elapsed == old(self).clock.fixed_elapsed,
            final(self).clock.fixed_step == old(self).clock.fixed_step,
            final(self).clock.paused == (final(self).mode == SimulationMode::Paused),
    {
        if self.mode == SimulationMode::Running {
            self.mode = SimulationMode::Paused;
            self.clock.pause();
        } else {
            self.mode = SimulationMode::Running;
            self.clock.unpause();
        }
    }

    /// Advance wall time by `delta` ticks; frozen while paused.
    pub fn advance_time(&mut self, delta: u64)
        requires
            valid_world(*old(self)),
            old(self).clock.wall_elapsed + delta <= u64::MAX,
        ensures
            valid_world(*final(self)),
            final(self).bodies@ == old(self).bodies@,
            final(self).mode == old(self).mode,
            final(self).config == old(self).config,
            final(self).clock.wall_elapsed == if old(self).clock.paused {
                old(self).clock.wall_elapsed as int
            } else {
                old(self).clock.wall_elapsed + delta
            },
            final(self).clock.fixed_elapsed == old(self).clock.fixed_elapsed,
            final(self).clock.fixed_step == old(self).clock.fixed_step,
            final(self).clock.paused == old(self).clock.paused,
    {
        self.clock.advance(delta);
    }

    /// Run at most one pending fixed step.
    ///
    /// When a full fixed step of wall time has elapsed, that step of time
    /// is consumed; the physics itself (force accumulation over all
    /// pairs, then integration of all bodies, in that order) runs only
    /// while the mode is Running, so a paused world's bodies do not move
    /// however much time passes.
    pub fn step_if_due(&mut self) -> (stepped: bool)
        requires
            valid_world(*old(self)),
        ensures
            valid_world(*final(self)),
            final(self).mode == old(self).mode,
            final(self).config == old(self).config,
            stepped == (old(self).clock.fixed_elapsed + old(self).clock.fixed_step <= old(
                self,
            ).clock.wall_elapsed),
            !stepped ==> final(self).bodies@ == old(self).bodies@ && final(self).clock == old(
                self,
            ).clock,
            stepped ==> final(self).clock == (SimulationClock {
                fixed_elapsed: (old(self).clock.fixed_elapsed + old(self).clock.fixed_step) as u64,
                ..old(self).clock
            }),
            stepped && old(self).mode == SimulationMode::Paused ==> final(self).bodies@ == old(
                self,
            ).bodies@,
            stepped && old(self).mode == SimulationMode::Running ==> final(self).bodies@.len()
                == old(self).bodies@.len() && (forall|k: int|
                0 <= k < old(self).bodies@.len() ==> #[trigger] final(self).bodies@[k]
                    == fixed_stepped_body(
                    old(self).bodies@,
                    old(self).config.gravitational_constant as int,
                    old(self).config.fixed_dt as int,
                    k,
                )),
    {
        if !self.clock.needs_fixed_step() {
            return false;
        }
        self.clock.consume_fixed_step();
        if self.mode == SimulationMode::Running {
            let ghost orig = self.bodies@;
            let g = self.config.gravitational_constant;
            let dt = self.config.fixed_dt;
            accumulate_forces(&mut self.bodies, g);
            let ghost mid = self.bodies@;
            integrate_bodies(&mut self.bodies, dt);
            proof {
                assert forall|k: int| 0 <= k < orig.len() implies #[trigger] self.bodies@[k]
                    == fixed_stepped_body(orig, g as int, dt as int, k) by {
                    assert(mid[k] == body_with_net_force(orig, g as int, k));
                    assert(self.bodies@[k] == stepped_body(mid[k], dt as int));
                }
            }
        }
        true
    }

    /// Interpolated render positions of every body at the clock's current
    /// interpolation fraction, for the renderer to draw.
    pub fn render_positions(&self) -> (ps: Vec<Vec2i>)
        requires
            valid_world(*self),
        ensures
            ps.len() == self.bodies.len(),
            forall|k: int|
                0 <= k < ps.len() ==> (#[trigger] ps[k]).x == lerp1(
                    self.bodies[k].previous_position.x as int,
                    self.bodies[k].position.x as int,
                    alpha_num_of(self.clock),
                    self.clock.fixed_step as int,
                ) && ps[k].y == lerp1(
                    self.bodies[k].previous_position.y as int,
                    self.bodies[k].position.y as int,
                    alpha_num_of(self.clock),
                    self.clock.fixed_step as int,
                ),
    {
        let (num, den) = self.clock.alpha();
        let n = self.bodies.len();
        let mut out: Vec<Vec2i> = Vec::new();
        let mut i: usize = 0;
        while i < n
            invariant
                n == self.bodies.len(),
                i <= n,
                out.len() == i,
                valid_world(*self),
                num == alpha_num_of(self.clock),
                den == self.clock.fixed_step,
                0 < den,
                num <= den,
                forall|k: int|
                    0 <= k < i ==> (#[trigger] out[k]).x == lerp1(
                        self.bodies[k].previous_position.x as int,
                        self.bodies[k].position.x as int,
                        num as int,
                        den as int,
                    ) && out[k].y == lerp1(
                        self.bodies[k].previous_position.y as int,
                        self.bodies[k].position.y as int,
                        num as int,
                        den as int,
                    ),
            decreases n - i,
        {
            let b = self.bodies[i];
            let p = render_position(&b, num, den);
            out.push(p);
            i = i + 1;
        }
        out
    }
}

} // verus!
