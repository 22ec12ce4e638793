//! The simulated point mass and its kinematic state.

use vstd::prelude::*;

use crate::math::{cbrt_floor, lemma_cbrt_floor_bounds};
use crate::{DENSITY_LIMIT, FORCE_LIMIT, MASS_LIMIT, POS_LIMIT, VEL_LIMIT};

verus! {

/// A 2D vector of fixed-point world units.
#[derive(Clone, Copy, Debug, PartialEq, Eq, Structural)]
pub struct Vec2i {
    pub x: i64,
    pub y: i64,
}

/// A 2D vector wide enough to hold many pairwise forces exactly.
#[derive(Clone, Copy, Debug, PartialEq, Eq, Structural)]
pub struct Vec2Wide {
    pub x: i128,
    pub y: i128,
}

impl Vec2i {
    /// The vector with the given components.
    pub fn new(x: i64, y: i64) -> (v: Vec2i)
        ensures
            v == (Vec2i { x, y }),
    {
        Vec2i { x, y }
    }

    /// The zero vector.
    pub fn zero() -> (v: Vec2i)
        ensures
            v == (Vec2i { x: 0i64, y: 0i64 }),
    {
        Vec2i { x: 0, y: 0 }
    }
}

impl Vec2Wide {
    /// The zero vector.
    pub fn zero() -> (v: Vec2Wide)
        ensures
            v == (Vec2Wide { x: 0i128, y: 0i128 }),
    {
        Vec2Wide { x: 0, y: 0 }
    }
}

/// A simulated point mass.
///
/// `previous_position` is the position at the last completed fixed step,
/// kept separately so render interpolation never re-runs history.
/// `accumulated_force` is per-step scratch: the force accumulator fills it
/// and the integrator consumes it and resets it to zero.
#[derive(Clone, Copy, Debug, PartialEq, Eq, Structural)]
pub struct Body {
    pub position: Vec2i,
    pub previous_position: Vec2i,
    pub velocity: Vec2i,
    pub accumulated_force: Vec2Wide,
    pub mass: i64,
    pub visual_scale: i64,
}

/// A coordinate inside the representable world square.
pub open spec fn valid_coord(x: int) -> bool {
    -POS_LIMIT <= x <= POS_LIMIT
}

/// Well-formedness of a body: positive bounded mass, positions inside the
/// world square, velocity and accumulated force inside their clamps.
pub open spec fn valid_body(b: Body) -> bool {
    &&& 0 < b.mass <= MASS_LIMIT
    &&& valid_coord(b.position.x as int)
    &&& valid_coord(b.position.y as int)
    &&& valid_coord(b.previous_position.x as int)
    &&& valid_coord(b.previous_position.y as int)
    &&& -VEL_LIMIT <= b.velocity.x <= VEL_LIMIT
    &&& -VEL_LIMIT <= b.velocity.y <= VEL_LIMIT
    &&& -FORCE_LIMIT <= b.accumulated_force.x <= FORCE_LIMIT
    &&& -FORCE_LIMIT <= b.accumulated_force.y <= FORCE_LIMIT
}

/// Visual scale derived once at creation: the floor cube root of
/// `3 m / (4 pi rho)`, with pi held to three decimals in fixed point.
pub open spec fn visual_scale_of(mass: int, density: int) -> int {
    cbrt_floor(((3000 * mass) / (12566 * density)) as nat) as int
}

/// The state a freshly spawned body carries: at `position` and at rest,
/// zero accumulated force, visual scale derived from mass and density.
pub open spec fn spawned_body(position: Vec2i, mass: i64, density: i64) -> Body {
    Body {
        position,
        previous_position: position,
        velocity: Vec2i { x: 0, y: 0 },
        accumulated_force: Vec2Wide { x: 0, y: 0 },
        mass,
        visual_scale: visual_scale_of(mass as int, density as int) as i64,
    }
}

impl Body {
    /// Create a body at a world point with default kinematic state.
    ///
    /// Non-positive mass would make the later division by mass meaningless,
    /// so it is rejected here, at creation time.
    pub fn new(position: Vec2i, mass: i64, density: i64) -> (b: Body)
        requires
            0 < mass <= MASS_LIMIT,
            0 < density <= DENSITY_LIMIT,
            valid_coord(position.x as int),
            valid_coord(position.y as int),
        ensures
            b == spawned_body(position, mass, density),
            valid_body(b),
    {
        let num: u64 = 3000 * (mass as u64);
        let den: u64 = 12566 * (density as u64);
        let q: u64 = num / den;
        let vs: u64 = crate::math::icbrt_u64(q);
        proof {
            lemma_cbrt_floor_bounds(q as nat);
            let r = cbrt_floor(q as nat) as int;
            assert(r <= r * r * r || r == 0) by (nonlinear_arith)
                requires
                    0 <= r,
            ;
            assert(vs <= q);
        }
        Body {
            position,
            previous_position: position,
            velocity: Vec2i::zero(),
            accumulated_force: Vec2Wide::zero(),
            mass,
            visual_scale: vs as i64,
        }
    }

    /// Create a body, rejecting out-of-range mass, density or position.
    pub fn try_new(position: Vec2i, mass: i64, density: i64) -> (r: Option<Body>)
        ensures
            r is Some <==> (0 < mass <= MASS_LIMIT && 0 < density <= DENSITY_LIMIT && valid_coord(position.x as int) && valid_coord(position.y as int)),
            r matches Some(b) ==> b == spawned_body(position, mass, density) && valid_body(b),
    {
        if 0 < mass && mass <= MASS_LIMIT && 0 < density && density <= DENSITY_LIMIT && -POS_LIMIT
            <= position.x && position.x <= POS_LIMIT && -POS_LIMIT <= position.y && position.y
            <= POS_LIMIT {
            Some(Body::new(position, mass, density))
        } else {
            None
        }
    }
}

} // verus!
