//! The integrator: advance velocity and position of every body from its
//! accumulated force over one fixed timestep, snapshot the previous
//! position for interpolation, and reset the force accumulator.

use vstd::prelude::*;

use crate::body::{valid_body, Body, Vec2i, Vec2Wide};
use crate::math::{clamp_to, div_trunc, iabs};
use crate::{DT_LIMIT, FORCE_LIMIT, POS_LIMIT, VEL_LIMIT};
use vstd::arithmetic::div_mod::{lemma_div_nonincreasing, lemma_div_of0, lemma_div_pos_is_pos};

verus! {

/// Velocity component after one step: `v + (F / m) dt`, the acceleration
/// truncated toward zero, the result clamped into the velocity range.
pub open spec fn stepped_velocity(v: int, f: int, m: int, dt: int) -> int {
    clamp_to(v + div_trunc(f, m) * dt, VEL_LIMIT as int)
}

/// Position component after one step: `p + v' dt`, clamped into the
/// representable world square.
pub open spec fn stepped_position(p: int, v_new: int, dt: int) -> int {
    clamp_to(p + v_new * dt, POS_LIMIT as int)
}

/// The whole body after one integration step: velocity from accumulated
/// force, previous position snapshotted, position advanced by the new
/// velocity, force reset to zero.
pub open spec fn stepped_body(b: Body, dt: int) -> Body {
    let vx = stepped_velocity(b.velocity.x as int, b.accumulated_force.x as int, b.mass as int, dt);
    let vy = stepped_velocity(b.velocity.y as int, b.accumulated_force.y as int, b.mass as int, dt);
    Body {
        position: Vec2i {
            x: stepped_position(b.position.x as int, vx, dt) as i64,
            y: stepped_position(b.position.y as int, vy, dt) as i64,
        },
        previous_position: b.position,
        velocity: Vec2i { x: vx as i64, y: vy as i64 },
        accumulated_force: Vec2Wide { x: 0, y: 0 },
        mass: b.mass,
        visual_scale: b.visual_scale,
    }
}

/// A body at rest with no accumulated force is left exactly in place by
/// the integrator: absent any applied force there is no motion, however
/// large the timestep.
pub proof fn lemma_resting_body_unmoved(b: Body, dt: int)
    requires
        valid_body(b),
        b.accumulated_force.x == 0,
        b.accumulated_force.y == 0,
        b.velocity.x == 0,
        b.velocity.y == 0,
        0 < dt,
    ensures
        stepped_body(b, dt).position == b.position,
        stepped_body(b, dt).previous_position == b.position,
        stepped_body(b, dt).velocity == b.velocity,
{
    lemma_div_of0(b.mass as int);
    assert(div_trunc(0, b.mass as int) == 0);
    assert(stepped_velocity(0, 0, b.mass as int, dt) == 0);
    assert(stepped_position(b.position.x as int, 0, dt) == b.position.x);
    assert(stepped_position(b.position.y as int, 0, dt) == b.position.y);
}

/// One coordinate of the acceleration: the accumulated force divided by
/// the mass, truncating toward zero.
fn acceleration_coord(f: i128, m: i64) -> (r: i128)
    requires
        0 < m,
        -FORCE_LIMIT <= f <= FORCE_LIMIT,
    ensures
        r == div_trunc(f as int, m as int),
        -FORCE_LIMIT <= r <= FORCE_LIMIT,
{
    let af: u128 = if f < 0 {
        (-f) as u128
    } else {
        f as u128
    };
    let q: u128 = af / (m as u128);
    proof {
        lemma_div_nonincreasing(af as int, m as int);
        lemma_div_pos_is_pos(af as int, m as int);
        assert(q <= af);
        assert(iabs(f as int) == af as int);
        assert(q as int == iabs(f as int) / (m as int));
        if f == 0 {
            lemma_div_of0(m as int);
        }
    }
    if f < 0 {
        -(q as i128)
    } else {
        q as i128
    }
}

/// Advance one body by one fixed timestep.
pub fn integrate_body(b: &Body, dt: i64) -> (r: Body)
    requires
        valid_body(*b),
        0 < dt <= DT_LIMIT,
    ensures
        r == stepped_body(*b, dt as int),
        valid_body(r),
{
    let accx: i128 = acceleration_coord(b.accumulated_force.x, b.mass);
    let accy: i128 = acceleration_coord(b.accumulated_force.y, b.mass);
    proof {
        assert(-FORCE_LIMIT * DT_LIMIT <= accx * (dt as int) <= FORCE_LIMIT * DT_LIMIT
            && -FORCE_LIMIT * DT_LIMIT <= accy * (dt as int) <= FORCE_LIMIT * DT_LIMIT) by (
        nonlinear_arith)
            requires
                -FORCE_LIMIT <= accx <= FORCE_LIMIT && -FORCE_LIMIT <= accy <= FORCE_LIMIT && 0
                    < dt as int <= DT_LIMIT && 0 < FORCE_LIMIT,
        ;
    }
    let vx: i64 = crate::math::clamp_i128_to_i64(
        (b.velocity.x as i128) + accx * (dt as i128),
        VEL_LIMIT,
    );
    let vy: i64 = crate::math::clamp_i128_to_i64(
        (b.velocity.y as i128) + accy * (dt as i128),
        VEL_LIMIT,
    );
    proof {
        assert(-VEL_LIMIT * DT_LIMIT <= (vx as int) * (dt as int) <= VEL_LIMIT * DT_LIMIT
            && -VEL_LIMIT * DT_LIMIT <= (vy as int) * (dt as int) <= VEL_LIMIT * DT_LIMIT) by (
        nonlinear_arith)
            requires
                -VEL_LIMIT <= vx as int <= VEL_LIMIT && -VEL_LIMIT <= vy as int <= VEL_LIMIT && 0
                    < dt as int <= DT_LIMIT && 0 < VEL_LIMIT,
        ;
    }
    let px: i64 = crate::math::clamp_i128_to_i64(
        (b.position.x as i128) + (vx as i128) * (dt as i128),
        POS_LIMIT,
    );
    let py: i64 = crate::math::clamp_i128_to_i64(
        (b.position.y as i128) + (vy as i128) * (dt as i128),
        POS_LIMIT,
    );
    Body {
        position: Vec2i { x: px, y: py },
        previous_position: b.position,
        velocity: Vec2i { x: vx, y: vy },
        accumulated_force: Vec2Wide::zero(),
        mass: b.mass,
        visual_scale: b.visual_scale,
    }
}

/// Advance every body in the registry by one fixed timestep.
///
/// The accumulate-all-pairs, then integrate-all-bodies order is the
/// caller's: this pass reads only each body's own accumulated force.
pub fn integrate_bodies(bodies: &mut Vec<Body>, dt: i64)
    requires
        0 < dt <= DT_LIMIT,
        forall|k: int| 0 <= k < old(bodies).len() ==> valid_body(#[trigger] old(bodies)[k]),
    ensures
        final(bodies).len() == old(bodies).len(),
        forall|k: int|
            0 <= k < old(bodies).len() ==> final(bodies)[k] == stepped_body(
                #[trigger] old(bodies)[k],
                dt as int,
            ),
        forall|k: int| 0 <= k < old(bodies).len() ==> valid_body(#[trigger] final(bodies)[k]),
{
    let ghost orig = bodies@;
    let n = bodies.len();
    let mut i: usize = 0;
    while i < n
        invariant
            0 < dt <= DT_LIMIT,
            n == bodies.len(),
            n == orig.len(),
            i <= n,
            forall|k: int| 0 <= k < n ==> valid_body(#[trigger] orig[k]),
            forall|k: int|
                0 <= k < i ==> #[trigger] bodies[k] == stepped_body(orig[k], dt as int),
            forall|k: int| 0 <= k < i ==> valid_body(#[trigger] bodies[k]),
            forall|k: int| i <= k < n ==> #[trigger] bodies[k] == orig[k],
        decreases n - i,
    {
        let b = bodies[i];
        let nb = integrate_body(&b, dt);
        bodies[i] = nb;
        i = i + 1;
    }
}

} // verus!
