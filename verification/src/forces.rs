//! The force accumulator: for every unique unordered pair of distinct
//! bodies, the gravitational pull between them is added to one body's
//! accumulated force and subtracted from the other's (Newton's third law).

use vstd::prelude::*;

use crate::body::{valid_body, Body};
use crate::math::{iabs, isign, lemma_le_sqrt_floor, lemma_sqrt_floor_bounds, sqrt_floor};
use crate::{BODY_LIMIT, FORCE_LIMIT, G_LIMIT, MASS_LIMIT, PAIR_FORCE_LIMIT};
use vstd::arithmetic::div_mod::{
    lemma_div_is_ordered, lemma_div_multiples_vanish, lemma_div_nonincreasing, lemma_div_of0,
    lemma_div_pos_is_pos,
};

verus! {

/// Squared distance between two bodies' positions.
pub open spec fn dist_sq(a: Body, b: Body) -> int {
    let dx = b.position.x - a.position.x;
    let dy = b.position.y - a.position.y;
    dx * dx + dy * dy
}

/// Magnitude factor of the gravitational pull between `a` and `b`:
/// the exact integer floor of `g * m_a * m_b / |delta|^2`.
pub open spec fn pair_magnitude(g: int, a: Body, b: Body) -> int {
    (g * a.mass * b.mass) / dist_sq(a, b)
}

/// x component of the force `b` exerts on `a`.
///
/// Exactly coincident bodies are a singularity of the law of gravitation;
/// here such a pair exerts no force, the least surprising reading of an
/// undefined direction.
pub open spec fn pair_force_x(g: int, a: Body, b: Body) -> int {
    let dx = b.position.x - a.position.x;
    let d2 = dist_sq(a, b);
    if d2 == 0 {
        0
    } else {
        isign(dx) * ((pair_magnitude(g, a, b) * iabs(dx)) / (sqrt_floor(d2 as nat) as int))
    }
}

/// y component of the force `b` exerts on `a`.
pub open spec fn pair_force_y(g: int, a: Body, b: Body) -> int {
    let dy = b.position.y - a.position.y;
    let d2 = dist_sq(a, b);
    if d2 == 0 {
        0
    } else {
        isign(dy) * ((pair_magnitude(g, a, b) * iabs(dy)) / (sqrt_floor(d2 as nat) as int))
    }
}

/// The pairwise force only reads positions and masses.
pub proof fn lemma_pair_force_same(g: int, a1: Body, a2: Body, b1: Body, b2: Body)
    requires
        a1.position == a2.position,
        a1.mass == a2.mass,
        b1.position == b2.position,
        b1.mass == b2.mass,
    ensures
        pair_force_x(g, a1, b1) == pair_force_x(g, a2, b2),
        pair_force_y(g, a1, b1) == pair_force_y(g, a2, b2),
{
    assert(dist_sq(a1, b1) == dist_sq(a2, b2));
    assert(pair_magnitude(g, a1, b1) == pair_magnitude(g, a2, b2));
}

/// Newton's third law: the force `b` exerts on `a` is the exact negation
/// of the force `a` exerts on `b`.
pub proof fn lemma_pair_force_antisymmetric(g: int, a: Body, b: Body)
    ensures
        pair_force_x(g, a, b) == -pair_force_x(g, b, a),
        pair_force_y(g, a, b) == -pair_force_y(g, b, a),
{
    let dx = b.position.x - a.position.x;
    let dy = b.position.y - a.position.y;
    assert(dx * dx == (-dx) * (-dx) && dy * dy == (-dy) * (-dy)) by (nonlinear_arith);
    assert(dist_sq(a, b) == dist_sq(b, a));
    assert(g * a.mass * b.mass == g * b.mass * a.mass) by (nonlinear_arith);
    assert(pair_magnitude(g, a, b) == pair_magnitude(g, b, a));
    if dist_sq(a, b) != 0 {
        let q = pair_magnitude(g, a, b);
        let dist = sqrt_floor(dist_sq(a, b) as nat) as int;
        assert(iabs(-dx) == iabs(dx) && iabs(-dy) == iabs(dy));
        let sx = isign(dx);
        let sy = isign(dy);
        assert(isign(-dx) == -sx && isign(-dy) == -sy);
        let qx = (q * iabs(dx)) / dist;
        let qy = (q * iabs(dy)) / dist;
        assert(sx * qx == -((-sx) * qx) && sy * qy == -((-sy) * qy)) by (nonlinear_arith);
    }
}

/// For well-formed bodies the pairwise force fits one force quantum.
pub proof fn lemma_pair_force_bounded(g: int, a: Body, b: Body)
    requires
        0 <= g <= G_LIMIT,
        valid_body(a),
        valid_body(b),
    ensures
        iabs(pair_force_x(g, a, b)) <= PAIR_FORCE_LIMIT,
        iabs(pair_force_y(g, a, b)) <= PAIR_FORCE_LIMIT,
{
    let d2 = dist_sq(a, b);
    if d2 != 0 {
        let dx = b.position.x - a.position.x;
        let dy = b.position.y - a.position.y;
        assert(dx * dx >= 0 && dy * dy >= 0) by (nonlinear_arith);
        assert(d2 >= 1);
        let mn = g * a.mass * b.mass;
        assert(0 <= mn <= PAIR_FORCE_LIMIT) by (nonlinear_arith)
            requires
                0 <= g <= G_LIMIT && 0 < a.mass <= MASS_LIMIT && 0 < b.mass <= MASS_LIMIT
                    && mn == g * a.mass * b.mass && PAIR_FORCE_LIMIT == G_LIMIT * MASS_LIMIT
                    * MASS_LIMIT,
        ;
        let q = pair_magnitude(g, a, b);
        lemma_div_pos_is_pos(mn, d2);
        lemma_div_nonincreasing(mn, d2);
        assert(0 <= q <= mn);
        lemma_sqrt_floor_bounds(d2 as nat);
        let dist = sqrt_floor(d2 as nat) as int;
        if dist == 0 {
            assert((dist + 1) * (dist + 1) == 1) by (nonlinear_arith)
                requires
                    dist == 0,
            ;
            assert(false);
        }
        assert(dist >= 1);
        assert(iabs(dx) * iabs(dx) == dx * dx && iabs(dy) * iabs(dy) == dy * dy) by (
        nonlinear_arith);
        assert(iabs(dx) * iabs(dx) <= d2 && iabs(dy) * iabs(dy) <= d2);
        lemma_le_sqrt_floor(iabs(dx) as nat, d2 as nat);
        lemma_le_sqrt_floor(iabs(dy) as nat, d2 as nat);
        assert(iabs(dx) <= dist && iabs(dy) <= dist);
        assert(q * iabs(dx) <= q * dist && q * iabs(dy) <= q * dist && 0 <= q * iabs(dx) && 0 <= q
            * iabs(dy)) by (nonlinear_arith)
            requires
                0 <= q && 0 <= iabs(dx) <= dist && 0 <= iabs(dy) <= dist,
        ;
        lemma_div_is_ordered(q * iabs(dx), q * dist, dist);
        lemma_div_is_ordered(q * iabs(dy), q * dist, dist);
        assert(q * dist == dist * q) by (nonlinear_arith);
        lemma_div_multiples_vanish(q, dist);
        let qx = (q * iabs(dx)) / dist;
        let qy = (q * iabs(dy)) / dist;
        lemma_div_pos_is_pos(q * iabs(dx), dist);
        lemma_div_pos_is_pos(q * iabs(dy), dist);
        assert(0 <= qx <= q && 0 <= qy <= q);
        let sx = isign(dx);
        let sy = isign(dy);
        assert(iabs(sx * qx) <= qx && iabs(sy * qy) <= qy) by (nonlinear_arith)
            requires
                (sx == -1 || sx == 0 || sx == 1) && (sy == -1 || sy == 0 || sy == 1) && 0 <= qx && 0
                    <= qy,
        ;
    }
}

/// The force `b` exerts on `a`, as exact fixed-point components.
pub fn pair_force(g: i64, a: &Body, b: &Body) -> (f: (i64, i64))
    requires
        0 < g <= G_LIMIT,
        valid_body(*a),
        valid_body(*b),
    ensures
        f.0 == pair_force_x(g as int, *a, *b),
        f.1 == pair_force_y(g as int, *a, *b),
{
    let dx: i128 = (b.position.x as i128) - (a.position.x as i128);
    let dy: i128 = (b.position.y as i128) - (a.position.y as i128);
    let adx: u128 = if dx < 0 {
        (-dx) as u128
    } else {
        dx as u128
    };
    let ady: u128 = if dy < 0 {
        (-dy) as u128
    } else {
        dy as u128
    };
    proof {
        assert(adx <= 0x2000_0000_0000_0000u128 && ady <= 0x2000_0000_0000_0000u128);
        assert((adx as int) * (adx as int) <= 0x2000_0000_0000_0000 * 0x2000_0000_0000_0000 && (
        ady as int) * (ady as int) <= 0x2000_0000_0000_0000 * 0x2000_0000_0000_0000) by (
        nonlinear_arith)
            requires
                0 <= adx as int <= 0x2000_0000_0000_0000 && 0 <= ady as int
                    <= 0x2000_0000_0000_0000,
        ;
        assert((adx as int) * (adx as int) == (dx as int) * (dx as int) && (ady as int) * (
        ady as int) == (dy as int) * (dy as int)) by (nonlinear_arith)
            requires
                (adx as int == dx as int || adx as int == -(dx as int)) && (ady as int == dy as int
                    || ady as int == -(dy as int)),
        ;
    }
    let d2: u128 = adx * adx + ady * ady;
    proof {
        assert(d2 as int == dist_sq(*a, *b));
    }
    if d2 == 0 {
        return (0, 0);
    }
    let dist: u128 = crate::math::isqrt_u128(d2);
    proof {
        lemma_sqrt_floor_bounds(d2 as nat);
        if dist == 0 {
            assert(((dist as int) + 1) * ((dist as int) + 1) == 1) by (nonlinear_arith)
                requires
                    dist as int == 0,
            ;
            assert(false);
        }
        assert(dist >= 1);
    }
    proof {
        assert((g as int) * (a.mass as int) <= G_LIMIT * MASS_LIMIT && 0 <= (g as int) * (
        a.mass as int)) by (nonlinear_arith)
            requires
                0 < g as int <= G_LIMIT && 0 < a.mass as int <= MASS_LIMIT,
        ;
        assert((g as int) * (a.mass as int) * (b.mass as int) <= G_LIMIT * MASS_LIMIT * MASS_LIMIT
            && 0 <= (g as int) * (a.mass as int) * (b.mass as int)) by (nonlinear_arith)
            requires
                0 <= (g as int) * (a.mass as int) <= G_LIMIT * MASS_LIMIT && 0 < b.mass as int
                    <= MASS_LIMIT,
        ;
    }
    let mn: u128 = (g as u128) * (a.mass as u128) * (b.mass as u128);
    let mag: u128 = mn / d2;
    proof {
        lemma_div_nonincreasing(mn as int, d2 as int);
        lemma_div_pos_is_pos(mn as int, d2 as int);
        assert(mag <= mn);
        assert(mag as int == pair_magnitude(g as int, *a, *b));
        assert((mag as int) * (adx as int) <= 0x1000_0000_0000_0000 * 0x2000_0000_0000_0000 && (
        mag as int) * (ady as int) <= 0x1000_0000_0000_0000 * 0x2000_0000_0000_0000) by (
        nonlinear_arith)
            requires
                0 <= mag as int <= 0x1000_0000_0000_0000 && 0 <= adx as int <= 0x2000_0000_0000_0000
                    && 0 <= ady as int <= 0x2000_0000_0000_0000,
        ;
    }
    let fxm: u128 = (mag * adx) / dist;
    let fym: u128 = (mag * ady) / dist;
    proof {
        let mi = mag as int;
        let disti = dist as int;
        assert(iabs(dx as int) == adx as int && iabs(dy as int) == ady as int);
        assert((adx as int) * (adx as int) <= d2 as int && (ady as int) * (ady as int)
            <= d2 as int);
        lemma_le_sqrt_floor(adx as nat, d2 as nat);
        lemma_le_sqrt_floor(ady as nat, d2 as nat);
        assert(mi * (adx as int) <= mi * disti && mi * (ady as int) <= mi * disti) by (
        nonlinear_arith)
            requires
                0 <= mi && 0 <= adx as int <= disti && 0 <= ady as int <= disti,
        ;
        lemma_div_is_ordered(mi * (adx as int), mi * disti, disti);
        lemma_div_is_ordered(mi * (ady as int), mi * disti, disti);
        assert(mi * disti == disti * mi) by (nonlinear_arith);
        lemma_div_multiples_vanish(mi, disti);
        assert(fxm <= mag && fym <= mag);
        assert(fxm as int == (pair_magnitude(g as int, *a, *b) * iabs(dx as int)) / (sqrt_floor(
            dist_sq(*a, *b) as nat,
        ) as int));
        assert(fym as int == (pair_magnitude(g as int, *a, *b) * iabs(dy as int)) / (sqrt_floor(
            dist_sq(*a, *b) as nat,
        ) as int));
        assert(dx as int == b.position.x - a.position.x && dy as int == b.position.y
            - a.position.y);
    }
    let fx: i64 = if dx < 0 {
        -(fxm as i64)
    } else {
        fxm as i64
    };
    let fy: i64 = if dy < 0 {
        -(fym as i64)
    } else {
        fym as i64
    };
    proof {
        let sx = isign(dx as int);
        let sy = isign(dy as int);
        let qx = fxm as int;
        let qy = fym as int;
        if dx < 0 {
            assert(sx == -1);
            assert(sx * qx == -qx) by (nonlinear_arith)
                requires
                    sx == -1int,
            ;
        } else if dx > 0 {
            assert(sx == 1);
            assert(sx * qx == qx) by (nonlinear_arith)
                requires
                    sx == 1int,
            ;
        } else {
            assert(sx == 0);
            assert(sx * qx == 0) by (nonlinear_arith)
                requires
                    sx == 0int,
            ;
            assert((mag as int) * 0 == 0) by (nonlinear_arith);
            lemma_div_of0(dist as int);
            assert(qx == 0);
        }
        if dy < 0 {
            assert(sy == -1);
            assert(sy * qy == -qy) by (nonlinear_arith)
                requires
                    sy == -1int,
            ;
        } else if dy > 0 {
            assert(sy == 1);
            assert(sy * qy == qy) by (nonlinear_arith)
                requires
                    sy == 1int,
            ;
        } else {
            assert(sy == 0);
            assert(sy * qy == 0) by (nonlinear_arith)
                requires
                    sy == 0int,
            ;
            assert((mag as int) * 0 == 0) by (nonlinear_arith);
            lemma_div_of0(dist as int);
            assert(qy == 0);
        }
    }
    (fx, fy)
}

/// Sum of the x components of the forces exerted on `bodies[k]` by the
/// bodies with index below `upto`, other than `k` itself.
pub open spec fn partial_net_force_x(bodies: Seq<Body>, g: int, k: int, upto: int) -> int
    decreases upto,
{
    if upto <= 0 {
        0
    } else {
        partial_net_force_x(bodies, g, k, upto - 1) + (if upto - 1 != k {
            pair_force_x(g, bodies[k], bodies[upto - 1])
        } else {
            0
        })
    }
}

/// Sum of the y components of the forces exerted on `bodies[k]` by the
/// bodies with index below `upto`, other than `k` itself.
pub open spec fn partial_net_force_y(bodies: Seq<Body>, g: int, k: int, upto: int) -> int
    decreases upto,
{
    if upto <= 0 {
        0
    } else {
        partial_net_force_y(bodies, g, k, upto - 1) + (if upto - 1 != k {
            pair_force_y(g, bodies[k], bodies[upto - 1])
        } else {
            0
        })
    }
}

/// x component of the net gravitational force on `bodies[k]` from every
/// other body in the registry.
pub open spec fn net_force_x(bodies: Seq<Body>, g: int, k: int) -> int {
    partial_net_force_x(bodies, g, k, bodies.len() as int)
}

/// y component of the net gravitational force on `bodies[k]` from every
/// other body in the registry.
pub open spec fn net_force_y(bodies: Seq<Body>, g: int, k: int) -> int {
    partial_net_force_y(bodies, g, k, bodies.len() as int)
}

/// A body alone in the registry receives no force: there is no self-force.
pub proof fn lemma_single_body_net_force(bodies: Seq<Body>, g: int)
    requires
        bodies.len() == 1,
    ensures
        net_force_x(bodies, g, 0) == 0,
        net_force_y(bodies, g, 0) == 0,
{
    assert(partial_net_force_x(bodies, g, 0, 0) == 0);
    assert(partial_net_force_y(bodies, g, 0, 0) == 0);
    assert(partial_net_force_x(bodies, g, 0, 1) == 0);
    assert(partial_net_force_y(bodies, g, 0, 1) == 0);
}

/// Partial net forces on a registry of well-formed bodies stay inside
/// `upto` force quanta.
pub proof fn lemma_partial_net_force_bounded(bodies: Seq<Body>, g: int, k: int, upto: int)
    requires
        0 <= g <= G_LIMIT,
        forall|l: int| 0 <= l < bodies.len() ==> valid_body(#[trigger] bodies[l]),
        0 <= k < bodies.len(),
        0 <= upto <= bodies.len(),
    ensures
        iabs(partial_net_force_x(bodies, g, k, upto)) <= upto * PAIR_FORCE_LIMIT,
        iabs(partial_net_force_y(bodies, g, k, upto)) <= upto * PAIR_FORCE_LIMIT,
    decreases upto,
{
    if upto > 0 {
        lemma_partial_net_force_bounded(bodies, g, k, upto - 1);
        if upto - 1 != k {
            lemma_pair_force_bounded(g, bodies[k], bodies[upto - 1]);
        }
        assert((upto - 1) * PAIR_FORCE_LIMIT + PAIR_FORCE_LIMIT == upto * PAIR_FORCE_LIMIT) by (
        nonlinear_arith);
    }
}

/// Sum of the x components of the accumulated forces over the registry.
pub open spec fn total_force_x(bodies: Seq<Body>) -> int
    decreases bodies.len(),
{
    if bodies.len() == 0 {
        0
    } else {
        total_force_x(bodies.drop_last()) + bodies.last().accumulated_force.x
    }
}

/// Sum of the y components of the accumulated forces over the registry.
pub open spec fn total_force_y(bodies: Seq<Body>) -> int
    decreases bodies.len(),
{
    if bodies.len() == 0 {
        0
    } else {
        total_force_y(bodies.drop_last()) + bodies.last().accumulated_force.y
    }
}

/// A registry whose accumulated forces are all zero sums to zero.
pub proof fn lemma_total_force_zero(bodies: Seq<Body>)
    requires
        forall|k: int| 0 <= k < bodies.len() ==> (#[trigger] bodies[k]).accumulated_force.x == 0
            && bodies[k].accumulated_force.y == 0,
    ensures
        total_force_x(bodies) == 0,
        total_force_y(bodies) == 0,
    decreases bodies.len(),
{
    if bodies.len() > 0 {
        assert(forall|k: int|
            0 <= k < bodies.drop_last().len() ==> #[trigger] bodies.drop_last()[k] == bodies[k]);
        lemma_total_force_zero(bodies.drop_last());
    }
}

/// Replacing one body shifts the totals by the difference of its
/// accumulated force.
pub proof fn lemma_total_force_update(s: Seq<Body>, i: int, b: Body)
    requires
        0 <= i < s.len(),
    ensures
        total_force_x(s.update(i, b)) == total_force_x(s) + b.accumulated_force.x
            - s[i].accumulated_force.x,
        total_force_y(s.update(i, b)) == total_force_y(s) + b.accumulated_force.y
            - s[i].accumulated_force.y,
    decreases s.len(),
{
    let t = s.update(i, b);
    if i == s.len() - 1 {
        assert(t.drop_last() =~= s.drop_last());
        assert(t.last() == b);
    } else {
        assert(t.drop_last() =~= s.drop_last().update(i, b));
        lemma_total_force_update(s.drop_last(), i, b);
        assert(t.last() == s.last());
    }
}

/// Everything of a body but its accumulated force.
pub open spec fn same_but_force(b1: Body, b2: Body) -> bool {
    &&& b1.position == b2.position
    &&& b1.previous_position == b2.previous_position
    &&& b1.velocity == b2.velocity
    &&& b1.mass == b2.mass
    &&& b1.visual_scale == b2.visual_scale
}

/// Run one full force-accumulation pass over the registry.
///
/// Every unique unordered pair of distinct bodies is visited once; the
/// pairwise pull is added to one side and its exact negation to the other.
/// Afterwards each body holds the net gravitational force on it, and the
/// accumulated forces over the whole registry sum to the zero vector.
pub fn accumulate_forces(bodies: &mut Vec<Body>, g: i64)
    requires
        0 < g <= G_LIMIT,
        old(bodies).len() <= BODY_LIMIT,
        forall|k: int| 0 <= k < old(bodies).len() ==> valid_body(#[trigger] old(bodies)[k]),
        forall|k: int|
            0 <= k < old(bodies).len() ==> (#[trigger] old(bodies)[k]).accumulated_force.x == 0
                && old(bodies)[k].accumulated_force.y == 0,
    ensures
        final(bodies).len() == old(bodies).len(),
        forall|k: int|
            0 <= k < old(bodies).len() ==> same_but_force(#[trigger] final(bodies)[k], old(bodies)[k]),
        forall|k: int| 0 <= k < old(bodies).len() ==> valid_body(#[trigger] final(bodies)[k]),
        forall|k: int|
            0 <= k < old(bodies).len() ==> (#[trigger] final(bodies)[k]).accumulated_force.x
                == net_force_x(old(bodies)@, g as int, k) && final(bodies)[k].accumulated_force.y
                == net_force_y(old(bodies)@, g as int, k),
        total_force_x(final(bodies)@) == 0,
        total_force_y(final(bodies)@) == 0,
{
    let ghost orig = bodies@;
    proof {
        lemma_total_force_zero(orig);
    }
    let n = bodies.len();
    let mut i: usize = 0;
    while i < n
        invariant
            0 < g <= G_LIMIT,
            n == bodies.len(),
            n == orig.len(),
            n <= BODY_LIMIT,
            i <= n,
            forall|k: int| 0 <= k < n ==> valid_body(#[trigger] orig[k]),
            forall|k: int| 0 <= k < n ==> same_but_force(#[trigger] bodies[k], orig[k]),
            forall|k: int| 0 <= k < n ==> valid_body(#[trigger] bodies[k]),
            forall|k: int|
                0 <= k < i ==> (#[trigger] bodies[k]).accumulated_force.x == net_force_x(
                    orig,
                    g as int,
                    k,
                ) && bodies[k].accumulated_force.y == net_force_y(orig, g as int, k),
            forall|k: int|
                i <= k < n ==> (#[trigger] bodies[k]).accumulated_force.x == partial_net_force_x(
                    orig,
                    g as int,
                    k,
                    i as int,
                ) && bodies[k].accumulated_force.y == partial_net_force_y(orig, g as int, k, i as int),
            total_force_x(bodies@) == 0,
            total_force_y(bodies@) == 0,
        decreases n - i,
    {
        let mut j: usize = i + 1;
        proof {
            assert(partial_net_force_x(orig, g as int, i as int, i as int + 1)
                == partial_net_force_x(orig, g as int, i as int, i as int));
            assert(partial_net_force_y(orig, g as int, i as int, i as int + 1)
                == partial_net_force_y(orig, g as int, i as int, i as int));
        }
        while j < n
            invariant
                0 < g <= G_LIMIT,
                n == bodies.len(),
                n == orig.len(),
                n <= BODY_LIMIT,
                i < n,
                i + 1 <= j <= n,
                forall|k: int| 0 <= k < n ==> valid_body(#[trigger] orig[k]),
                forall|k: int| 0 <= k < n ==> same_but_force(#[trigger] bodies[k], orig[k]),
                forall|k: int| 0 <= k < n ==> valid_body(#[trigger] bodies[k]),
                forall|k: int|
                    0 <= k < i ==> (#[trigger] bodies[k]).accumulated_force.x == net_force_x(
                        orig,
                        g as int,
                        k,
                    ) && bodies[k].accumulated_force.y == net_force_y(orig, g as int, k),
                bodies[i as int].accumulated_force.x == partial_net_force_x(
                    orig,
                    g as int,
                    i as int,
                    j as int,
                ),
                bodies[i as int].accumulated_force.y == partial_net_force_y(
                    orig,
                    g as int,
                    i as int,
                    j as int,
                ),
                forall|k: int|
                    i < k < j ==> (#[trigger] bodies[k]).accumulated_force.x
                        == partial_net_force_x(orig, g as int, k, i as int + 1)
                        && bodies[k].accumulated_force.y == partial_net_force_y(
                        orig,
                        g as int,
                        k,
                        i as int + 1,
                    ),
                forall|k: int|
                    j <= k < n ==> (#[trigger] bodies[k]).accumulated_force.x
                        == partial_net_force_x(orig, g as int, k, i as int)
                        && bodies[k].accumulated_force.y == partial_net_force_y(
                        orig,
                        g as int,
                        k,
                        i as int,
                    ),
                total_force_x(bodies@) == 0,
                total_force_y(bodies@) == 0,
            decreases n - j,
        {
            let bi = bodies[i];
            let bj = bodies[j];
            let f = pair_force(g, &bi, &bj);
            proof {
                lemma_pair_force_same(g as int, bi, orig[i as int], bj, orig[j as int]);
                lemma_pair_force_same(g as int, bj, orig[j as int], bi, orig[i as int]);
                lemma_pair_force_antisymmetric(g as int, orig[i as int], orig[j as int]);
                lemma_pair_force_bounded(g as int, orig[i as int], orig[j as int]);
                lemma_partial_net_force_bounded(orig, g as int, i as int, j as int);
                lemma_partial_net_force_bounded(orig, g as int, j as int, i as int);
                assert((j as int) * PAIR_FORCE_LIMIT + PAIR_FORCE_LIMIT <= FORCE_LIMIT) by (
                nonlinear_arith)
                    requires
                        j as int + 1 <= BODY_LIMIT as int && FORCE_LIMIT == (BODY_LIMIT as int)
                            * PAIR_FORCE_LIMIT,
                ;
                assert((i as int) * PAIR_FORCE_LIMIT + PAIR_FORCE_LIMIT <= FORCE_LIMIT) by (
                nonlinear_arith)
                    requires
                        i as int + 1 <= BODY_LIMIT as int && FORCE_LIMIT == (BODY_LIMIT as int)
                            * PAIR_FORCE_LIMIT,
                ;
            }
            let mut nbi = bi;
            nbi.accumulated_force.x = nbi.accumulated_force.x + (f.0 as i128);
            nbi.accumulated_force.y = nbi.accumulated_force.y + (f.1 as i128);
            let mut nbj = bj;
            nbj.accumulated_force.x = nbj.accumulated_force.x - (f.0 as i128);
            nbj.accumulated_force.y = nbj.accumulated_force.y - (f.1 as i128);
            let ghost before = bodies@;
            bodies[i] = nbi;
            bodies[j] = nbj;
            proof {
                assert(bodies@ =~= before.update(i as int, nbi).update(j as int, nbj));
                lemma_total_force_update(before, i as int, nbi);
                lemma_total_force_update(before.update(i as int, nbi), j as int, nbj);
                assert(partial_net_force_x(orig, g as int, i as int, j as int + 1)
                    == partial_net_force_x(orig, g as int, i as int, j as int) + pair_force_x(
                    g as int,
                    orig[i as int],
                    orig[j as int],
                ));
                assert(partial_net_force_y(orig, g as int, i as int, j as int + 1)
                    == partial_net_force_y(orig, g as int, i as int, j as int) + pair_force_y(
                    g as int,
                    orig[i as int],
                    orig[j as int],
                ));
                assert(partial_net_force_x(orig, g as int, j as int, i as int + 1)
                    == partial_net_force_x(orig, g as int, j as int, i as int) + pair_force_x(
                    g as int,
                    orig[j as int],
                    orig[i as int],
                ));
                assert(partial_net_force_y(orig, g as int, j as int, i as int + 1)
                    == partial_net_force_y(orig, g as int, j as int, i as int) + pair_force_y(
                    g as int,
                    orig[j as int],
                    orig[i as int],
                ));
                lemma_partial_net_force_bounded(orig, g as int, i as int, j as int + 1);
                lemma_partial_net_force_bounded(orig, g as int, j as int, i as int + 1);
                assert((j as int + 1) * PAIR_FORCE_LIMIT <= FORCE_LIMIT) by (nonlinear_arith)
                    requires
                        j as int + 1 <= BODY_LIMIT as int && FORCE_LIMIT == (BODY_LIMIT as int)
                            * PAIR_FORCE_LIMIT,
                ;
                assert((i as int + 1) * PAIR_FORCE_LIMIT <= FORCE_LIMIT) by (nonlinear_arith)
                    requires
                        i as int + 1 <= BODY_LIMIT as int && FORCE_LIMIT == (BODY_LIMIT as int)
                            * PAIR_FORCE_LIMIT,
                ;
            }
            j = j + 1;
        }
        i = i + 1;
    }
}

} // verus!
