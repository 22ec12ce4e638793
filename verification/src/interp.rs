//! Render interpolation: a visually smooth position for each body between
//! fixed physics steps.

use vstd::prelude::*;

use crate::body::{valid_body, valid_coord, Body, Vec2i};
use crate::math::{div_trunc, iabs, isign};
use vstd::arithmetic::div_mod::{lemma_div_is_ordered, lemma_div_multiples_vanish};

verus! {

/// Linear interpolation of one coordinate by the exact rational
/// `num / den`, truncating toward the start point.
pub open spec fn lerp1(a: int, b: int, num: int, den: int) -> int {
    a + div_trunc((b - a) * num, den)
}

/// At fraction 0 the interpolated coordinate is the start point.
pub proof fn lemma_lerp_at_zero(a: int, b: int, den: int)
    requires
        0 < den,
    ensures
        lerp1(a, b, 0, den) == a,
{
    assert((b - a) * 0 == 0) by (nonlinear_arith);
}

/// At fraction 1 (num == den) the interpolated coordinate is the end point.
pub proof fn lemma_lerp_at_one(a: int, b: int, den: int)
    requires
        0 < den,
    ensures
        lerp1(a, b, den, den) == b,
{
    let d = b - a;
    assert(iabs(d * den) == iabs(d) * den) by (nonlinear_arith)
        requires
            0 < den,
    ;
    lemma_div_multiples_vanish(iabs(d), den);
    assert(iabs(d) * den == den * iabs(d)) by (nonlinear_arith);
    assert(iabs(d * den) / den == iabs(d));
    if d < 0 {
        assert(isign(d * den) == -1) by (nonlinear_arith)
            requires
                d < 0 && 0 < den,
        ;
    } else if d > 0 {
        assert(isign(d * den) == 1) by (nonlinear_arith)
            requires
                d > 0 && 0 < den,
        ;
    } else {
        assert(d * den == 0) by (nonlinear_arith)
            requires
                d == 0,
        ;
    }
}

/// The interpolated coordinate never leaves the closed interval between
/// the two endpoints.
pub proof fn lemma_lerp_between(a: int, b: int, num: int, den: int)
    requires
        0 < den,
        0 <= num <= den,
    ensures
        a <= b ==> a <= lerp1(a, b, num, den) <= b,
        b <= a ==> b <= lerp1(a, b, num, den) <= a,
{
    let d = b - a;
    let p = d * num;
    let m = iabs(d);
    if d < 0 {
        assert(p <= 0 && -p == m * num) by (nonlinear_arith)
            requires
                p == d * num && d < 0 && 0 <= num && m == -d,
        ;
    } else {
        assert(p >= 0 && p == m * num) by (nonlinear_arith)
            requires
                p == d * num && d >= 0 && 0 <= num && m == d,
        ;
    }
    assert(iabs(p) == m * num);
    assert(m * num <= m * den) by (nonlinear_arith)
        requires
            0 <= num <= den && 0 <= m,
    ;
    lemma_div_is_ordered(m * num, m * den, den);
    assert(m * den == den * m) by (nonlinear_arith);
    lemma_div_multiples_vanish(m, den);
    assert(iabs(p) / den <= m);
    vstd::arithmetic::div_mod::lemma_div_pos_is_pos(iabs(p), den);
}

/// Interpolate one coordinate between `a` and `b`.
pub fn lerp_coord(a: i64, b: i64, num: u64, den: u64) -> (r: i64)
    requires
        0 < den,
        num <= den,
        valid_coord(a as int),
        valid_coord(b as int),
    ensures
        r == lerp1(a as int, b as int, num as int, den as int),
        valid_coord(r as int),
{
    proof {
        lemma_lerp_between(a as int, b as int, num as int, den as int);
    }
    let d: i128 = (b as i128) - (a as i128);
    let mag: u128 = if d < 0 {
        (-d) as u128
    } else {
        d as u128
    };
    proof {
        assert(mag <= 0x2000_0000_0000_0000u128);
        assert((mag as int) * (num as int) <= 0x2000_0000_0000_0000 * 0x1_0000_0000_0000_0000) by (
        nonlinear_arith)
            requires
                0 <= mag as int <= 0x2000_0000_0000_0000 && 0 <= num as int
                    <= 0x1_0000_0000_0000_0000,
        ;
    }
    let prod: u128 = mag * (num as u128);
    let q: u128 = prod / (den as u128);
    proof {
        let di = d as int;
        let ni = num as int;
        let deni = den as int;
        let mi = mag as int;
        let p = di * ni;
        if di < 0 {
            assert(p <= 0 && -p == mi * ni) by (nonlinear_arith)
                requires
                    p == di * ni && di < 0 && 0 <= ni && mi == -di,
            ;
        } else {
            assert(p >= 0 && p == mi * ni) by (nonlinear_arith)
                requires
                    p == di * ni && di >= 0 && 0 <= ni && mi == di,
            ;
        }
        assert(iabs(p) == mi * ni);
        assert(prod as int == iabs(p));
        assert(mi * ni <= mi * deni) by (nonlinear_arith)
            requires
                0 <= mi && 0 <= ni <= deni,
        ;
        lemma_div_is_ordered(mi * ni, mi * deni, deni);
        assert(mi * deni == deni * mi) by (nonlinear_arith);
        lemma_div_multiples_vanish(mi, deni);
        assert(q as int == iabs(p) / deni);
        assert(q <= mag);
        if p == 0 {
            vstd::arithmetic::div_mod::lemma_div_of0(deni);
            assert(q == 0);
            assert(isign(p) == 0);
        }
        vstd::arithmetic::div_mod::lemma_div_pos_is_pos(iabs(p), deni);
    }
    let q64: i64 = q as i64;
    if d < 0 {
        a - q64
    } else {
        a + q64
    }
}

/// The render position of a body at the given interpolation fraction.
pub fn render_position(b: &Body, num: u64, den: u64) -> (p: Vec2i)
    requires
        valid_body(*b),
        0 < den,
        num <= den,
    ensures
        p.x == lerp1(b.previous_position.x as int, b.position.x as int, num as int, den as int),
        p.y == lerp1(b.previous_position.y as int, b.position.y as int, num as int, den as int),
        valid_coord(p.x as int),
        valid_coord(p.y as int),
{
    let x = lerp_coord(b.previous_position.x, b.position.x, num, den);
    let y = lerp_coord(b.previous_position.y, b.position.y, num, den);
    Vec2i { x, y }
}

} // verus!
