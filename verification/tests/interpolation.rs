use nbody::body::{Body, Vec2i};
use nbody::interp::{lerp_coord, render_position};
use nbody::math::{icbrt_u64, isqrt_u128};
use nbody::world::{SimulationConfig, SimulationWorld};

#[test]
fn lerp_hits_both_endpoints_exactly() {
    assert_eq!(lerp_coord(2, 10, 0, 50), 2);
    assert_eq!(lerp_coord(2, 10, 50, 50), 10);
    assert_eq!(lerp_coord(10, 2, 0, 50), 10);
    assert_eq!(lerp_coord(10, 2, 50, 50), 2);
}

#[test]
fn lerp_moves_proportionally_between() {
    assert_eq!(lerp_coord(0, 10, 25, 50), 5);
    assert_eq!(lerp_coord(10, 0, 25, 50), 5);
    assert_eq!(lerp_coord(-10, 10, 25, 50), 0);
    // Truncation is toward the start point.
    assert_eq!(lerp_coord(0, 10, 1, 3), 3);
    assert_eq!(lerp_coord(10, 0, 1, 3), 7);
}

#[test]
fn render_position_interpolates_both_coordinates() {
    let mut b = Body::new(Vec2i::new(0, 0), 1, 1);
    b.previous_position = Vec2i::new(0, -20);
    b.position = Vec2i::new(10, 20);
    let p = render_position(&b, 25, 50);
    assert_eq!(p, Vec2i::new(5, 0));
}

#[test]
fn alpha_is_clamped_into_the_step() {
    let mut w = SimulationWorld::new(SimulationConfig::default());
    // Far more wall time than one 50-tick step, none of it consumed:
    // the fraction saturates at one.
    w.advance_time(10_000);
    let (num, den) = w.clock.alpha();
    assert_eq!((num, den), (50, 50));
    // Consume the backlog; the remainder is below one step.
    while w.step_if_due() {}
    let (num, den) = w.clock.alpha();
    assert_eq!(den, 50);
    assert!(num <= den);
    assert_eq!(num, 0);
}

#[test]
fn render_positions_track_the_fraction() {
    let mut w = SimulationWorld::new(SimulationConfig::default());
    w.handle_spawn_intent(true, Some(Vec2i::new(8, -8)));
    // At a fresh clock the fraction is zero: render equals previous
    // position, which for a fresh spawn equals the position.
    let ps = w.render_positions();
    assert_eq!(ps.len(), 1);
    assert_eq!(ps[0], Vec2i::new(8, -8));
    // Halfway into a step the body (at rest) still renders in place.
    w.advance_time(25);
    let ps = w.render_positions();
    assert_eq!(ps[0], Vec2i::new(8, -8));
}

#[test]
fn integer_square_root_is_exact() {
    assert_eq!(isqrt_u128(0), 0);
    assert_eq!(isqrt_u128(1), 1);
    assert_eq!(isqrt_u128(3), 1);
    assert_eq!(isqrt_u128(4), 2);
    assert_eq!(isqrt_u128(99), 9);
    assert_eq!(isqrt_u128(100), 10);
    assert_eq!(isqrt_u128(1 << 120), 1 << 60);
}

#[test]
fn integer_cube_root_is_exact() {
    assert_eq!(icbrt_u64(0), 0);
    assert_eq!(icbrt_u64(1), 1);
    assert_eq!(icbrt_u64(7), 1);
    assert_eq!(icbrt_u64(8), 2);
    assert_eq!(icbrt_u64(26), 2);
    assert_eq!(icbrt_u64(27), 3);
    assert_eq!(icbrt_u64(238), 6);
}
