use nbody::body::{Body, Vec2i};
use nbody::forces::accumulate_forces;
use nbody::integrate::integrate_bodies;
use nbody::world::{SimulationConfig, SimulationMode, SimulationWorld};

fn body_at(x: i64, y: i64, mass: i64) -> Body {
    Body::new(Vec2i::new(x, y), mass, 1)
}

#[test]
fn two_bodies_attract_along_x() {
    // Two unit masses at rest, 10 apart along x, g = 1000:
    // each pairwise force is g * 1 * 1 / 100 = 10 toward the other.
    let mut bodies = vec![body_at(0, 0, 1), body_at(10, 0, 1)];
    accumulate_forces(&mut bodies, 1000);
    assert_eq!(bodies[0].accumulated_force.x, 10);
    assert_eq!(bodies[0].accumulated_force.y, 0);
    assert_eq!(bodies[1].accumulated_force.x, -10);
    assert_eq!(bodies[1].accumulated_force.y, 0);

    // After one step of dt = 2 the velocities are g*1*1/100 * dt = 20,
    // pointing toward each other, and previous_position is exactly the
    // pre-step position.
    integrate_bodies(&mut bodies, 2);
    assert_eq!(bodies[0].velocity.x, 20);
    assert_eq!(bodies[0].velocity.y, 0);
    assert_eq!(bodies[1].velocity.x, -20);
    assert_eq!(bodies[1].velocity.y, 0);
    assert_eq!(bodies[0].previous_position, Vec2i::new(0, 0));
    assert_eq!(bodies[1].previous_position, Vec2i::new(10, 0));
    assert_eq!(bodies[0].position.x, 40);
    assert_eq!(bodies[1].position.x, -30);
    assert_eq!(bodies[0].accumulated_force.x, 0);
    assert_eq!(bodies[1].accumulated_force.x, 0);
}

#[test]
fn momentum_conserved_over_three_bodies() {
    let mut bodies = vec![body_at(0, 0, 2), body_at(10, 0, 3), body_at(3, 7, 5)];
    accumulate_forces(&mut bodies, 1000);
    let sum_x: i128 = bodies.iter().map(|b| b.accumulated_force.x).sum();
    let sum_y: i128 = bodies.iter().map(|b| b.accumulated_force.y).sum();
    assert_eq!(sum_x, 0);
    assert_eq!(sum_y, 0);
}

#[test]
fn momentum_conserved_over_many_bodies() {
    let mut bodies = Vec::new();
    for i in 0..12i64 {
        bodies.push(body_at(i * 17 - 40, (i * i) % 23 - 11, 1 + (i % 5)));
    }
    accumulate_forces(&mut bodies, 999);
    let sum_x: i128 = bodies.iter().map(|b| b.accumulated_force.x).sum();
    let sum_y: i128 = bodies.iter().map(|b| b.accumulated_force.y).sum();
    assert_eq!(sum_x, 0);
    assert_eq!(sum_y, 0);
}

#[test]
fn coincident_bodies_exert_no_force() {
    let mut bodies = vec![body_at(5, 5, 1), body_at(5, 5, 1)];
    accumulate_forces(&mut bodies, 1000);
    assert_eq!(bodies[0].accumulated_force.x, 0);
    assert_eq!(bodies[0].accumulated_force.y, 0);
    assert_eq!(bodies[1].accumulated_force.x, 0);
    assert_eq!(bodies[1].accumulated_force.y, 0);
}

#[test]
fn single_body_feels_nothing_and_stays_put() {
    let mut bodies = vec![body_at(42, -17, 7)];
    accumulate_forces(&mut bodies, 1000);
    assert_eq!(bodies[0].accumulated_force.x, 0);
    assert_eq!(bodies[0].accumulated_force.y, 0);
    integrate_bodies(&mut bodies, 1000);
    assert_eq!(bodies[0].position, Vec2i::new(42, -17));
    assert_eq!(bodies[0].previous_position, Vec2i::new(42, -17));
    assert_eq!(bodies[0].velocity, Vec2i::new(0, 0));
}

#[test]
fn mass_must_be_positive() {
    assert!(Body::try_new(Vec2i::new(0, 0), 0, 1).is_none());
    assert!(Body::try_new(Vec2i::new(0, 0), -5, 1).is_none());
    let b = Body::try_new(Vec2i::new(3, 4), 1, 1).unwrap();
    assert_eq!(b.mass, 1);
    assert_eq!(b.position, Vec2i::new(3, 4));
    assert_eq!(b.previous_position, Vec2i::new(3, 4));
    assert_eq!(b.velocity, Vec2i::new(0, 0));
    assert_eq!(b.accumulated_force.x, 0);
    assert_eq!(b.accumulated_force.y, 0);
}

#[test]
fn visual_scale_from_mass_and_density() {
    // floor cbrt of 3000*1000 / (12566*1) = floor cbrt of 238 = 6.
    let b = Body::new(Vec2i::new(0, 0), 1000, 1);
    assert_eq!(b.visual_scale, 6);
    // The interactive front end's spawn parameters give a sub-unit radius.
    let small = Body::new(Vec2i::new(0, 0), 4, 2);
    assert_eq!(small.visual_scale, 0);
}

#[test]
fn spawn_while_paused_inserts_but_nothing_moves() {
    let mut w = SimulationWorld::new(SimulationConfig::default());
    w.advance_time(120);
    assert!(w.handle_spawn_intent(true, Some(Vec2i::new(0, 0))));
    assert!(w.handle_spawn_intent(true, Some(Vec2i::new(10, 0))));
    w.toggle_pause();
    assert_eq!(w.current_mode(), SimulationMode::Paused);

    // A spawn intent while paused still inserts.
    assert!(w.handle_spawn_intent(true, Some(Vec2i::new(40, 40))));
    assert_eq!(w.body_count(), 3);

    // A pending fixed step is consumed while paused, but no body moves.
    assert!(w.step_if_due());
    for i in 0..3 {
        let b = w.body_at(i);
        assert_eq!(b.velocity, Vec2i::new(0, 0));
        assert_eq!(b.position, b.previous_position);
    }

    // Once running again, the next due step moves the two attracting
    // bodies toward each other.
    w.toggle_pause();
    assert_eq!(w.current_mode(), SimulationMode::Running);
    assert!(w.step_if_due());
    assert!(w.body_at(0).velocity.x > 0);
    assert!(w.body_at(1).velocity.x < 0);
}

#[test]
fn spawn_without_cursor_does_nothing() {
    let mut w = SimulationWorld::new(SimulationConfig::default());
    assert!(!w.handle_spawn_intent(true, None));
    assert!(!w.handle_spawn_intent(false, Some(Vec2i::new(0, 0))));
    assert_eq!(w.body_count(), 0);
}

#[test]
fn toggling_pause_twice_restores_everything() {
    let mut w = SimulationWorld::new(SimulationConfig::default());
    w.handle_spawn_intent(true, Some(Vec2i::new(-3, 9)));
    w.advance_time(70);
    let before = w.body_at(0);
    let wall = w.clock.wall_elapsed;
    let fixed = w.clock.fixed_elapsed;
    w.toggle_pause();
    w.toggle_pause();
    assert_eq!(w.current_mode(), SimulationMode::Running);
    assert_eq!(w.body_at(0), before);
    assert_eq!(w.clock.wall_elapsed, wall);
    assert_eq!(w.clock.fixed_elapsed, fixed);
    assert!(!w.clock.paused);
}

#[test]
fn paused_wall_clock_is_frozen() {
    let mut w = SimulationWorld::new(SimulationConfig::default());
    w.advance_time(30);
    w.toggle_pause();
    w.advance_time(500);
    assert_eq!(w.clock.wall_elapsed, 30);
    w.toggle_pause();
    w.advance_time(500);
    assert_eq!(w.clock.wall_elapsed, 530);
}

#[test]
fn fixed_steps_follow_wall_time() {
    let mut w = SimulationWorld::new(SimulationConfig::default());
    // Step size is 50 ticks; nothing is due before that much has elapsed.
    assert!(!w.step_if_due());
    w.advance_time(120);
    assert!(w.step_if_due());
    assert!(w.step_if_due());
    assert!(!w.step_if_due());
    assert_eq!(w.clock.fixed_elapsed, 100);
}
