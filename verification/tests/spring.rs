//! Spring solver behavior: convergence in every damping regime, immediate
//! rest at the target, and the easing curves' endpoints.

use drift::FX_ONE;
use drift::spring::SpringConfig;
use drift::spring::SpringSimulation;
use drift::spring::Vec2;
use drift::spring::instant_ease;
use drift::spring::spring_ease;
use drift::spring::spring_ease_out;

fn fx(v: f64) -> i64 {
    (v * 1_000_000.0).round() as i64
}

#[test]
fn spring_reaches_target() {
    let mut sim = SpringSimulation::new(SpringConfig::cursor_default());
    sim.set_position(Vec2 { x: 0, y: 0 });
    sim.set_target(Vec2 { x: fx(1.0), y: fx(1.0) });

    // Run for 2 seconds at ~60fps.
    for _ in 0..120 {
        sim.run(fx(16.67));
    }

    assert!((sim.position.x - fx(1.0)).abs() < fx(0.01));
    assert!((sim.position.y - fx(1.0)).abs() < fx(0.01));
}

#[test]
fn spring_at_rest_when_target_equals_position() {
    let mut sim = SpringSimulation::new(SpringConfig::cursor_default());
    sim.set_position(Vec2 { x: fx(0.5), y: fx(0.5) });
    sim.set_target(Vec2 { x: fx(0.5), y: fx(0.5) });
    assert!(sim.is_at_rest());
}

#[test]
fn spring_ease_reaches_one() {
    let result = spring_ease(fx(1.0), fx(200.0), fx(40.0), fx(2.25));
    assert!((result - fx(1.0)).abs() < fx(0.001));
}

#[test]
fn overdamped_converges() {
    let mut sim = SpringSimulation::new(SpringConfig {
        tension: fx(50.0),
        mass: fx(1.0),
        friction: fx(30.0), // heavily overdamped
    });
    sim.set_position(Vec2 { x: 0, y: 0 });
    sim.set_target(Vec2 { x: fx(1.0), y: 0 });

    for _ in 0..200 {
        sim.run(fx(16.67));
    }

    assert!((sim.position.x - fx(1.0)).abs() < fx(0.01));
}

#[test]
fn underdamped_converges_with_oscillation() {
    // Low friction: clearly underdamped, still settles.
    let mut sim = SpringSimulation::new(SpringConfig {
        tension: fx(100.0),
        mass: fx(1.0),
        friction: fx(8.0),
    });
    sim.set_position(Vec2 { x: 0, y: 0 });
    sim.set_target(Vec2 { x: fx(1.0), y: 0 });

    let mut overshot = false;
    for _ in 0..400 {
        sim.run(fx(16.67));
        if sim.position.x > fx(1.0) {
            overshot = true;
        }
    }

    assert!(overshot, "an underdamped spring must overshoot");
    assert!((sim.position.x - fx(1.0)).abs() < fx(0.01));
}

#[test]
fn one_long_step_settles_the_default_spring_exactly() {
    // With the default cursor spring, a single step of 1.4 seconds or
    // more deepens the decay past the fixed-point grid: the state lands
    // bit-exactly on the target, from anywhere.
    let mut sim = SpringSimulation::new(SpringConfig::cursor_default());
    sim.set_position(Vec2 { x: -fx(3.0), y: fx(7.5) });
    sim.set_velocity(Vec2 { x: fx(2.0), y: -fx(4.0) });
    sim.set_target(Vec2 { x: fx(0.25), y: fx(0.75) });
    sim.run(fx(1400.0));
    assert_eq!(sim.position, Vec2 { x: fx(0.25), y: fx(0.75) });
    assert_eq!(sim.velocity, Vec2 { x: 0, y: 0 });
}

#[test]
fn rest_snaps_exactly_onto_target() {
    let mut sim = SpringSimulation::new(SpringConfig::cursor_default());
    sim.set_position(Vec2 { x: fx(0.2), y: fx(0.7) });
    sim.set_target(Vec2 { x: fx(0.4), y: fx(0.4) });
    for _ in 0..600 {
        sim.run(fx(16.67));
    }
    // After settling the state is bit-exact on the target: no micro-drift.
    assert_eq!(sim.position, sim.target);
    assert_eq!(sim.velocity, Vec2 { x: 0, y: 0 });
}

#[test]
fn run_rejects_non_positive_steps() {
    let mut sim = SpringSimulation::new(SpringConfig::cursor_default());
    sim.set_position(Vec2 { x: fx(0.1), y: fx(0.2) });
    sim.set_target(Vec2 { x: fx(0.9), y: fx(0.9) });
    let before = sim.position;
    sim.run(0);
    sim.run(-fx(5.0));
    assert_eq!(sim.position, before);
}

#[test]
fn ease_curves_are_pinned_at_the_endpoints() {
    let (k, d, m) = (fx(120.0), fx(32.0), fx(2.5));
    assert_eq!(spring_ease(0, k, d, m), 0);
    assert_eq!(spring_ease(-fx(0.5), k, d, m), 0);
    assert_eq!(spring_ease(fx(1.0), k, d, m), FX_ONE);
    assert_eq!(spring_ease_out(0, k, d, m), 0);
    assert_eq!(spring_ease_out(fx(1.0), k, d, m), FX_ONE);
    // The softened release curve lags the attack curve mid-transition.
    assert!(spring_ease_out(fx(0.3), k, d, m) < spring_ease(fx(0.3), k, d, m));
}

#[test]
fn instant_ease_is_the_exact_hermite_blend() {
    assert_eq!(instant_ease(fx(0.5)), fx(0.5));
    assert_eq!(instant_ease(0), 0);
    assert_eq!(instant_ease(fx(2.0)), FX_ONE);
    assert_eq!(instant_ease(fx(0.25)), 156_250); // 0.25^2 * (3 - 0.5)
}

#[test]
fn drag_preset_is_the_scaled_default() {
    let drag = SpringConfig::cursor_default().scaled(fx(0.8), fx(1.2), fx(1.3));
    assert_eq!(drag, SpringConfig::cursor_drag());
}

#[test]
fn scaled_clamps_the_mass_floor() {
    let tiny = SpringConfig::cursor_default().scaled(fx(1.0), 0, fx(1.0));
    assert_eq!(tiny.mass, 1000); // 0.001 in fixed point
}
