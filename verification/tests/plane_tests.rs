use flight_dynamics::cockpit::Cockpit;
use flight_dynamics::engine::Engine;
use flight_dynamics::fixed::{Fx, fx_mul};
use flight_dynamics::plane::Plane;
use flight_dynamics::quat::Quat;
use flight_dynamics::vec3::V3;
use flight_dynamics::wing::Wing;

fn fx(v: f64) -> Fx {
    Fx((v * 1e9).round() as i64)
}

fn f(v: Fx) -> f64 {
    v.0 as f64 / 1e9
}

fn euler_quat(roll: f64, pitch: f64, yaw: f64) -> Quat {
    // intrinsic z-y-x composition of the three half-angle rotations
    let (cr, sr) = ((roll / 2.0).cos(), (roll / 2.0).sin());
    let (cp, sp) = ((pitch / 2.0).cos(), (pitch / 2.0).sin());
    let (cy, sy) = ((yaw / 2.0).cos(), (yaw / 2.0).sin());
    Quat {
        w: fx(cy * cp * cr + sy * sp * sr),
        x: fx(cy * cp * sr - sy * sp * cr),
        y: fx(cy * sp * cr + sy * cp * sr),
        z: fx(sy * cp * cr - cy * sp * sr),
    }
}

fn test_plane(position: V3, velocity: V3, pointing: Quat, engine: Engine) -> Plane {
    Plane::new(
        vec![Wing::new_area_only(fx(1.0))],
        fx(3.0),
        position,
        velocity,
        pointing,
        engine,
    )
}

#[test]
fn no_thrust() {
    let mut under_test = test_plane(
        V3::new(fx(0.0), fx(0.0), fx(-100.0)),
        V3::new(fx(10.0), fx(0.0), fx(0.0)),
        euler_quat(0.0, 0.0, 0.0),
        Engine::new(),
    );

    let handsfree = Cockpit::new();

    under_test.run_physics(fx(0.01), &handsfree);

    println!(
        "{:?}\n{:?}\n{:?}",
        under_test.position, under_test.velocity, under_test.acceleration
    );

    assert!(f(under_test.position.x) == 0.01 * 10.0);
    assert!(f(under_test.position.y) == 0.0);
    assert!((f(under_test.position.z) + 99.999).abs() < 1e-3);
}

#[test]
fn no_thrust_rotated() {
    let mut under_test = test_plane(
        V3::new(fx(0.0), fx(0.0), fx(-100.0)),
        V3::new(fx(0.0), fx(10.0), fx(0.0)),
        euler_quat(0.0, 0.0, std::f64::consts::FRAC_PI_2),
        Engine::new(),
    );

    let handsfree = Cockpit::new();

    under_test.run_physics(fx(0.01), &handsfree);

    println!(
        "{:?}\n{:?}\n{:?}",
        under_test.position, under_test.velocity, under_test.acceleration
    );

    assert!(f(under_test.position.y) == 0.01 * 10.0);
    assert!(f(under_test.position.x) == 0.0);
    assert!((f(under_test.position.z) + 99.999).abs() < 1e-3);
}

#[test]
fn some_thrust() {
    let mut under_test = test_plane(
        V3::new(fx(0.0), fx(0.0), fx(-100.0)),
        V3::new(fx(10.0), fx(0.0), fx(0.0)),
        euler_quat(0.0, 0.0, 0.0),
        Engine::new(),
    );
    let mut handsfree = Cockpit::new();
    handsfree.throttle = fx(0.1);

    under_test.run_physics(fx(0.01), &handsfree);

    println!(
        "{:?}\n{:?}\n{:?}",
        under_test.position, under_test.velocity, under_test.acceleration
    );

    assert!(f(under_test.position.y) == 0.0);
    assert!(f(under_test.velocity.y) == 0.0);
    assert!(f(under_test.acceleration.y) == 0.0);
    assert!(under_test.position.x == fx_mul(under_test.velocity.x, fx(0.01)));
}

#[test]
fn some_alpha() {
    let mut under_test = test_plane(
        V3::new(fx(0.0), fx(0.0), fx(-100.0)),
        V3::new(fx(10.0), fx(0.0), fx(0.0)),
        euler_quat(0.0, std::f64::consts::PI / 180.0, 0.0),
        Engine { max_thrust: fx(10.0) },
    );
    let mut handsfree = Cockpit::new();
    handsfree.throttle = fx(0.1);

    under_test.run_physics(fx(0.01), &handsfree);

    println!(
        "{:?}\n{:?}\n{:?}",
        under_test.position, under_test.velocity, under_test.acceleration
    );

    // gravity 29.43 N down, less the lift of a one-degree angle of
    // attack (6.125 N and its small rotation terms), less the vertical
    // share of the tilted one-newton thrust, over three kilograms
    assert!((f(under_test.acceleration.z) - 7.774106).abs() < 1e-4);
}

#[test]
fn hello() {
    let mut under_test = test_plane(
        V3::new(fx(0.0), fx(0.0), fx(100.0)),
        V3::new(fx(10.0), fx(0.0), fx(0.0)),
        euler_quat(0.0, 0.0, 0.0),
        Engine::new(),
    );

    let handsfree = Cockpit::new();

    under_test.run_physics(fx(0.01), &handsfree);
}

#[test]
fn free_fall_accelerates_by_gravity_exactly() {
    // Three kilograms divide the gravity force evenly, so the vertical
    // acceleration is exactly g and the first step adds exactly g * dt
    // of sink rate.
    let mut p = test_plane(
        V3::new(fx(0.0), fx(0.0), fx(-100.0)),
        V3::new(fx(10.0), fx(0.0), fx(0.0)),
        euler_quat(0.0, 0.0, 0.0),
        Engine::new(),
    );
    p.run_physics(fx(0.01), &Cockpit::new());
    assert_eq!(p.acceleration.z, fx(9.81));
    assert_eq!(p.velocity.z, fx(0.0981));
    assert_eq!(p.velocity.x, fx(10.0));
    assert_eq!(p.position.x, fx(0.1));
}

#[test]
fn orientation_stays_normalized_through_wild_flying() {
    let mut p = Plane::new_solid_guess();
    let mut c = Cockpit::new();
    c.throttle = fx(1.0);
    for i in 0..600 {
        c.zero();
        match i % 4 {
            0 => c.elevator = fx(-0.01),
            1 => c.roll = fx(0.01),
            2 => c.yaw = fx(0.01),
            _ => c.elevator = fx(0.01),
        }
        p.run_physics(fx(0.016), &c);
        let q = p.pointing;
        let n2 = (q.w.0 as f64 * q.w.0 as f64 + q.x.0 as f64 * q.x.0 as f64
            + q.y.0 as f64 * q.y.0 as f64 + q.z.0 as f64 * q.z.0 as f64)
            / 1e18;
        assert!((n2 - 1.0).abs() < 1e-7);
    }
}

#[test]
fn throttle_monotonically_raises_forward_acceleration() {
    let mut accels: Vec<f64> = Vec::new();
    for t in [0.0, 0.25, 0.5, 0.75, 1.0] {
        let mut p = test_plane(
            V3::new(fx(0.0), fx(0.0), fx(-100.0)),
            V3::new(fx(10.0), fx(0.0), fx(0.0)),
            euler_quat(0.0, 0.0, 0.0),
            Engine::new(),
        );
        let mut c = Cockpit::new();
        c.throttle = fx(t);
        p.run_physics(fx(0.01), &c);
        accels.push(f(p.acceleration.x));
    }
    for i in 1..accels.len() {
        assert!(accels[i] > accels[i - 1]);
    }
    // the thrust force itself, exactly
    let e = Engine::new();
    assert_eq!(e.force(fx(0.5)).x, fx(5_000.0));
    assert_eq!(e.force(fx(0.0)).x, fx(0.0));
}

#[test]
fn concrete_scenario_one_step() {
    // 3 kg, one square meter of wing, far above the ground, flying at
    // 10 m/s level: after a hundredth of a second the body has moved
    // exactly a tenth of a meter forward, nothing sideways, and gravity
    // dominates the vertical acceleration (the angle of attack is
    // exactly zero, so the lift is exactly zero).
    let mut p = test_plane(
        V3::new(fx(0.0), fx(0.0), fx(-100.0)),
        V3::new(fx(10.0), fx(0.0), fx(0.0)),
        euler_quat(0.0, 0.0, 0.0),
        Engine::new(),
    );
    p.run_physics(fx(0.01), &Cockpit::new());
    assert_eq!(p.position.x, fx(0.1));
    assert_eq!(p.position.y, fx(0.0));
    assert_eq!(p.velocity.y, fx(0.0));
    assert_eq!(p.acceleration.z, fx(9.81));
}

#[test]
fn key_commands_set_and_clamp_controls() {
    let mut c = Cockpit::new();
    // opening the throttle sets the lever to one
    c.apply_commands(true, false, false, false, false, false, false, false);
    assert_eq!(c.throttle, fx(1.0));
    // cutting wins over opening
    c.apply_commands(true, true, false, false, false, false, false, false);
    assert_eq!(c.throttle, fx(0.0));
    // an out-of-range lever is clamped even without a throttle key
    c.throttle = fx(3.0);
    c.apply_commands(false, false, false, false, false, false, false, false);
    assert_eq!(c.throttle, fx(1.0));
    c.throttle = fx(-0.5);
    c.apply_commands(false, false, false, false, false, false, false, false);
    assert_eq!(c.throttle, fx(0.0));
    // deflections take the fixed command magnitude, second key winning
    c.apply_commands(false, false, true, false, true, false, false, true);
    assert_eq!(c.yaw, fx(0.01));
    assert_eq!(c.elevator, fx(-0.01));
    assert_eq!(c.roll, fx(-0.01));
    c.apply_commands(false, false, true, true, true, true, true, false);
    assert_eq!(c.yaw, fx(-0.01));
    assert_eq!(c.elevator, fx(0.01));
    assert_eq!(c.roll, fx(0.01));
}

#[test]
fn cockpit_zero_keeps_throttle() {
    let mut c = Cockpit::new();
    c.throttle = fx(0.7);
    c.elevator = fx(0.01);
    c.roll = fx(-0.01);
    c.yaw = fx(0.01);
    c.zero();
    assert_eq!(c.throttle, fx(0.7));
    assert_eq!(c.elevator, fx(0.0));
    assert_eq!(c.roll, fx(0.0));
    assert_eq!(c.yaw, fx(0.0));
}
