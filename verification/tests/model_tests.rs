use flight_dynamics::angle::alpha_deg_of;
use flight_dynamics::quat::Quat;
use flight_dynamics::vec3::V3;
use flight_dynamics::fixed::{Fx, fx_add, fx_div, fx_mul, fx_sub};
use flight_dynamics::ground::GroundContact;
use flight_dynamics::sqrt::isqrt;

fn fx(v: f64) -> Fx {
    Fx((v * 1e9).round() as i64)
}

fn f(v: Fx) -> f64 {
    v.0 as f64 / 1e9
}

#[test]
fn fixed_point_arithmetic_exact_values() {
    assert_eq!(fx_mul(fx(2.0), fx(3.0)), fx(6.0));
    assert_eq!(fx_mul(fx(-2.0), fx(3.0)), fx(-6.0));
    assert_eq!(fx_add(fx(1.5), fx(2.25)), fx(3.75));
    assert_eq!(fx_sub(fx(1.0), fx(4.0)), fx(-3.0));
    // products of sub-unit values truncate toward zero
    assert_eq!(fx_mul(Fx(1), Fx(1)), Fx(0));
    assert_eq!(fx_div(fx(1.0), fx(3.0)), Fx(333_333_333));
    assert_eq!(fx_div(fx(-1.0), fx(3.0)), Fx(-333_333_333));
    // sums saturate instead of wrapping
    assert_eq!(fx_add(Fx(i64::MAX), Fx(1)), Fx(i64::MAX));
    assert_eq!(fx_sub(Fx(i64::MIN), Fx(1)), Fx(i64::MIN));
}

#[test]
fn integer_square_roots_are_floors() {
    assert_eq!(isqrt(0), 0);
    assert_eq!(isqrt(1), 1);
    assert_eq!(isqrt(2), 1);
    assert_eq!(isqrt(4), 2);
    assert_eq!(isqrt(99), 9);
    assert_eq!(isqrt(100), 10);
    assert_eq!(isqrt(10_000_000_000_000_000_000_000_000_000), 100_000_000_000_000);
    assert_eq!(isqrt(u128::MAX), (1u128 << 64) - 1);
}

#[test]
fn angle_of_attack_reference_values() {
    // the all-zero and level winds are defined as zero angle
    assert_eq!(alpha_deg_of(Fx(0), Fx(0)), Fx(0));
    assert_eq!(alpha_deg_of(Fx(0), fx(12.0)), Fx(0));
    assert_eq!(alpha_deg_of(Fx(0), fx(-5.0)), Fx(0));
    // a purely vertical wind is a right angle
    assert_eq!(alpha_deg_of(fx(3.0), Fx(0)), fx(90.0));
    assert_eq!(alpha_deg_of(fx(-3.0), Fx(0)), fx(-90.0));
    // forty-five degrees, within a millionth of a degree
    assert!((f(alpha_deg_of(fx(1.0), fx(1.0))) - 45.0).abs() < 1e-6);
    // thirty degrees from its tangent
    let t30 = (std::f64::consts::PI / 6.0).tan();
    assert!((f(alpha_deg_of(fx(t30), fx(1.0))) - 30.0).abs() < 1e-6);
    // one degree, the value the wing model leans on
    let t1 = (std::f64::consts::PI / 180.0).tan();
    assert!((f(alpha_deg_of(fx(t1), fx(1.0))) - 1.0).abs() < 1e-6);
    // odd symmetry
    assert_eq!(
        alpha_deg_of(fx(-0.3), fx(1.0)).0,
        -alpha_deg_of(fx(0.3), fx(1.0)).0
    );
}

#[test]
fn ground_contact_reactivity() {
    let g = GroundContact::new();
    // strictly above the plane: exactly zero, whatever the speed
    assert_eq!(g.vertical_force(fx(-1.000000001), fx(0.0)), Fx(0));
    assert_eq!(g.vertical_force(fx(-50.0), fx(9.0)), Fx(0));
    // strictly below and sinking: a positive push back
    assert!(g.vertical_force(fx(-0.999999999), fx(0.0)).0 > 0);
    assert!(g.vertical_force(fx(0.0), fx(2.0)).0 > 0);
    // spring alone: 15000 N per meter of penetration
    assert_eq!(g.vertical_force(fx(-0.5), fx(0.0)), fx(7_500.0));
    // damper alone at the boundary, and continuity for a resting touch
    assert_eq!(g.vertical_force(fx(-1.0), fx(2.0)), fx(3_000.0));
    assert_eq!(g.vertical_force(fx(-1.0), fx(0.0)), Fx(0));
}

#[test]
fn quaternion_rotation_reference_values() {
    // a quarter turn about z carries the world y axis onto the body x axis
    let k = (std::f64::consts::FRAC_PI_4).cos();
    let q = Quat { w: fx(k), x: Fx(0), y: Fx(0), z: fx(k) };
    let v = q.rotate(V3::new(fx(0.0), fx(10.0), fx(0.0)));
    assert!((f(v.x) + 10.0).abs() < 1e-6);
    assert!(f(v.y).abs() < 1e-6);
    assert_eq!(v.z, Fx(0));
    // the conjugate undoes the rotation direction
    let v2 = q.conjugate().rotate(V3::new(fx(0.0), fx(10.0), fx(0.0)));
    assert!((f(v2.x) - 10.0).abs() < 1e-6);
    // the identity moves nothing
    let id = Quat { w: fx(1.0), x: Fx(0), y: Fx(0), z: Fx(0) };
    let v3 = id.rotate(V3::new(fx(1.0), fx(-2.0), fx(3.0)));
    assert_eq!(v3.x, fx(1.0));
    assert_eq!(v3.y, fx(-2.0));
    assert_eq!(v3.z, fx(3.0));
}
