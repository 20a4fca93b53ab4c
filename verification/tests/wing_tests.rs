use flight_dynamics::fixed::Fx;
use flight_dynamics::vec3::V3;
use flight_dynamics::wing::Wing;

fn fx(v: f64) -> Fx {
    Fx((v * 1e9).round() as i64)
}

fn f(v: Fx) -> f64 {
    v.0 as f64 / 1e9
}

#[test]
fn unit_wing_right_numbers() {
    let under_test = Wing::new_area_only(fx(1.0));
    let straight_ahead = under_test.calculate(V3::new(fx(1.0), fx(0.0), fx(0.0)));
    assert!(f(straight_ahead.x).abs() < 1e-6);
    assert!(f(straight_ahead.y).abs() < 1e-6);
    assert!(f(straight_ahead.z).abs() < 1e-6);

    let deg_rad_conversion = std::f64::consts::PI / 180.0;

    let velocity_alpha_1 = V3::new(
        fx(1.0 * deg_rad_conversion.cos()),
        fx(0.0),
        fx(1.0 * deg_rad_conversion.sin()),
    );
    let alpha_1 = under_test.calculate(velocity_alpha_1);
    println!("{:?}", alpha_1);
    assert!((f(alpha_1.x) + 0.0006125).abs() < 1e-6);
    assert!((f(alpha_1.z) - 0.06125).abs() < 1e-6);
}

#[test]
fn level_wind_gives_no_force_in_any_direction() {
    // Zero, forward, backward and sideways winds with no vertical
    // component: the force is exactly zero each time.
    let w = Wing::new_area_only(fx(3.5));
    for wind in [
        V3::new(fx(0.0), fx(0.0), fx(0.0)),
        V3::new(fx(42.0), fx(0.0), fx(0.0)),
        V3::new(fx(-42.0), fx(0.0), fx(0.0)),
        V3::new(fx(10.0), fx(-7.0), fx(0.0)),
    ] {
        let force = w.calculate(wind);
        assert_eq!(force.x, Fx(0));
        assert_eq!(force.y, Fx(0));
        assert_eq!(force.z, Fx(0));
    }
}

#[test]
fn coefficients_at_the_stall_boundary() {
    let w = Wing::new_area_only(fx(1.0));
    // exactly fourteen degrees, both signs: the plateau branch
    assert_eq!(w.lift_coefficient(fx(14.0)), fx(0.5));
    assert_eq!(w.lift_coefficient(fx(-14.0)), fx(0.5));
    assert_eq!(w.drag_coefficient(fx(14.0)), fx(1.5));
    assert_eq!(w.drag_coefficient(fx(-14.0)), fx(1.5));
    // one fraction step inside: still the linear and quadratic branches
    assert_eq!(w.lift_coefficient(Fx(13_999_999_999)).0, 1_399_999_999);
    assert_eq!(w.lift_coefficient(Fx(-13_999_999_999)).0, -1_399_999_999);
    assert_eq!(w.drag_coefficient(Fx(13_999_999_999)).0, 195_999_999);
    // a plain value on the linear slope: a tenth per degree, exactly
    assert_eq!(w.lift_coefficient(fx(1.0)), fx(0.1));
    assert_eq!(w.drag_coefficient(fx(1.0)), fx(0.001));
    assert_eq!(w.lift_coefficient(fx(-3.0)), fx(-0.3));
}

#[test]
fn stalled_wing_uses_plateau_values() {
    // Thirty degrees of attack at 10 m/s on a unit wing:
    // q = 0.6125 * 100, lift = q * 0.5, drag = q * 1.5.
    let w = Wing::new_area_only(fx(1.0));
    let a = 30.0_f64.to_radians();
    let wind = V3::new(fx(10.0 * a.cos()), fx(0.0), fx(10.0 * a.sin()));
    let force = w.calculate(wind);
    assert!((f(force.z) - 30.625).abs() < 1e-3);
    assert!((f(force.x) + 91.875).abs() < 1e-3);
}
