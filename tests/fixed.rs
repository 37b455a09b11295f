use mpsc_queue::{Q64Vec, NORM_CAP, ONE_RAW, PI_OVER_TWO_RAW, PI_RAW, Q64};

fn to_f64(x: Q64) -> f64 {
    x.0 as f64 / ONE_RAW as f64
}

#[test]
fn test_square_roots() {
    for i in 0..1000 {
        let x = Q64::from_i32(i);
        let actual_square_root = to_f64(x).sqrt();
        let computed_square_root = to_f64(x.sqrt());
        assert!((actual_square_root - computed_square_root).abs() < 1e-6);
    }
}

#[test]
fn test_sin_cos() {
    for i in 0..1000 {
        let x = Q64::from_i32(i);
        let actual_sin = to_f64(x).sin();
        let computed_sin = to_f64(x.sin());
        assert!((actual_sin - computed_sin).abs() < 1e-3);
        let actual_cos = to_f64(x).cos();
        let computed_cos = to_f64(x.cos());
        assert!((actual_cos - computed_cos).abs() < 1e-3);
    }
}

#[test]
fn test_angle_to_vec() {
    for x in -50..50 {
        for y in -50..50 {
            let v = Q64Vec::from_i32(x, y);
            let mut actual_atan2 = to_f64(v.y).atan2(to_f64(v.x));
            if actual_atan2 < 0.0 {
                actual_atan2 += 2.0 * std::f64::consts::PI;
            }
            let computed_atan2 = to_f64(v.get_angle());
            assert!((actual_atan2 - computed_atan2).abs() < 5e-3);
        }
    }
}

#[test]
fn integer_conversions_round_down() {
    assert_eq!(Q64::from_i32(3).0, 3 * ONE_RAW);
    assert_eq!(Q64::from_i32(-2).to_i32(), -2);
    assert_eq!(Q64(ONE_RAW + ONE_RAW / 2).to_i32(), 1);
    assert_eq!(Q64(-ONE_RAW / 2).to_i32(), -1);
    assert_eq!(Q64::from_i32(i32::MIN).to_i32(), i32::MIN);
    assert_eq!(Q64::from_i32(i32::MAX).to_i32(), i32::MAX);
}

#[test]
fn arithmetic_on_raw_values() {
    let a = Q64::from_i32(6);
    let b = Q64::from_i32(-4);
    assert_eq!(a.add(b), Q64::from_i32(2));
    assert_eq!(a.sub(b), Q64::from_i32(10));
    assert_eq!(a.mul(b), Q64::from_i32(-24));
    assert_eq!(a.div(b), Q64(-3 * ONE_RAW / 2));
    assert_eq!(b.neg(), Q64::from_i32(4));
    assert_eq!(b.abs(), Q64::from_i32(4));
    // The product of the smallest positive number with itself rounds down to
    // zero, and with its negation down to minus epsilon.
    assert_eq!(Q64(1).mul(Q64(1)), Q64(0));
    assert_eq!(Q64(1).mul(Q64(-1)), Q64(-1));
    // Division rounds toward zero.
    assert_eq!(Q64(1).div(Q64::from_i32(3)), Q64(0));
    assert_eq!(Q64::from_i32(1).div(Q64::from_i32(3)), Q64(1431655765));
    assert_eq!(Q64::from_i32(-1).div(Q64::from_i32(3)), Q64(-1431655765));
}

#[test]
fn assigning_operators_update_in_place() {
    let mut x = Q64::from_i32(5);
    x.add_assign(Q64::from_i32(1));
    assert_eq!(x, Q64::from_i32(6));
    x.sub_assign(Q64::from_i32(2));
    assert_eq!(x, Q64::from_i32(4));
    x.mul_assign(Q64(ONE_RAW / 2));
    assert_eq!(x, Q64::from_i32(2));
    x.div_assign(Q64::from_i32(4));
    assert_eq!(x, Q64(ONE_RAW / 2));
}

#[test]
fn ceiling_division_rounds_up() {
    assert_eq!(Q64::from_i32(1).ceiling_div_by_positive(Q64::from_i32(3)), Q64(1431655766));
    assert_eq!(Q64::from_i32(6).ceiling_div_by_positive(Q64::from_i32(3)), Q64::from_i32(2));
    assert_eq!(Q64(1).ceiling_div_by_positive(Q64::from_i32(1000)), Q64(1));
    assert_eq!(Q64(0).ceiling_div_by_positive(Q64::from_i32(7)), Q64(0));
}

#[test]
fn square_roots_exact_values() {
    assert_eq!(Q64::from_i32(4).sqrt(), Q64::from_i32(2));
    assert_eq!(Q64::from_i32(0).sqrt(), Q64(0));
    assert_eq!(Q64(ONE_RAW / 4).sqrt(), Q64(ONE_RAW / 2));
    assert_eq!(Q64::from_i32(1_000_000).sqrt(), Q64::from_i32(1000));
    assert_eq!(Q64(i64::MAX).sqrt().to_i32(), 46340);
}

#[test]
fn sine_at_landmarks() {
    assert_eq!(Q64(0).sin(), Q64(0));
    assert_eq!(Q64(PI_RAW).sin(), Q64(0));
    let one = to_f64(Q64(PI_OVER_TWO_RAW).sin());
    assert!((one - 1.0).abs() < 1e-3);
    let minus_one = to_f64(Q64(-PI_OVER_TWO_RAW).sin());
    assert!((minus_one + 1.0).abs() < 1e-3);
    assert_eq!(Q64(PI_OVER_TWO_RAW).cos(), Q64(0));
    // Odd symmetry away from the fold points.
    let a = Q64::from_i32(1);
    assert_eq!(a.neg().sin(), a.sin().neg());
}

#[test]
fn angle_to_vec_is_cos_sin() {
    let a = Q64(PI_OVER_TWO_RAW / 3);
    let v = a.angle_to_vec();
    assert_eq!(v.x, a.cos());
    assert_eq!(v.y, a.sin());
    assert!((to_f64(v.x) - 0.8660254).abs() < 1e-3);
    assert!((to_f64(v.y) - 0.5).abs() < 1e-3);
}

#[test]
fn vector_arithmetic() {
    let a = Q64Vec::from_i32(1, -2);
    let b = Q64Vec::new(Q64::from_i32(3), Q64(ONE_RAW / 2));
    assert_eq!(a.add(b), Q64Vec::new(Q64::from_i32(4), Q64(-3 * ONE_RAW / 2)));
    assert_eq!(a.sub(b), Q64Vec::new(Q64::from_i32(-2), Q64(-5 * ONE_RAW / 2)));
    assert_eq!(a.neg(), Q64Vec::from_i32(-1, 2));
    assert_eq!(a.mul(Q64::from_i32(3)), Q64Vec::from_i32(3, -6));
    assert_eq!(a.div(Q64::from_i32(2)), Q64Vec::new(Q64(ONE_RAW / 2), Q64::from_i32(-1)));
    let mut c = a;
    c.add_assign(b);
    c.sub_assign(b);
    assert_eq!(c, a);
    c.mul_assign(Q64::from_i32(2));
    assert_eq!(c, Q64Vec::from_i32(2, -4));
    c.div_assign(Q64::from_i32(2));
    assert_eq!(c, a);
}

#[test]
fn norms() {
    let v = Q64Vec::from_i32(3, 4);
    assert_eq!(v.norm_squared(), Q64::from_i32(25));
    assert_eq!(v.norm(), Q64::from_i32(5));
    assert_eq!(Q64Vec::from_i32(0, 0).norm(), Q64(0));
    assert_eq!(Q64Vec::from_i32(30001, 0).norm(), Q64::from_i32(NORM_CAP));
    assert_eq!(Q64Vec::from_i32(-30000, 0).norm(), Q64::from_i32(30000));
}

#[test]
fn normalized_vectors() {
    let n = Q64Vec::from_i32(3, 4).normalized();
    assert_eq!(n.x, Q64::from_i32(3).div(Q64::from_i32(5)));
    assert_eq!(n.y, Q64::from_i32(4).div(Q64::from_i32(5)));
    assert_eq!(Q64Vec::from_i32(0, 0).normalized(), Q64Vec::from_i32(0, 0));
    assert_eq!(Q64Vec::from_i32(0, -7).normalized(), Q64Vec::from_i32(0, -1));
}

#[test]
fn angles_of_axis_vectors() {
    assert_eq!(Q64Vec::from_i32(0, 0).get_angle(), Q64(0));
    assert_eq!(Q64Vec::from_i32(1, 0).get_angle(), Q64(0));
    let up = to_f64(Q64Vec::from_i32(0, 1).get_angle());
    assert!((up - std::f64::consts::FRAC_PI_2).abs() < 1e-6);
    let left = to_f64(Q64Vec::from_i32(-1, 0).get_angle());
    assert!((left - std::f64::consts::PI).abs() < 1e-6);
    let down = to_f64(Q64Vec::from_i32(0, -1).get_angle());
    assert!((down - 3.0 * std::f64::consts::FRAC_PI_2).abs() < 1e-6);
}

#[test]
fn shifts_and_scaling() {
    let mut a = Q64::from_i32(3);
    assert_eq!(a.shl(2), Q64::from_i32(12));
    assert_eq!(a.shr(1), Q64(3 * ONE_RAW / 2));
    assert_eq!(Q64(-1).shr(5), Q64(-1));
    a.shl_assign(1);
    assert_eq!(a, Q64::from_i32(6));
    a.shr_assign(2);
    assert_eq!(a, Q64(3 * ONE_RAW / 2));
    let v = Q64Vec::from_i32(2, -3);
    assert_eq!(Q64::from_i32(2).mul_vec(v), Q64Vec::from_i32(4, -6));
}
