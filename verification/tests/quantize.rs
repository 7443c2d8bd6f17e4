use vmesh::fp::{Fp, quantize_time, quantize_quat_component};
use vmesh::coord::{Vec3, Quat, ShortQuat, to_rf_vec, to_rf_quat, quantize_quat};

fn fp(m: i64, e: i32) -> Fp {
    Fp { m, e }
}

fn q(x: Fp, y: Fp, z: Fp, w: Fp) -> Quat {
    Quat { x, y, z, w }
}

#[test]
fn quantize_time_zero_is_zero() {
    assert_eq!(quantize_time(fp(0, 0)), 0);
}

#[test]
fn quantize_time_one_second_is_4800() {
    assert_eq!(quantize_time(fp(1, 0)), 4800);
}

#[test]
fn quantize_time_half_second() {
    assert_eq!(quantize_time(fp(1, -1)), 2400);
}

#[test]
fn quantize_time_truncates_toward_zero() {
    // 1/8192 s is 0.5859 ticks: truncates to 0, from both sides
    assert_eq!(quantize_time(fp(1, -13)), 0);
    assert_eq!(quantize_time(fp(-1, -13)), 0);
    assert_eq!(quantize_time(fp(-1, -1)), -2400);
    // 3/4096 s is 3.515 ticks
    assert_eq!(quantize_time(fp(3, -12)), 3);
    assert_eq!(quantize_time(fp(-3, -12)), -3);
}

#[test]
fn quantize_time_monotonic_samples() {
    let samples = [fp(0, 0), fp(1, -13), fp(1, -1), fp(3, -1), fp(2, 0), fp(3, 0)];
    let mut last = i32::MIN;
    for s in samples {
        let t = quantize_time(s);
        assert!(t >= last);
        last = t;
    }
}

#[test]
fn quantize_quat_component_extremes() {
    assert_eq!(quantize_quat_component(fp(1, 0)), 16383);
    assert_eq!(quantize_quat_component(fp(-1, 0)), -16383);
    assert_eq!(quantize_quat_component(fp(0, 0)), 0);
    // 0.5 * 16383 = 8191.5, truncated toward zero from both sides
    assert_eq!(quantize_quat_component(fp(1, -1)), 8191);
    assert_eq!(quantize_quat_component(fp(-1, -1)), -8191);
}

#[test]
fn quantize_quat_unit_axis() {
    let r = quantize_quat(q(fp(1, 0), fp(0, 0), fp(0, 0), fp(0, 0)));
    assert_eq!(r, ShortQuat { x: 16383, y: 0, z: 0, w: 0 });
}

#[test]
fn quantize_quat_components_within_range() {
    let components = [fp(1, 0), fp(-1, 0), fp(1, -1), fp(-3, -2), fp(0, 0), fp(1, -24)];
    for c in components {
        let v = quantize_quat_component(c);
        assert!((-16383..=16383).contains(&v));
    }
}

#[test]
fn to_rf_vec_swaps_y_and_z() {
    let v = Vec3 { x: fp(1, 0), y: fp(2, 0), z: fp(3, 0) };
    let r = to_rf_vec(v);
    assert_eq!(r, Vec3 { x: fp(1, 0), y: fp(3, 0), z: fp(2, 0) });
}

#[test]
fn to_rf_quat_swaps_and_negates_axis() {
    let r = to_rf_quat(q(fp(1, 0), fp(2, 0), fp(3, 0), fp(4, 0)));
    assert_eq!(r, q(fp(-1, 0), fp(-3, 0), fp(-2, 0), fp(4, 0)));
}
