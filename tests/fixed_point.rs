use planet_terrain::fixed::{
    clamp, cos_frac, cross_small, div_floor, fmul, isqrt, lerp, normalize, sin_frac, smoothstep,
    Vec3, ONE,
};

#[test]
fn div_floor_rounds_down() {
    assert_eq!(div_floor(7, 2), 3);
    assert_eq!(div_floor(-7, 2), -4);
    assert_eq!(div_floor(-8, 2), -4);
    assert_eq!(div_floor(0, 5), 0);
}

#[test]
fn fmul_products() {
    assert_eq!(fmul(ONE, ONE), ONE);
    assert_eq!(fmul(ONE / 2, ONE / 2), ONE / 4);
    assert_eq!(fmul(-1, 1), -1);
    assert_eq!(fmul(3 * ONE, -2 * ONE), -6 * ONE);
}

#[test]
fn clamp_and_lerp() {
    assert_eq!(clamp(5, 0, 3), 3);
    assert_eq!(clamp(-5, 0, 3), 0);
    assert_eq!(clamp(2, 0, 3), 2);
    assert_eq!(lerp(0, ONE, ONE / 4), ONE / 4);
    assert_eq!(lerp(ONE, -ONE, ONE / 2), 0);
    assert_eq!(lerp(-ONE, ONE, 0), -ONE);
}

#[test]
fn smoothstep_values() {
    assert_eq!(smoothstep(0, ONE, ONE / 2), ONE / 2);
    assert_eq!(smoothstep(0, ONE, -5), 0);
    assert_eq!(smoothstep(0, ONE, 2 * ONE), ONE);
    assert_eq!(smoothstep(0, ONE, ONE / 4), 10240);
}

#[test]
fn isqrt_values() {
    assert_eq!(isqrt(0), 0);
    assert_eq!(isqrt(1), 1);
    assert_eq!(isqrt(16), 4);
    assert_eq!(isqrt(17), 4);
    assert_eq!(isqrt(24), 4);
    assert_eq!(isqrt(25), 5);
    assert_eq!(isqrt(u64::MAX), 0xffff_ffff);
}

#[test]
fn normalize_values() {
    let r = normalize(Vec3 { x: 3, y: 4, z: 0 });
    assert_eq!(r, Vec3 { x: 39321, y: 52428, z: 0 });
    let z = normalize(Vec3 { x: 0, y: 0, z: 0 });
    assert_eq!(z, Vec3 { x: 0, y: 0, z: 0 });
    let up = normalize(Vec3 { x: 0, y: 7 * ONE, z: 0 });
    assert_eq!(up, Vec3 { x: 0, y: ONE, z: 0 });
}

#[test]
fn cross_of_axes() {
    let x = Vec3 { x: ONE, y: 0, z: 0 };
    let y = Vec3 { x: 0, y: ONE, z: 0 };
    assert_eq!(cross_small(x, y), Vec3 { x: 0, y: 0, z: ONE });
    assert_eq!(cross_small(y, x), Vec3 { x: 0, y: 0, z: -ONE });
}

#[test]
fn sine_and_cosine() {
    assert_eq!(sin_frac(0, 8), 0);
    assert_eq!(sin_frac(8, 8), 0);
    assert_eq!(sin_frac(4, 8), ONE);
    assert_eq!(sin_frac(12, 8), -ONE);
    assert_eq!(cos_frac(0, 8), ONE);
    assert_eq!(cos_frac(8, 8), -ONE);
    assert_eq!(cos_frac(4, 8), 0);
    assert_eq!(cos_frac(16, 8), ONE);
    // sin(pi / 6) is one half; the approximation is within a few thousandths.
    let s = sin_frac(1, 6);
    assert!((s - ONE / 2).abs() < 200, "{}", s);
}
