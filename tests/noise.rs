use planet_terrain::fixed::{Vec3, ONE};
use planet_terrain::noise::{domain_warp, fbm, hash, ridged_fbm, value_noise, GAIN, LACUNARITY};

#[test]
fn hash_is_deterministic_and_bounded() {
    for ix in -5i64..5 {
        for iy in -3i64..3 {
            let a = hash(ix, iy, 7, 42);
            let b = hash(ix, iy, 7, 42);
            assert_eq!(a, b);
            assert!(-ONE <= a && a <= ONE);
        }
    }
}

#[test]
fn hash_depends_on_seed_and_point() {
    let base = hash(1, 2, 3, 42);
    let mut differs_seed = false;
    let mut differs_point = false;
    for s in 0u32..16 {
        if hash(1, 2, 3, s) != base {
            differs_seed = true;
        }
        if hash(1, 2, 3 + s as i64, 42) != base {
            differs_point = true;
        }
    }
    assert!(differs_seed && differs_point);
}

#[test]
fn value_noise_matches_hash_at_lattice_points() {
    for i in -3i64..3 {
        let p = Vec3 { x: i * ONE, y: 2 * ONE, z: -ONE };
        assert_eq!(value_noise(p, 9), hash(i, 2, -1, 9));
    }
}

#[test]
fn fractal_layers_stay_in_range() {
    for seed in 0u32..40 {
        for k in -4i64..4 {
            let p = Vec3 { x: k * 20000, y: 3 * k * 7000 + 11, z: 5000 - k * 9000 };
            let f = fbm(p, seed, 5, LACUNARITY, GAIN);
            assert!(-ONE <= f && f <= ONE);
            let r = ridged_fbm(p, seed, 5, LACUNARITY, GAIN);
            assert!(0 <= r && r <= ONE);
        }
    }
}

#[test]
fn fbm_with_no_octaves_is_zero() {
    let p = Vec3 { x: 1234, y: 5678, z: 91011 };
    assert_eq!(fbm(p, 3, 0, LACUNARITY, GAIN), 0);
}

#[test]
fn fbm_with_one_octave_is_value_noise() {
    let p = Vec3 { x: 70000, y: -3000, z: 12345 };
    assert_eq!(fbm(p, 5, 1, LACUNARITY, GAIN), value_noise(p, 5));
}

#[test]
fn domain_warp_keeps_unit_length() {
    let dirs = [
        Vec3 { x: ONE, y: 0, z: 0 },
        Vec3 { x: 0, y: ONE, z: 0 },
        Vec3 { x: 0, y: 0, z: -ONE },
        Vec3 { x: 37837, y: 37837, z: 37837 },
    ];
    for seed in 0u32..20 {
        for d in dirs.iter() {
            let w = domain_warp(*d, seed);
            let len2 = (w.x * w.x + w.y * w.y + w.z * w.z) as f64;
            let len = len2.sqrt() / ONE as f64;
            assert!((len - 1.0).abs() < 0.001, "{}", len);
        }
    }
}
