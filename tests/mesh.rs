use planet_terrain::biome::Biome;
use planet_terrain::fixed::{normalize, Vec3, ONE};
use planet_terrain::height::{HEIGHT_AMPLITUDE, MAX_ELEVATION, WORLD_RADIUS};
use planet_terrain::mesh::{build_indices, build_vertices};
use planet_terrain::settings::TerrainSettings;
use planet_terrain::terrain::Terrain;

#[test]
fn build_is_deterministic() {
    let s = TerrainSettings::new();
    let a = build_vertices(42, &s, 8);
    let b = build_vertices(42, &s, 8);
    assert_eq!(a, b);
    assert_eq!(build_indices(8), build_indices(8));
    let c = build_vertices(43, &s, 8);
    assert_ne!(a, c);
}

#[test]
fn rebuild_with_fixed_seed_is_identical() {
    let s = TerrainSettings::new();
    let first = Terrain::new(7, s, 16);
    let mut second = Terrain::new(99, s, 16);
    second.reseed(7);
    assert_eq!(first.vertices(), second.vertices());
    assert_eq!(first.indices(), second.indices());
    assert_eq!(second.seed(), 7);
}

#[test]
fn counts_follow_resolution() {
    let s = TerrainSettings::new();
    for res in [2u32, 3, 8, 13] {
        let v = build_vertices(1, &s, res);
        let ix = build_indices(res);
        assert_eq!(v.len() as u32, res * (res + 1));
        assert_eq!(ix.len() as u32, 6 * (res - 1) * res);
        assert!(ix.iter().all(|&i| i < res * (res + 1)));
    }
}

#[test]
fn seam_column_repeats_column_zero() {
    let s = TerrainSettings::new();
    let res = 8u32;
    let cols = (res + 1) as usize;
    for seed in [0u32, 42, 0xdead_beef] {
        let v = build_vertices(seed, &s, res);
        for row in 0..res as usize {
            let first = v[row * cols];
            let seam = v[row * cols + res as usize];
            assert_eq!(first.position, seam.position);
            assert_eq!(first.normal, seam.normal);
            assert_eq!(first.color, seam.color);
            assert_eq!(first.flat_position.y, seam.flat_position.y);
            assert_eq!(first.flat_position.z, seam.flat_position.z);
            assert_eq!(first.flat_position.x, 0);
            assert_eq!(seam.flat_position.x, ONE);
        }
    }
}

#[test]
fn pole_normals_are_radial() {
    let s = TerrainSettings::new();
    let res = 8u32;
    let cols = (res + 1) as usize;
    let v = build_vertices(5, &s, res);
    for col in 0..cols {
        for row in [0usize, res as usize - 1] {
            let p = v[row * cols + col];
            assert_eq!(p.normal, normalize(p.position));
        }
    }
    assert_eq!(v[0].normal, Vec3 { x: 0, y: ONE, z: 0 });
    assert_eq!(v[v.len() - 1].normal, Vec3 { x: 0, y: -ONE, z: 0 });
}

#[test]
fn interior_normals_point_outward() {
    let s = TerrainSettings::new();
    let v = build_vertices(11, &s, 12);
    for p in v.iter() {
        let dot = p.normal.x * p.position.x + p.normal.y * p.position.y + p.normal.z * p.position.z;
        assert!(dot > 0);
    }
}

#[test]
fn elevations_within_headroom() {
    let s = TerrainSettings::new();
    for seed in 0u32..20 {
        let v = build_vertices(seed.wrapping_mul(0x9e37_79b9), &s, 6);
        for p in v.iter() {
            assert!(p.flat_position.z.abs() <= MAX_ELEVATION);
            assert!(p.flat_position.z.abs() <= 2 * HEIGHT_AMPLITUDE);
        }
    }
}

#[test]
fn triangles_of_first_quad() {
    let ix = build_indices(4);
    assert_eq!(&ix[0..6], &[0, 1, 5, 1, 6, 5]);
    // second row, second column
    let q = 4 + 1;
    assert_eq!(&ix[6 * q..6 * q + 6], &[6, 7, 11, 7, 12, 11]);
}

#[test]
fn seed_42_first_vertex() {
    let s = TerrainSettings::new();
    let v = build_vertices(42, &s, 8);
    let v0 = v[0];
    // The first vertex is the north pole.
    assert_eq!(v0.position.x, 0);
    assert_eq!(v0.position.z, 0);
    assert_eq!(v0.position.y, WORLD_RADIUS + v0.flat_position.z);
    assert_eq!(v0.flat_position.x, 0);
    assert_eq!(v0.flat_position.y, 0);
    assert_eq!(v0.flat_position.z, -18705);
    assert_eq!(v0.position.y, WORLD_RADIUS - 18705);
    assert_eq!(v0.color, Biome::ShallowOcean.color());
}

#[test]
fn triangles_wind_outward() {
    let s = TerrainSettings::new();
    let v = build_vertices(21, &s, 10);
    let ix = build_indices(10);
    let as_f = |p: Vec3| [p.x as f64, p.y as f64, p.z as f64];
    for t in ix.chunks(3) {
        let a = as_f(v[t[0] as usize].position);
        let b = as_f(v[t[1] as usize].position);
        let c = as_f(v[t[2] as usize].position);
        let u = [b[0] - a[0], b[1] - a[1], b[2] - a[2]];
        let w = [c[0] - a[0], c[1] - a[1], c[2] - a[2]];
        let n = [u[1] * w[2] - u[2] * w[1], u[2] * w[0] - u[0] * w[2], u[0] * w[1] - u[1] * w[0]];
        let area2 = n[0] * n[0] + n[1] * n[1] + n[2] * n[2];
        if area2 == 0.0 {
            // Quads touching a pole collapse one of their triangles.
            continue;
        }
        let centre = [a[0] + b[0] + c[0], a[1] + b[1] + c[1], a[2] + b[2] + c[2]];
        assert!(n[0] * centre[0] + n[1] * centre[1] + n[2] * centre[2] > 0.0);
    }
}
