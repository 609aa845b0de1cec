use planet_terrain::biome::{classify, color_for, Biome, Rgb};
use planet_terrain::fixed::{normalize, Vec3, ONE};
use planet_terrain::height::{sample, Seeds, HEIGHT_AMPLITUDE, MAX_ELEVATION};
use planet_terrain::settings::{TerrainSettings, LAND_BIAS_MAX, LAND_BIAS_MIN};

fn directions() -> Vec<Vec3> {
    let mut out = Vec::new();
    for i in -3i64..=3 {
        for j in -3i64..=3 {
            out.push(normalize(Vec3 { x: i * 9000 + 1, y: j * 9000, z: 20000 - i * j * 1000 }));
        }
    }
    out
}

#[test]
fn seeds_are_expanded_by_xor() {
    let s = Seeds::from_seed(42);
    assert_eq!(s.continent, 42 ^ 0x1b87_3593);
    assert_eq!(s.hill, 42 ^ 0x68e3_1da4);
    assert_eq!(s.mountain, 42 ^ 0xb529_7a4d);
    assert_eq!(s.detail, 42 ^ 0x1b56_c4e9);
    assert_eq!(s.moisture, 42 ^ 0x7fe0_6a37);
    assert_eq!(s.warp, 42 ^ 0xe654_6b64);
    let t = Seeds::from_seed(43);
    assert_ne!(s, t);
}

#[test]
fn elevation_within_headroom_for_many_seeds() {
    let dirs = directions();
    for seed in 0u32..10_000 {
        let seeds = Seeds::from_seed(seed.wrapping_mul(2654435761));
        let d = dirs[seed as usize % dirs.len()];
        let bias = [LAND_BIAS_MIN, 0, LAND_BIAS_MAX][seed as usize % 3];
        let s = sample(d, &seeds, bias);
        assert!(s.elevation.abs() <= MAX_ELEVATION);
        assert!(s.elevation.abs() <= 2 * HEIGHT_AMPLITUDE);
    }
}

#[test]
fn moisture_within_unit_range() {
    let dirs = directions();
    for seed in 0u32..300 {
        let seeds = Seeds::from_seed(seed ^ 0x5555);
        for d in dirs.iter().step_by(5) {
            let s = sample(*d, &seeds, 0);
            assert!(0 <= s.moisture && s.moisture <= ONE);
        }
    }
}

#[test]
fn sample_is_deterministic() {
    let seeds = Seeds::from_seed(42);
    for d in directions() {
        assert_eq!(sample(d, &seeds, 0), sample(d, &seeds, 0));
    }
}

#[test]
fn bias_raises_land() {
    let mut low = 0;
    let mut high = 0;
    for seed in 0u32..40 {
        let seeds = Seeds::from_seed(seed);
        for d in directions() {
            if sample(d, &seeds, LAND_BIAS_MIN).elevation > 0 {
                low += 1;
            }
            if sample(d, &seeds, LAND_BIAS_MAX).elevation > 0 {
                high += 1;
            }
        }
    }
    assert!(high > low, "{} {}", high, low);
}

#[test]
fn biome_cascade_precedence() {
    let s = TerrainSettings::new();
    let equator = Vec3 { x: ONE, y: 0, z: 0 };
    let pole = Vec3 { x: 0, y: ONE, z: 0 };
    assert_eq!(classify(-HEIGHT_AMPLITUDE, equator, 0, &s), Biome::DeepOcean);
    assert_eq!(classify(-100, equator, ONE, &s), Biome::ShallowOcean);
    assert_eq!(classify(0, equator, ONE, &s), Biome::Beach);
    assert_eq!(classify(0, pole, ONE, &s), Biome::Beach);
    assert_eq!(classify(HEIGHT_AMPLITUDE / 10, pole, ONE, &s), Biome::Snow);
    assert_eq!(classify(HEIGHT_AMPLITUDE, equator, 0, &s), Biome::Rock);
    assert_eq!(classify(HEIGHT_AMPLITUDE / 10, equator, 0, &s), Biome::Desert);
    assert_eq!(classify(HEIGHT_AMPLITUDE / 10, equator, 20000, &s), Biome::Grassland);
    assert_eq!(classify(HEIGHT_AMPLITUDE / 10, equator, 40000, &s), Biome::Forest);
}

#[test]
fn moisture_thresholds_follow_settings() {
    let mut s = TerrainSettings::new();
    s.desert_moisture_max = 58982;
    s.semi_arid_moisture_max = 58982;
    let equator = Vec3 { x: ONE, y: 0, z: 0 };
    assert_eq!(classify(HEIGHT_AMPLITUDE / 10, equator, 40000, &s), Biome::Desert);
    assert_eq!(classify(HEIGHT_AMPLITUDE / 10, equator, 60000, &s), Biome::Forest);
}

#[test]
fn colour_is_the_biome_colour() {
    let s = TerrainSettings::new();
    let equator = Vec3 { x: ONE, y: 0, z: 0 };
    assert_eq!(color_for(-HEIGHT_AMPLITUDE, equator, 0, &s), Biome::DeepOcean.color());
    assert_eq!(Biome::Forest.color(), Rgb { r: 9830, g: 29491, b: 11796 });
    assert_eq!(Biome::Beach.color(), Rgb { r: 53740, g: 49807, b: 34079 });
    assert_ne!(Biome::Desert.color(), Biome::Grassland.color());
}
