use planet_terrain::fixed::ONE;
use planet_terrain::settings::{TerrainSettings, BEACH_MAX_HEIGHT_LIMIT, LAND_BIAS_MAX, LAND_BIAS_MIN};

fn settings(beach: i64, desert: i64, semi: i64, bias: i64) -> TerrainSettings {
    TerrainSettings {
        beach_max_height: beach,
        desert_moisture_max: desert,
        semi_arid_moisture_max: semi,
        land_elevation_bias: bias,
    }
}

#[test]
fn semi_arid_raised_to_desert() {
    // desert 0.9, semi-arid 0.1
    let (out, changed) = settings(1311, 58982, 6554, 0).validate();
    assert_eq!(out.semi_arid_moisture_max, 58982);
    assert_eq!(out.desert_moisture_max, 58982);
    assert!(changed);
}

#[test]
fn adversarial_ordering_is_fixed() {
    let (out, changed) = settings(0, ONE, 0, 0).validate();
    assert!(out.semi_arid_moisture_max >= out.desert_moisture_max);
    assert_eq!(out.semi_arid_moisture_max, ONE);
    assert!(changed);
    let (out, _) = settings(i64::MAX, i64::MAX, i64::MIN, i64::MIN).validate();
    assert!(out.semi_arid_moisture_max >= out.desert_moisture_max);
    assert_eq!(out.beach_max_height, BEACH_MAX_HEIGHT_LIMIT);
    assert_eq!(out.land_elevation_bias, LAND_BIAS_MIN);
}

#[test]
fn valid_settings_are_unchanged() {
    let s = TerrainSettings::new();
    let (out, changed) = s.validate();
    assert_eq!(out, s);
    assert!(!changed);
}

#[test]
fn each_field_is_clamped() {
    let (out, changed) = settings(-1, -5, 2 * ONE, 100_000).validate();
    assert_eq!(out.beach_max_height, 0);
    assert_eq!(out.desert_moisture_max, 0);
    assert_eq!(out.semi_arid_moisture_max, ONE);
    assert_eq!(out.land_elevation_bias, LAND_BIAS_MAX);
    assert!(changed);
}

#[test]
fn validation_is_idempotent() {
    let (once, _) = settings(9999, 40000, 100, -9999).validate();
    let (twice, changed) = once.validate();
    assert_eq!(once, twice);
    assert!(!changed);
}
