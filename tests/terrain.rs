use planet_terrain::settings::TerrainSettings;
use planet_terrain::terrain::{Terrain, GRID_RESOLUTION};

#[test]
fn new_validates_settings() {
    let mut s = TerrainSettings::new();
    s.desert_moisture_max = 58982;
    s.semi_arid_moisture_max = 6554;
    let t = Terrain::new(3, s, 4);
    assert_eq!(t.settings().semi_arid_moisture_max, 58982);
    assert_eq!(t.resolution(), 4);
    assert_eq!(t.index_count(), 6 * 3 * 4);
}

#[test]
fn randomize_records_seed_and_keeps_topology() {
    let mut t = Terrain::new(1, TerrainSettings::new(), 6);
    let indices = t.indices().clone();
    let count = t.vertices().len();
    let seed = t.randomize();
    assert_eq!(t.seed(), seed);
    assert_eq!(t.indices(), &indices);
    assert_eq!(t.vertices().len(), count);
    let rebuilt = Terrain::new(seed, TerrainSettings::new(), 6);
    assert_eq!(rebuilt.vertices(), t.vertices());
}

#[test]
fn set_settings_reports_change() {
    let mut t = Terrain::new(5, TerrainSettings::new(), 5);
    assert!(!t.set_settings(TerrainSettings::new()));
    let mut s = TerrainSettings::new();
    s.beach_max_height = 5000;
    assert!(t.set_settings(s));
    assert_eq!(t.settings().beach_max_height, 5000);
    assert!(!t.set_settings(s));
    let fresh = Terrain::new(5, s, 5);
    assert_eq!(fresh.vertices(), t.vertices());
}

#[test]
fn full_resolution_builds() {
    let t = Terrain::new(42, TerrainSettings::new(), GRID_RESOLUTION);
    assert_eq!(t.vertices().len() as u32, GRID_RESOLUTION * (GRID_RESOLUTION + 1));
    assert_eq!(t.index_count(), 6 * (GRID_RESOLUTION - 1) * GRID_RESOLUTION);
}
