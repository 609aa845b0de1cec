use planet_terrain::fixed::{Vec3, ONE};
use planet_terrain::height::WORLD_RADIUS;
use planet_terrain::input::{InputState, Key, Vec2, DIAGONAL};
use planet_terrain::morph::{MorphState, MAP_HEIGHT, MAP_WIDTH};
use planet_terrain::water::{Water, FLAT_WATER_OFFSET, GLOBE_WATER_OFFSET, WATER_RESOLUTION};

#[test]
fn morph_toggle_and_advance() {
    let mut m = MorphState::new();
    m.toggle(12345);
    assert_eq!(m.target, ONE);
    assert_eq!(m.rotation_offset, 12345);
    m.advance(ONE / 2);
    assert_eq!(m.blend, ONE / 2);
    m.advance(ONE / 2);
    assert_eq!(m.blend, 3 * ONE / 4);
    m.advance(ONE);
    assert_eq!(m.blend, ONE);
    m.toggle(999);
    assert_eq!(m.target, 0);
    assert_eq!(m.rotation_offset, 12345);
    m.advance(ONE / 4);
    assert_eq!(m.blend, 3 * ONE / 4);
    let u = m.uniform();
    assert_eq!(u.blend, 3 * ONE / 4);
    assert_eq!(u.rotation_offset, 12345);
    assert_eq!(u.map_width, MAP_WIDTH);
    assert_eq!(u.map_height, MAP_HEIGHT);
}

#[test]
fn keys_and_movement() {
    let mut input = InputState::new(ONE);
    assert!(input.handle_key(Key::W, true));
    input.update(ONE);
    assert_eq!(input.offset, Vec2 { x: 0, y: ONE });
    assert!(input.handle_key(Key::D, true));
    input.update(ONE);
    assert_eq!(input.offset, Vec2 { x: DIAGONAL, y: ONE + DIAGONAL });
    assert!(input.handle_key(Key::W, false));
    assert!(input.handle_key(Key::D, false));
    input.update(ONE);
    assert_eq!(input.offset, Vec2 { x: DIAGONAL, y: ONE + DIAGONAL });
    assert!(input.handle_key(Key::A, true));
    input.update(ONE / 2);
    assert_eq!(input.offset, Vec2 { x: DIAGONAL - ONE / 2, y: ONE + DIAGONAL });
}

#[test]
fn randomize_request_is_taken_once() {
    let mut input = InputState::new(ONE);
    assert!(!input.take_randomize());
    assert!(!input.handle_key(Key::R, false));
    assert!(!input.take_randomize());
    assert!(input.handle_key(Key::R, true));
    assert!(input.take_randomize());
    assert!(!input.take_randomize());
    assert!(!input.handle_key(Key::Other, true));
}

#[test]
fn water_sphere_layout() {
    let water = Water::new(0);
    let (v, ix) = (&water.vertices, &water.indices);
    let res = WATER_RESOLUTION;
    assert_eq!(v.len() as u32, res * (res + 1));
    assert_eq!(ix.len() as u32, 6 * (res - 1) * res);
    let radius = WORLD_RADIUS - GLOBE_WATER_OFFSET;
    assert_eq!(v[0].position, Vec3 { x: 0, y: radius, z: 0 });
    assert_eq!(v[v.len() - 1].position, Vec3 { x: 0, y: -radius, z: 0 });
    assert_eq!(v[0].flat_position, Vec3 { x: 0, y: 0, z: -FLAT_WATER_OFFSET });
    assert_eq!(v[res as usize].flat_position.x, ONE);
}
