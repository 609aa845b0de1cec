//! The water sphere drawn at sea level, with the same grid layout as the terrain.
use vstd::prelude::*;
use crate::fixed::{scale, scale_spec, vec3, Vec3, ONE};
use crate::height::WORLD_RADIUS;
use crate::mesh::{
    build_indices, col_of, grid_direction, grid_direction_spec, indices_match,
    lemma_grid_coords, row_of, valid_resolution, vertex_count,
};

verus! {

/// Grid resolution of the water sphere.
pub const WATER_RESOLUTION: u32 = 128;

/// How far the globe's water surface sits below the given water level.
pub const GLOBE_WATER_OFFSET: i64 = 39322;

/// How far the flat map's water surface sits below the given water level.
pub const FLAT_WATER_OFFSET: i64 = 78643;

/// Largest magnitude of a water level.
pub const MAX_WATER_LEVEL: i64 = 0x8_0000;

/// A water vertex: sphere position and flat-map position.
#[derive(Clone, Copy, Debug, PartialEq, Eq, Structural)]
pub struct WaterVertex {
    pub position: Vec3,
    pub flat_position: Vec3,
}

pub open spec fn water_vertex_spec(res: int, radius: int, flat_height: int, row: int, col: int) -> WaterVertex {
    WaterVertex {
        position: scale_spec(grid_direction_spec(row, col, res), radius),
        flat_position: vec3((col * ONE) / res, (row * ONE) / (res - 1), flat_height),
    }
}

pub open spec fn water_vertices_match(v: Seq<WaterVertex>, res: int, radius: int, flat_height: int) -> bool {
    &&& v.len() == vertex_count(res)
    &&& forall|i: int|
        0 <= i < v.len() ==> #[trigger] v[i] == water_vertex_spec(
            res,
            radius,
            flat_height,
            row_of(i, res),
            col_of(i, res),
        )
}

/// The vertices of a sphere of `radius` on the terrain's grid, with the flat-map elevation
/// `flat_height` everywhere.
pub fn build_water_vertices(res: u32, radius: i64, flat_height: i64) -> (r: Vec<WaterVertex>)
    requires
        valid_resolution(res as int),
        0 <= radius <= 0x1000_0000,
    ensures
        water_vertices_match(r@, res as int, radius as int, flat_height as int),
{
    let cols: u32 = res + 1;
    assert(res * cols <= 1024 * 1025) by (nonlinear_arith)
        requires
            res <= 1024,
            cols == res + 1,
    ;
    let total: u32 = res * cols;
    let mut out: Vec<WaterVertex> = Vec::new();
    let mut i: u32 = 0;
    while i < total
        invariant
            valid_resolution(res as int),
            0 <= radius <= 0x1000_0000,
            cols == res + 1,
            total == vertex_count(res as int),
            i <= total,
            out@.len() == i,
            forall|j: int|
                0 <= j < i ==> #[trigger] out@[j] == water_vertex_spec(
                    res as int,
                    radius as int,
                    flat_height as int,
                    row_of(j, res as int),
                    col_of(j, res as int),
                ),
        decreases total - i,
    {
        proof {
            lemma_grid_coords(i as int, res as int);
        }
        let row = i / cols;
        let col = i % cols;
        let dir = grid_direction(row, col, res);
        let u = (col as i64 * ONE) / res as i64;
        let v = (row as i64 * ONE) / (res - 1) as i64;
        out.push(
            WaterVertex {
                position: scale(dir, radius),
                flat_position: Vec3 { x: u, y: v, z: flat_height },
            },
        );
        i = i + 1;
    }
    out
}

/// The water sphere: its vertices and the terrain's triangle layout at `WATER_RESOLUTION`.
pub struct Water {
    pub vertices: Vec<WaterVertex>,
    pub indices: Vec<u32>,
}

impl Water {
    /// The water sphere for the water level `level`: the globe surface `GLOBE_WATER_OFFSET`
    /// below it and the flat-map surface `FLAT_WATER_OFFSET` below it.
    pub fn new(level: i64) -> (r: Water)
        requires
            -MAX_WATER_LEVEL <= level <= MAX_WATER_LEVEL,
        ensures
            water_vertices_match(
                r.vertices@,
                WATER_RESOLUTION as int,
                WORLD_RADIUS + level - GLOBE_WATER_OFFSET,
                level - FLAT_WATER_OFFSET,
            ),
            indices_match(r.indices@, WATER_RESOLUTION as int),
    {
        let vertices = build_water_vertices(
            WATER_RESOLUTION,
            WORLD_RADIUS + level - GLOBE_WATER_OFFSET,
            level - FLAT_WATER_OFFSET,
        );
        Water { vertices, indices: build_indices(WATER_RESOLUTION) }
    }
}

} // verus!
