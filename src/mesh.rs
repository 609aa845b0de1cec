//! Latitude/longitude tessellation of the planet with a duplicated seam column.
use vstd::prelude::*;
use crate::biome::{classify_spec, color_for, Rgb};
use crate::fixed::{
    cos_frac, cos_spec, cross_small, cross_spec, fmul, fmul_spec, is_zero, lemma_fmul_unit,
    normalize, normalize_spec, scale, scale_spec, sin_frac, sin_spec, vec3, vec_bounded, vsub,
    vsub_spec, Vec3, CROSS_INPUT_BOUND, ONE,
};
use crate::height::{
    sample, sample_spec, seeds_spec, HeightSample, Seeds, MAX_ELEVATION, WORLD_RADIUS,
};
use crate::settings::TerrainSettings;

verus! {

/// Largest grid resolution.
pub const MAX_RESOLUTION: u32 = 1024;

/// Bound on the magnitude of a position component.
pub const POSITION_BOUND: i64 = WORLD_RADIUS + MAX_ELEVATION;

/// One vertex: sphere position, unit normal, colour, and flat-map position `(u, v, elevation)`.
#[derive(Clone, Copy, Debug, PartialEq, Eq, Structural)]
pub struct Vertex {
    pub position: Vec3,
    pub normal: Vec3,
    pub color: Rgb,
    pub flat_position: Vec3,
}

/// Grid resolutions that the builder accepts.
pub open spec fn valid_resolution(res: int) -> bool {
    2 <= res <= MAX_RESOLUTION
}

/// Number of vertices in a row: the longitude columns plus the seam column.
pub open spec fn lon_points(res: int) -> int {
    res + 1
}

pub open spec fn vertex_count(res: int) -> int {
    res * lon_points(res)
}

pub open spec fn index_count(res: int) -> int {
    6 * ((res - 1) * res)
}

/// The seam column stands for column zero.
pub open spec fn wrap_col(col: int, res: int) -> int {
    if col == res {
        0
    } else {
        col
    }
}

/// Unit direction of a grid point: latitude from the north pole down, longitude around the axis.
#[verifier::opaque]
pub open spec fn grid_direction_spec(row: int, col: int, res: int) -> Vec3 {
    let sin_lat = sin_spec(row, res - 1);
    let cos_lat = cos_spec(row, res - 1);
    let c = wrap_col(col, res);
    let sin_lon = sin_spec(2 * c, res);
    let cos_lon = cos_spec(2 * c, res);
    normalize_spec(vec3(fmul_spec(cos_lon, sin_lat), cos_lat, fmul_spec(sin_lon, sin_lat)))
}

#[verifier::opaque]
pub open spec fn grid_sample_spec(
    seed: u32,
    settings: TerrainSettings,
    res: int,
    row: int,
    col: int,
) -> HeightSample {
    sample_spec(
        grid_direction_spec(row, col, res),
        seeds_spec(seed),
        settings.land_elevation_bias as int,
    )
}

/// Sphere position: the direction scaled by the radius plus the elevation.
pub open spec fn position_spec(
    seed: u32,
    settings: TerrainSettings,
    res: int,
    row: int,
    col: int,
) -> Vec3 {
    scale_spec(
        grid_direction_spec(row, col, res),
        WORLD_RADIUS + grid_sample_spec(seed, settings, res, row, col).elevation,
    )
}

pub open spec fn color_at_spec(
    seed: u32,
    settings: TerrainSettings,
    res: int,
    row: int,
    col: int,
) -> Rgb {
    let s = grid_sample_spec(seed, settings, res, row, col);
    classify_spec(
        s.elevation as int,
        grid_direction_spec(row, col, res),
        s.moisture as int,
        settings,
    ).color_spec()
}

/// Flat-map position: normalised grid coordinates and the elevation.
pub open spec fn flat_position_spec(
    seed: u32,
    settings: TerrainSettings,
    res: int,
    row: int,
    col: int,
) -> Vec3 {
    vec3(
        (col * ONE) / res,
        (row * ONE) / (res - 1),
        grid_sample_spec(seed, settings, res, row, col).elevation as int,
    )
}

/// Normal of a grid point: radial at the poles; elsewhere the normalised cross product of the
/// central differences across longitude (wrapping through the seam) and latitude, falling back
/// to radial where that product vanishes.
pub open spec fn normal_spec(
    seed: u32,
    settings: TerrainSettings,
    res: int,
    row: int,
    col: int,
) -> Vec3 {
    let radial = normalize_spec(position_spec(seed, settings, res, row, col));
    if row == 0 || row == res - 1 {
        radial
    } else {
        let c = wrap_col(col, res);
        let left = if c == 0 {
            res - 1
        } else {
            c - 1
        };
        let dlon = vsub_spec(
            position_spec(seed, settings, res, row, c + 1),
            position_spec(seed, settings, res, row, left),
        );
        let dlat = vsub_spec(
            position_spec(seed, settings, res, row + 1, c),
            position_spec(seed, settings, res, row - 1, c),
        );
        let n = normalize_spec(cross_spec(dlon, dlat));
        if is_zero(n) {
            radial
        } else {
            n
        }
    }
}

/// The vertex at a grid point, before its normal is known.
pub open spec fn surface_vertex_spec(
    seed: u32,
    settings: TerrainSettings,
    res: int,
    row: int,
    col: int,
) -> Vertex {
    Vertex {
        position: position_spec(seed, settings, res, row, col),
        normal: vec3(0, 0, 0),
        color: color_at_spec(seed, settings, res, row, col),
        flat_position: flat_position_spec(seed, settings, res, row, col),
    }
}

pub open spec fn vertex_spec(
    seed: u32,
    settings: TerrainSettings,
    res: int,
    row: int,
    col: int,
) -> Vertex {
    Vertex {
        position: position_spec(seed, settings, res, row, col),
        normal: normal_spec(seed, settings, res, row, col),
        color: color_at_spec(seed, settings, res, row, col),
        flat_position: flat_position_spec(seed, settings, res, row, col),
    }
}

/// Row and column of a vertex index.
pub open spec fn row_of(i: int, res: int) -> int {
    i / lon_points(res)
}

pub open spec fn col_of(i: int, res: int) -> int {
    i % lon_points(res)
}

/// The vertex array of the terrain built from `seed`.
pub open spec fn vertices_match(
    v: Seq<Vertex>,
    seed: u32,
    settings: TerrainSettings,
    res: int,
) -> bool {
    &&& v.len() == vertex_count(res)
    &&& forall|i: int|
        0 <= i < v.len() ==> #[trigger] v[i] == vertex_spec(
            seed,
            settings,
            res,
            row_of(i, res),
            col_of(i, res),
        )
}

/// Index `j` of the triangle list: two triangles per grid quad, wound outward.
pub open spec fn index_spec(res: int, j: int) -> int {
    let q = j / 6;
    let corner = j % 6;
    let i0 = (q / res) * lon_points(res) + q % res;
    let i1 = i0 + 1;
    let i2 = i0 + lon_points(res);
    let i3 = i2 + 1;
    if corner == 0 {
        i0
    } else if corner == 1 || corner == 3 {
        i1
    } else if corner == 4 {
        i3
    } else {
        i2
    }
}

pub open spec fn indices_match(ix: Seq<u32>, res: int) -> bool {
    &&& ix.len() == index_count(res)
    &&& forall|j: int| 0 <= j < ix.len() ==> #[trigger] ix[j] == index_spec(res, j)
}

/// Splitting `q * d + r` by `d` gives back `q` and `r`.
pub proof fn lemma_split_index(q: int, d: int, r: int)
    requires
        0 < d,
        0 <= r < d,
    ensures
        (q * d + r) / d == q,
        (q * d + r) % d == r,
{
    vstd::arithmetic::div_mod::lemma_fundamental_div_mod_converse(q * d + r, d, q, r);
}

/// A vertex index below the vertex count lies on a grid row, and its column is at most `res`.
pub proof fn lemma_grid_coords(i: int, res: int)
    requires
        valid_resolution(res),
        0 <= i < vertex_count(res),
    ensures
        0 <= row_of(i, res) < res,
        0 <= col_of(i, res) <= res,
        i == row_of(i, res) * lon_points(res) + col_of(i, res),
{
    let d = lon_points(res);
    vstd::arithmetic::div_mod::lemma_fundamental_div_mod(i, d);
    vstd::arithmetic::mul::lemma_mul_is_commutative(d, i / d);
    vstd::arithmetic::div_mod::lemma_div_pos_is_pos(i, d);
    if i / d >= res {
        assert((i / d) * d >= res * d) by (nonlinear_arith)
            requires
                i / d >= res,
                d > 0,
        ;
    }
}

pub(crate) fn grid_direction(row: u32, col: u32, res: u32) -> (r: Vec3)
    requires
        valid_resolution(res as int),
        row < res,
        col <= res,
    ensures
        r == grid_direction_spec(row as int, col as int, res as int),
        vec_bounded(r, ONE as int),
{
    let h = (res - 1) as i64;
    let sin_lat = sin_frac(row as i64, h);
    let cos_lat = cos_frac(row as i64, h);
    let c: i64 = if col == res {
        0
    } else {
        col as i64
    };
    let sin_lon = sin_frac(2 * c, res as i64);
    let cos_lon = cos_frac(2 * c, res as i64);
    proof {
        lemma_fmul_unit(cos_lon as int, sin_lat as int);
        lemma_fmul_unit(sin_lon as int, sin_lat as int);
    }
    proof {
        reveal(grid_direction_spec);
    }
    normalize(Vec3 { x: fmul(cos_lon, sin_lat), y: cos_lat, z: fmul(sin_lon, sin_lat) })
}

fn surface_vertex(seeds: &Seeds, seed: u32, settings: &TerrainSettings, res: u32, row: u32, col: u32) -> (r: Vertex)
    requires
        *seeds == seeds_spec(seed),
        settings.is_valid(),
        valid_resolution(res as int),
        row < res,
        col <= res,
    ensures
        r == surface_vertex_spec(seed, *settings, res as int, row as int, col as int),
        vec_bounded(r.position, POSITION_BOUND as int),
        -MAX_ELEVATION <= r.flat_position.z <= MAX_ELEVATION,
{
    let dir = grid_direction(row, col, res);
    let s = sample(dir, seeds, settings.land_elevation_bias);
    proof {
        reveal(grid_sample_spec);
    }
    let color = color_for(s.elevation, dir, s.moisture, settings);
    let radius = WORLD_RADIUS + s.elevation;
    proof {
        lemma_fmul_unit(dir.x as int, radius as int);
        lemma_fmul_unit(dir.y as int, radius as int);
        lemma_fmul_unit(dir.z as int, radius as int);
    }
    let position = scale(dir, radius);
    let u = (col as i64 * ONE) / res as i64;
    let v = (row as i64 * ONE) / (res - 1) as i64;
    Vertex {
        position,
        normal: Vec3 { x: 0, y: 0, z: 0 },
        color,
        flat_position: Vec3 { x: u, y: v, z: s.elevation },
    }
}


fn build_surface(seed: u32, settings: &TerrainSettings, res: u32) -> (r: Vec<Vertex>)
    requires
        settings.is_valid(),
        valid_resolution(res as int),
    ensures
        r@.len() == vertex_count(res as int),
        forall|i: int|
            0 <= i < r@.len() ==> {
                &&& #[trigger] r@[i] == surface_vertex_spec(
                    seed,
                    *settings,
                    res as int,
                    row_of(i, res as int),
                    col_of(i, res as int),
                )
                &&& vec_bounded(r@[i].position, POSITION_BOUND as int)
                &&& -MAX_ELEVATION <= r@[i].flat_position.z <= MAX_ELEVATION
            },
{
    let seeds = Seeds::from_seed(seed);
    let cols: u32 = res + 1;
    assert(res * cols <= 1024 * 1025) by (nonlinear_arith)
        requires
            res <= 1024,
            cols == res + 1,
    ;
    let total: u32 = res * cols;
    let mut out: Vec<Vertex> = Vec::new();
    let mut i: u32 = 0;
    while i < total
        invariant
            valid_resolution(res as int),
            settings.is_valid(),
            seeds == seeds_spec(seed),
            cols == lon_points(res as int),
            total == vertex_count(res as int),
            i <= total,
            out@.len() == i,
            forall|j: int|
                0 <= j < i ==> {
                    &&& #[trigger] out@[j] == surface_vertex_spec(
                        seed,
                        *settings,
                        res as int,
                        row_of(j, res as int),
                        col_of(j, res as int),
                    )
                    &&& vec_bounded(out@[j].position, POSITION_BOUND as int)
                    &&& -MAX_ELEVATION <= out@[j].flat_position.z <= MAX_ELEVATION
                },
        decreases total - i,
    {
        proof {
            lemma_grid_coords(i as int, res as int);
        }
        let row = i / cols;
        let col = i % cols;
        let v = surface_vertex(&seeds, seed, settings, res, row, col);
        out.push(v);
        i = i + 1;
    }
    out
}

/// Positions of neighbouring grid points differ by less than the cross-product input bound.
proof fn lemma_diff_bound(a: Vec3, b: Vec3)
    requires
        vec_bounded(a, POSITION_BOUND as int),
        vec_bounded(b, POSITION_BOUND as int),
    ensures
        vec_bounded(vsub_spec(a, b), CROSS_INPUT_BOUND as int),
{
}

fn vertex_normal(
    surface: &Vec<Vertex>,
    seed: u32,
    settings: &TerrainSettings,
    res: u32,
    row: u32,
    col: u32,
) -> (r: Vec3)
    requires
        valid_resolution(res as int),
        row < res,
        col <= res,
        surface@.len() == vertex_count(res as int),
        forall|i: int|
            0 <= i < surface@.len() ==> {
                &&& #[trigger] surface@[i] == surface_vertex_spec(
                    seed,
                    *settings,
                    res as int,
                    row_of(i, res as int),
                    col_of(i, res as int),
                )
                &&& vec_bounded(surface@[i].position, POSITION_BOUND as int)
            },
    ensures
        r == normal_spec(seed, *settings, res as int, row as int, col as int),
{
    let cols: u32 = res + 1;
    let ghost d = lon_points(res as int);
    assert(res * cols <= 1024 * 1025) by (nonlinear_arith)
        requires
            res <= 1024,
            cols == res + 1,
    ;
    proof {
        assert(row * cols + col < res * cols) by (nonlinear_arith)
            requires
                row < res,
                col < cols,
        ;
        lemma_split_index(row as int, d, col as int);
    }
    let p = surface[(row * cols + col) as usize].position;
    let radial = normalize(p);
    if row == 0 || row == res - 1 {
        return radial;
    }
    let c: u32 = if col == res {
        0
    } else {
        col
    };
    let left: u32 = if c == 0 {
        res - 1
    } else {
        c - 1
    };
    proof {
        assert((row + 1) * cols + c < res * cols) by (nonlinear_arith)
            requires
                row + 1 < res,
                c < cols,
        ;
        assert((row + 1) * cols == row * cols + cols) by (nonlinear_arith);
        assert((row - 1) * cols + cols == row * cols) by (nonlinear_arith);
        assert(row * cols + c + 1 < res * cols) by (nonlinear_arith)
            requires
                row < res,
                c + 1 < cols,
        ;
        lemma_split_index(row as int, d, (c + 1) as int);
        lemma_split_index(row as int, d, left as int);
        lemma_split_index((row + 1) as int, d, c as int);
        lemma_split_index((row - 1) as int, d, c as int);
    }
    let east = surface[(row * cols + c + 1) as usize].position;
    let west = surface[(row * cols + left) as usize].position;
    let south = surface[((row + 1) * cols + c) as usize].position;
    let north = surface[((row - 1) * cols + c) as usize].position;
    proof {
        lemma_diff_bound(east, west);
        lemma_diff_bound(south, north);
    }
    let n = normalize(cross_small(vsub(east, west), vsub(south, north)));
    if n.x == 0 && n.y == 0 && n.z == 0 {
        radial
    } else {
        n
    }
}

/// The terrain's vertex array for `seed`: one vertex per grid point, row by row from the north
/// pole, each row closed by a copy of its first column at longitude one.
#[verifier::rlimit(40)]
pub fn build_vertices(seed: u32, settings: &TerrainSettings, res: u32) -> (r: Vec<Vertex>)
    requires
        settings.is_valid(),
        valid_resolution(res as int),
    ensures
        vertices_match(r@, seed, *settings, res as int),
        forall|i: int|
            0 <= i < r@.len() ==> -MAX_ELEVATION <= #[trigger] r@[i].flat_position.z
                <= MAX_ELEVATION,
{
    let surface = build_surface(seed, settings, res);
    let cols: u32 = res + 1;
    assert(res * cols <= 1024 * 1025) by (nonlinear_arith)
        requires
            res <= 1024,
            cols == res + 1,
    ;
    let total: u32 = res * cols;
    let mut out: Vec<Vertex> = Vec::new();
    let mut i: u32 = 0;
    while i < total
        invariant
            valid_resolution(res as int),
            cols == lon_points(res as int),
            total == vertex_count(res as int),
            surface@.len() == total,
            forall|j: int|
                0 <= j < surface@.len() ==> {
                    &&& #[trigger] surface@[j] == surface_vertex_spec(
                        seed,
                        *settings,
                        res as int,
                        row_of(j, res as int),
                        col_of(j, res as int),
                    )
                    &&& vec_bounded(surface@[j].position, POSITION_BOUND as int)
                    &&& -MAX_ELEVATION <= surface@[j].flat_position.z <= MAX_ELEVATION
                },
            i <= total,
            out@.len() == i,
            forall|j: int|
                0 <= j < i ==> #[trigger] out@[j] == vertex_spec(
                    seed,
                    *settings,
                    res as int,
                    row_of(j, res as int),
                    col_of(j, res as int),
                ),
            forall|j: int|
                0 <= j < i ==> -MAX_ELEVATION <= #[trigger] out@[j].flat_position.z
                    <= MAX_ELEVATION,
        decreases total - i,
    {
        proof {
            lemma_grid_coords(i as int, res as int);
        }
        let row = i / cols;
        let col = i % cols;
        let normal = vertex_normal(&surface, seed, settings, res, row, col);
        let s = surface[i as usize];
        let v = Vertex { normal, ..s };
        assert(v == vertex_spec(seed, *settings, res as int, row as int, col as int));
        out.push(v);
        i = i + 1;
    }
    out
}

/// The triangle list of a grid of resolution `res`: for each quad, in row order, the triangles
/// `(i0, i1, i2)` and `(i1, i3, i2)`, where `i1` is east of `i0` and `i2` south of it.
pub fn build_indices(res: u32) -> (r: Vec<u32>)
    requires
        valid_resolution(res as int),
    ensures
        indices_match(r@, res as int),
        forall|j: int| 0 <= j < r@.len() ==> #[trigger] r@[j] < vertex_count(res as int),
{
    let cols: u32 = res + 1;
    assert((res - 1) * res <= 1024 * 1025 && res * cols <= 1024 * 1025) by (nonlinear_arith)
        requires
            2 <= res <= 1024,
            cols == res + 1,
    ;
    let quads: u32 = (res - 1) * res;
    let mut out: Vec<u32> = Vec::new();
    let mut q: u32 = 0;
    while q < quads
        invariant
            valid_resolution(res as int),
            cols == lon_points(res as int),
            quads == (res - 1) * res,
            res * cols <= 1024 * 1025,
            q <= quads,
            out@.len() == 6 * q,
            forall|j: int| 0 <= j < out@.len() ==> #[trigger] out@[j] == index_spec(res as int, j),
            forall|j: int| 0 <= j < out@.len() ==> #[trigger] out@[j] < vertex_count(res as int),
        decreases quads - q,
    {
        let row = q / res;
        let col = q % res;
        proof {
            vstd::arithmetic::div_mod::lemma_fundamental_div_mod(q as int, res as int);
            vstd::arithmetic::mul::lemma_mul_is_commutative(res as int, row as int);
            if row >= res - 1 {
                assert(row * res >= (res - 1) * res) by (nonlinear_arith)
                    requires
                        row >= res - 1,
                        res > 0,
                ;
            }
            assert(row + 1 < res);
            assert((row + 1) * cols + col + 1 < res * cols) by (nonlinear_arith)
                requires
                    row + 1 < res,
                    col + 1 < cols,
            ;
            assert((row + 1) * cols == row * cols + cols) by (nonlinear_arith);
        }
        let i0 = row * cols + col;
        let i1 = i0 + 1;
        let i2 = i0 + cols;
        let i3 = i2 + 1;
        let ghost start = out@.len() as int;
        out.push(i0);
        out.push(i1);
        out.push(i2);
        out.push(i1);
        out.push(i3);
        out.push(i2);
        proof {
            assert forall|k: int| 0 <= k < 6 implies #[trigger] out@[start + k] == index_spec(
                res as int,
                start + k,
            ) by {
                lemma_split_index(q as int, 6, k);
                assert(start + k == q * 6 + k);
            }
            assert forall|j: int| 0 <= j < out@.len() implies #[trigger] out@[j] == index_spec(
                res as int,
                j,
            ) by {
                if j >= start {
                    assert(out@[start + (j - start)] == index_spec(res as int, start + (j - start)));
                }
            }
        }
        q = q + 1;
    }
    out
}


/// Two vertex arrays and two index arrays built from the same seed, settings and resolution
/// are identical.
pub proof fn lemma_build_deterministic(
    seed: u32,
    settings: TerrainSettings,
    res: int,
    a: Seq<Vertex>,
    b: Seq<Vertex>,
    ia: Seq<u32>,
    ib: Seq<u32>,
)
    requires
        vertices_match(a, seed, settings, res),
        vertices_match(b, seed, settings, res),
        indices_match(ia, res),
        indices_match(ib, res),
    ensures
        a == b,
        ia == ib,
{
    assert(a =~= b) by {
        assert forall|i: int| 0 <= i < a.len() implies a[i] == b[i] by {
            assert(a[i] == vertex_spec(seed, settings, res, row_of(i, res), col_of(i, res)));
            assert(b[i] == vertex_spec(seed, settings, res, row_of(i, res), col_of(i, res)));
        }
    }
    assert(ia =~= ib) by {
        assert forall|j: int| 0 <= j < ia.len() implies ia[j] == ib[j] by {
            assert(ia[j] == index_spec(res, j));
            assert(ib[j] == index_spec(res, j));
        }
    }
}

/// On every row the seam vertex repeats the first one: same position, normal, colour and
/// flat-map row and elevation, at flat-map column one instead of zero.
pub proof fn lemma_seam_continuity(
    seed: u32,
    settings: TerrainSettings,
    res: int,
    v: Seq<Vertex>,
    row: int,
)
    requires
        valid_resolution(res),
        vertices_match(v, seed, settings, res),
        0 <= row < res,
    ensures
        v[row * lon_points(res) + res].position == v[row * lon_points(res)].position,
        v[row * lon_points(res) + res].normal == v[row * lon_points(res)].normal,
        v[row * lon_points(res) + res].color == v[row * lon_points(res)].color,
        v[row * lon_points(res) + res].flat_position.y == v[row * lon_points(res)].flat_position.y,
        v[row * lon_points(res) + res].flat_position.z == v[row * lon_points(res)].flat_position.z,
        v[row * lon_points(res)].flat_position.x == 0,
        v[row * lon_points(res) + res].flat_position.x == ONE,
{
    let d = lon_points(res);
    let first = row * d;
    let seam = row * d + res;
    lemma_split_index(row, d, 0);
    lemma_split_index(row, d, res);
    assert((res - row) * d >= d) by (nonlinear_arith)
        requires
            row < res,
            d > 0,
    ;
    assert(res * d - row * d == (res - row) * d) by (nonlinear_arith);
    assert(v[first] == vertex_spec(seed, settings, res, row, 0));
    assert(v[seam] == vertex_spec(seed, settings, res, row, res));
    lemma_seam_sample(seed, settings, res, row);
    vstd::arithmetic::div_mod::lemma_div_basics(res);
    assert((res * ONE) / res == ONE as int) by {
        vstd::arithmetic::div_mod::lemma_div_multiples_vanish(ONE as int, res);
        vstd::arithmetic::mul::lemma_mul_is_commutative(res, ONE as int);
    }
}

proof fn lemma_seam_direction(row: int, res: int)
    ensures
        grid_direction_spec(row, res, res) == grid_direction_spec(row, 0, res),
{
    reveal(grid_direction_spec);
}

proof fn lemma_seam_sample(seed: u32, settings: TerrainSettings, res: int, row: int)
    ensures
        grid_direction_spec(row, res, res) == grid_direction_spec(row, 0, res),
        grid_sample_spec(seed, settings, res, row, res) == grid_sample_spec(
            seed,
            settings,
            res,
            row,
            0,
        ),
{
    lemma_seam_direction(row, res);
    reveal(grid_sample_spec);
}

/// Every vertex of the first and the last row has its own radial direction as normal.
pub proof fn lemma_pole_normals(seed: u32, settings: TerrainSettings, res: int, v: Seq<Vertex>, i: int)
    requires
        valid_resolution(res),
        vertices_match(v, seed, settings, res),
        0 <= i < lon_points(res) || (res - 1) * lon_points(res) <= i < vertex_count(res),
    ensures
        v[i].normal == normalize_spec(v[i].position),
{
    let d = lon_points(res);
    assert(d <= vertex_count(res) && (res - 1) * d >= 0) by (nonlinear_arith)
        requires
            d == res + 1,
            res >= 2,
    ;
    lemma_grid_coords(i, res);
    let row = row_of(i, res);
    if i < d {
        if row >= 1 {
            assert(row * d >= d) by (nonlinear_arith)
                requires
                    row >= 1,
                    d > 0,
            ;
        }
    } else {
        if row < res - 1 {
            assert(row * d + d <= (res - 1) * d) by (nonlinear_arith)
                requires
                    row < res - 1,
                    d > 0,
            ;
        }
    }
    assert(v[i] == vertex_spec(seed, settings, res, row, col_of(i, res)));
}

} // verus!
