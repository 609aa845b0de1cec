//! Elevation and moisture synthesis on the unit sphere.
use vstd::prelude::*;
use crate::fixed::{
    div_floor, fmul, fmul_spec, is_isqrt, isqrt, isqrt_spec, lemma_fmul_unit, lemma_isqrt_exists,
    scale, scale_spec, smoothstep, smoothstep_spec, vec_bounded, Vec3, ONE,
};
use crate::noise::{
    domain_warp, domain_warp_spec, fbm, fbm_spec, lemma_scale_unit, ridged_fbm, ridged_fbm_spec,
    GAIN, LACUNARITY,
};
use crate::settings::{LAND_BIAS_MAX, LAND_BIAS_MIN};

verus! {

/// Radius of the planet at elevation zero, in world units.
pub const WORLD_RADIUS: i64 = 655360;

/// Vertical scale of the terrain, in world units (1.6).
pub const HEIGHT_AMPLITUDE: i64 = 104858;

/// Elevation of the water surface, in world units.
pub const SEA_LEVEL: i64 = 0;

/// Bound on the magnitude of a normalised elevation (elevation over amplitude): two. On land
/// the continent excess (at most 1.1 with the largest bias) plus hills (0.25), ridges (0.6)
/// and detail (0.03) stays below it; at sea the depth profile of a depth of at most 1.1 does.
pub const ELEVATION_HEADROOM: i64 = 131072;

/// Bound on the magnitude of an elevation in world units.
pub const MAX_ELEVATION: i64 = 2 * HEIGHT_AMPLITUDE;

/// Continent value at which land begins.
pub const SEA_THRESHOLD: i64 = 3277;

/// Highest normalised elevation of an ocean sample: the sea floor never reaches the water.
pub const OCEAN_CEILING: i64 = 655;

pub const CONTINENT_FREQ_COARSE: i64 = 72090;
pub const CONTINENT_FREQ_FINE: i64 = 176947;
pub const CONTINENT_WEIGHT_COARSE: i64 = 49152;
pub const CONTINENT_WEIGHT_FINE: i64 = 16384;
pub const COAST_BAND: i64 = 13107;
pub const HILL_FREQ: i64 = 262144;
pub const HILL_WEIGHT: i64 = 16384;
pub const MOUNTAIN_FREQ: i64 = 163840;
pub const INLAND_LO: i64 = 3277;
pub const INLAND_HI: i64 = 22938;
pub const MOUNTAIN_WEIGHT: i64 = 39322;
pub const DETAIL_FREQ: i64 = 786432;
pub const DETAIL_WEIGHT: i64 = 1966;
pub const SHELF_DEPTH: i64 = 9830;
pub const SHELF_LIFT: i64 = 1966;
pub const OCEAN_DETAIL_WEIGHT: i64 = 1311;
pub const MOISTURE_FREQ_COARSE: i64 = 98304;
pub const MOISTURE_FREQ_FINE: i64 = 327680;
pub const MOISTURE_WEIGHT_COARSE: i64 = 45875;
pub const MOISTURE_WEIGHT_FINE: i64 = 19661;

pub const CONTINENT_SALT: u32 = 0x1b87_3593;
pub const HILL_SALT: u32 = 0x68e3_1da4;
pub const MOUNTAIN_SALT: u32 = 0xb529_7a4d;
pub const DETAIL_SALT: u32 = 0x1b56_c4e9;
pub const MOISTURE_SALT: u32 = 0x7fe0_6a37;
pub const WARP_SALT: u32 = 0xe654_6b64;
pub const SECOND_LAYER_SALT: u32 = 0x9e37_79b9;

/// Independent sub-seeds of the noise channels.
#[derive(Clone, Copy, Debug, PartialEq, Eq, Structural)]
pub struct Seeds {
    pub continent: u32,
    pub hill: u32,
    pub mountain: u32,
    pub detail: u32,
    pub moisture: u32,
    pub warp: u32,
}

pub open spec fn seeds_spec(seed: u32) -> Seeds {
    Seeds {
        continent: seed ^ CONTINENT_SALT,
        hill: seed ^ HILL_SALT,
        mountain: seed ^ MOUNTAIN_SALT,
        detail: seed ^ DETAIL_SALT,
        moisture: seed ^ MOISTURE_SALT,
        warp: seed ^ WARP_SALT,
    }
}

impl Seeds {
    /// Expands one seed into the sub-seed of each channel by XOR with a fixed constant.
    pub fn from_seed(seed: u32) -> (r: Seeds)
        ensures
            r == seeds_spec(seed),
    {
        Seeds {
            continent: seed ^ CONTINENT_SALT,
            hill: seed ^ HILL_SALT,
            mountain: seed ^ MOUNTAIN_SALT,
            detail: seed ^ DETAIL_SALT,
            moisture: seed ^ MOISTURE_SALT,
            warp: seed ^ WARP_SALT,
        }
    }
}

/// Elevation (world units, signed) and moisture (`[0, ONE]`) at one direction.
#[derive(Clone, Copy, Debug, PartialEq, Eq, Structural)]
pub struct HeightSample {
    pub elevation: i64,
    pub moisture: i64,
}

pub open spec fn layer_spec(w: Vec3, freq: int, seed: u32, octaves: nat) -> int {
    fbm_spec(scale_spec(w, freq), seed, octaves, LACUNARITY as int, GAIN as int)
}

/// Weighted sum of a coarse and a finer fbm of the continent channel.
pub open spec fn continent_spec(w: Vec3, seed: u32) -> int {
    fmul_spec(layer_spec(w, CONTINENT_FREQ_COARSE as int, seed, 5), CONTINENT_WEIGHT_COARSE as int)
        + fmul_spec(
        layer_spec(w, CONTINENT_FREQ_FINE as int, seed ^ SECOND_LAYER_SALT, 4),
        CONTINENT_WEIGHT_FINE as int,
    )
}

/// Moisture from a dedicated fbm pair, remapped from `[-ONE, ONE]` to `[0, ONE]`.
pub open spec fn moisture_spec(w: Vec3, seed: u32) -> int {
    let m = fmul_spec(
        layer_spec(w, MOISTURE_FREQ_COARSE as int, seed, 4),
        MOISTURE_WEIGHT_COARSE as int,
    ) + fmul_spec(
        layer_spec(w, MOISTURE_FREQ_FINE as int, seed ^ SECOND_LAYER_SALT, 3),
        MOISTURE_WEIGHT_FINE as int,
    );
    (m + ONE) / 2
}

/// Square root in fixed point.
pub open spec fn sqrt_fx_spec(y: int) -> int {
    isqrt_spec(y * ONE)
}

/// `depth^(11/8)`: `depth` times the eighth root of its cube.
pub open spec fn depth_profile_spec(d: int) -> int {
    let cube = fmul_spec(fmul_spec(d, d), d);
    fmul_spec(d, sqrt_fx_spec(sqrt_fx_spec(sqrt_fx_spec(cube))))
}

/// Normalised land elevation: the continent excess plus hills near the coast, squared ridges
/// inland and fine detail.
pub open spec fn land_height_spec(w: Vec3, base: int, seeds: Seeds) -> int {
    let mask = smoothstep_spec(0, COAST_BAND as int, base);
    let hills = fmul_spec(layer_spec(w, HILL_FREQ as int, seeds.hill, 4), mask);
    let ridge = ridged_fbm_spec(
        scale_spec(w, MOUNTAIN_FREQ as int),
        seeds.mountain,
        5,
        LACUNARITY as int,
        GAIN as int,
    );
    let inland = smoothstep_spec(INLAND_LO as int, INLAND_HI as int, base);
    let mountains = fmul_spec(fmul_spec(ridge, ridge), inland);
    let detail = layer_spec(w, DETAIL_FREQ as int, seeds.detail, 3);
    base + fmul_spec(hills, HILL_WEIGHT as int) + fmul_spec(mountains, MOUNTAIN_WEIGHT as int)
        + fmul_spec(detail, DETAIL_WEIGHT as int)
}

/// Normalised sea-floor elevation: a deepening profile lifted near the shelf, with fine
/// detail, kept at or below `-OCEAN_CEILING`.
pub open spec fn ocean_height_spec(w: Vec3, base: int, seeds: Seeds) -> int {
    let depth = -base;
    let shelf = smoothstep_spec(0, SHELF_DEPTH as int, depth);
    let lift = fmul_spec(ONE - shelf, SHELF_LIFT as int);
    let detail = layer_spec(w, DETAIL_FREQ as int, seeds.detail, 3);
    let h = -depth_profile_spec(depth) + lift + fmul_spec(detail, OCEAN_DETAIL_WEIGHT as int);
    if h > -OCEAN_CEILING {
        -OCEAN_CEILING as int
    } else {
        h
    }
}

/// Continent value minus the sea threshold, shifted by the land bias.
pub open spec fn base_spec(w: Vec3, seeds: Seeds, bias: int) -> int {
    continent_spec(w, seeds.continent) - SEA_THRESHOLD + bias
}

pub open spec fn normalized_height_spec(w: Vec3, seeds: Seeds, bias: int) -> int {
    let base = base_spec(w, seeds, bias);
    if base > 0 {
        land_height_spec(w, base, seeds)
    } else {
        ocean_height_spec(w, base, seeds)
    }
}

/// The height sample of a unit direction.
pub open spec fn sample_spec(dir: Vec3, seeds: Seeds, bias: int) -> HeightSample {
    let w = domain_warp_spec(dir, seeds.warp);
    HeightSample {
        elevation: fmul_spec(normalized_height_spec(w, seeds, bias), HEIGHT_AMPLITUDE as int) as i64,
        moisture: moisture_spec(w, seeds.moisture) as i64,
    }
}

fn layer(w: Vec3, freq: i64, seed: u32, octaves: u32) -> (r: i64)
    requires
        vec_bounded(w, ONE as int),
        0 <= freq <= 16 * ONE,
        octaves <= 8,
    ensures
        r == layer_spec(w, freq as int, seed, octaves as nat),
        -ONE <= r <= ONE,
{
    proof {
        lemma_scale_unit(w, freq as int);
    }
    fbm(scale(w, freq), seed, octaves, LACUNARITY, GAIN)
}

fn continent(w: Vec3, seed: u32) -> (r: i64)
    requires
        vec_bounded(w, ONE as int),
    ensures
        r == continent_spec(w, seed),
        -ONE <= r <= ONE,
{
    let a = layer(w, CONTINENT_FREQ_COARSE, seed, 5);
    let b = layer(w, CONTINENT_FREQ_FINE, seed ^ SECOND_LAYER_SALT, 4);
    proof {
        lemma_fmul_unit(a as int, CONTINENT_WEIGHT_COARSE as int);
        lemma_fmul_unit(b as int, CONTINENT_WEIGHT_FINE as int);
    }
    fmul(a, CONTINENT_WEIGHT_COARSE) + fmul(b, CONTINENT_WEIGHT_FINE)
}

fn moisture(w: Vec3, seed: u32) -> (r: i64)
    requires
        vec_bounded(w, ONE as int),
    ensures
        r == moisture_spec(w, seed),
        0 <= r <= ONE,
{
    let a = layer(w, MOISTURE_FREQ_COARSE, seed, 4);
    let b = layer(w, MOISTURE_FREQ_FINE, seed ^ SECOND_LAYER_SALT, 3);
    proof {
        lemma_fmul_unit(a as int, MOISTURE_WEIGHT_COARSE as int);
        lemma_fmul_unit(b as int, MOISTURE_WEIGHT_FINE as int);
    }
    let m = fmul(a, MOISTURE_WEIGHT_COARSE) + fmul(b, MOISTURE_WEIGHT_FINE);
    div_floor(m + ONE, 2)
}

/// A fixed-point square root is at most the larger of its argument and one.
proof fn lemma_sqrt_fx_bound(y: int, m: int)
    requires
        0 <= y <= m,
        ONE <= m,
    ensures
        0 <= sqrt_fx_spec(y) <= m,
{
    let r = sqrt_fx_spec(y);
    let k = ONE as int;
    assert(is_isqrt(y * k, isqrt_spec(y * k))) by {
        assert(0 <= y * k) by (nonlinear_arith)
            requires
                0 <= y,
                0 < k,
        ;
        lemma_isqrt_exists(y * k);
    }
    if r > m {
        assert(m * m < r * r) by (nonlinear_arith)
            requires
                r > m,
                m >= 0,
        ;
        assert(y * k <= m * m) by (nonlinear_arith)
            requires
                0 <= y <= m,
                0 < k <= m,
        ;
    }
}

fn sqrt_fx(y: i64) -> (r: i64)
    requires
        0 <= y <= 0x1_0000_0000,
    ensures
        r == sqrt_fx_spec(y as int),
{
    assert(0 <= y * ONE <= 0x1_0000_0000_0000) by (nonlinear_arith)
        requires
            0 <= y <= 0x1_0000_0000,
    ;
    let r = isqrt((y * ONE) as u64);
    assert(r <= 0x100_0000) by (nonlinear_arith)
        requires
            r * r <= 0x1_0000_0000_0000,
            0 <= r,
    ;
    r as i64
}

/// Largest ocean depth: the continent value is at least `-ONE`.
pub const MAX_DEPTH: i64 = 72090;

/// Bound on `depth_profile`.
pub const MAX_PROFILE: i64 = 96000;

fn depth_profile(d: i64) -> (r: i64)
    requires
        0 <= d <= MAX_DEPTH,
    ensures
        r == depth_profile_spec(d as int),
        0 <= r <= MAX_PROFILE,
{
    proof {
        lemma_fmul_nonneg_le(d as int, d as int, MAX_DEPTH as int, MAX_DEPTH as int, 79299);
    }
    let d2 = fmul(d, d);
    proof {
        lemma_fmul_nonneg_le(d2 as int, d as int, 79299, MAX_DEPTH as int, 87230);
    }
    let cube = fmul(d2, d);
    proof {
        lemma_sqrt_fx_bound(cube as int, 87230);
    }
    let r1 = sqrt_fx(cube);
    proof {
        lemma_sqrt_fx_bound(r1 as int, 87230);
    }
    let r2 = sqrt_fx(r1);
    proof {
        lemma_sqrt_fx_bound(r2 as int, 87230);
    }
    let r3 = sqrt_fx(r2);
    proof {
        lemma_fmul_nonneg_le(d as int, r3 as int, MAX_DEPTH as int, 87230, MAX_PROFILE as int);
    }
    fmul(d, r3)
}

/// A product of bounded non-negative operands, with a bound checked by arithmetic.
proof fn lemma_fmul_nonneg_le(a: int, b: int, ma: int, mb: int, bound: int)
    requires
        0 <= a <= ma,
        0 <= b <= mb,
        ma * mb < (bound + 1) * ONE,
    ensures
        0 <= fmul_spec(a, b) <= bound,
{
    let k = ONE as int;
    assert(0 <= a * b <= ma * mb) by (nonlinear_arith)
        requires
            0 <= a <= ma,
            0 <= b <= mb,
    ;
    vstd::arithmetic::div_mod::lemma_div_is_ordered(0, a * b, k);
    vstd::arithmetic::div_mod::lemma_div_is_ordered(a * b, ma * mb, k);
    vstd::arithmetic::div_mod::lemma_div_is_ordered(ma * mb, (bound + 1) * k - 1, k);
    vstd::arithmetic::div_mod::lemma_fundamental_div_mod((bound + 1) * k - 1, k);
    vstd::arithmetic::div_mod::lemma_fundamental_div_mod_converse(
        (bound + 1) * k - 1,
        k,
        bound,
        k - 1,
    );
}


/// Largest value of `base`: a continent value of one plus the largest land bias.
pub const MAX_BASE: i64 = 72089;

fn land_height(w: Vec3, base: i64, seeds: &Seeds) -> (r: i64)
    requires
        vec_bounded(w, ONE as int),
        0 < base <= MAX_BASE,
    ensures
        r == land_height_spec(w, base as int, *seeds),
        -ELEVATION_HEADROOM <= r <= ELEVATION_HEADROOM,
{
    let mask = smoothstep(0, COAST_BAND, base);
    let hill_noise = layer(w, HILL_FREQ, seeds.hill, 4);
    proof {
        lemma_fmul_unit(hill_noise as int, mask as int);
        lemma_scale_unit(w, MOUNTAIN_FREQ as int);
    }
    let hills = fmul(hill_noise, mask);
    let ridge = ridged_fbm(scale(w, MOUNTAIN_FREQ), seeds.mountain, 5, LACUNARITY, GAIN);
    let inland = smoothstep(INLAND_LO, INLAND_HI, base);
    proof {
        lemma_fmul_unit(ridge as int, ridge as int);
    }
    let ridge2 = fmul(ridge, ridge);
    proof {
        lemma_fmul_unit(ridge2 as int, inland as int);
    }
    let mountains = fmul(ridge2, inland);
    let detail = layer(w, DETAIL_FREQ, seeds.detail, 3);
    proof {
        lemma_fmul_unit(hills as int, HILL_WEIGHT as int);
        lemma_fmul_unit(mountains as int, MOUNTAIN_WEIGHT as int);
        lemma_fmul_unit(detail as int, DETAIL_WEIGHT as int);
    }
    base + fmul(hills, HILL_WEIGHT) + fmul(mountains, MOUNTAIN_WEIGHT) + fmul(detail, DETAIL_WEIGHT)
}

fn ocean_height(w: Vec3, base: i64, seeds: &Seeds) -> (r: i64)
    requires
        vec_bounded(w, ONE as int),
        -MAX_DEPTH <= base <= 0,
    ensures
        r == ocean_height_spec(w, base as int, *seeds),
        -ELEVATION_HEADROOM <= r <= -OCEAN_CEILING,
{
    let depth = -base;
    let shelf = smoothstep(0, SHELF_DEPTH, depth);
    proof {
        lemma_fmul_unit(SHELF_LIFT as int, (ONE - shelf) as int);
        vstd::arithmetic::mul::lemma_mul_is_commutative(SHELF_LIFT as int, (ONE - shelf) as int);
    }
    let lift = fmul(ONE - shelf, SHELF_LIFT);
    let detail = layer(w, DETAIL_FREQ, seeds.detail, 3);
    proof {
        lemma_fmul_unit(detail as int, OCEAN_DETAIL_WEIGHT as int);
    }
    let h = -depth_profile(depth) + lift + fmul(detail, OCEAN_DETAIL_WEIGHT);
    if h > -OCEAN_CEILING {
        -OCEAN_CEILING
    } else {
        h
    }
}

/// A fixed-point product with a factor of at most two stays within twice the other operand.
proof fn lemma_fmul_double(a: int, b: int)
    requires
        -2 * ONE <= a <= 2 * ONE,
        0 <= b,
    ensures
        -2 * b <= fmul_spec(a, b) <= 2 * b,
{
    let k = ONE as int;
    assert(-(2 * b) * k <= a * b <= (2 * b) * k) by (nonlinear_arith)
        requires
            -2 * k <= a <= 2 * k,
            0 <= b,
    ;
    vstd::arithmetic::div_mod::lemma_div_is_ordered(-(2 * b) * k, a * b, k);
    vstd::arithmetic::div_mod::lemma_div_is_ordered(a * b, (2 * b) * k, k);
    vstd::arithmetic::div_mod::lemma_div_multiples_vanish(-(2 * b), k);
    vstd::arithmetic::div_mod::lemma_div_multiples_vanish(2 * b, k);
    assert(-(2 * b) * k == k * -(2 * b)) by (nonlinear_arith);
    assert((2 * b) * k == k * (2 * b)) by (nonlinear_arith);
}

/// Elevation and moisture at a unit direction: the direction is warped, the continent field
/// decides between the land and the ocean profile, and moisture comes from its own channel.
pub fn sample(dir: Vec3, seeds: &Seeds, bias: i64) -> (r: HeightSample)
    requires
        vec_bounded(dir, ONE as int),
        LAND_BIAS_MIN <= bias <= LAND_BIAS_MAX,
    ensures
        r == sample_spec(dir, *seeds, bias as int),
        -MAX_ELEVATION <= r.elevation <= MAX_ELEVATION,
        0 <= r.moisture <= ONE,
        base_spec(domain_warp_spec(dir, seeds.warp), *seeds, bias as int) <= 0 ==> r.elevation < 0,
{
    let w = domain_warp(dir, seeds.warp);
    let base = continent(w, seeds.continent) - SEA_THRESHOLD + bias;
    let h = if base > 0 {
        land_height(w, base, seeds)
    } else {
        ocean_height(w, base, seeds)
    };
    proof {
        lemma_fmul_double(h as int, HEIGHT_AMPLITUDE as int);
        lemma_fmul_sign(h as int, HEIGHT_AMPLITUDE as int);
    }
    HeightSample { elevation: fmul(h, HEIGHT_AMPLITUDE), moisture: moisture(w, seeds.moisture) }
}

/// A fixed-point product by a positive factor of at least one keeps the sign of `a`.
proof fn lemma_fmul_sign(a: int, b: int)
    requires
        b >= ONE,
    ensures
        a < 0 <==> fmul_spec(a, b) < 0,
{
    let k = ONE as int;
    if a < 0 {
        assert(a * b <= -b) by (nonlinear_arith)
            requires
                a <= -1,
                b > 0,
        ;
        vstd::arithmetic::div_mod::lemma_div_is_ordered(a * b, -1, k);
    } else {
        assert(0 <= a * b) by (nonlinear_arith)
            requires
                a >= 0,
                b > 0,
        ;
        vstd::arithmetic::div_mod::lemma_div_is_ordered(0, a * b, k);
    }
}

} // verus!
