//! Classification of a surface point into a biome and its flat colour.
use vstd::prelude::*;
use crate::fixed::{abs, abs_spec, clamp, clamp_spec, div_floor, fmul, fmul_spec, Vec3, ONE};
use crate::height::{HEIGHT_AMPLITUDE, MAX_ELEVATION};
use crate::settings::TerrainSettings;

verus! {

/// Normalised elevation below which the ocean is deep.
pub const DEEP_OCEAN_DEPTH: i64 = -22938;

/// Temperature drop per unit of normalised elevation (0.8).
pub const LAPSE_RATE: i64 = 52429;

/// Temperature below which land is snow.
pub const SNOW_TEMPERATURE: i64 = 9830;

/// Temperature below which land is bare rock.
pub const ROCK_TEMPERATURE: i64 = 19661;

/// The terrain bands, in order of precedence.
#[derive(Clone, Copy, Debug, PartialEq, Eq, Structural)]
pub enum Biome {
    DeepOcean,
    ShallowOcean,
    Beach,
    Snow,
    Rock,
    Desert,
    Grassland,
    Forest,
}

/// A colour with fixed-point channels in `[0, ONE]`.
#[derive(Clone, Copy, Debug, PartialEq, Eq, Structural)]
pub struct Rgb {
    pub r: i64,
    pub g: i64,
    pub b: i64,
}

/// Elevation in units of the height amplitude.
pub open spec fn normalized_elevation_spec(elevation: int) -> int {
    (elevation * ONE) / (HEIGHT_AMPLITUDE as int)
}

/// Colder towards the poles (`|dir.y|` near one) and with altitude, within `[0, ONE]`.
pub open spec fn temperature_spec(h: int, dir: Vec3) -> int {
    clamp_spec(ONE - abs_spec(dir.y as int) - fmul_spec(h, LAPSE_RATE as int), 0, ONE as int)
}

/// The first band whose condition holds, tested from the deep ocean up to forest.
pub open spec fn classify_spec(
    elevation: int,
    dir: Vec3,
    moisture: int,
    settings: TerrainSettings,
) -> Biome {
    let h = normalized_elevation_spec(elevation);
    if h < DEEP_OCEAN_DEPTH {
        Biome::DeepOcean
    } else if h < 0 {
        Biome::ShallowOcean
    } else if h < settings.beach_max_height {
        Biome::Beach
    } else {
        let t = temperature_spec(h, dir);
        if t < SNOW_TEMPERATURE {
            Biome::Snow
        } else if t < ROCK_TEMPERATURE {
            Biome::Rock
        } else if moisture < settings.desert_moisture_max {
            Biome::Desert
        } else if moisture < settings.semi_arid_moisture_max {
            Biome::Grassland
        } else {
            Biome::Forest
        }
    }
}

pub open spec fn rgb(r: int, g: int, b: int) -> Rgb {
    Rgb { r: r as i64, g: g as i64, b: b as i64 }
}

impl Biome {
    /// The flat colour of each band.
    pub open spec fn color_spec(&self) -> Rgb {
        match self {
            Biome::DeepOcean => rgb(3277, 7864, 22938),
            Biome::ShallowOcean => rgb(6554, 19661, 36045),
            Biome::Beach => rgb(53740, 49807, 34079),
            Biome::Snow => rgb(62259, 62259, 63570),
            Biome::Rock => rgb(29491, 27525, 26214),
            Biome::Desert => rgb(55706, 45875, 29491),
            Biome::Grassland => rgb(36045, 42598, 19661),
            Biome::Forest => rgb(9830, 29491, 11796),
        }
    }

    /// The flat colour of this band.
    pub fn color(&self) -> (r: Rgb)
        ensures
            r == self.color_spec(),
    {
        match self {
            Biome::DeepOcean => Rgb { r: 3277, g: 7864, b: 22938 },
            Biome::ShallowOcean => Rgb { r: 6554, g: 19661, b: 36045 },
            Biome::Beach => Rgb { r: 53740, g: 49807, b: 34079 },
            Biome::Snow => Rgb { r: 62259, g: 62259, b: 63570 },
            Biome::Rock => Rgb { r: 29491, g: 27525, b: 26214 },
            Biome::Desert => Rgb { r: 55706, g: 45875, b: 29491 },
            Biome::Grassland => Rgb { r: 36045, g: 42598, b: 19661 },
            Biome::Forest => Rgb { r: 9830, g: 29491, b: 11796 },
        }
    }

    /// Whether the band lies under water.
    pub open spec fn is_ocean_spec(&self) -> bool {
        self == Biome::DeepOcean || self == Biome::ShallowOcean
    }
}

/// The biome of a surface point: ocean bands by depth, then beach by height, then snow and
/// rock by temperature (latitude and altitude), then desert, grassland or forest by moisture.
pub fn classify(elevation: i64, dir: Vec3, moisture: i64, settings: &TerrainSettings) -> (r: Biome)
    requires
        -MAX_ELEVATION <= elevation <= MAX_ELEVATION,
        -ONE <= dir.y <= ONE,
    ensures
        r == classify_spec(elevation as int, dir, moisture as int, *settings),
        r.is_ocean_spec() <==> elevation < 0,
{
    assert(-0x40_0000_0000 <= elevation * ONE <= 0x40_0000_0000) by (nonlinear_arith)
        requires
            -209716 <= elevation <= 209716,
    ;
    let h = div_floor(elevation * ONE, HEIGHT_AMPLITUDE);
    proof {
        lemma_normalized_sign(elevation as int);
        lemma_normalized_bound(elevation as int);
    }
    if h < DEEP_OCEAN_DEPTH {
        Biome::DeepOcean
    } else if h < 0 {
        Biome::ShallowOcean
    } else if h < settings.beach_max_height {
        Biome::Beach
    } else {
        let t = clamp(ONE - abs(dir.y) - fmul(h, LAPSE_RATE), 0, ONE);
        if t < SNOW_TEMPERATURE {
            Biome::Snow
        } else if t < ROCK_TEMPERATURE {
            Biome::Rock
        } else if moisture < settings.desert_moisture_max {
            Biome::Desert
        } else if moisture < settings.semi_arid_moisture_max {
            Biome::Grassland
        } else {
            Biome::Forest
        }
    }
}

proof fn lemma_normalized_sign(e: int)
    ensures
        normalized_elevation_spec(e) < 0 <==> e < 0,
{
    let k = ONE as int;
    let a = HEIGHT_AMPLITUDE as int;
    if e < 0 {
        assert(e * k <= -k) by (nonlinear_arith)
            requires
                e <= -1,
                k > 0,
        ;
        vstd::arithmetic::div_mod::lemma_div_is_ordered(e * k, -1, a);
        assert(-1int / a == -1);
    } else {
        assert(0 <= e * k) by (nonlinear_arith)
            requires
                e >= 0,
                k > 0,
        ;
        vstd::arithmetic::div_mod::lemma_div_is_ordered(0, e * k, a);
    }
}

proof fn lemma_normalized_bound(e: int)
    requires
        -MAX_ELEVATION <= e <= MAX_ELEVATION,
    ensures
        -2 * ONE <= normalized_elevation_spec(e) <= 2 * ONE,
{
    let k = ONE as int;
    let a = HEIGHT_AMPLITUDE as int;
    assert(-(2 * k) * a <= e * k <= (2 * k) * a) by (nonlinear_arith)
        requires
            -2 * a <= e <= 2 * a,
            k > 0,
    ;
    vstd::arithmetic::div_mod::lemma_div_is_ordered(-(2 * k) * a, e * k, a);
    vstd::arithmetic::div_mod::lemma_div_is_ordered(e * k, (2 * k) * a, a);
    vstd::arithmetic::div_mod::lemma_div_multiples_vanish(-(2 * k), a);
    vstd::arithmetic::div_mod::lemma_div_multiples_vanish(2 * k, a);
    assert(-(2 * k) * a == a * -(2 * k)) by (nonlinear_arith);
    assert((2 * k) * a == a * (2 * k)) by (nonlinear_arith);
}

/// The colour of a surface point: the colour of its biome.
pub fn color_for(elevation: i64, dir: Vec3, moisture: i64, settings: &TerrainSettings) -> (r: Rgb)
    requires
        -MAX_ELEVATION <= elevation <= MAX_ELEVATION,
        -ONE <= dir.y <= ONE,
    ensures
        r == classify_spec(elevation as int, dir, moisture as int, *settings).color_spec(),
{
    classify(elevation, dir, moisture, settings).color()
}

} // verus!
