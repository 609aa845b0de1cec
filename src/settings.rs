//! Tunable biome thresholds and their validation.
use vstd::prelude::*;
use crate::fixed::{clamp, clamp_spec, ONE};

verus! {

/// Range of `beach_max_height`: `[0, 0.08]` of the height amplitude.
pub const BEACH_MAX_HEIGHT_LIMIT: i64 = 5243;

/// Range of `land_elevation_bias`: `[-0.05, 0.15]`.
pub const LAND_BIAS_MIN: i64 = -3277;

pub const LAND_BIAS_MAX: i64 = 9830;

/// Biome thresholds, in fixed point.
#[derive(Clone, Copy, Debug, PartialEq, Eq, Structural)]
pub struct TerrainSettings {
    /// Highest normalised elevation that is still beach.
    pub beach_max_height: i64,
    /// Moisture below which temperate land is desert.
    pub desert_moisture_max: i64,
    /// Moisture below which temperate land is semi-arid grassland.
    pub semi_arid_moisture_max: i64,
    /// Shift of the continent field towards land (positive) or sea (negative).
    pub land_elevation_bias: i64,
}

impl TerrainSettings {
    /// Every field within its range, and the semi-arid threshold not below the desert one.
    pub open spec fn is_valid(&self) -> bool {
        &&& 0 <= self.beach_max_height <= BEACH_MAX_HEIGHT_LIMIT
        &&& 0 <= self.desert_moisture_max <= ONE
        &&& 0 <= self.semi_arid_moisture_max <= ONE
        &&& LAND_BIAS_MIN <= self.land_elevation_bias <= LAND_BIAS_MAX
        &&& self.desert_moisture_max <= self.semi_arid_moisture_max
    }

    /// Each field clamped to its range, then the semi-arid threshold raised to the desert one.
    pub open spec fn validated_spec(&self) -> TerrainSettings {
        let desert = clamp_spec(self.desert_moisture_max as int, 0, ONE as int);
        let semi = clamp_spec(self.semi_arid_moisture_max as int, 0, ONE as int);
        TerrainSettings {
            beach_max_height: clamp_spec(
                self.beach_max_height as int,
                0,
                BEACH_MAX_HEIGHT_LIMIT as int,
            ) as i64,
            desert_moisture_max: desert as i64,
            semi_arid_moisture_max: (if semi < desert { desert } else { semi }) as i64,
            land_elevation_bias: clamp_spec(
                self.land_elevation_bias as int,
                LAND_BIAS_MIN as int,
                LAND_BIAS_MAX as int,
            ) as i64,
        }
    }

    /// Default thresholds: beach up to 0.02, desert below 0.25, semi-arid below 0.5, no bias.
    pub fn new() -> (r: TerrainSettings)
        ensures
            r.is_valid(),
            r.beach_max_height == 1311,
            r.desert_moisture_max == 16384,
            r.semi_arid_moisture_max == 32768,
            r.land_elevation_bias == 0,
    {
        TerrainSettings {
            beach_max_height: 1311,
            desert_moisture_max: 16384,
            semi_arid_moisture_max: 32768,
            land_elevation_bias: 0,
        }
    }

    /// Clamps each field to its range and then raises the semi-arid threshold to the desert
    /// one where it lies below. Returns the corrected settings and whether anything changed.
    pub fn validate(&self) -> (r: (TerrainSettings, bool))
        ensures
            r.0 == self.validated_spec(),
            r.0.is_valid(),
            r.0.semi_arid_moisture_max >= r.0.desert_moisture_max,
            r.1 == (r.0 != *self),
    {
        let desert = clamp(self.desert_moisture_max, 0, ONE);
        let mut semi = clamp(self.semi_arid_moisture_max, 0, ONE);
        if semi < desert {
            semi = desert;
        }
        let out = TerrainSettings {
            beach_max_height: clamp(self.beach_max_height, 0, BEACH_MAX_HEIGHT_LIMIT),
            desert_moisture_max: desert,
            semi_arid_moisture_max: semi,
            land_elevation_bias: clamp(self.land_elevation_bias, LAND_BIAS_MIN, LAND_BIAS_MAX),
        };
        let changed = out.beach_max_height != self.beach_max_height || out.desert_moisture_max
            != self.desert_moisture_max || out.semi_arid_moisture_max
            != self.semi_arid_moisture_max || out.land_elevation_bias != self.land_elevation_bias;
        (out, changed)
    }
}

} // verus!
