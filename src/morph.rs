//! Blend between the globe and the flat-map placement of the mesh.
use vstd::prelude::*;
use crate::fixed::{abs_spec, clamp, clamp_spec, fmul, fmul_spec, lemma_fmul_unit, ONE};

verus! {

/// Width of the flat map in world units: the circumference of the planet.
pub const MAP_WIDTH: i64 = 4117748;

/// Height of the flat map in world units: half the circumference.
pub const MAP_HEIGHT: i64 = 2058874;

/// The per-frame data handed to the renderer: blend, rotation and the map's extent.
#[derive(Clone, Copy, Debug, PartialEq, Eq, Structural)]
pub struct MorphUniform {
    pub blend: i64,
    pub rotation_offset: i64,
    pub map_width: i64,
    pub map_height: i64,
}

/// Current blend (0 globe, `ONE` flat map), the blend aimed at, and the map's rotation.
#[derive(Clone, Copy, Debug, PartialEq, Eq, Structural)]
pub struct MorphState {
    pub blend: i64,
    pub target: i64,
    pub rotation_offset: i64,
}

impl MorphState {
    /// The blend lies in `[0, ONE]` and the target is one of its ends.
    pub open spec fn is_valid(&self) -> bool {
        &&& 0 <= self.blend <= ONE
        &&& (self.target == 0 || self.target == ONE)
    }

    /// The globe, at rest.
    pub fn new() -> (r: MorphState)
        ensures
            r.is_valid(),
            r.blend == 0,
            r.target == 0,
            r.rotation_offset == 0,
    {
        MorphState { blend: 0, target: 0, rotation_offset: 0 }
    }

    /// Switches the target between globe and flat map. Heading for the map, the rotation is
    /// set to `rotation_offset`, which centres the map on the point facing the viewer.
    pub fn toggle(&mut self, rotation_offset: i64)
        requires
            old(self).is_valid(),
        ensures
            final(self).is_valid(),
            final(self).blend == old(self).blend,
            old(self).target == 0 ==> final(self).target == ONE && final(self).rotation_offset
                == rotation_offset,
            old(self).target == ONE ==> final(self).target == 0 && final(self).rotation_offset
                == old(self).rotation_offset,
    {
        if self.target < ONE / 2 {
            self.rotation_offset = rotation_offset;
            self.target = ONE;
        } else {
            self.target = 0;
        }
    }

    /// Moves the blend towards the target by the fraction `step` of the remaining distance.
    pub fn advance(&mut self, step: i64)
        requires
            old(self).is_valid(),
            0 <= step <= ONE,
        ensures
            final(self).is_valid(),
            final(self).target == old(self).target,
            final(self).rotation_offset == old(self).rotation_offset,
            final(self).blend == clamp_spec(
                old(self).blend + fmul_spec(old(self).target - old(self).blend, step as int),
                0,
                ONE as int,
            ),
            abs_spec(final(self).target - final(self).blend) <= abs_spec(
                old(self).target - old(self).blend,
            ),
    {
        let d = self.target - self.blend;
        proof {
            lemma_fmul_unit(step as int, d as int);
            vstd::arithmetic::mul::lemma_mul_is_commutative(step as int, d as int);
            if d >= 0 {
                lemma_fmul_unit(step as int, d as int);
            }
        }
        let m = fmul(d, step);
        proof {
            if d < 0 {
                assert(d * step <= 0) by (nonlinear_arith)
                    requires
                        d < 0,
                        step >= 0,
                ;
                vstd::arithmetic::div_mod::lemma_div_is_ordered(d * step, 0, ONE as int);
            }
        }
        self.blend = clamp(self.blend + m, 0, ONE);
    }

    /// The uniform block for this frame.
    pub fn uniform(&self) -> (r: MorphUniform)
        ensures
            r.blend == clamp_spec(self.blend as int, 0, ONE as int),
            r.rotation_offset == self.rotation_offset,
            r.map_width == MAP_WIDTH,
            r.map_height == MAP_HEIGHT,
    {
        MorphUniform {
            blend: clamp(self.blend, 0, ONE),
            rotation_offset: self.rotation_offset,
            map_width: MAP_WIDTH,
            map_height: MAP_HEIGHT,
        }
    }
}

} // verus!
