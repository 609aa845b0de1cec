//! Deterministic lattice value noise and its multi-octave compositions.
use vstd::prelude::*;
use vstd::arithmetic::power2::pow2;
use crate::fixed::{
    abs, abs_spec, div_floor, fmul, fmul_spec, lemma_div_unit, lemma_fmul_unit, lerp, lerp_spec,
    normalize, normalize_spec, scale, scale_spec, smoothstep, smoothstep_spec, vadd, vadd_spec,
    vec3, vec_bounded, Vec3, ONE,
};

verus! {

/// Added to a lattice coordinate before hashing so that it is never negative.
pub const LATTICE_SHIFT: i64 = 0x4000_0000;

/// Largest coordinate magnitude accepted by `value_noise`.
pub const NOISE_BOUND: i64 = 0x100_0000_0000;

/// Largest number of octaves of `fbm` and `ridged_fbm`.
pub const MAX_OCTAVES: u32 = 8;

/// Largest lacunarity (frequency ratio between octaves) of `fbm` and `ridged_fbm`.
pub const MAX_LACUNARITY: i64 = 131072;

/// Largest coordinate magnitude accepted by `fbm` and `ridged_fbm`.
pub const FBM_BOUND: i64 = 0x8000_0000;

pub const PRIME_X: u32 = 0x8da6_b343;
pub const PRIME_Y: u32 = 0xd816_3841;
pub const PRIME_Z: u32 = 0xcb1a_b31f;
pub const MIX: u32 = 0x5bd1_e995;

/// Avalanche mix of the combined lattice key.
pub open spec fn mix_spec(a: u32) -> u32 {
    let b = a ^ (a >> 13u32);
    let c = vstd::wrapping::u32_specs::wrapping_mul(b, MIX);
    c ^ (c >> 15u32)
}

/// Hash of the lattice point `(ix, iy, iz)` under `seed`, in `[-ONE, ONE]`.
pub open spec fn hash_spec(ix: int, iy: int, iz: int, seed: u32) -> int {
    let hx = vstd::wrapping::u32_specs::wrapping_mul((ix + LATTICE_SHIFT) as u32, PRIME_X);
    let hy = vstd::wrapping::u32_specs::wrapping_mul((iy + LATTICE_SHIFT) as u32, PRIME_Y);
    let hz = vstd::wrapping::u32_specs::wrapping_mul((iz + LATTICE_SHIFT) as u32, PRIME_Z);
    (mix_spec(hx ^ hy ^ hz ^ seed) >> 15u32) as int - ONE
}

/// Smooth fade of a cell fraction.
pub open spec fn fade_spec(t: int) -> int {
    smoothstep_spec(0, ONE as int, t)
}

pub open spec fn cell_spec(c: int) -> int {
    c / (ONE as int)
}

pub open spec fn frac_spec(c: int) -> int {
    c - cell_spec(c) * ONE
}

/// Trilinear interpolation of the lattice hashes around `p`, with faded weights.
pub open spec fn value_noise_spec(p: Vec3, seed: u32) -> int {
    let (ix, iy, iz) = (cell_spec(p.x as int), cell_spec(p.y as int), cell_spec(p.z as int));
    let u = fade_spec(frac_spec(p.x as int));
    let v = fade_spec(frac_spec(p.y as int));
    let w = fade_spec(frac_spec(p.z as int));
    let x00 = lerp_spec(hash_spec(ix, iy, iz, seed), hash_spec(ix + 1, iy, iz, seed), u);
    let x10 = lerp_spec(hash_spec(ix, iy + 1, iz, seed), hash_spec(ix + 1, iy + 1, iz, seed), u);
    let x01 = lerp_spec(hash_spec(ix, iy, iz + 1, seed), hash_spec(ix + 1, iy, iz + 1, seed), u);
    let x11 = lerp_spec(
        hash_spec(ix, iy + 1, iz + 1, seed),
        hash_spec(ix + 1, iy + 1, iz + 1, seed),
        u,
    );
    lerp_spec(lerp_spec(x00, x10, v), lerp_spec(x01, x11, v), w)
}

/// Folds a noise value into a ridge: `(1 - |n|)^2`.
pub open spec fn ridge_spec(n: int) -> int {
    fmul_spec(ONE - abs_spec(n), ONE - abs_spec(n))
}

/// Running totals after `k` octaves: (weighted sum, total amplitude, next amplitude, next frequency).
pub open spec fn octaves_spec(
    p: Vec3,
    seed: u32,
    k: nat,
    lacunarity: int,
    gain: int,
    ridged: bool,
) -> (int, int, int, int)
    decreases k,
{
    if k == 0 {
        (0, 0, ONE as int, ONE as int)
    } else {
        let (sum, norm, amp, freq) = octaves_spec(p, seed, (k - 1) as nat, lacunarity, gain, ridged);
        let n = value_noise_spec(scale_spec(p, freq), seed);
        let o = if ridged { ridge_spec(n) } else { n };
        (sum + fmul_spec(o, amp), norm + amp, fmul_spec(amp, gain), fmul_spec(freq, lacunarity))
    }
}

/// Octave sum normalised by the total amplitude.
pub open spec fn layered_spec(
    p: Vec3,
    seed: u32,
    octaves: nat,
    lacunarity: int,
    gain: int,
    ridged: bool,
) -> int {
    let (sum, norm, _, _) = octaves_spec(p, seed, octaves, lacunarity, gain, ridged);
    if norm > 0 {
        (sum * ONE) / norm
    } else {
        0
    }
}

pub open spec fn fbm_spec(p: Vec3, seed: u32, octaves: nat, lacunarity: int, gain: int) -> int {
    layered_spec(p, seed, octaves, lacunarity, gain, false)
}

pub open spec fn ridged_fbm_spec(
    p: Vec3,
    seed: u32,
    octaves: nat,
    lacunarity: int,
    gain: int,
) -> int {
    layered_spec(p, seed, octaves, lacunarity, gain, true)
}

/// Hash of a lattice point under `seed`: a signed value in `[-ONE, ONE]`.
pub fn hash(ix: i64, iy: i64, iz: i64, seed: u32) -> (r: i64)
    requires
        -LATTICE_SHIFT <= ix < LATTICE_SHIFT,
        -LATTICE_SHIFT <= iy < LATTICE_SHIFT,
        -LATTICE_SHIFT <= iz < LATTICE_SHIFT,
    ensures
        r == hash_spec(ix as int, iy as int, iz as int, seed),
        -ONE <= r <= ONE,
{
    let hx = ((ix + LATTICE_SHIFT) as u32).wrapping_mul(PRIME_X);
    let hy = ((iy + LATTICE_SHIFT) as u32).wrapping_mul(PRIME_Y);
    let hz = ((iz + LATTICE_SHIFT) as u32).wrapping_mul(PRIME_Z);
    let a = hx ^ hy ^ hz ^ seed;
    let b = a ^ (a >> 13u32);
    let c = b.wrapping_mul(MIX);
    let d = c ^ (c >> 15u32);
    let top = d >> 15u32;
    assert(top < 0x20000) by (bit_vector)
        requires
            top == d >> 15u32,
    ;
    top as i64 - ONE
}

/// Value noise at `p`: faded trilinear interpolation of the eight surrounding lattice hashes.
pub fn value_noise(p: Vec3, seed: u32) -> (r: i64)
    requires
        vec_bounded(p, NOISE_BOUND as int),
    ensures
        r == value_noise_spec(p, seed),
        -ONE <= r <= ONE,
{
    let ix = div_floor(p.x, ONE);
    let iy = div_floor(p.y, ONE);
    let iz = div_floor(p.z, ONE);
    proof {
        lemma_cell_bounds(p.x as int);
        lemma_cell_bounds(p.y as int);
        lemma_cell_bounds(p.z as int);
    }
    let u = smoothstep(0, ONE, p.x - ix * ONE);
    let v = smoothstep(0, ONE, p.y - iy * ONE);
    let w = smoothstep(0, ONE, p.z - iz * ONE);
    let x00 = lerp(hash(ix, iy, iz, seed), hash(ix + 1, iy, iz, seed), u);
    let x10 = lerp(hash(ix, iy + 1, iz, seed), hash(ix + 1, iy + 1, iz, seed), u);
    let x01 = lerp(hash(ix, iy, iz + 1, seed), hash(ix + 1, iy, iz + 1, seed), u);
    let x11 = lerp(hash(ix, iy + 1, iz + 1, seed), hash(ix + 1, iy + 1, iz + 1, seed), u);
    let y0 = lerp(x00, x10, v);
    let y1 = lerp(x01, x11, v);
    lerp(y0, y1, w)
}

proof fn lemma_cell_bounds(c: int)
    requires
        -NOISE_BOUND <= c <= NOISE_BOUND,
    ensures
        -LATTICE_SHIFT <= cell_spec(c) < LATTICE_SHIFT - 1,
        0 <= frac_spec(c) < ONE,
{
    let k = ONE as int;
    vstd::arithmetic::div_mod::lemma_fundamental_div_mod(c, k);
    let lo = -0x1_0000_0000 * k;
    let hi = 0x1_0000_0000 * k;
    vstd::arithmetic::div_mod::lemma_div_is_ordered(lo, c, k);
    vstd::arithmetic::div_mod::lemma_div_is_ordered(c, hi, k);
    vstd::arithmetic::div_mod::lemma_div_multiples_vanish(-0x1_0000_0000, k);
    vstd::arithmetic::div_mod::lemma_div_multiples_vanish(0x1_0000_0000, k);
    assert(k * -0x1_0000_0000 == lo);
    assert(k * 0x1_0000_0000 == hi);
    vstd::arithmetic::mul::lemma_mul_is_commutative(c / k, k);
}

/// A ridge value lies in `[0, ONE]`.
pub proof fn lemma_ridge_bound(n: int)
    requires
        -ONE <= n <= ONE,
    ensures
        0 <= ridge_spec(n) <= ONE,
{
    let m = ONE - abs_spec(n);
    lemma_fmul_unit(m, m);
}

fn layered(p: Vec3, seed: u32, octaves: u32, lacunarity: i64, gain: i64, ridged: bool) -> (r: i64)
    requires
        vec_bounded(p, FBM_BOUND as int),
        octaves <= MAX_OCTAVES,
        0 <= lacunarity <= MAX_LACUNARITY,
        0 <= gain <= ONE,
    ensures
        r == layered_spec(p, seed, octaves as nat, lacunarity as int, gain as int, ridged),
        -ONE <= r <= ONE,
        ridged ==> 0 <= r,
{
    let mut sum: i64 = 0;
    let mut norm: i64 = 0;
    let mut amp: i64 = ONE;
    let mut freq: i64 = ONE;
    let mut i: u32 = 0;
    proof {
        vstd::arithmetic::power2::lemma2_to64();
    }
    while i < octaves
        invariant
            i <= octaves <= MAX_OCTAVES,
            vec_bounded(p, FBM_BOUND as int),
            0 <= lacunarity <= MAX_LACUNARITY,
            0 <= gain <= ONE,
            (sum as int, norm as int, amp as int, freq as int) == octaves_spec(
                p,
                seed,
                i as nat,
                lacunarity as int,
                gain as int,
                ridged,
            ),
            0 <= amp <= ONE,
            0 <= norm <= ONE * i,
            -norm <= sum <= norm,
            ridged ==> 0 <= sum,
            0 <= freq <= ONE * pow2(i as nat),
            pow2(8) == 256,
        decreases octaves - i,
    {
        proof {
            if i < 8 {
                vstd::arithmetic::power2::lemma_pow2_strictly_increases(i as nat, 8);
            }
            assert(ONE * pow2(i as nat) <= ONE * 256) by (nonlinear_arith)
                requires
                    pow2(i as nat) <= 256,
            ;
            lemma_scale_bound(p, freq as int);
        }
        let q = scale(p, freq);
        let n = value_noise(q, seed);
        let o = if ridged {
            proof {
                lemma_ridge_bound(n as int);
            }
            fmul(ONE - abs(n), ONE - abs(n))
        } else {
            n
        };
        proof {
            lemma_fmul_unit(o as int, amp as int);
            lemma_fmul_unit(gain as int, amp as int);
            vstd::arithmetic::mul::lemma_mul_is_commutative(gain as int, amp as int);
            vstd::arithmetic::mul::lemma_mul_is_commutative(o as int, amp as int);
            lemma_freq_step(freq as int, lacunarity as int, i as nat);
        }
        sum = sum + fmul(o, amp);
        norm = norm + amp;
        amp = fmul(amp, gain);
        freq = fmul(freq, lacunarity);
        i = i + 1;
    }
    if norm > 0 {
        proof {
            lemma_div_unit(sum as int, norm as int);
            if ridged {
                vstd::arithmetic::div_mod::lemma_div_is_ordered(0, sum * ONE, norm as int);
            }
        }
        div_floor(sum * ONE, norm)
    } else {
        0
    }
}

proof fn lemma_scale_bound(p: Vec3, f: int)
    requires
        vec_bounded(p, FBM_BOUND as int),
        0 <= f <= ONE * 256,
    ensures
        vec_bounded(scale_spec(p, f), NOISE_BOUND as int),
{
    lemma_fmul_range(p.x as int, f);
    lemma_fmul_range(p.y as int, f);
    lemma_fmul_range(p.z as int, f);
}

proof fn lemma_fmul_range(a: int, f: int)
    requires
        -FBM_BOUND <= a <= FBM_BOUND,
        0 <= f <= ONE * 256,
    ensures
        -NOISE_BOUND <= fmul_spec(a, f) <= NOISE_BOUND,
{
    let k = ONE as int;
    assert(-NOISE_BOUND * k <= a * f <= NOISE_BOUND * k) by (nonlinear_arith)
        requires
            -0x8000_0000 <= a <= 0x8000_0000,
            0 <= f <= 65536 * 256,
            k == 65536,
    ;
    vstd::arithmetic::div_mod::lemma_div_is_ordered(-NOISE_BOUND * k, a * f, k);
    vstd::arithmetic::div_mod::lemma_div_is_ordered(a * f, NOISE_BOUND * k, k);
    vstd::arithmetic::div_mod::lemma_div_multiples_vanish(-NOISE_BOUND as int, k);
    vstd::arithmetic::div_mod::lemma_div_multiples_vanish(NOISE_BOUND as int, k);
}

proof fn lemma_freq_step(f: int, lac: int, i: nat)
    requires
        0 <= f <= ONE * pow2(i),
        0 <= lac <= MAX_LACUNARITY,
    ensures
        0 <= fmul_spec(f, lac) <= ONE * pow2(i + 1),
{
    let k = ONE as int;
    vstd::arithmetic::power2::lemma_pow2_unfold(i + 1);
    assert(0 <= f * lac <= (2 * f) * k) by (nonlinear_arith)
        requires
            0 <= f,
            0 <= lac <= 2 * k,
    ;
    vstd::arithmetic::div_mod::lemma_div_is_ordered(0, f * lac, k);
    vstd::arithmetic::div_mod::lemma_div_is_ordered(f * lac, (2 * f) * k, k);
    vstd::arithmetic::div_mod::lemma_div_multiples_vanish(2 * f, k);
    assert((2 * f) * k == k * (2 * f)) by (nonlinear_arith);
    assert(2 * f <= k * pow2(i + 1)) by (nonlinear_arith)
        requires
            f <= k * pow2(i),
            pow2(i + 1) == 2 * pow2(i),
    ;
}

/// Fractal sum of `octaves` layers of value noise, each `lacunarity` times the frequency
/// and `gain` times the amplitude of the one before, normalised by the total amplitude.
pub fn fbm(p: Vec3, seed: u32, octaves: u32, lacunarity: i64, gain: i64) -> (r: i64)
    requires
        vec_bounded(p, FBM_BOUND as int),
        octaves <= MAX_OCTAVES,
        0 <= lacunarity <= MAX_LACUNARITY,
        0 <= gain <= ONE,
    ensures
        r == fbm_spec(p, seed, octaves as nat, lacunarity as int, gain as int),
        -ONE <= r <= ONE,
{
    layered(p, seed, octaves, lacunarity, gain, false)
}

/// Fractal sum as in `fbm`, with each layer folded through `(1 - |n|)^2`; lies in `[0, ONE]`.
pub fn ridged_fbm(p: Vec3, seed: u32, octaves: u32, lacunarity: i64, gain: i64) -> (r: i64)
    requires
        vec_bounded(p, FBM_BOUND as int),
        octaves <= MAX_OCTAVES,
        0 <= lacunarity <= MAX_LACUNARITY,
        0 <= gain <= ONE,
    ensures
        r == ridged_fbm_spec(p, seed, octaves as nat, lacunarity as int, gain as int),
        0 <= r <= ONE,
{
    layered(p, seed, octaves, lacunarity, gain, true)
}


/// Base frequency of the warp field.
pub const WARP_FREQUENCY: i64 = 98304;

/// Displacement of the warp field, as a fraction of the unit sphere's radius.
pub const WARP_STRENGTH: i64 = 7864;

/// Octaves of the warp field.
pub const WARP_OCTAVES: u32 = 3;

/// Frequency ratio between successive octaves of every fractal layer (two).
pub const LACUNARITY: i64 = 131072;

/// Amplitude ratio between successive octaves of every fractal layer (one half).
pub const GAIN: i64 = 32768;

/// Offsets that decorrelate the three warp components.
pub const WARP_OFFSET_Y: i64 = 340787;

pub const WARP_OFFSET_Z: i64 = 504627;

pub open spec fn warp_component_spec(dir: Vec3, seed: u32, offset: int) -> int {
    let p = vadd_spec(scale_spec(dir, WARP_FREQUENCY as int), vec3(offset, offset, offset));
    fmul_spec(fbm_spec(p, seed, WARP_OCTAVES as nat, LACUNARITY as int, GAIN as int), WARP_STRENGTH as int)
}

/// The direction displaced by three low-frequency fbm samples, renormalised.
pub open spec fn domain_warp_spec(dir: Vec3, seed: u32) -> Vec3 {
    normalize_spec(
        vadd_spec(
            dir,
            vec3(
                warp_component_spec(dir, seed, 0),
                warp_component_spec(dir, seed, WARP_OFFSET_Y as int),
                warp_component_spec(dir, seed, WARP_OFFSET_Z as int),
            ),
        ),
    )
}

/// `v` scaled by a factor in `[0, 16 ONE]` stays within `16 ONE` when `v` is a unit-bounded vector.
pub proof fn lemma_scale_unit(v: Vec3, s: int)
    requires
        vec_bounded(v, ONE as int),
        0 <= s <= 16 * ONE,
    ensures
        vec_bounded(scale_spec(v, s), s),
{
    lemma_fmul_unit(v.x as int, s);
    lemma_fmul_unit(v.y as int, s);
    lemma_fmul_unit(v.z as int, s);
}

fn warp_component(dir: Vec3, seed: u32, offset: i64) -> (r: i64)
    requires
        vec_bounded(dir, ONE as int),
        0 <= offset <= 16 * ONE,
    ensures
        r == warp_component_spec(dir, seed, offset as int),
        -WARP_STRENGTH <= r <= WARP_STRENGTH,
{
    proof {
        lemma_scale_unit(dir, WARP_FREQUENCY as int);
    }
    let s = scale(dir, WARP_FREQUENCY);
    let p = vadd(s, Vec3 { x: offset, y: offset, z: offset });
    let n = fbm(p, seed, WARP_OCTAVES, LACUNARITY, GAIN);
    proof {
        lemma_fmul_unit(n as int, WARP_STRENGTH as int);
    }
    fmul(n, WARP_STRENGTH)
}

/// Displaces a unit direction by low-frequency noise and renormalises it.
pub fn domain_warp(dir: Vec3, seed: u32) -> (r: Vec3)
    requires
        vec_bounded(dir, ONE as int),
    ensures
        r == domain_warp_spec(dir, seed),
        vec_bounded(r, ONE as int),
{
    let wx = warp_component(dir, seed, 0);
    let wy = warp_component(dir, seed, WARP_OFFSET_Y);
    let wz = warp_component(dir, seed, WARP_OFFSET_Z);
    normalize(vadd(dir, Vec3 { x: wx, y: wy, z: wz }))
}

} // verus!
