//! Fixed-point numbers with 16 fractional bits, stored in `i64`.
use vstd::prelude::*;

verus! {

/// Fixed-point one.
pub const ONE: i64 = 65536;

/// Largest magnitude accepted by `fmul`.
pub const MUL_BOUND: i64 = 0x8000_0000;

/// Largest component magnitude accepted by `normalize`.
pub const VEC_BOUND: i64 = 0x4000_0000;

/// A vector of three fixed-point numbers.
#[derive(Clone, Copy, Debug, PartialEq, Eq, Structural)]
pub struct Vec3 {
    pub x: i64,
    pub y: i64,
    pub z: i64,
}

pub open spec fn vec3(x: int, y: int, z: int) -> Vec3 {
    Vec3 { x: x as i64, y: y as i64, z: z as i64 }
}

pub open spec fn abs_spec(a: int) -> int {
    if a < 0 { -a } else { a }
}

pub open spec fn clamp_spec(x: int, lo: int, hi: int) -> int {
    if x < lo { lo } else if x > hi { hi } else { x }
}

/// Product of two fixed-point numbers, rounded down.
pub open spec fn fmul_spec(a: int, b: int) -> int {
    (a * b) / (ONE as int)
}

pub open spec fn lerp_spec(a: int, b: int, t: int) -> int {
    a + fmul_spec(b - a, t)
}

/// `3t^2 - 2t^3` on the clamped position of `x` between `e0` and `e1`.
pub open spec fn smoothstep_spec(e0: int, e1: int, x: int) -> int {
    let t = clamp_spec(((x - e0) * ONE) / (e1 - e0), 0, ONE as int);
    fmul_spec(fmul_spec(t, t), 3 * ONE - 2 * t)
}

/// `r` is the integer square root of `n`.
pub open spec fn is_isqrt(n: int, r: int) -> bool {
    0 <= r && r * r <= n < (r + 1) * (r + 1)
}

pub open spec fn isqrt_spec(n: int) -> int {
    choose|r: int| is_isqrt(n, r)
}

pub open spec fn vec_bounded(v: Vec3, b: int) -> bool {
    abs_spec(v.x as int) <= b && abs_spec(v.y as int) <= b && abs_spec(v.z as int) <= b
}

pub open spec fn norm_sq_spec(v: Vec3) -> int {
    v.x * v.x + v.y * v.y + v.z * v.z
}

/// Unit-length rescaling of `v`; the zero vector when `v` has length zero.
pub open spec fn normalize_spec(v: Vec3) -> Vec3 {
    let len = isqrt_spec(norm_sq_spec(v));
    if len == 0 {
        vec3(0, 0, 0)
    } else {
        vec3((v.x * ONE) / len, (v.y * ONE) / len, (v.z * ONE) / len)
    }
}

pub open spec fn is_zero(v: Vec3) -> bool {
    v.x == 0 && v.y == 0 && v.z == 0
}

pub open spec fn vsub_spec(a: Vec3, b: Vec3) -> Vec3 {
    vec3(a.x - b.x, a.y - b.y, a.z - b.z)
}

pub open spec fn vadd_spec(a: Vec3, b: Vec3) -> Vec3 {
    vec3(a.x + b.x, a.y + b.y, a.z + b.z)
}

/// Every component multiplied by the fixed-point factor `s`.
pub open spec fn scale_spec(v: Vec3, s: int) -> Vec3 {
    vec3(fmul_spec(v.x as int, s), fmul_spec(v.y as int, s), fmul_spec(v.z as int, s))
}

/// Cross product, rescaled to fixed point.
pub open spec fn cross_spec(a: Vec3, b: Vec3) -> Vec3 {
    vec3(
        fmul_spec(a.y as int, b.z as int) - fmul_spec(a.z as int, b.y as int),
        fmul_spec(a.z as int, b.x as int) - fmul_spec(a.x as int, b.z as int),
        fmul_spec(a.x as int, b.y as int) - fmul_spec(a.y as int, b.x as int),
    )
}

/// Bhaskara's approximation of `sin(pi * t / h)` for `0 <= t <= h`.
pub open spec fn sin_arch_spec(t: int, h: int) -> int {
    let p = t * (h - t);
    (16 * p * ONE) / (5 * h * h - 4 * p)
}

/// Approximate `sin(pi * t / h)` for `0 <= t <= 2h`.
pub open spec fn sin_spec(t: int, h: int) -> int {
    if t <= h {
        sin_arch_spec(t, h)
    } else {
        -sin_arch_spec(t - h, h)
    }
}

/// Approximate `cos(pi * t / h)` for `0 <= t <= 2h`, as a sine shifted by a quarter turn.
pub open spec fn cos_spec(t: int, h: int) -> int {
    let s = 2 * t + h;
    sin_spec(if s > 4 * h { s - 4 * h } else { s }, 2 * h)
}

/// Floor division by a positive divisor.
pub fn div_floor(a: i64, d: i64) -> (r: i64)
    requires
        d > 0,
        a > i64::MIN,
    ensures
        r == a as int / d as int,
{
    if a >= 0 {
        a / d
    } else {
        let q = (-a - 1) / d;
        proof {
            let na = -a - 1;
            assert(na >= 0);
            assert(q == na / d as int);
            vstd::arithmetic::div_mod::lemma_fundamental_div_mod(na, d as int);
            vstd::arithmetic::div_mod::lemma_fundamental_div_mod(a as int, d as int);
            let m = na % (d as int);
            assert(0 <= m < d);
            assert(a == (-q - 1) * d + (d - 1 - m)) by (nonlinear_arith)
                requires
                    na == d * q + m,
                    na == -a - 1,
            ;
            vstd::arithmetic::div_mod::lemma_fundamental_div_mod_converse(
                a as int,
                d as int,
                -q - 1,
                d - 1 - m,
            );
        }
        -q - 1
    }
}


/// `a * b`, rounded down, lies within `[-|b|, |b|]` when `|a| <= ONE`.
pub proof fn lemma_fmul_unit(a: int, b: int)
    requires
        -ONE <= a <= ONE,
    ensures
        -abs_spec(b) <= fmul_spec(a, b) <= abs_spec(b),
        0 <= a && 0 <= b ==> 0 <= fmul_spec(a, b) <= b,
{
    let k = ONE as int;
    let ab = abs_spec(b);
    assert(-ab * k <= a * b <= ab * k) by (nonlinear_arith)
        requires
            -k <= a <= k,
            ab == abs_spec(b),
            k > 0,
    ;
    vstd::arithmetic::div_mod::lemma_div_is_ordered(-ab * k, a * b, k);
    vstd::arithmetic::div_mod::lemma_div_is_ordered(a * b, ab * k, k);
    vstd::arithmetic::div_mod::lemma_div_multiples_vanish(-ab, k);
    vstd::arithmetic::div_mod::lemma_div_multiples_vanish(ab, k);
    assert(-ab * k == k * (-ab)) by (nonlinear_arith);
    assert(ab * k == k * ab) by (nonlinear_arith);
    if 0 <= a && 0 <= b {
        assert(0 <= a * b) by (nonlinear_arith)
            requires
                0 <= a,
                0 <= b,
        ;
        vstd::arithmetic::div_mod::lemma_div_is_ordered(0, a * b, k);
    }
}

/// `c * ONE / len`, rounded down, lies in `[-ONE, ONE]` when `|c| <= len`.
pub proof fn lemma_div_unit(c: int, len: int)
    requires
        len > 0,
        -len <= c <= len,
    ensures
        -ONE <= (c * ONE) / len <= ONE,
{
    let k = ONE as int;
    assert(-len * k <= c * k <= len * k) by (nonlinear_arith)
        requires
            -len <= c <= len,
            k > 0,
    ;
    vstd::arithmetic::div_mod::lemma_div_is_ordered(-len * k, c * k, len);
    vstd::arithmetic::div_mod::lemma_div_is_ordered(c * k, len * k, len);
    vstd::arithmetic::div_mod::lemma_div_multiples_vanish(-k, len);
    vstd::arithmetic::div_mod::lemma_div_multiples_vanish(k, len);
    assert(-len * k == len * (-k)) by (nonlinear_arith);
    assert(len * k == len * k);
}

/// Clamps `x` into `[lo, hi]`.
pub fn clamp(x: i64, lo: i64, hi: i64) -> (r: i64)
    requires
        lo <= hi,
    ensures
        r == clamp_spec(x as int, lo as int, hi as int),
        lo <= r <= hi,
{
    if x < lo {
        lo
    } else if x > hi {
        hi
    } else {
        x
    }
}

/// Absolute value.
pub fn abs(a: i64) -> (r: i64)
    requires
        a > i64::MIN,
    ensures
        r == abs_spec(a as int),
{
    if a < 0 {
        -a
    } else {
        a
    }
}

/// Fixed-point product, rounded down.
pub fn fmul(a: i64, b: i64) -> (r: i64)
    requires
        -MUL_BOUND <= a <= MUL_BOUND,
        -MUL_BOUND <= b <= MUL_BOUND,
    ensures
        r == fmul_spec(a as int, b as int),
{
    assert(-0x4000_0000_0000_0000 <= a * b <= 0x4000_0000_0000_0000) by (nonlinear_arith)
        requires
            -0x8000_0000 <= a <= 0x8000_0000,
            -0x8000_0000 <= b <= 0x8000_0000,
    ;
    div_floor(a * b, ONE)
}

/// Linear interpolation from `a` to `b` at the fixed-point position `t` in `[0, ONE]`.
pub fn lerp(a: i64, b: i64, t: i64) -> (r: i64)
    requires
        -ONE <= a <= ONE,
        -ONE <= b <= ONE,
        0 <= t <= ONE,
    ensures
        r == lerp_spec(a as int, b as int, t as int),
        a <= b ==> a <= r <= b,
        b <= a ==> b <= r <= a,
{
    let d = b - a;
    let m = fmul(d, t);
    proof {
        let k = ONE as int;
        if a <= b {
            assert(0 <= d * t <= d * k) by (nonlinear_arith)
                requires
                    0 <= d,
                    0 <= t <= k,
            ;
            vstd::arithmetic::div_mod::lemma_div_is_ordered(0, d * t, k);
            vstd::arithmetic::div_mod::lemma_div_is_ordered(d * t, d * k, k);
            vstd::arithmetic::div_mod::lemma_div_multiples_vanish(d as int, k);
            assert(d * k == k * d) by (nonlinear_arith);
        } else {
            assert(d * k <= d * t <= 0) by (nonlinear_arith)
                requires
                    d < 0,
                    0 <= t <= k,
            ;
            vstd::arithmetic::div_mod::lemma_div_is_ordered(d * t, 0, k);
            vstd::arithmetic::div_mod::lemma_div_is_ordered(d * k, d * t, k);
            vstd::arithmetic::div_mod::lemma_div_multiples_vanish(d as int, k);
            assert(d * k == k * d) by (nonlinear_arith);
        }
    }
    a + m
}

/// Hermite smoothstep of `x` between the edges `e0 < e1`, in `[0, ONE]`.
pub fn smoothstep(e0: i64, e1: i64, x: i64) -> (r: i64)
    requires
        e0 < e1,
        -MUL_BOUND <= e0 <= MUL_BOUND,
        -MUL_BOUND <= e1 <= MUL_BOUND,
        -MUL_BOUND <= x <= MUL_BOUND,
    ensures
        r == smoothstep_spec(e0 as int, e1 as int, x as int),
        0 <= r <= ONE,
{
    assert(-0x4_0000_0000_0000 <= (x - e0) * ONE <= 0x4_0000_0000_0000) by (nonlinear_arith)
        requires
            -0x8000_0000 <= x <= 0x8000_0000,
            -0x8000_0000 <= e0 <= 0x8000_0000,
    ;
    let q = div_floor((x - e0) * ONE, e1 - e0);
    let t = clamp(q, 0, ONE);
    let t2 = fmul(t, t);
    proof {
        lemma_fmul_unit(t as int, t as int);
    }
    let r = fmul(t2, 3 * ONE - 2 * t);
    proof {
        let k = ONE as int;
        let s = 3 * k - 2 * t;
        assert(t2 * k <= t * t) by {
            vstd::arithmetic::div_mod::lemma_fundamental_div_mod(t * t, k);
            vstd::arithmetic::mul::lemma_mul_is_commutative(k, t2 as int);
        }
        assert(t2 * s * k <= k * k * k) by (nonlinear_arith)
            requires
                t2 * k <= t * t,
                0 <= t <= k,
                s == 3 * k - 2 * t,
                0 <= t2,
                k > 0,
        {
            assert(t2 * k * s <= t * t * s);
            assert(t * t * (3 * k - 2 * t) <= k * k * k) by {
                assert(k * k * k - t * t * (3 * k - 2 * t) == (k - t) * (k - t) * (k + 2 * t));
            }
        }
        assert(t2 * s <= k * k) by (nonlinear_arith)
            requires
                t2 * s * k <= k * k * k,
                k > 0,
        ;
        assert(0 <= t2 * s) by (nonlinear_arith)
            requires
                0 <= t2,
                0 <= s,
        ;
        vstd::arithmetic::div_mod::lemma_div_is_ordered(0, t2 * s, k);
        vstd::arithmetic::div_mod::lemma_div_is_ordered(t2 * s, k * k, k);
        vstd::arithmetic::div_mod::lemma_div_multiples_vanish(k, k);
    }
    r
}


/// The integer square root is unique.
pub proof fn lemma_isqrt_unique(n: int, r: int)
    requires
        is_isqrt(n, r),
    ensures
        isqrt_spec(n) == r,
{
    let c = isqrt_spec(n);
    assert(is_isqrt(n, c));
    if c < r {
        assert((c + 1) * (c + 1) <= r * r) by (nonlinear_arith)
            requires
                0 <= c < r,
        ;
    } else if r < c {
        assert((r + 1) * (r + 1) <= c * c) by (nonlinear_arith)
            requires
                0 <= r < c,
        ;
    }
}

/// Every non-negative integer has an integer square root.
pub proof fn lemma_isqrt_exists(n: int)
    requires
        0 <= n,
    ensures
        is_isqrt(n, isqrt_spec(n)),
{
    let r = isqrt_witness(n);
    assert(is_isqrt(n, r));
}

proof fn isqrt_witness(n: int) -> (r: int)
    requires
        0 <= n,
    ensures
        is_isqrt(n, r),
    decreases n,
{
    if n == 0 {
        assert(is_isqrt(0, 0)) by (nonlinear_arith);
        0
    } else {
        let s = isqrt_witness(n - 1);
        if (s + 1) * (s + 1) <= n {
            assert((s + 1) * (s + 1) == n) by (nonlinear_arith)
                requires
                    (s + 1) * (s + 1) <= n,
                    n - 1 < (s + 1) * (s + 1),
            ;
            assert(n < (s + 2) * (s + 2)) by (nonlinear_arith)
                requires
                    (s + 1) * (s + 1) == n,
                    s >= 0,
            ;
            assert(is_isqrt(n, s + 1)) by (nonlinear_arith)
                requires
                    (s + 1) * (s + 1) == n,
                    n < (s + 2) * (s + 2),
                    s >= 0,
            ;
            s + 1
        } else {
            assert(is_isqrt(n, s)) by (nonlinear_arith)
                requires
                    s * s <= n - 1,
                    n < (s + 1) * (s + 1),
                    s >= 0,
            ;
            s
        }
    }
}

/// Integer square root, rounded down.
pub fn isqrt(n: u64) -> (r: u64)
    ensures
        is_isqrt(n as int, r as int),
        r == isqrt_spec(n as int),
{
    let mut lo: u64 = 0;
    let mut hi: u64 = 0x1_0000_0000;
    while hi - lo > 1
        invariant
            lo < hi <= 0x1_0000_0000,
            lo * lo <= n,
            n < hi * hi,
        decreases hi - lo,
    {
        let mid: u64 = lo + (hi - lo) / 2;
        assert(mid * mid < 0x1_0000_0000_0000_0000) by (nonlinear_arith)
            requires
                mid < 0x1_0000_0000,
        ;
        if mid * mid <= n {
            lo = mid;
        } else {
            hi = mid;
        }
    }
    proof {
        assert(hi == lo + 1);
        lemma_isqrt_unique(n as int, lo as int);
    }
    lo
}

/// Component-wise difference.
pub fn vsub(a: Vec3, b: Vec3) -> (r: Vec3)
    requires
        vec_bounded(a, VEC_BOUND as int),
        vec_bounded(b, VEC_BOUND as int),
    ensures
        r == vsub_spec(a, b),
{
    Vec3 { x: a.x - b.x, y: a.y - b.y, z: a.z - b.z }
}

/// Component-wise sum.
pub fn vadd(a: Vec3, b: Vec3) -> (r: Vec3)
    requires
        vec_bounded(a, VEC_BOUND as int),
        vec_bounded(b, VEC_BOUND as int),
    ensures
        r == vadd_spec(a, b),
{
    Vec3 { x: a.x + b.x, y: a.y + b.y, z: a.z + b.z }
}

/// Every component multiplied by the fixed-point factor `s`.
pub fn scale(v: Vec3, s: i64) -> (r: Vec3)
    requires
        vec_bounded(v, MUL_BOUND as int),
        -MUL_BOUND <= s <= MUL_BOUND,
    ensures
        r == scale_spec(v, s as int),
{
    Vec3 { x: fmul(v.x, s), y: fmul(v.y, s), z: fmul(v.z, s) }
}

/// Cross product in fixed point.
pub fn cross(a: Vec3, b: Vec3) -> (r: Vec3)
    requires
        vec_bounded(a, VEC_BOUND as int),
        vec_bounded(b, VEC_BOUND as int),
    ensures
        r == cross_spec(a, b),
{
    proof {
        lemma_fmul_small(a.y as int, b.z as int);
        lemma_fmul_small(a.z as int, b.y as int);
        lemma_fmul_small(a.z as int, b.x as int);
        lemma_fmul_small(a.x as int, b.z as int);
        lemma_fmul_small(a.x as int, b.y as int);
        lemma_fmul_small(a.y as int, b.x as int);
    }
    Vec3 {
        x: fmul(a.y, b.z) - fmul(a.z, b.y),
        y: fmul(a.z, b.x) - fmul(a.x, b.z),
        z: fmul(a.x, b.y) - fmul(a.y, b.x),
    }
}

/// The fixed-point product of two operands below `VEC_BOUND` stays below `2^44`.
pub proof fn lemma_fmul_small(a: int, b: int)
    requires
        abs_spec(a) <= VEC_BOUND,
        abs_spec(b) <= VEC_BOUND,
    ensures
        -0x1000_0000_0000 <= fmul_spec(a, b) <= 0x1000_0000_0000,
{
    let k = ONE as int;
    assert(-0x1000_0000_0000 * k <= a * b <= 0x1000_0000_0000 * k) by (nonlinear_arith)
        requires
            -0x4000_0000 <= a <= 0x4000_0000,
            -0x4000_0000 <= b <= 0x4000_0000,
            k == 65536,
    ;
    vstd::arithmetic::div_mod::lemma_div_is_ordered(-0x1000_0000_0000 * k, a * b, k);
    vstd::arithmetic::div_mod::lemma_div_is_ordered(a * b, 0x1000_0000_0000 * k, k);
    vstd::arithmetic::div_mod::lemma_div_multiples_vanish(-0x1000_0000_0000, k);
    vstd::arithmetic::div_mod::lemma_div_multiples_vanish(0x1000_0000_0000, k);
}

/// Rescales `v` to unit length; the zero vector when `v` is zero.
pub fn normalize(v: Vec3) -> (r: Vec3)
    requires
        vec_bounded(v, VEC_BOUND as int),
    ensures
        r == normalize_spec(v),
        vec_bounded(r, ONE as int),
        is_zero(v) ==> is_zero(r),
{
    assert(v.x * v.x <= 0x1000_0000_0000_0000 && v.y * v.y <= 0x1000_0000_0000_0000 && v.z
        * v.z <= 0x1000_0000_0000_0000) by (nonlinear_arith)
        requires
            -0x4000_0000 <= v.x <= 0x4000_0000,
            -0x4000_0000 <= v.y <= 0x4000_0000,
            -0x4000_0000 <= v.z <= 0x4000_0000,
    ;
    assert(0 <= v.x * v.x && 0 <= v.y * v.y && 0 <= v.z * v.z) by (nonlinear_arith);
    let sq: u64 = (v.x * v.x + v.y * v.y + v.z * v.z) as u64;
    let len = isqrt(sq);
    if len == 0 {
        proof {
            assert(is_isqrt(sq as int, 0));
            assert(sq == 0) by (nonlinear_arith)
                requires
                    0 <= sq < (0int + 1) * (0int + 1),
            ;
            assert(v.x * v.x == 0 && v.y * v.y == 0 && v.z * v.z == 0);
            assert(v.x == 0 && v.y == 0 && v.z == 0) by (nonlinear_arith)
                requires
                    v.x * v.x == 0,
                    v.y * v.y == 0,
                    v.z * v.z == 0,
            ;
        }
        Vec3 { x: 0, y: 0, z: 0 }
    } else {
        proof {
            assert(len <= 0x1_0000_0000) by (nonlinear_arith)
                requires
                    len * len <= sq,
                    sq <= 3 * 0x1000_0000_0000_0000,
                    0 <= len,
            ;
            lemma_component_le_len(v.x as int, sq as int, len as int);
            lemma_component_le_len(v.y as int, sq as int, len as int);
            lemma_component_le_len(v.z as int, sq as int, len as int);
            lemma_div_unit(v.x as int, len as int);
            lemma_div_unit(v.y as int, len as int);
            lemma_div_unit(v.z as int, len as int);
        }
        let l = len as i64;
        Vec3 { x: div_floor(v.x * ONE, l), y: div_floor(v.y * ONE, l), z: div_floor(v.z * ONE, l) }
    }
}

proof fn lemma_component_le_len(c: int, sq: int, len: int)
    requires
        c * c <= sq,
        sq < (len + 1) * (len + 1),
        len >= 0,
    ensures
        -len <= c <= len,
{
    if c > len {
        assert((len + 1) * (len + 1) <= c * c) by (nonlinear_arith)
            requires
                c >= len + 1,
                len >= 0,
        ;
    }
    if c < -len {
        assert((len + 1) * (len + 1) <= c * c) by (nonlinear_arith)
            requires
                -c >= len + 1,
                len >= 0,
        ;
    }
}

/// Bhaskara's arch lies in `[0, ONE]`.
proof fn lemma_sin_arch_bound(t: int, h: int)
    requires
        0 <= t <= h,
        0 < h,
    ensures
        0 <= sin_arch_spec(t, h) <= ONE,
        5 * h * h - 4 * (t * (h - t)) > 0,
{
    let p = t * (h - t);
    let k = ONE as int;
    assert(0 <= p && 4 * p <= h * h) by (nonlinear_arith)
        requires
            0 <= t <= h,
            p == t * (h - t),
    {
        assert(h * h - 4 * p == (h - 2 * t) * (h - 2 * t));
    }
    let den = 5 * h * h - 4 * p;
    assert(den > 0 && 16 * p * k <= den * k) by (nonlinear_arith)
        requires
            0 <= p,
            4 * p <= h * h,
            den == 5 * h * h - 4 * p,
            h > 0,
            k > 0,
    ;
    assert(0 <= 16 * p * k) by (nonlinear_arith)
        requires
            0 <= p,
            k > 0,
    ;
    vstd::arithmetic::div_mod::lemma_div_is_ordered(0, 16 * p * k, den);
    vstd::arithmetic::div_mod::lemma_div_is_ordered(16 * p * k, den * k, den);
    vstd::arithmetic::div_mod::lemma_div_multiples_vanish(k, den);
    assert(den * k == den * k);
}

fn sin_arch(t: i64, h: i64) -> (r: i64)
    requires
        0 <= t <= h,
        0 < h <= 0x10000,
    ensures
        r == sin_arch_spec(t as int, h as int),
        0 <= r <= ONE,
{
    proof {
        lemma_sin_arch_bound(t as int, h as int);
        assert(0 <= t * (h - t) <= h * h <= 0x1_0000_0000) by (nonlinear_arith)
            requires
                0 <= t <= h,
                h <= 0x10000,
        ;
        assert(0 < 5 * h * h <= 0x5_0000_0000) by (nonlinear_arith)
            requires
                0 < h <= 0x10000,
        ;
    }
    let p = t * (h - t);
    div_floor(16 * p * ONE, 5 * h * h - 4 * p)
}

/// Approximate `sin(pi * t / h)` for `0 <= t <= 2h`, in fixed point.
pub fn sin_frac(t: i64, h: i64) -> (r: i64)
    requires
        0 <= t <= 2 * h,
        0 < h <= 0x10000,
    ensures
        r == sin_spec(t as int, h as int),
        -ONE <= r <= ONE,
{
    if t <= h {
        sin_arch(t, h)
    } else {
        -sin_arch(t - h, h)
    }
}

/// Approximate `cos(pi * t / h)` for `0 <= t <= 2h`, in fixed point.
pub fn cos_frac(t: i64, h: i64) -> (r: i64)
    requires
        0 <= t <= 2 * h,
        0 < h <= 0x8000,
    ensures
        r == cos_spec(t as int, h as int),
        -ONE <= r <= ONE,
{
    let s = 2 * t + h;
    if s > 4 * h {
        sin_frac(s - 4 * h, 2 * h)
    } else {
        sin_frac(s, 2 * h)
    }
}

/// Largest component magnitude accepted by `cross_small`.
pub const CROSS_INPUT_BOUND: i64 = 0x20_0000;

/// Cross product of vectors below `CROSS_INPUT_BOUND`; the result is small enough to normalise.
pub fn cross_small(a: Vec3, b: Vec3) -> (r: Vec3)
    requires
        vec_bounded(a, CROSS_INPUT_BOUND as int),
        vec_bounded(b, CROSS_INPUT_BOUND as int),
    ensures
        r == cross_spec(a, b),
        vec_bounded(r, VEC_BOUND as int),
{
    proof {
        lemma_fmul_cross(a.y as int, b.z as int);
        lemma_fmul_cross(a.z as int, b.y as int);
        lemma_fmul_cross(a.z as int, b.x as int);
        lemma_fmul_cross(a.x as int, b.z as int);
        lemma_fmul_cross(a.x as int, b.y as int);
        lemma_fmul_cross(a.y as int, b.x as int);
    }
    cross(a, b)
}

proof fn lemma_fmul_cross(a: int, b: int)
    requires
        abs_spec(a) <= CROSS_INPUT_BOUND,
        abs_spec(b) <= CROSS_INPUT_BOUND,
    ensures
        -0x400_0000 <= fmul_spec(a, b) <= 0x400_0000,
{
    let k = ONE as int;
    assert(-0x400_0000 * k <= a * b <= 0x400_0000 * k) by (nonlinear_arith)
        requires
            -0x20_0000 <= a <= 0x20_0000,
            -0x20_0000 <= b <= 0x20_0000,
            k == 65536,
    ;
    vstd::arithmetic::div_mod::lemma_div_is_ordered(-0x400_0000 * k, a * b, k);
    vstd::arithmetic::div_mod::lemma_div_is_ordered(a * b, 0x400_0000 * k, k);
    vstd::arithmetic::div_mod::lemma_div_multiples_vanish(-0x400_0000, k);
    vstd::arithmetic::div_mod::lemma_div_multiples_vanish(0x400_0000, k);
}

} // verus!
