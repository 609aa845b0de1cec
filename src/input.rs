//! Keyboard state: held movement keys, a pending randomize request and the accumulated offset.
use vstd::prelude::*;
use crate::fixed::{clamp, clamp_spec, fmul, fmul_spec, lemma_fmul_unit, MUL_BOUND, ONE};

verus! {

/// `ONE / sqrt(2)`: each component of a unit diagonal.
pub const DIAGONAL: i64 = 46341;

/// The offset saturates at this magnitude.
pub const OFFSET_LIMIT: i64 = 0x100_0000_0000;

/// Largest frame time accepted by `update`.
pub const MAX_FRAME_TIME: i64 = MUL_BOUND;

/// The keys the input state reacts to.
#[derive(Clone, Copy, Debug, PartialEq, Eq, Structural)]
pub enum Key {
    W,
    A,
    S,
    D,
    R,
    Other,
}

/// A fixed-point 2D vector.
#[derive(Clone, Copy, Debug, PartialEq, Eq, Structural)]
pub struct Vec2 {
    pub x: i64,
    pub y: i64,
}

pub struct InputState {
    pub offset: Vec2,
    speed: i64,
    w: bool,
    a: bool,
    s: bool,
    d: bool,
    randomize: bool,
}

/// Sum of the held directions along one axis: -1, 0 or 1.
pub open spec fn axis_spec(pos: bool, neg: bool) -> int {
    (if pos { 1int } else { 0int }) - (if neg { 1int } else { 0int })
}

/// The unit direction of two axis values, as a fixed-point component for axis value `a`.
pub open spec fn unit_component_spec(a: int, other: int) -> int {
    if a == 0 {
        0
    } else if other == 0 {
        a * ONE
    } else {
        a * DIAGONAL
    }
}

/// The movement of one frame along an axis.
pub open spec fn step_spec(a: int, other: int, speed: int, dt: int) -> int {
    fmul_spec(fmul_spec(unit_component_spec(a, other), speed), dt)
}

impl InputState {
    pub closed spec fn offset_spec(&self) -> Vec2 {
        self.offset
    }

    pub closed spec fn speed_spec(&self) -> i64 {
        self.speed
    }

    /// Whether a movement key is held.
    pub closed spec fn held(&self, key: Key) -> bool {
        match key {
            Key::W => self.w,
            Key::A => self.a,
            Key::S => self.s,
            Key::D => self.d,
            _ => false,
        }
    }

    pub closed spec fn randomize_requested(&self) -> bool {
        self.randomize
    }

    /// No key held, no request, offset at the origin.
    pub fn new(speed: i64) -> (r: InputState)
        requires
            0 <= speed <= MUL_BOUND,
        ensures
            r.offset_spec() == (Vec2 { x: 0, y: 0 }),
            r.speed_spec() == speed,
            !r.held(Key::W) && !r.held(Key::A) && !r.held(Key::S) && !r.held(Key::D),
            !r.randomize_requested(),
    {
        InputState {
            offset: Vec2 { x: 0, y: 0 },
            speed,
            w: false,
            a: false,
            s: false,
            d: false,
            randomize: false,
        }
    }

    /// Records a key press or release. Movement keys set their held state; a press of `R`
    /// requests a randomization. Returns whether the event was consumed.
    pub fn handle_key(&mut self, key: Key, pressed: bool) -> (consumed: bool)
        ensures
            consumed == (key == Key::W || key == Key::A || key == Key::S || key == Key::D || (
            key == Key::R && pressed)),
            forall|k: Key|
                k != Key::R && k != Key::Other ==> #[trigger] final(self).held(k) == (if k == key {
                    pressed
                } else {
                    old(self).held(k)
                }),
            final(self).randomize_requested() == (old(self).randomize_requested() || (key == Key::R
                && pressed)),
            final(self).offset_spec() == old(self).offset_spec(),
            final(self).speed_spec() == old(self).speed_spec(),
    {
        match key {
            Key::W => {
                self.w = pressed;
            },
            Key::A => {
                self.a = pressed;
            },
            Key::S => {
                self.s = pressed;
            },
            Key::D => {
                self.d = pressed;
            },
            Key::R => {
                if pressed {
                    self.randomize = true;
                } else {
                    return false;
                }
            },
            Key::Other => {
                return false;
            },
        }
        true
    }

    /// Moves the offset for a frame of `dt`: `speed * dt` along the unit direction of the held
    /// keys (W up, S down, A left, D right); the offset saturates at `OFFSET_LIMIT`.
    pub fn update(&mut self, dt: i64)
        requires
            0 <= dt <= MAX_FRAME_TIME,
            0 <= old(self).speed_spec() <= MUL_BOUND,
            -OFFSET_LIMIT <= old(self).offset_spec().x <= OFFSET_LIMIT,
            -OFFSET_LIMIT <= old(self).offset_spec().y <= OFFSET_LIMIT,
        ensures
            ({
                let ax = axis_spec(old(self).held(Key::D), old(self).held(Key::A));
                let ay = axis_spec(old(self).held(Key::W), old(self).held(Key::S));
                &&& final(self).offset_spec().x == clamp_spec(
                    old(self).offset_spec().x + step_spec(ax, ay, old(self).speed_spec() as int, dt as int),
                    -OFFSET_LIMIT as int,
                    OFFSET_LIMIT as int,
                )
                &&& final(self).offset_spec().y == clamp_spec(
                    old(self).offset_spec().y + step_spec(ay, ax, old(self).speed_spec() as int, dt as int),
                    -OFFSET_LIMIT as int,
                    OFFSET_LIMIT as int,
                )
            }),
            forall|k: Key| #[trigger] final(self).held(k) == old(self).held(k),
            final(self).randomize_requested() == old(self).randomize_requested(),
            final(self).speed_spec() == old(self).speed_spec(),
    {
        let mut ax: i64 = 0;
        let mut ay: i64 = 0;
        if self.w {
            ay = ay + 1;
        }
        if self.s {
            ay = ay - 1;
        }
        if self.a {
            ax = ax - 1;
        }
        if self.d {
            ax = ax + 1;
        }
        if ax == 0 && ay == 0 {
            proof {
                assert(0 * self.speed == 0);
                assert(fmul_spec(0, self.speed as int) == 0);
                assert(0 * dt == 0);
                assert(fmul_spec(0, dt as int) == 0);
            }
            return;
        }
        let (ux, uy) = if ax != 0 && ay != 0 {
            (ax * DIAGONAL, ay * DIAGONAL)
        } else {
            (ax * ONE, ay * ONE)
        };
        proof {
            lemma_fmul_unit(ux as int, self.speed as int);
            lemma_fmul_unit(uy as int, self.speed as int);
        }
        let sx = fmul(ux, self.speed);
        let sy = fmul(uy, self.speed);
        proof {
            lemma_step_bound(sx as int, dt as int);
            lemma_step_bound(sy as int, dt as int);
        }
        let dx = fmul(sx, dt);
        let dy = fmul(sy, dt);
        self.offset = Vec2 {
            x: clamp(self.offset.x + dx, -OFFSET_LIMIT, OFFSET_LIMIT),
            y: clamp(self.offset.y + dy, -OFFSET_LIMIT, OFFSET_LIMIT),
        };
    }

    /// Returns whether a randomization was requested, and clears the request.
    pub fn take_randomize(&mut self) -> (r: bool)
        ensures
            r == old(self).randomize_requested(),
            !final(self).randomize_requested(),
            forall|k: Key| #[trigger] final(self).held(k) == old(self).held(k),
            final(self).offset_spec() == old(self).offset_spec(),
            final(self).speed_spec() == old(self).speed_spec(),
    {
        let r = self.randomize;
        self.randomize = false;
        r
    }
}

proof fn lemma_step_bound(s: int, dt: int)
    requires
        -MUL_BOUND <= s <= MUL_BOUND,
        0 <= dt <= MUL_BOUND,
    ensures
        -0x4000_0000_0000 <= fmul_spec(s, dt) <= 0x4000_0000_0000,
{
    let k = ONE as int;
    assert(-0x4000_0000_0000 * k <= s * dt <= 0x4000_0000_0000 * k) by (nonlinear_arith)
        requires
            -0x8000_0000 <= s <= 0x8000_0000,
            0 <= dt <= 0x8000_0000,
            k == 65536,
    ;
    vstd::arithmetic::div_mod::lemma_div_is_ordered(-0x4000_0000_0000 * k, s * dt, k);
    vstd::arithmetic::div_mod::lemma_div_is_ordered(s * dt, 0x4000_0000_0000 * k, k);
    vstd::arithmetic::div_mod::lemma_div_multiples_vanish(-0x4000_0000_0000, k);
    vstd::arithmetic::div_mod::lemma_div_multiples_vanish(0x4000_0000_0000, k);
}

} // verus!
