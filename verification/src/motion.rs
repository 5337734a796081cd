//! The player pose and its per-frame movement.
//!
//! Movement is exact rational arithmetic: forward/back translate along the
//! facing vector, strafing translates along its perpendicular `(-y, x)`, and
//! turning multiplies the facing by a rotation vector (a complex product).
//! The trigonometry that produces the rotation vector for a frame's turn
//! angle lives outside; this module states exactly what each frame does to
//! the pose for whatever step size and rotation vector it is handed.

use vstd::prelude::*;
use crate::frac::{Frac, Vec2q};
use crate::cast::{lemma_square_of_diff, lemma_square_of_sum, lemma_product_of_squares,
    lemma_mul_exchange};

verus! {

/// Bound on position numerators accepted by a frame update.
pub const MAX_COORD: i64 = 0x100000;

/// Bound on denominators, direction components, step fractions and rotation
/// components accepted by a frame update.
pub const MAX_UNIT: i64 = 4096;

/// An exact rational 2D vector at the specification level, free of machine
/// bounds: `(xn / den, yn / den)`.
pub ghost struct RatVec {
    pub xn: int,
    pub yn: int,
    pub den: int,
}

/// The rational vector a machine vector denotes.
pub open spec fn rv(v: Vec2q) -> RatVec {
    RatVec { xn: v.xn as int, yn: v.yn as int, den: v.den as int }
}

/// The complex conjugate: rotating by it undoes rotating by `r`.
pub open spec fn rv_conj(r: RatVec) -> RatVec {
    RatVec { xn: r.xn, yn: -r.yn, den: r.den }
}

/// The combined translation direction of one frame: `f` scales the facing
/// (forward/back), `s` scales its perpendicular `(-y, x)` (strafe).
pub open spec fn rv_move_dir(d: RatVec, f: int, s: int) -> RatVec {
    RatVec { xn: f * d.xn + s * (-d.yn), yn: f * d.yn + s * d.xn, den: d.den }
}

/// `p + m·(sn/sd)`, written over the common denominator `p.den·m.den·sd`.
pub open spec fn rv_translate(p: RatVec, m: RatVec, sn: int, sd: int) -> RatVec {
    RatVec {
        xn: p.xn * (m.den * sd) + m.xn * sn * p.den,
        yn: p.yn * (m.den * sd) + m.yn * sn * p.den,
        den: p.den * (m.den * sd),
    }
}

/// The complex product: for a unit `r`, rotation of `d` by the angle of `r`.
pub open spec fn rv_rotate(d: RatVec, r: RatVec) -> RatVec {
    RatVec {
        xn: d.xn * r.xn - d.yn * r.yn,
        yn: d.xn * r.yn + d.yn * r.xn,
        den: d.den * r.den,
    }
}

/// The player's pose: a continuous position in grid units and a facing
/// direction whose magnitude carries no meaning but is never zero.
#[derive(Clone, Copy, Debug, PartialEq, Eq, Structural)]
pub struct Pose {
    pub pos: Vec2q,
    pub dir: Vec2q,
}

impl Pose {
    pub open spec fn wf(self) -> bool {
        self.pos.wf() && self.dir.wf() && !self.dir.is_zero()
    }

    /// Small enough for one exact frame update in 64-bit arithmetic.
    pub open spec fn in_range(self) -> bool {
        &&& -MAX_COORD <= self.pos.xn <= MAX_COORD
        &&& -MAX_COORD <= self.pos.yn <= MAX_COORD
        &&& self.pos.den <= MAX_UNIT
        &&& -MAX_UNIT <= self.dir.xn <= MAX_UNIT
        &&& -MAX_UNIT <= self.dir.yn <= MAX_UNIT
        &&& self.dir.den <= MAX_UNIT
    }
}

/// Which movement actions are held during a frame.
#[derive(Clone, Copy, Debug)]
pub struct InputState {
    pub forward: bool,
    pub back: bool,
    pub left: bool,
    pub right: bool,
    pub strafe: bool,
}

/// Forward wins over back when both are held.
pub open spec fn move_sign(i: InputState) -> int {
    if i.forward {
        1
    } else if i.back {
        -1
    } else {
        0
    }
}

/// With the strafe modifier held, left/right translate instead of turning;
/// left wins over right when both are held.
pub open spec fn strafe_sign(i: InputState) -> int {
    if i.strafe && i.left {
        -1
    } else if i.strafe && i.right {
        1
    } else {
        0
    }
}

/// Without the strafe modifier, left/right turn the facing; left wins.
pub open spec fn turn_sign(i: InputState) -> int {
    if !i.strafe && i.left {
        -1
    } else if !i.strafe && i.right {
        1
    } else {
        0
    }
}

/// `|a| ≤ amax` and `|b| ≤ bmax` bound the product by `amax·bmax`.
pub proof fn lemma_mul_bounds(a: int, amax: int, b: int, bmax: int)
    by (nonlinear_arith)
    requires
        -amax <= a <= amax,
        -bmax <= b <= bmax,
        0 <= amax,
        0 <= bmax,
    ensures
        -(amax * bmax) <= a * b <= amax * bmax,
{
}

/// Positive factors give a positive product.
pub proof fn lemma_mul_pos(a: int, b: int)
    by (nonlinear_arith)
    requires
        a >= 1,
        b >= 1,
    ensures
        a * b >= 1,
{
}

/// The squared magnitude of a complex product is the product of the squared
/// magnitudes: rotating by `r` scales every facing's magnitude by `|r|`, so
/// a unit rotation vector preserves magnitude, and rotating a non-zero
/// facing by a non-zero rotation vector never yields the zero vector.
pub proof fn lemma_rotation_scales_norm(a: int, b: int, c: int, d: int, xn: int, yn: int)
    requires
        xn == a * c - b * d,
        yn == a * d + b * c,
    ensures
        xn * xn + yn * yn == (a * a + b * b) * (c * c + d * d),
{
    lemma_square_of_diff(a * c, b * d, xn);
    lemma_square_of_sum(a * d, b * c, yn);
    lemma_product_of_squares(a, c);
    lemma_product_of_squares(b, d);
    lemma_product_of_squares(a, d);
    lemma_product_of_squares(b, c);
    lemma_mul_exchange(a, c, b, d);
    lemma_mul_exchange(a, d, b, c);
    assert((a * b) * (c * d) == (a * b) * (d * c));
    assert((a * a + b * b) * (c * c + d * d) == (a * a) * (c * c) + (a * a) * (d * d) + (b * b) * (c
        * c) + (b * b) * (d * d)) by (nonlinear_arith);
}

/// Rotate a facing vector by a rotation vector (complex product). A non-zero
/// facing stays non-zero under a non-zero rotation vector.
pub fn rotate_vec(d: Vec2q, r: Vec2q) -> (out: Vec2q)
    requires
        d.wf(),
        r.wf(),
        -MAX_UNIT <= d.xn <= MAX_UNIT,
        -MAX_UNIT <= d.yn <= MAX_UNIT,
        d.den <= MAX_UNIT,
        -MAX_UNIT <= r.xn <= MAX_UNIT,
        -MAX_UNIT <= r.yn <= MAX_UNIT,
        r.den <= MAX_UNIT,
    ensures
        out.wf(),
        rv(out) == rv_rotate(rv(d), rv(r)),
        !d.is_zero() && !r.is_zero() ==> !out.is_zero(),
{
    proof {
        lemma_mul_bounds(d.xn as int, MAX_UNIT as int, r.xn as int, MAX_UNIT as int);
        lemma_mul_bounds(d.yn as int, MAX_UNIT as int, r.yn as int, MAX_UNIT as int);
        lemma_mul_bounds(d.xn as int, MAX_UNIT as int, r.yn as int, MAX_UNIT as int);
        lemma_mul_bounds(d.yn as int, MAX_UNIT as int, r.xn as int, MAX_UNIT as int);
        lemma_mul_pos(d.den as int, r.den as int);
        lemma_mul_bounds(d.den as int, MAX_UNIT as int, r.den as int, MAX_UNIT as int);
    }
    let xn = d.xn * r.xn - d.yn * r.yn;
    let yn = d.xn * r.yn + d.yn * r.xn;
    let den = d.den * r.den;
    let out = Vec2q { xn, yn, den };
    proof {
        if !d.is_zero() && !r.is_zero() {
            lemma_rotation_scales_norm(
                d.xn as int,
                d.yn as int,
                r.xn as int,
                r.yn as int,
                xn as int,
                yn as int,
            );
            assert((d.xn * d.xn + d.yn * d.yn) * (r.xn * r.xn + r.yn * r.yn) >= 1)
                by (nonlinear_arith)
                requires
                    !(d.xn == 0 && d.yn == 0),
                    !(r.xn == 0 && r.yn == 0),
            ;
        }
    }
    out
}

/// Apply one frame of movement to the pose.
///
/// `step` is the translation distance of the frame (speed times elapsed
/// time) and `turn` the rotation vector of the frame's turn angle (its
/// cosine and sine over a common denominator). Forward/back translate along
/// the facing; with the strafe modifier held, left/right translate along the
/// facing's perpendicular; otherwise left/right rotate the facing (left by
/// the conjugate of `turn`). Translation and turning compose in the same
/// frame exactly as the signs say; no collision with walls is checked, by
/// design.
pub fn update_pose(pose: &Pose, input: InputState, step: Frac, turn: Vec2q) -> (r: Pose)
    requires
        pose.wf(),
        pose.in_range(),
        step.wf(),
        -MAX_UNIT <= step.num <= MAX_UNIT,
        step.den <= MAX_UNIT,
        turn.wf(),
        -MAX_UNIT <= turn.xn <= MAX_UNIT,
        -MAX_UNIT <= turn.yn <= MAX_UNIT,
        turn.den <= MAX_UNIT,
        !turn.is_zero(),
    ensures
        r.wf(),
        move_sign(input) == 0 && strafe_sign(input) == 0 ==> r.pos == pose.pos,
        !(move_sign(input) == 0 && strafe_sign(input) == 0) ==> rv(r.pos) == rv_translate(
            rv(pose.pos),
            rv_move_dir(rv(pose.dir), move_sign(input), strafe_sign(input)),
            step.num as int,
            step.den as int,
        ),
        turn_sign(input) == 0 ==> r.dir == pose.dir,
        turn_sign(input) == 1 ==> rv(r.dir) == rv_rotate(rv(pose.dir), rv(turn)),
        turn_sign(input) == -1 ==> rv(r.dir) == rv_rotate(rv(pose.dir), rv_conj(rv(turn))),
{
    let f: i64 = if input.forward {
        1
    } else if input.back {
        -1
    } else {
        0
    };
    let s: i64 = if input.strafe && input.left {
        -1
    } else if input.strafe && input.right {
        1
    } else {
        0
    };

    let new_pos: Vec2q;
    if f == 0 && s == 0 {
        new_pos = pose.pos;
    } else {
        proof {
            lemma_mul_bounds(f as int, 1, pose.dir.xn as int, MAX_UNIT as int);
            lemma_mul_bounds(f as int, 1, pose.dir.yn as int, MAX_UNIT as int);
            lemma_mul_bounds(s as int, 1, pose.dir.xn as int, MAX_UNIT as int);
            lemma_mul_bounds(s as int, 1, pose.dir.yn as int, MAX_UNIT as int);
            lemma_mul_pos(pose.dir.den as int, step.den as int);
            lemma_mul_bounds(pose.dir.den as int, MAX_UNIT as int, step.den as int, MAX_UNIT as int);
        }
        let mxn = f * pose.dir.xn - s * pose.dir.yn;
        let myn = f * pose.dir.yn + s * pose.dir.xn;
        let md = pose.dir.den * step.den;
        proof {
            lemma_mul_pos(pose.pos.den as int, md as int);
            lemma_mul_bounds(pose.pos.den as int, MAX_UNIT as int, md as int, 0x1000000);
            lemma_mul_bounds(pose.pos.xn as int, MAX_COORD as int, md as int, 0x1000000);
            lemma_mul_bounds(pose.pos.yn as int, MAX_COORD as int, md as int, 0x1000000);
            lemma_mul_bounds(mxn as int, 2 * MAX_UNIT as int, step.num as int, MAX_UNIT as int);
            lemma_mul_bounds(myn as int, 2 * MAX_UNIT as int, step.num as int, MAX_UNIT as int);
            lemma_mul_bounds(
                mxn as int * step.num as int,
                0x2000000000,
                pose.pos.den as int,
                MAX_UNIT as int,
            );
            lemma_mul_bounds(
                myn as int * step.num as int,
                0x2000000000,
                pose.pos.den as int,
                MAX_UNIT as int,
            );
        }
        let xn = pose.pos.xn * md + mxn * step.num * pose.pos.den;
        let yn = pose.pos.yn * md + myn * step.num * pose.pos.den;
        let den = pose.pos.den * md;
        new_pos = Vec2q { xn, yn, den };
    }

    let new_dir: Vec2q;
    if !input.strafe && input.left {
        let conj = Vec2q { xn: turn.xn, yn: -turn.yn, den: turn.den };
        new_dir = rotate_vec(pose.dir, conj);
    } else if !input.strafe && input.right {
        new_dir = rotate_vec(pose.dir, turn);
    } else {
        new_dir = pose.dir;
    }

    Pose { pos: new_pos, dir: new_dir }
}

} // verus!
