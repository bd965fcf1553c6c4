use vstd::prelude::*;
use vstd::arithmetic::div_mod::{lemma_div_is_ordered, lemma_div_nonincreasing, lemma_div_pos_is_pos};
use crate::trig::{cos_spec, sin_spec, cos_fp, sin_fp, TRIG_ONE, TURN};

verus! {

/// Fixed-point sub-units per world unit: all lengths and coordinates are
/// stored in 1/1024ths of a world unit.
pub const UNIT: i64 = 1024;

/// Largest coordinate magnitude an entity may reach.
pub const POS_LIMIT: i64 = 0x1000_0000_0000;

/// Largest radius an entity may have, in sub-units.
pub const RADIUS_LIMIT: i64 = 0x100_0000;

/// Largest speed scalar an obstacle may store, in 1/32nds.
pub const SPEED_LIMIT: i64 = 0x8000;

/// Truncating fixed-point product: `a·b/d` rounded toward zero.
pub open spec fn mdiv(a: int, b: int, d: int) -> int {
    if a * b >= 0 {
        a * b / d
    } else {
        -((-(a * b)) / d)
    }
}

/// `v` clamped into `[lo, hi]`.
pub open spec fn clamp_spec(v: int, lo: int, hi: int) -> int {
    if v < lo {
        lo
    } else if v > hi {
        hi
    } else {
        v
    }
}

/// The smaller of two values.
pub open spec fn min_spec(a: int, b: int) -> int {
    if a < b {
        a
    } else {
        b
    }
}

/// The fused multiply-divide every scaled quantity goes through.
pub fn mul_div(a: i64, b: i64, d: i64) -> (r: i64)
    requires
        0 < d,
        -0x8000_0000 <= a <= 0x8000_0000,
        -0x8000_0000 <= b <= 0x8000_0000,
    ensures
        r == mdiv(a as int, b as int, d as int),
{
    proof {
        assert(-0x4000_0000_0000_0000 <= (a as int) * (b as int) <= 0x4000_0000_0000_0000)
            by (nonlinear_arith)
            requires
                -0x8000_0000 <= a as int <= 0x8000_0000,
                -0x8000_0000 <= b as int <= 0x8000_0000,
        ;
    }
    let p: i128 = (a as i128) * (b as i128);
    if p >= 0 {
        let q: u128 = (p as u128) / (d as u128);
        proof {
            lemma_div_pos_is_pos(p as int, d as int);
            lemma_div_nonincreasing(p as int, d as int);
        }
        q as i64
    } else {
        let m: u128 = (-p) as u128;
        let q: u128 = m / (d as u128);
        proof {
            lemma_div_pos_is_pos(m as int, d as int);
            lemma_div_nonincreasing(m as int, d as int);
        }
        -(q as i64)
    }
}

/// Division of a non-negative value by a positive one.
pub fn div_pos(a: i64, d: i64) -> (r: i64)
    requires
        0 <= a,
        0 < d,
    ensures
        r == a as int / d as int,
        0 <= r <= a,
{
    let q: u64 = (a as u64) / (d as u64);
    proof {
        lemma_div_pos_is_pos(a as int, d as int);
        lemma_div_nonincreasing(a as int, d as int);
    }
    q as i64
}

/// Magnitude bound: if `|a| ≤ aa` and `|b| ≤ bb` then `|a·b/d| ≤ aa·bb/d`.
pub proof fn lemma_mdiv_abs(a: int, b: int, d: int, aa: int, bb: int)
    requires
        0 < d,
        -aa <= a <= aa,
        -bb <= b <= bb,
    ensures
        -((aa * bb) / d) <= mdiv(a, b, d) <= (aa * bb) / d,
{
    assert(-(aa * bb) <= a * b <= aa * bb) by (nonlinear_arith)
        requires
            -aa <= a <= aa,
            -bb <= b <= bb,
    ;
    assert(aa * bb >= 0) by (nonlinear_arith)
        requires
            -aa <= a <= aa,
            -bb <= b <= bb,
            -(aa * bb) <= a * b <= aa * bb,
    ;
    if a * b >= 0 {
        lemma_div_is_ordered(a * b, aa * bb, d);
        lemma_div_pos_is_pos(a * b, d);
        lemma_div_pos_is_pos(aa * bb, d);
    } else {
        lemma_div_is_ordered(-(a * b), aa * bb, d);
        lemma_div_pos_is_pos(-(a * b), d);
        lemma_div_pos_is_pos(aa * bb, d);
    }
}

/// A point of the plane, in fixed-point sub-units; `y` grows downward,
/// matching screen coordinates.
#[derive(Clone, Copy, PartialEq, Eq, Structural, Debug)]
pub struct Pt {
    pub x: i64,
    pub y: i64,
}

/// Both coordinates within the world's coordinate range.
pub open spec fn pt_in_bounds(p: Pt) -> bool {
    &&& -POS_LIMIT <= p.x <= POS_LIMIT
    &&& -POS_LIMIT <= p.y <= POS_LIMIT
}

/// Render vertices may stick out of the coordinate range by up to a radius.
pub open spec fn vert_in_bounds(p: Pt) -> bool {
    &&& -(POS_LIMIT + RADIUS_LIMIT) <= p.x <= POS_LIMIT + RADIUS_LIMIT
    &&& -(POS_LIMIT + RADIUS_LIMIT) <= p.y <= POS_LIMIT + RADIUS_LIMIT
}

/// Squared Euclidean distance between two points.
pub open spec fn dist_sq_spec(a: Pt, b: Pt) -> int {
    (a.x - b.x) * (a.x - b.x) + (a.y - b.y) * (a.y - b.y)
}

/// Squared distance, computed without square roots and without overflow.
pub fn dist_sq(a: Pt, b: Pt) -> (r: i128)
    requires
        pt_in_bounds(a),
        pt_in_bounds(b),
    ensures
        r == dist_sq_spec(a, b),
        0 <= r <= 0x2000_0000_0000_0000_0000_0000,
{
    let dx: i64 = a.x - b.x;
    let dy: i64 = a.y - b.y;
    proof {
        assert(0 <= (dx as int) * (dx as int) <= 0x1000_0000_0000_0000_0000_0000) by (nonlinear_arith)
            requires
                -0x2000_0000_0000 <= dx as int <= 0x2000_0000_0000,
        ;
        assert(0 <= (dy as int) * (dy as int) <= 0x1000_0000_0000_0000_0000_0000) by (nonlinear_arith)
            requires
                -0x2000_0000_0000 <= dy as int <= 0x2000_0000_0000,
        ;
    }
    (dx as i128) * (dx as i128) + (dy as i128) * (dy as i128)
}

/// Translate a point, clamping each coordinate into the world's range.
pub fn translate_clamped(p: Pt, dx: i64, dy: i64) -> (r: Pt)
    requires
        pt_in_bounds(p),
        -0x100_0000_0000 <= dx <= 0x100_0000_0000,
        -0x100_0000_0000 <= dy <= 0x100_0000_0000,
    ensures
        r.x == clamp_spec(p.x + dx, -POS_LIMIT as int, POS_LIMIT as int),
        r.y == clamp_spec(p.y + dy, -POS_LIMIT as int, POS_LIMIT as int),
        pt_in_bounds(r),
{
    let x = p.x + dx;
    let y = p.y + dy;
    let cx = if x < -POS_LIMIT {
        -POS_LIMIT
    } else if x > POS_LIMIT {
        POS_LIMIT
    } else {
        x
    };
    let cy = if y < -POS_LIMIT {
        -POS_LIMIT
    } else if y > POS_LIMIT {
        POS_LIMIT
    } else {
        y
    };
    Pt { x: cx, y: cy }
}

/// The point `dist` away from `p` in direction `ang`.
pub fn offset_pt(p: Pt, dist: i64, ang: i64) -> (r: Pt)
    requires
        pt_in_bounds(p),
        0 <= dist <= RADIUS_LIMIT,
        0 <= ang < TURN,
    ensures
        r.x == p.x + mdiv(dist as int, cos_spec(ang as int), TRIG_ONE as int),
        r.y == p.y + mdiv(dist as int, sin_spec(ang as int), TRIG_ONE as int),
        vert_in_bounds(r),
{
    let c = cos_fp(ang);
    let s = sin_fp(ang);
    let dx = mul_div(dist, c, TRIG_ONE);
    let dy = mul_div(dist, s, TRIG_ONE);
    proof {
        lemma_mdiv_abs(dist as int, c as int, TRIG_ONE as int, RADIUS_LIMIT as int, TRIG_ONE as int);
        lemma_mdiv_abs(dist as int, s as int, TRIG_ONE as int, RADIUS_LIMIT as int, TRIG_ONE as int);
    }
    Pt { x: p.x + dx, y: p.y + dy }
}

} // verus!
