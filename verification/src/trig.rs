use vstd::prelude::*;
use vstd::arithmetic::div_mod::{
    lemma_div_by_multiple, lemma_div_is_ordered, lemma_div_of0, lemma_fundamental_div_mod,
};

verus! {

/// Angle units in a full turn; every rotation in the model is a fixed-point
/// binary angle in `[0, TURN)`.
pub const TURN: i64 = 4096;

/// Half a turn (pi radians).
pub const HALF_TURN: i64 = 2048;

/// A quarter turn (pi/2 radians).
pub const QUARTER_TURN: i64 = 1024;

/// Scale of sine and cosine values: `TRIG_ONE` stands for 1.0.
pub const TRIG_ONE: i64 = 1024;

/// The canonical representative of an angle, in `[0, TURN)`.
pub open spec fn ang_norm(a: int) -> int {
    a % 4096
}

/// An integer in `[0, TURN)` that differs from `a` by a multiple of `TURN`
/// is exactly `ang_norm(a)`.
pub proof fn lemma_norm_is_mod(x: int, a: int, k: int)
    requires
        0 <= x < 4096,
        x == a + 4096 * k,
    ensures
        x == ang_norm(a),
{
    lemma_fundamental_div_mod(a, 4096);
    let q = a / 4096;
    let r = a % 4096;
    assert(x - r == 4096 * (q + k));
    assert(-4096 < x - r < 4096);
    assert(q + k == 0);
}

/// As `lemma_norm_is_mod`, with the multiple known only to be one of
/// `0, ±TURN, ±2·TURN`.
pub proof fn lemma_norm_cases(x: int, a: int)
    requires
        0 <= x < 4096,
        x == a || x == a + 4096 || x == a - 4096 || x == a + 8192 || x == a - 8192,
    ensures
        x == ang_norm(a),
{
    if x == a {
        lemma_norm_is_mod(x, a, 0);
    } else if x == a + 4096 {
        lemma_norm_is_mod(x, a, 1);
    } else if x == a - 4096 {
        lemma_norm_is_mod(x, a, -1);
    } else if x == a + 8192 {
        lemma_norm_is_mod(x, a, 2);
    } else {
        lemma_norm_is_mod(x, a, -2);
    }
}

/// Normalize an angle that is at most one turn outside the canonical range.
pub fn norm_angle(a: i64) -> (r: i64)
    requires
        -TURN <= a < 2 * TURN,
    ensures
        0 <= r < TURN,
        r == ang_norm(a as int),
        r == a || r == a + TURN || r == a - TURN,
{
    let r = if a < 0 {
        a + TURN
    } else if a >= TURN {
        a - TURN
    } else {
        a
    };
    proof {
        lemma_norm_cases(r as int, a as int);
    }
    r
}

/// Add two canonical angles, staying canonical.
pub fn add_angle(a: i64, b: i64) -> (r: i64)
    requires
        0 <= a < TURN,
        -TURN <= b < TURN,
    ensures
        0 <= r < TURN,
        r == ang_norm(a + b),
{
    norm_angle(a + b)
}

/// The quadratic `a · (HALF_TURN - a)` shared by the sine approximation.
pub open spec fn sin_quad(a: int) -> int {
    a * (2048 - a)
}

/// Sine over the first half turn, scaled by `TRIG_ONE`: the classical
/// rational approximation `4·t / (5/4·H² - t)` with `t = a·(H - a)`,
/// exact at `0`, `H/2` and `H`.
pub open spec fn sin_half_spec(a: int) -> int {
    4096 * sin_quad(a) / (5242880 - sin_quad(a))
}

/// Sine of a canonical angle, scaled by `TRIG_ONE`.
pub open spec fn sin_spec(a: int) -> int {
    if a <= 2048 {
        sin_half_spec(a)
    } else {
        -sin_half_spec(a - 2048)
    }
}

/// Cosine of a canonical angle: sine a quarter turn ahead.
pub open spec fn cos_spec(a: int) -> int {
    if a + 1024 < 4096 {
        sin_spec(a + 1024)
    } else {
        sin_spec(a - 3072)
    }
}

fn sin_half(a: i64) -> (r: i64)
    requires
        0 <= a <= HALF_TURN,
    ensures
        r == sin_half_spec(a as int),
        0 <= r <= TRIG_ONE,
{
    proof {
        assert(0 <= (a as int) * (2048 - a as int) <= 1048576) by (nonlinear_arith)
            requires
                0 <= a as int <= 2048,
        ;
    }
    let t: u64 = (a as u64) * ((2048 - a) as u64);
    let num: u64 = 4096 * t;
    let den: u64 = 5242880 - t;
    let q: u64 = num / den;
    proof {
        assert(num <= 1024 * den) by (nonlinear_arith)
            requires
                t <= 1048576,
                num == 4096 * t,
                den == 5242880 - t,
        ;
        lemma_div_is_ordered(num as int, 1024 * (den as int), den as int);
        lemma_div_by_multiple(1024, den as int);
    }
    q as i64
}

/// Sine of a canonical angle, scaled by `TRIG_ONE`.
pub fn sin_fp(a: i64) -> (r: i64)
    requires
        0 <= a < TURN,
    ensures
        r == sin_spec(a as int),
        -TRIG_ONE <= r <= TRIG_ONE,
{
    if a <= HALF_TURN {
        sin_half(a)
    } else {
        let s = sin_half(a - HALF_TURN);
        -s
    }
}

/// Cosine of a canonical angle, scaled by `TRIG_ONE`.
pub fn cos_fp(a: i64) -> (r: i64)
    requires
        0 <= a < TURN,
    ensures
        r == cos_spec(a as int),
        -TRIG_ONE <= r <= TRIG_ONE,
{
    let b = norm_angle(a + QUARTER_TURN);
    sin_fp(b)
}

/// Arctangent over `[0, 1]` in angle units: `atan(z) ≈ (π/4)·z + 0.273·z·(1 - z)`,
/// with `z` scaled by `TRIG_ONE` and the result in `[0, TURN/8]`.
pub open spec fn atan_q_spec(z: int) -> int {
    512 * z / 1024 + 178 * z * (1024 - z) / 1048576
}

fn atan_q(z: u64) -> (r: i64)
    requires
        z <= 1024,
    ensures
        r == atan_q_spec(z as int),
        0 <= r <= 512,
{
    proof {
        assert(0 <= 178 * (z as int) * (1024 - z as int) <= 0x10000000) by (nonlinear_arith)
            requires
                0 <= z as int <= 1024,
        ;
    }
    let q1: u64 = (512 * z) / 1024;
    let q2: u64 = (178 * z * (1024 - z)) / 1048576;
    proof {
        let zi = z as int;
        lemma_fundamental_div_mod(512 * zi, 1024);
        lemma_fundamental_div_mod(178 * zi * (1024 - zi), 1048576);
        assert(524288 * zi + 178 * zi * (1024 - zi) <= 0x20000000) by (nonlinear_arith)
            requires
                0 <= zi <= 1024,
        ;
        assert(1048576 * (q1 as int) <= 524288 * zi);
        assert(1048576 * (q2 as int) <= 178 * zi * (1024 - zi));
        assert(q1 + q2 <= 512);
    }
    (q1 + q2) as i64
}

/// The quadrant-corrected arctangent in the model: octant reduction around
/// `atan_q_spec`, with the angle growing as `y` grows.
pub open spec fn atan2_spec(dy: int, dx: int) -> int {
    if dx == 0 && dy == 0 {
        0
    } else {
        let adx = if dx < 0 {
            -dx
        } else {
            dx
        };
        let ady = if dy < 0 {
            -dy
        } else {
            dy
        };
        if ady <= adx {
            let th = atan_q_spec(1024 * ady / adx);
            if dx > 0 {
                if dy >= 0 {
                    th
                } else if th == 0 {
                    0
                } else {
                    4096 - th
                }
            } else {
                if dy >= 0 {
                    2048 - th
                } else {
                    2048 + th
                }
            }
        } else {
            let th = atan_q_spec(1024 * adx / ady);
            if dy > 0 {
                if dx >= 0 {
                    1024 - th
                } else {
                    1024 + th
                }
            } else {
                if dx >= 0 {
                    3072 + th
                } else {
                    3072 - th
                }
            }
        }
    }
}

/// Quadrant-correct arctangent of `dy/dx` as a canonical angle: the angle
/// grows with `y`, matching the screen coordinate convention.
pub fn atan2_fp(dy: i64, dx: i64) -> (r: i64)
    requires
        -0x100_0000_0000 <= dy <= 0x100_0000_0000,
        -0x100_0000_0000 <= dx <= 0x100_0000_0000,
    ensures
        r == atan2_spec(dy as int, dx as int),
        0 <= r < TURN,
        dx > 0 && dy == 0 ==> r == 0,
        dx == 0 && dy > 0 ==> r == QUARTER_TURN,
        dx < 0 && dy == 0 ==> r == HALF_TURN,
        dx == 0 && dy < 0 ==> r == 3 * QUARTER_TURN,
        dx > 0 && dy > 0 ==> 0 <= r <= QUARTER_TURN,
        dx < 0 && dy > 0 ==> QUARTER_TURN <= r <= HALF_TURN,
        dx < 0 && dy < 0 ==> HALF_TURN <= r <= 3 * QUARTER_TURN,
        dx > 0 && dy < 0 ==> r == 0 || 3 * QUARTER_TURN <= r < TURN,
{
    if dx == 0 && dy == 0 {
        return 0;
    }
    let adx: u64 = if dx < 0 {
        (-dx) as u64
    } else {
        dx as u64
    };
    let ady: u64 = if dy < 0 {
        (-dy) as u64
    } else {
        dy as u64
    };
    let r: i64;
    if ady <= adx {
        let z: u64 = (1024 * ady) / adx;
        proof {
            lemma_div_is_ordered(1024 * (ady as int), 1024 * (adx as int), adx as int);
            lemma_div_by_multiple(1024, adx as int);
            lemma_div_of0(adx as int);
            assert(z as int == 1024 * (ady as int) / (adx as int));
        }
        let th = atan_q(z);
        r = if dx > 0 {
            if dy >= 0 {
                th
            } else {
                if th == 0 {
                    0
                } else {
                    TURN - th
                }
            }
        } else {
            if dy >= 0 {
                HALF_TURN - th
            } else {
                HALF_TURN + th
            }
        };
    } else {
        let z: u64 = (1024 * adx) / ady;
        proof {
            lemma_div_is_ordered(1024 * (adx as int), 1024 * (ady as int), ady as int);
            lemma_div_by_multiple(1024, ady as int);
            lemma_div_of0(ady as int);
            assert(z as int == 1024 * (adx as int) / (ady as int));
        }
        let th = atan_q(z);
        r = if dy > 0 {
            if dx >= 0 {
                QUARTER_TURN - th
            } else {
                QUARTER_TURN + th
            }
        } else {
            if dx >= 0 {
                3 * QUARTER_TURN + th
            } else {
                3 * QUARTER_TURN - th
            }
        };
    }
    proof {
        assert(adx as int == if dx < 0 { -(dx as int) } else { dx as int });
        assert(ady as int == if dy < 0 { -(dy as int) } else { dy as int });
        assert(r == atan2_spec(dy as int, dx as int));
    }
    r
}

} // verus!
