use vstd::prelude::*;
use crate::entity::{advance_silhouette, advance_polar, Entity, Kind};
use crate::geom::{
    clamp_spec, lemma_mdiv_abs, mdiv, mul_div, translate_clamped, POS_LIMIT, RADIUS_LIMIT,
};
use crate::trig::{ang_norm, norm_angle, cos_spec, sin_spec, cos_fp, sin_fp};

verus! {

/// One tick of the inertial ladder for the ship's turn rate, in 1/16ths:
/// step toward the held direction's bound, otherwise decay toward zero
/// without overshoot. The step doubles while the scalar's sign still
/// opposes the held direction — a reversal kick. The core consumes only
/// the currently-held controls and deliberately keeps no previous-tick
/// control state, so "newly pressed" is not, and cannot be, the trigger
/// for the kick; opposing sign is the rule.
pub open spec fn step_spin(s: int, left: bool, right: bool) -> int {
    if left && !right && s > -16 {
        if s > 0 {
            s - 2
        } else {
            s - 1
        }
    } else if right && !left && s < 16 {
        if s < 0 {
            s + 2
        } else {
            s + 1
        }
    } else {
        if s < 0 {
            s + 1
        } else if s > 0 {
            s - 1
        } else {
            s
        }
    }
}

/// One tick of the inertial ladder for the ship's speed, in 1/32nds:
/// thrust raises it toward 1.0 (32), braking lowers it toward the weaker
/// bound -0.5 (-16), otherwise it decays toward zero. As with the turn
/// rate, the step doubles while the scalar's sign opposes the held
/// direction (the reversal kick), not on a press edge: the core keeps no
/// previous-tick control state.
pub open spec fn step_speed(s: int, thrust: bool, back: bool) -> int {
    if thrust && !back && s < 32 {
        if s < 0 {
            s + 2
        } else {
            s + 1
        }
    } else if back && !thrust && s > -16 {
        if s > 0 {
            s - 2
        } else {
            s - 1
        }
    } else {
        if s > 0 {
            s - 1
        } else if s < 0 {
            s + 1
        } else {
            s
        }
    }
}

/// New x coordinate after moving `len` sub-units along heading `rot`.
pub open spec fn moved_x(x: int, len: int, rot: int) -> int {
    clamp_spec(x + mdiv(len, cos_spec(rot), 1024), -POS_LIMIT as int, POS_LIMIT as int)
}

/// New y coordinate after moving `len` sub-units along heading `rot`.
pub open spec fn moved_y(y: int, len: int, rot: int) -> int {
    clamp_spec(y + mdiv(len, sin_spec(rot), 1024), -POS_LIMIT as int, POS_LIMIT as int)
}

/// Drive the ship for one tick from the held controls: snapshot the previous
/// frame state, run both inertial ladders, turn by the new spin rate scaled
/// by the fixed rotation gain (0.1 rad at full rate), and advance the
/// position by `radius/4 · speed` along the new heading.
pub fn steer(e: &mut Entity, left: bool, right: bool, thrust: bool, back: bool)
    requires
        old(e).wf(),
        old(e).kind == Kind::Ship,
    ensures
        final(e).wf(),
        final(e).prev_pos == old(e).pos,
        final(e).prev_rot == old(e).rot,
        final(e).spin_rate == step_spin(old(e).spin_rate as int, left, right),
        final(e).speed == step_speed(old(e).speed as int, thrust, back),
        final(e).rot == ang_norm(
            old(e).rot + mdiv(step_spin(old(e).spin_rate as int, left, right), 65, 16),
        ),
        final(e).pos.x == moved_x(
            old(e).pos.x as int,
            mdiv(old(e).radius as int, step_speed(old(e).speed as int, thrust, back), 128),
            final(e).rot as int,
        ),
        final(e).pos.y == moved_y(
            old(e).pos.y as int,
            mdiv(old(e).radius as int, step_speed(old(e).speed as int, thrust, back), 128),
            final(e).rot as int,
        ),
        final(e).radius == old(e).radius,
        final(e).color == old(e).color,
        final(e).kind == old(e).kind,
        final(e).spin == old(e).spin,
        final(e).silhouette@ == old(e).silhouette@,
        final(e).wrap_eligible == old(e).wrap_eligible,
{
    e.prev_pos = e.pos;
    e.prev_rot = e.rot;
    let s = e.spin_rate;
    e.spin_rate = if left && !right && s > -16 {
        if s > 0 {
            s - 2
        } else {
            s - 1
        }
    } else if right && !left && s < 16 {
        if s < 0 {
            s + 2
        } else {
            s + 1
        }
    } else {
        if s < 0 {
            s + 1
        } else if s > 0 {
            s - 1
        } else {
            s
        }
    };
    let v = e.speed;
    e.speed = if thrust && !back && v < 32 {
        if v < 0 {
            v + 2
        } else {
            v + 1
        }
    } else if back && !thrust && v > -16 {
        if v > 0 {
            v - 2
        } else {
            v - 1
        }
    } else {
        if v > 0 {
            v - 1
        } else if v < 0 {
            v + 1
        } else {
            v
        }
    };
    let dlt = mul_div(e.spin_rate, 65, 16);
    proof {
        lemma_mdiv_abs(e.spin_rate as int, 65, 16, 16, 65);
    }
    e.rot = norm_angle(e.rot + dlt);
    let len = mul_div(e.radius, e.speed, 128);
    proof {
        lemma_mdiv_abs(e.radius as int, e.speed as int, 128, RADIUS_LIMIT as int, 32);
    }
    let c = cos_fp(e.rot);
    let sn = sin_fp(e.rot);
    let dx = mul_div(len, c, 1024);
    let dy = mul_div(len, sn, 1024);
    proof {
        lemma_mdiv_abs(len as int, c as int, 1024, 0x40_0000, 1024);
        lemma_mdiv_abs(len as int, sn as int, 1024, 0x40_0000, 1024);
    }
    e.pos = translate_clamped(e.pos, dx, dy);
}

/// Advance an autonomous obstacle for one tick: snapshot the previous frame,
/// rotate its silhouette by its fixed spin, and drift by `radius/16 · speed`
/// along its fixed heading.
pub fn move_obstacle(e: &mut Entity)
    requires
        old(e).wf(),
        old(e).kind == Kind::Asteroid,
    ensures
        final(e).wf(),
        final(e).prev_pos == old(e).pos,
        final(e).prev_rot == old(e).rot,
        final(e).pos.x == moved_x(
            old(e).pos.x as int,
            mdiv(old(e).radius as int, old(e).speed as int, 512),
            old(e).rot as int,
        ),
        final(e).pos.y == moved_y(
            old(e).pos.y as int,
            mdiv(old(e).radius as int, old(e).speed as int, 512),
            old(e).rot as int,
        ),
        final(e).rot == old(e).rot,
        final(e).speed == old(e).speed,
        final(e).spin_rate == old(e).spin_rate,
        final(e).spin == old(e).spin,
        final(e).color == old(e).color,
        final(e).radius == old(e).radius,
        final(e).kind == old(e).kind,
        final(e).wrap_eligible == old(e).wrap_eligible,
        final(e).silhouette@ == advance_polar(old(e).silhouette@, 0, old(e).spin as int),
{
    e.prev_pos = e.pos;
    e.prev_rot = e.rot;
    advance_silhouette(e);
    let len = mul_div(e.radius, e.speed, 512);
    proof {
        lemma_mdiv_abs(e.radius as int, e.speed as int, 512, RADIUS_LIMIT as int, 0x8000);
    }
    let c = cos_fp(e.rot);
    let sn = sin_fp(e.rot);
    let dx = mul_div(len, c, 1024);
    let dy = mul_div(len, sn, 1024);
    proof {
        lemma_mdiv_abs(len as int, c as int, 1024, 0x4000_0000, 1024);
        lemma_mdiv_abs(len as int, sn as int, 1024, 0x4000_0000, 1024);
    }
    e.pos = translate_clamped(e.pos, dx, dy);
}

/// Advance a bullet for one tick: its speed is re-pinned to 0.6 of the
/// ship's current radius (in sub-units per tick) and it moves along its
/// fixed heading.
pub fn move_bullet(e: &mut Entity, ship_radius: i64)
    requires
        old(e).wf(),
        old(e).kind == Kind::Bullet,
        0 < ship_radius <= RADIUS_LIMIT,
    ensures
        final(e).wf(),
        final(e).speed == mdiv(ship_radius as int, 3, 5),
        final(e).pos.x == moved_x(
            old(e).pos.x as int,
            mdiv(ship_radius as int, 3, 5),
            old(e).rot as int,
        ),
        final(e).pos.y == moved_y(
            old(e).pos.y as int,
            mdiv(ship_radius as int, 3, 5),
            old(e).rot as int,
        ),
        final(e).prev_pos == old(e).prev_pos,
        final(e).rot == old(e).rot,
        final(e).prev_rot == old(e).prev_rot,
        final(e).spin_rate == old(e).spin_rate,
        final(e).spin == old(e).spin,
        final(e).color == old(e).color,
        final(e).radius == old(e).radius,
        final(e).kind == old(e).kind,
        final(e).wrap_eligible == old(e).wrap_eligible,
        final(e).silhouette@ == old(e).silhouette@,
{
    e.speed = mul_div(ship_radius, 3, 5);
    proof {
        lemma_mdiv_abs(ship_radius as int, 3, 5, RADIUS_LIMIT as int, 3);
    }
    let c = cos_fp(e.rot);
    let sn = sin_fp(e.rot);
    let dx = mul_div(e.speed, c, 1024);
    let dy = mul_div(e.speed, sn, 1024);
    proof {
        lemma_mdiv_abs(e.speed as int, c as int, 1024, RADIUS_LIMIT as int, 1024);
        lemma_mdiv_abs(e.speed as int, sn as int, 1024, RADIUS_LIMIT as int, 1024);
    }
    e.pos = translate_clamped(e.pos, dx, dy);
}

} // verus!
