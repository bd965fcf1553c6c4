use vstd::prelude::*;
use vstd::arithmetic::div_mod::{
    lemma_div_is_ordered, lemma_div_nonincreasing, lemma_div_pos_is_pos,
    lemma_fundamental_div_mod,
};
use rand::Rng;
use crate::entity::{wf_silhouette, Entity, Kind, PolarVertex, Rgb};
use crate::geom::{div_pos, min_spec, mul_div, Pt, RADIUS_LIMIT, SPEED_LIMIT, UNIT};
use crate::trig::{ang_norm, atan2_fp, norm_angle, TURN};

verus! {

/// Relies on `rand::Rng::gen_range` over an inclusive integer range: it
/// returns a uniformly sampled value inside the range and panics only when
/// the range is empty, which the precondition excludes.
#[verifier::external_body]
fn rand_in(lo: i64, hi: i64) -> (r: i64)
    requires
        lo <= hi,
    ensures
        lo <= r <= hi,
{
    rand::thread_rng().gen_range(lo..=hi)
}

/// A fresh silhouette spin: small magnitude, random sign.
fn rand_spin() -> (r: i64)
    ensures
        -32 <= r <= 32,
{
    let magnitude = rand_in(0, 32);
    let negative = rand_in(0, 1);
    if negative == 1 {
        -magnitude
    } else {
        magnitude
    }
}

/// First-generation asteroid silhouette: walk an angle accumulator around a
/// full turn in irregular random increments (1/64th to 1/16th of a turn),
/// each vertex at an independently sampled radial distance within 70-100%
/// of the radius. Monotone angles make the loop a simple polygon by
/// construction; the vertex count is fixed from here on.
pub fn gen_silhouette(radius: i64) -> (sil: Vec<PolarVertex>)
    requires
        1 <= radius <= RADIUS_LIMIT,
    ensures
        wf_silhouette(sil@, radius as int),
        16 <= sil@.len() <= 64,
        forall|i: int|
            0 <= i < sil@.len() ==> 7 * radius as int / 10 <= (#[trigger] sil@[i]).dist,
        sil@[0].ang == 0,
        forall|i: int|
            0 <= i < sil@.len() - 1 ==> 64 <= (#[trigger] sil@[i + 1].ang) - sil@[i].ang <= 256,
        forall|i: int| 0 <= i < sil@.len() - 1 ==> (#[trigger] sil@[i].ang) < sil@[i + 1].ang,
{
    let lo = mul_div(radius, 7, 10);
    proof {
        assert(radius as int * 7 == 7 * radius as int) by (nonlinear_arith);
        assert(radius as int * 10 == 10 * radius as int) by (nonlinear_arith);
        lemma_div_pos_is_pos(7 * radius as int, 10);
        lemma_div_is_ordered(7 * radius as int, 10 * radius as int, 10);
        vstd::arithmetic::div_mod::lemma_div_by_multiple(radius as int, 10);
    }
    let mut sil: Vec<PolarVertex> = Vec::new();
    let mut ang: i64 = 0;
    while ang < TURN
        invariant
            1 <= radius <= RADIUS_LIMIT,
            0 <= lo <= radius,
            lo == 7 * radius as int / 10,
            0 <= ang <= TURN + 256,
            ang <= 256 * sil@.len(),
            sil@.len() == 0 ==> ang == 0,
            sil@.len() >= 1 ==> ang >= 64 * sil@.len() && 64 * (sil@.len() - 1) < TURN,
            sil@.len() >= 1 ==> sil@[0].ang == 0,
            sil@.len() >= 1 ==> 64 <= ang - sil@[sil@.len() - 1].ang <= 256,
            forall|i: int|
                0 <= i < sil@.len() - 1 ==> 64 <= (#[trigger] sil@[i + 1].ang) - sil@[i].ang
                    <= 256,
            wf_silhouette(sil@, radius as int),
            forall|i: int|
                0 <= i < sil@.len() ==> 7 * radius as int / 10 <= (#[trigger] sil@[i]).dist,
        decreases TURN + 256 - ang,
    {
        let d = rand_in(lo, radius);
        sil.push(PolarVertex { dist: d, ang });
        let inc = rand_in(64, 256);
        ang = ang + inc;
    }
    proof {
        assert(sil@.len() >= 1);
        assert(256 * sil@.len() >= 4096);
        assert(64 * (sil@.len() - 1) < 4096);
    }
    sil
}

/// Spawn a new obstacle just outside a uniformly chosen playfield edge
/// region — each coordinate in a band extending half the playfield beyond
/// the edge — headed by the arctangent of the offset toward the playfield
/// center, white, with radius sampled in 10-80 world units, speed scalar in
/// 0.25-0.75, and a small random spin. It is not yet wrap-eligible: it must
/// first move fully inside the playfield.
pub fn create_asteroid(w: i64, h: i64) -> (e: Entity)
    requires
        UNIT <= w <= 0x4000_0000,
        UNIT <= h <= 0x4000_0000,
    ensures
        e.wf(),
        e.kind == Kind::Asteroid,
        10 * UNIT <= e.radius <= 80 * UNIT,
        8 <= e.speed <= 24,
        e.spin_rate == 0,
        e.color == (Rgb { r: 255, g: 255, b: 255 }),
        !e.wrap_eligible,
        e.pos.x <= 0 || e.pos.x >= w || e.pos.y <= 0 || e.pos.y >= h,
        -(w as int / 2) <= e.pos.x <= 0 || w <= e.pos.x <= w + w as int / 2,
        -(h as int / 2) <= e.pos.y <= 0 || h <= e.pos.y <= h + h as int / 2,
        e.rot == crate::trig::atan2_spec(
            h as int / 2 - e.pos.y,
            w as int / 2 - e.pos.x,
        ),
        e.prev_pos == e.pos,
        e.prev_rot == e.rot,
        16 <= e.silhouette@.len() <= 64,
        forall|i: int|
            0 <= i < e.silhouette@.len() ==> 7 * e.radius as int / 10 <= (
            #[trigger] e.silhouette@[i]).dist,
        forall|i: int|
            0 <= i < e.silhouette@.len() - 1 ==> (#[trigger] e.silhouette@[i].ang)
                < e.silhouette@[i + 1].ang,
{
    let half_w = div_pos(w, 2);
    let half_h = div_pos(h, 2);
    let edge = rand_in(0, 3);
    let x: i64;
    let y: i64;
    if edge == 0 {
        x = rand_in(-half_w, 0);
        y = rand_in(-half_h, 0);
    } else if edge == 1 {
        x = rand_in(w, w + half_w);
        y = rand_in(-half_h, 0);
    } else if edge == 2 {
        x = rand_in(w, w + half_w);
        y = rand_in(h, h + half_h);
    } else {
        x = rand_in(-half_w, 0);
        y = rand_in(h, h + half_h);
    }
    let rot = atan2_fp(half_h - y, half_w - x);
    let radius = rand_in(10 * UNIT, 80 * UNIT);
    let speed = rand_in(8, 24);
    let spin = rand_spin();
    let silhouette = gen_silhouette(radius);
    let pos = Pt { x, y };
    Entity {
        pos,
        prev_pos: pos,
        rot,
        prev_rot: rot,
        speed,
        spin_rate: 0,
        spin,
        silhouette,
        color: Rgb { r: 255, g: 255, b: 255 },
        radius,
        kind: Kind::Asteroid,
        wrap_eligible: false,
    }
}

/// What fragmentation promises of the two children replacing a destroyed
/// parent: both at the parent's position, radii splitting the parent's
/// exactly (the smaller child takes a 40-60% cut), headings the parent's
/// rotated apart by a shared split angle of an eighth to a quarter turn,
/// speeds at least the parent's, both wrap-eligible at once, with fresh
/// well-formed silhouettes.
pub open spec fn frag_pair(p: Entity, a: Entity, b: Entity) -> bool {
    &&& a.wf()
    &&& b.wf()
    &&& a.kind == Kind::Asteroid
    &&& b.kind == Kind::Asteroid
    &&& a.pos == p.pos
    &&& b.pos == p.pos
    &&& a.prev_pos == p.pos
    &&& b.prev_pos == p.pos
    &&& a.radius + b.radius == p.radius
    &&& 2 * p.radius as int / 5 <= b.radius <= 3 * p.radius as int / 5
    &&& exists|d: int|
        512 <= d <= 1024 && a.rot == ang_norm(p.rot + d) && b.rot == #[trigger] ang_norm(
            p.rot - d,
        )
    &&& p.speed <= a.speed <= min_spec(2 * p.speed as int, SPEED_LIMIT as int)
    &&& exists|sd: int|
        p.speed as int / 4 <= sd <= 3 * p.speed as int / 4 && b.speed == #[trigger] min_spec(
            p.speed + sd,
            SPEED_LIMIT as int,
        )
    &&& a.color == p.color
    &&& b.color == p.color
    &&& a.wrap_eligible
    &&& b.wrap_eligible
}

/// Replace a destroyed obstacle by its two fragments.
pub fn fragment(p: &Entity) -> (c: (Entity, Entity))
    requires
        p.wf(),
        p.kind == Kind::Asteroid,
        p.radius >= 5,
    ensures
        frag_pair(*p, c.0, c.1),
{
    let d = rand_in(512, 1024);
    proof {
        assert(p.radius as int * 2 == 2 * p.radius as int) by (nonlinear_arith);
        assert(p.radius as int * 3 == 3 * p.radius as int) by (nonlinear_arith);
        lemma_div_is_ordered(2 * p.radius as int, 3 * p.radius as int, 5);
        lemma_div_is_ordered(10, 2 * p.radius as int, 5);
        lemma_fundamental_div_mod(3 * p.radius as int, 5);
    }
    let scale_lo = mul_div(p.radius, 2, 5);
    let scale_hi = mul_div(p.radius, 3, 5);
    let b_radius = rand_in(scale_lo, scale_hi);
    let a_radius = p.radius - b_radius;
    proof {
        assert(5 * (b_radius as int) <= 3 * p.radius as int);
        assert(a_radius >= 2);
    }
    proof {
        assert(p.speed as int * 1 == p.speed as int) by (nonlinear_arith);
        assert(p.speed as int * 3 == 3 * p.speed as int) by (nonlinear_arith);
        lemma_div_pos_is_pos(p.speed as int, 4);
        lemma_div_is_ordered(p.speed as int, 3 * p.speed as int, 4);
        lemma_div_nonincreasing(p.speed as int, 4);
    }
    let sd = rand_in(mul_div(p.speed, 1, 4), mul_div(p.speed, 3, 4));
    let b_speed_raw = p.speed + sd;
    let b_speed = if b_speed_raw > SPEED_LIMIT {
        SPEED_LIMIT
    } else {
        b_speed_raw
    };
    let a_speed_hi = if 2 * p.speed > SPEED_LIMIT {
        SPEED_LIMIT
    } else {
        2 * p.speed
    };
    let a_speed = rand_in(p.speed, a_speed_hi);
    let a_rot = norm_angle(p.rot + d);
    let b_rot = norm_angle(p.rot - d);
    let a = Entity {
        pos: p.pos,
        prev_pos: p.pos,
        rot: a_rot,
        prev_rot: a_rot,
        speed: a_speed,
        spin_rate: 0,
        spin: rand_spin(),
        silhouette: gen_silhouette(a_radius),
        color: p.color,
        radius: a_radius,
        kind: Kind::Asteroid,
        wrap_eligible: true,
    };
    let b = Entity {
        pos: p.pos,
        prev_pos: p.pos,
        rot: b_rot,
        prev_rot: b_rot,
        speed: b_speed,
        spin_rate: 0,
        spin: rand_spin(),
        silhouette: gen_silhouette(b_radius),
        color: p.color,
        radius: b_radius,
        kind: Kind::Asteroid,
        wrap_eligible: true,
    };
    proof {
        assert(a.rot == ang_norm(p.rot + d as int) && b.rot == ang_norm(p.rot - d as int));
        assert(b.speed == min_spec(p.speed + sd as int, SPEED_LIMIT as int));
        assert(a.speed <= min_spec(2 * p.speed as int, SPEED_LIMIT as int));
    }
    (a, b)
}

} // verus!
