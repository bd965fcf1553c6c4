use vstd::prelude::*;
use vstd::arithmetic::div_mod::lemma_div_nonincreasing;
use crate::collide::{add_score_spec, any_hit, collide_step, cull, is_first_hit, ship_hit};
use crate::entity::{advance_polar, fire, vertices, Entity, Kind, Rgb};
use crate::geom::{clamp_spec, div_pos, mdiv, min_spec, Pt, POS_LIMIT, RADIUS_LIMIT, UNIT};
use crate::kinem::{move_bullet, move_obstacle, moved_x, moved_y, steer, step_spin, step_speed};
use crate::spawn::create_asteroid;
use crate::trig::{ang_norm, cos_spec, sin_spec};
use crate::wrap::{wrap_coord, wrap_step};

verus! {

/// The held state of the logical controls, one snapshot per tick.
#[derive(Clone, Copy, PartialEq, Eq, Structural, Debug)]
pub struct Controls {
    pub turn_left: bool,
    pub turn_right: bool,
    pub thrust_forward: bool,
    pub thrust_backward: bool,
    pub fire: bool,
    /// Debug: spawn one obstacle now.
    pub spawn_obstacle: bool,
    /// Debug: clear all obstacles.
    pub clear_obstacles: bool,
    /// Debug: grow the ship by one world unit.
    pub grow: bool,
    /// Debug: shrink the ship by one world unit.
    pub shrink: bool,
    /// Debug: revive the ship; a bare flag flip, position kept.
    pub revive: bool,
}

impl Controls {
    /// No control held.
    pub fn none() -> (c: Controls)
        ensures
            !c.turn_left,
            !c.turn_right,
            !c.thrust_forward,
            !c.thrust_backward,
            !c.fire,
            !c.spawn_obstacle,
            !c.clear_obstacles,
            !c.grow,
            !c.shrink,
            !c.revive,
    {
        Controls {
            turn_left: false,
            turn_right: false,
            thrust_forward: false,
            thrust_backward: false,
            fire: false,
            spawn_obstacle: false,
            clear_obstacles: false,
            grow: false,
            shrink: false,
            revive: false,
        }
    }
}

/// One closed vertex loop handed to the render sink, with its color.
pub struct Polygon {
    pub pts: Vec<Pt>,
    pub color: Rgb,
}

/// The ship's radius after the debug grow/shrink controls, clamped to stay
/// a positive world size.
pub open spec fn debug_radius(r: int, grow: bool, shrink: bool) -> int {
    let r1 = if grow {
        min_spec(r + 1024, RADIUS_LIMIT as int)
    } else {
        r
    };
    if shrink && r1 >= 2048 {
        r1 - 1024
    } else {
        r1
    }
}

/// The ship's heading after one steered tick.
pub open spec fn steered_rot(rot: int, spin_rate: int, left: bool, right: bool) -> int {
    ang_norm(rot + mdiv(step_spin(spin_rate, left, right), 65, 16))
}

/// The steered ship's x coordinate before any wrap: moved `radius/4 · speed`
/// along the new heading.
pub open spec fn steered_mx(s: Entity, c: Controls) -> int {
    moved_x(
        s.pos.x as int,
        mdiv(
            s.radius as int,
            step_speed(s.speed as int, c.thrust_forward, c.thrust_backward),
            128,
        ),
        steered_rot(s.rot as int, s.spin_rate as int, c.turn_left, c.turn_right),
    )
}

/// The steered ship's y coordinate before any wrap.
pub open spec fn steered_my(s: Entity, c: Controls) -> int {
    moved_y(
        s.pos.y as int,
        mdiv(
            s.radius as int,
            step_speed(s.speed as int, c.thrust_forward, c.thrust_backward),
            128,
        ),
        steered_rot(s.rot as int, s.spin_rate as int, c.turn_left, c.turn_right),
    )
}

/// The steered ship's x coordinate after the edge wrap stage.
pub open spec fn steered_wrapped_x(s: Entity, c: Controls, w: int) -> int {
    if s.wrap_eligible {
        wrap_coord(steered_mx(s, c), w)
    } else {
        steered_mx(s, c)
    }
}

/// The steered ship's y coordinate after the edge wrap stage.
pub open spec fn steered_wrapped_y(s: Entity, c: Controls, h: int) -> int {
    if s.wrap_eligible {
        wrap_coord(steered_my(s, c), h)
    } else {
        steered_my(s, c)
    }
}

/// What the fire action appends: a fresh bullet at the steered ship's nose,
/// along its new heading, a quarter of its radius, initial speed equal to
/// the radius, in the ship's pre-flash color.
pub open spec fn fired_bullet_like(b: Entity, s: Entity, c: Controls) -> bool {
    let rot2 = steered_rot(s.rot as int, s.spin_rate as int, c.turn_left, c.turn_right);
    &&& b.kind == Kind::Bullet
    &&& b.rot == rot2
    &&& b.prev_rot == rot2
    &&& b.radius == s.radius as int / 4
    &&& b.speed == s.radius
    &&& b.color == s.color
    &&& b.pos.x == clamp_spec(
        steered_mx(s, c) + mdiv(s.radius as int, cos_spec(rot2), 1024),
        -POS_LIMIT as int,
        POS_LIMIT as int,
    )
    &&& b.pos.y == clamp_spec(
        steered_my(s, c) + mdiv(s.radius as int, sin_spec(rot2), 1024),
        -POS_LIMIT as int,
        POS_LIMIT as int,
    )
    &&& b.prev_pos == b.pos
    &&& b.spin == 0
    &&& b.spin_rate == 0
    &&& !b.wrap_eligible
    &&& b.silhouette@.len() == 0
}

/// A rendered polygon is exactly this entity's vertex loop in its color.
pub open spec fn poly_is_loop_of(p: Polygon, e: Entity) -> bool {
    &&& p.pts@.len() == e.vertex_count()
    &&& forall|j: int|
        0 <= j < p.pts@.len() ==> (#[trigger] p.pts@[j]).x == e.vertex_x(j) && p.pts@[j].y
            == e.vertex_y(j)
    &&& p.color == e.color
}

/// Some polygon in `fr` at index `lo` or later is this entity's vertex loop.
pub open spec fn frame_shows(fr: Seq<Polygon>, lo: int, e: Entity) -> bool {
    exists|p: int| lo <= p < fr.len() && poly_is_loop_of(#[trigger] fr[p], e)
}

proof fn lemma_frame_shows_extend(fr0: Seq<Polygon>, fr1: Seq<Polygon>, lo: int, e: Entity)
    requires
        0 <= lo,
        frame_shows(fr0, lo, e),
        fr1.len() >= fr0.len(),
        forall|p: int| 0 <= p < fr0.len() ==> fr1[p] == fr0[p],
    ensures
        frame_shows(fr1, lo, e),
{
    let p = choose|p: int| lo <= p < fr0.len() && poly_is_loop_of(#[trigger] fr0[p], e);
    assert(poly_is_loop_of(fr1[p], e));
}

/// How one autonomous obstacle advances in a tick: it becomes wrap-eligible
/// once fully inside the playfield, drifts `radius/16 · speed` along its
/// fixed heading, hard-wraps when eligible, and its silhouette turns by its
/// fixed spin; everything else is kept.
pub open spec fn obstacle_advanced(o: Entity, n: Entity, w: int, h: int) -> bool {
    let elig = o.wrap_eligible || (o.radius <= o.pos.x <= w - o.radius && o.radius <= o.pos.y
        <= h - o.radius);
    let mx = moved_x(o.pos.x as int, mdiv(o.radius as int, o.speed as int, 512), o.rot as int);
    let my = moved_y(o.pos.y as int, mdiv(o.radius as int, o.speed as int, 512), o.rot as int);
    &&& n.pos.x == if elig {
        wrap_coord(mx, w)
    } else {
        mx
    }
    &&& n.pos.y == if elig {
        wrap_coord(my, h)
    } else {
        my
    }
    &&& n.prev_pos == o.pos
    &&& n.prev_rot == o.rot
    &&& n.rot == o.rot
    &&& n.speed == o.speed
    &&& n.spin == o.spin
    &&& n.spin_rate == o.spin_rate
    &&& n.color == o.color
    &&& n.radius == o.radius
    &&& n.kind == o.kind
    &&& n.wrap_eligible == elig
    &&& n.silhouette@ == advance_polar(o.silhouette@, 0, o.spin as int)
}

/// How one bullet advances in a tick: its speed is re-pinned to 0.6 of the
/// ship's current radius and it flies that far along its fixed heading;
/// everything else is kept. Bullets never wrap.
pub open spec fn bullet_advanced(o: Entity, n: Entity, ship_radius: int) -> bool {
    &&& n.speed == mdiv(ship_radius, 3, 5)
    &&& n.pos.x == moved_x(o.pos.x as int, mdiv(ship_radius, 3, 5), o.rot as int)
    &&& n.pos.y == moved_y(o.pos.y as int, mdiv(ship_radius, 3, 5), o.rot as int)
    &&& n.rot == o.rot
    &&& n.prev_rot == o.prev_rot
    &&& n.prev_pos == o.prev_pos
    &&& n.radius == o.radius
    &&& n.kind == o.kind
    &&& n.color == o.color
    &&& n.spin == o.spin
    &&& n.spin_rate == o.spin_rate
    &&& n.wrap_eligible == o.wrap_eligible
    &&& n.silhouette@ == o.silhouette@
}

/// The whole simulation state: the singleton ship, the oldest-first bullet
/// list, the obstacle list, the running score and the tick counters.
pub struct World {
    pub ship: Entity,
    /// False after a ship-obstacle collision until revived.
    pub alive: bool,
    pub bullets: Vec<Entity>,
    pub obstacles: Vec<Entity>,
    pub score: u64,
    /// Fire cooldown phase, cycling modulo 15.
    pub fire_delay: u8,
    /// Tick phase, cycling modulo 60.
    pub spawn_phase: u8,
    /// Seconds counted toward the next periodic obstacle spawn.
    pub spawn_count: u8,
    pub width: i64,
    pub height: i64,
}

impl World {
    /// The invariant the world maintains at every tick boundary.
    pub open spec fn wf(self) -> bool {
        &&& self.ship.wf()
        &&& self.ship.kind == Kind::Ship
        &&& self.ship.radius >= UNIT
        &&& forall|i: int|
            0 <= i < self.bullets@.len() ==> (#[trigger] self.bullets@[i]).wf()
                && self.bullets@[i].kind == Kind::Bullet
        &&& forall|i: int|
            0 <= i < self.obstacles@.len() ==> (#[trigger] self.obstacles@[i]).wf()
                && self.obstacles@[i].kind == Kind::Asteroid
        &&& forall|i: int|
            0 <= i < self.obstacles@.len() ==> 2 * (#[trigger] self.obstacles@[i]).radius
                > self.ship.radius
        &&& self.fire_delay < 15
        &&& self.spawn_phase < 60
        &&& self.spawn_count <= 3
        &&& UNIT <= self.width <= 0x4000_0000
        &&& UNIT <= self.height <= 0x4000_0000
    }

    /// A fresh world: the ship centered, nose up, ten world units across,
    /// no bullets, no obstacles, zero score.
    pub fn new(width: i64, height: i64) -> (w: World)
        requires
            UNIT <= width <= 0x4000_0000,
            UNIT <= height <= 0x4000_0000,
        ensures
            w.wf(),
            w.alive,
            w.score == 0,
            w.bullets@.len() == 0,
            w.obstacles@.len() == 0,
            w.ship.pos.x == width as int / 2,
            w.ship.pos.y == height as int / 2,
            w.ship.rot == 3072,
            w.ship.radius == 10 * UNIT,
            w.ship.speed == 0,
            w.ship.spin_rate == 0,
            w.ship.wrap_eligible,
            w.width == width,
            w.height == height,
            w.fire_delay == 0,
            w.spawn_phase == 0,
            w.spawn_count == 0,
    {
        let half_w = div_pos(width, 2);
        let half_h = div_pos(height, 2);
        let pos = Pt { x: half_w, y: half_h };
        let ship = Entity {
            pos,
            prev_pos: pos,
            rot: 3072,
            prev_rot: 3072,
            speed: 0,
            spin_rate: 0,
            spin: 0,
            silhouette: Vec::new(),
            color: Rgb { r: 255, g: 255, b: 255 },
            radius: 10 * UNIT,
            kind: Kind::Ship,
            wrap_eligible: true,
        };
        World {
            ship,
            alive: true,
            bullets: Vec::new(),
            obstacles: Vec::new(),
            score: 0,
            fire_delay: 0,
            spawn_phase: 0,
            spawn_count: 0,
            width,
            height,
        }
    }
}

/// Apply the debug controls: revive, clear, immediate spawn, grow and
/// shrink, exactly as the event pump handles them.
fn debug_controls(w: &mut World, c: Controls)
    requires
        old(w).wf(),
    ensures
        final(w).ship.wf(),
        final(w).ship.kind == Kind::Ship,
        final(w).ship.radius == debug_radius(old(w).ship.radius as int, c.grow, c.shrink),
        UNIT <= final(w).ship.radius <= RADIUS_LIMIT,
        final(w).ship.pos == old(w).ship.pos,
        final(w).ship.rot == old(w).ship.rot,
        final(w).ship.speed == old(w).ship.speed,
        final(w).ship.spin_rate == old(w).ship.spin_rate,
        final(w).ship.color == old(w).ship.color,
        final(w).ship.silhouette@ == old(w).ship.silhouette@,
        final(w).ship.prev_pos == old(w).ship.prev_pos,
        final(w).ship.prev_rot == old(w).ship.prev_rot,
        final(w).ship.spin == old(w).ship.spin,
        final(w).ship.wrap_eligible == old(w).ship.wrap_eligible,
        final(w).alive == (old(w).alive || c.revive),
        final(w).bullets@ == old(w).bullets@,
        forall|k: int|
            0 <= k < final(w).obstacles@.len() ==> (#[trigger] final(w).obstacles@[k]).wf()
                && final(w).obstacles@[k].kind == Kind::Asteroid && final(w).obstacles@[k].radius >= 5,
        final(w).score == old(w).score,
        final(w).fire_delay == old(w).fire_delay,
        final(w).spawn_phase == old(w).spawn_phase,
        final(w).spawn_count == old(w).spawn_count,
        final(w).width == old(w).width,
        final(w).height == old(w).height,
{
    if c.revive {
        w.alive = true;
    }
    if c.clear_obstacles {
        w.obstacles = Vec::new();
    }
    if c.spawn_obstacle {
        let a = create_asteroid(w.width, w.height);
        w.obstacles.push(a);
    }
    if c.grow {
        let nr = w.ship.radius + UNIT;
        w.ship.radius = if nr > RADIUS_LIMIT {
            RADIUS_LIMIT
        } else {
            nr
        };
    }
    if c.shrink {
        if w.ship.radius >= 2 * UNIT {
            w.ship.radius = w.ship.radius - UNIT;
        }
    }
}

/// While alive, steer the ship from the controls, handle the fire action
/// and its cooldown coloring, and render the ship with its edge-wrap
/// ghosts. A dead ship ignores the controls entirely.
fn ship_phase(w: &mut World, c: Controls, frame: &mut Vec<Polygon>)
    requires
        old(w).ship.wf(),
        old(w).ship.kind == Kind::Ship,
        UNIT <= old(w).ship.radius <= RADIUS_LIMIT,
        old(w).fire_delay < 15,
        UNIT <= old(w).width <= 0x4000_0000,
        UNIT <= old(w).height <= 0x4000_0000,
        forall|k: int|
            0 <= k < old(w).bullets@.len() ==> (#[trigger] old(w).bullets@[k]).wf()
                && old(w).bullets@[k].kind == Kind::Bullet,
        forall|p: int| 0 <= p < old(frame)@.len() ==> (#[trigger] old(frame)@[p]).pts@.len() >= 3,
    ensures
        final(w).ship.wf(),
        final(w).ship.kind == Kind::Ship,
        final(w).ship.radius == old(w).ship.radius,
        final(w).alive == old(w).alive,
        final(w).obstacles@ == old(w).obstacles@,
        final(w).score == old(w).score,
        final(w).fire_delay < 15,
        final(w).spawn_phase == old(w).spawn_phase,
        final(w).spawn_count == old(w).spawn_count,
        final(w).width == old(w).width,
        final(w).height == old(w).height,
        forall|k: int|
            0 <= k < final(w).bullets@.len() ==> (#[trigger] final(w).bullets@[k]).wf() && final(w).bullets@[k].kind
                == Kind::Bullet,
        !old(w).alive ==> final(w).bullets@ == old(w).bullets@ && final(w).ship == old(w).ship && final(w).fire_delay
            == old(w).fire_delay && final(frame)@ == old(frame)@,
        old(w).alive ==> final(frame)@.len() >= old(frame)@.len() + 1,
        forall|p: int| 0 <= p < final(frame)@.len() ==> (#[trigger] final(frame)@[p]).pts@.len()
            >= 3,
        final(frame)@.subrange(0, old(frame)@.len() as int) == old(frame)@,
        old(w).alive ==> {
            &&& final(w).ship.speed == step_speed(
                old(w).ship.speed as int,
                c.thrust_forward,
                c.thrust_backward,
            )
            &&& final(w).ship.spin_rate == step_spin(
                old(w).ship.spin_rate as int,
                c.turn_left,
                c.turn_right,
            )
            &&& final(w).ship.rot == steered_rot(
                old(w).ship.rot as int,
                old(w).ship.spin_rate as int,
                c.turn_left,
                c.turn_right,
            )
            &&& final(w).ship.pos.x == steered_wrapped_x(old(w).ship, c, old(w).width as int)
            &&& final(w).ship.pos.y == steered_wrapped_y(old(w).ship, c, old(w).height as int)
            &&& final(w).ship.prev_pos == old(w).ship.pos
            &&& final(w).ship.prev_rot == old(w).ship.rot
            &&& final(w).ship.wrap_eligible == old(w).ship.wrap_eligible
            &&& final(w).fire_delay as int == if c.fire || old(w).fire_delay > 0 {
                (old(w).fire_delay as int + 1) % 15
            } else {
                old(w).fire_delay as int
            }
            &&& poly_is_loop_of(final(frame)@[final(frame)@.len() - 1], final(w).ship)
        },
        old(w).alive && c.fire && old(w).fire_delay == 0 ==> {
            &&& final(w).bullets@.len() == old(w).bullets@.len() + 1
            &&& final(w).bullets@.subrange(0, old(w).bullets@.len() as int) == old(w).bullets@
            &&& fired_bullet_like(
                final(w).bullets@[old(w).bullets@.len() as int],
                old(w).ship,
                c,
            )
            &&& final(w).ship.color == (Rgb { r: 255, g: 100, b: 0 })
        },
        old(w).alive && !(c.fire && old(w).fire_delay == 0) ==> final(w).bullets@ == old(
            w,
        ).bullets@,
{
    if !w.alive {
        return ;
    }
    steer(&mut w.ship, c.turn_left, c.turn_right, c.thrust_forward, c.thrust_backward);
    if c.fire {
        if w.fire_delay == 0 {
            let b = fire(&w.ship);
            w.bullets.push(b);
            proof {
                assert(w.bullets@.subrange(0, old(w).bullets@.len() as int) =~= old(w).bullets@);
                assert(fired_bullet_like(
                    w.bullets@[old(w).bullets@.len() as int],
                    old(w).ship,
                    c,
                ));
            }
            w.ship.color = Rgb { r: 255, g: 100, b: 0 };
        } else {
            let cd = 15 - w.fire_delay;
            proof {
                lemma_div_nonincreasing(105, cd as int);
                lemma_div_nonincreasing(255, cd as int);
            }
            w.ship.color = Rgb { r: 255, g: 150 + 105 / cd, b: 255 / cd };
        }
        w.fire_delay = (w.fire_delay + 1) % 15;
    } else if w.fire_delay > 0 {
        let cd = 15 - w.fire_delay;
        proof {
            lemma_div_nonincreasing(105, cd as int);
            lemma_div_nonincreasing(255, cd as int);
        }
        w.ship.color = Rgb { r: 255, g: 150 + 105 / cd, b: 255 / cd };
        w.fire_delay = (w.fire_delay + 1) % 15;
    }
    let sv = vertices(&w.ship);
    let mut ghosts = wrap_step(&mut w.ship, &sv, w.width, w.height);
    while ghosts.len() > 0
        invariant
            forall|k: int| 0 <= k < ghosts@.len() ==> (#[trigger] ghosts@[k]).verts@.len() >= 3,
            forall|p: int| 0 <= p < frame@.len() ==> (#[trigger] frame@[p]).pts@.len() >= 3,
            frame@.len() >= old(frame)@.len(),
            frame@.subrange(0, old(frame)@.len() as int) == old(frame)@,
        decreases ghosts@.len(),
    {
        let g = ghosts.pop().unwrap();
        frame.push(Polygon { pts: g.verts, color: g.color });
        proof {
            assert(frame@.subrange(0, old(frame)@.len() as int) =~= old(frame)@);
        }
    }
    let shipv = vertices(&w.ship);
    frame.push(Polygon { pts: shipv, color: w.ship.color });
    proof {
        assert(frame@.subrange(0, old(frame)@.len() as int) =~= old(frame)@);
        assert(poly_is_loop_of(frame@[frame@.len() - 1], w.ship));
    }
}

/// Move every obstacle one tick: it becomes wrap-eligible once fully inside
/// the playfield, drifts along its heading, wraps across edges, and is
/// rendered together with its ghosts.
fn obstacles_phase(w: &mut World, frame: &mut Vec<Polygon>)
    requires
        forall|k: int|
            0 <= k < old(w).obstacles@.len() ==> (#[trigger] old(w).obstacles@[k]).wf() && old(
                w,
            ).obstacles@[k].kind == Kind::Asteroid && old(w).obstacles@[k].radius >= 5,
        UNIT <= old(w).width <= 0x4000_0000,
        UNIT <= old(w).height <= 0x4000_0000,
        forall|p: int| 0 <= p < old(frame)@.len() ==> (#[trigger] old(frame)@[p]).pts@.len() >= 3,
    ensures
        forall|k: int|
            0 <= k < final(w).obstacles@.len() ==> (#[trigger] final(w).obstacles@[k]).wf()
                && final(w).obstacles@[k].kind == Kind::Asteroid && final(w).obstacles@[k].radius >= 5,
        final(w).obstacles@.len() == old(w).obstacles@.len(),
        final(w).ship == old(w).ship,
        final(w).alive == old(w).alive,
        final(w).bullets@ == old(w).bullets@,
        final(w).score == old(w).score,
        final(w).fire_delay == old(w).fire_delay,
        final(w).spawn_phase == old(w).spawn_phase,
        final(w).spawn_count == old(w).spawn_count,
        final(w).width == old(w).width,
        final(w).height == old(w).height,
        forall|k: int|
            0 <= k < old(w).obstacles@.len() ==> obstacle_advanced(
                #[trigger] old(w).obstacles@[k],
                final(w).obstacles@[k],
                old(w).width as int,
                old(w).height as int,
            ),
        final(frame)@.len() >= old(frame)@.len(),
        final(frame)@.subrange(0, old(frame)@.len() as int) == old(frame)@,
        forall|k: int|
            0 <= k < final(w).obstacles@.len() ==> frame_shows(
                final(frame)@,
                old(frame)@.len() as int,
                #[trigger] final(w).obstacles@[k],
            ),
        forall|p: int| 0 <= p < final(frame)@.len() ==> (#[trigger] final(frame)@[p]).pts@.len()
            >= 3,
{
    let ghost mid = *w;
    let mut moved_obs: Vec<Entity> = Vec::new();
    proof {
        assert(w.obstacles@ =~= mid.obstacles@.skip(0));
    }
    while w.obstacles.len() > 0
        invariant
            w.ship == mid.ship,
            w.alive == mid.alive,
            w.score == mid.score,
            w.fire_delay == mid.fire_delay,
            w.spawn_phase == mid.spawn_phase,
            w.spawn_count == mid.spawn_count,
            w.width == mid.width,
            w.height == mid.height,
            w.bullets@ == mid.bullets@,
            UNIT <= w.width <= 0x4000_0000,
            UNIT <= w.height <= 0x4000_0000,
            forall|k: int|
                0 <= k < w.obstacles@.len() ==> (#[trigger] w.obstacles@[k]).wf()
                    && w.obstacles@[k].kind == Kind::Asteroid && w.obstacles@[k].radius >= 5,
            forall|k: int|
                0 <= k < moved_obs@.len() ==> (#[trigger] moved_obs@[k]).wf()
                    && moved_obs@[k].kind == Kind::Asteroid && moved_obs@[k].radius >= 5,
            moved_obs@.len() + w.obstacles@.len() == mid.obstacles@.len(),
            w.obstacles@ == mid.obstacles@.skip(moved_obs@.len() as int),
            forall|k: int|
                0 <= k < moved_obs@.len() ==> obstacle_advanced(
                    #[trigger] mid.obstacles@[k],
                    moved_obs@[k],
                    mid.width as int,
                    mid.height as int,
                ),
            forall|k: int|
                0 <= k < moved_obs@.len() ==> frame_shows(
                    frame@,
                    old(frame)@.len() as int,
                    #[trigger] moved_obs@[k],
                ),
            frame@.len() >= old(frame)@.len(),
            frame@.subrange(0, old(frame)@.len() as int) == old(frame)@,
            forall|p: int| 0 <= p < frame@.len() ==> (#[trigger] frame@[p]).pts@.len() >= 3,
        decreases w.obstacles@.len(),
    {
        let ghost c0 = moved_obs@.len() as int;
        let mut e = w.obstacles.remove(0);
        proof {
            assert(w.obstacles@ =~= mid.obstacles@.skip(c0 + 1));
            assert(e == mid.obstacles@[c0]);
        }
        if e.pos.x <= w.width - e.radius && e.pos.x >= e.radius && e.pos.y <= w.height - e.radius
            && e.pos.y >= e.radius {
            e.wrap_eligible = true;
        }
        move_obstacle(&mut e);
        let vts = vertices(&e);
        let mut ghosts = wrap_step(&mut e, &vts, w.width, w.height);
        while ghosts.len() > 0
            invariant
                forall|k: int| 0 <= k < ghosts@.len() ==> (#[trigger] ghosts@[k]).verts@.len() >= 3,
                frame@.len() >= old(frame)@.len(),
                frame@.subrange(0, old(frame)@.len() as int) == old(frame)@,
                forall|k: int|
                    0 <= k < moved_obs@.len() ==> frame_shows(
                        frame@,
                        old(frame)@.len() as int,
                        #[trigger] moved_obs@[k],
                    ),
                forall|p: int| 0 <= p < frame@.len() ==> (#[trigger] frame@[p]).pts@.len() >= 3,
            decreases ghosts@.len(),
        {
            let ghost pre_frame = frame@;
            let g = ghosts.pop().unwrap();
            frame.push(Polygon { pts: g.verts, color: g.color });
            proof {
                assert(frame@.subrange(0, old(frame)@.len() as int) =~= old(frame)@);
                assert forall|k: int|
                    0 <= k < moved_obs@.len() implies frame_shows(
                    frame@,
                    old(frame)@.len() as int,
                    #[trigger] moved_obs@[k],
                ) by {
                    assert(forall|p: int| 0 <= p < pre_frame.len() ==> frame@[p] == pre_frame[p]);
                    lemma_frame_shows_extend(
                        pre_frame,
                        frame@,
                        old(frame)@.len() as int,
                        moved_obs@[k],
                    );
                }
            }
        }
        let ev = vertices(&e);
        let ghost pre_frame2 = frame@;
        frame.push(Polygon { pts: ev, color: e.color });
        moved_obs.push(e);
        proof {
            assert(frame@.subrange(0, old(frame)@.len() as int) =~= old(frame)@);
            assert(poly_is_loop_of(frame@[frame@.len() - 1], e));
            assert(obstacle_advanced(mid.obstacles@[c0], e, mid.width as int, mid.height as int));
            assert forall|k: int|
                0 <= k < moved_obs@.len() implies frame_shows(
                frame@,
                old(frame)@.len() as int,
                #[trigger] moved_obs@[k],
            ) by {
                if k < moved_obs@.len() - 1 {
                    assert(forall|p: int| 0 <= p < pre_frame2.len() ==> frame@[p] == pre_frame2[p]);
                    lemma_frame_shows_extend(
                        pre_frame2,
                        frame@,
                        old(frame)@.len() as int,
                        moved_obs@[k],
                    );
                } else {
                    assert(moved_obs@[k] == e);
                    assert(frame_shows(frame@, old(frame)@.len() as int, e));
                }
            }
        }
    }
    w.obstacles = moved_obs;
    proof {
        assert(mid.obstacles@.skip(0) =~= mid.obstacles@);
    }
}

/// Move every bullet one tick: its speed is re-pinned to 0.6 of the ship's
/// current radius, it flies along its fixed heading, and is rendered.
fn bullets_phase(w: &mut World, frame: &mut Vec<Polygon>)
    requires
        old(w).ship.wf(),
        0 < old(w).ship.radius <= RADIUS_LIMIT,
        forall|k: int|
            0 <= k < old(w).bullets@.len() ==> (#[trigger] old(w).bullets@[k]).wf() && old(
                w,
            ).bullets@[k].kind == Kind::Bullet,
        forall|p: int| 0 <= p < old(frame)@.len() ==> (#[trigger] old(frame)@[p]).pts@.len() >= 3,
    ensures
        forall|k: int|
            0 <= k < final(w).bullets@.len() ==> (#[trigger] final(w).bullets@[k]).wf() && final(w).bullets@[k].kind
                == Kind::Bullet,
        final(w).bullets@.len() == old(w).bullets@.len(),
        final(w).ship == old(w).ship,
        final(w).alive == old(w).alive,
        final(w).obstacles@ == old(w).obstacles@,
        final(w).score == old(w).score,
        final(w).fire_delay == old(w).fire_delay,
        final(w).spawn_phase == old(w).spawn_phase,
        final(w).spawn_count == old(w).spawn_count,
        final(w).width == old(w).width,
        final(w).height == old(w).height,
        forall|k: int|
            0 <= k < old(w).bullets@.len() ==> bullet_advanced(
                #[trigger] old(w).bullets@[k],
                final(w).bullets@[k],
                old(w).ship.radius as int,
            ),
        final(frame)@.len() >= old(frame)@.len(),
        final(frame)@.subrange(0, old(frame)@.len() as int) == old(frame)@,
        forall|k: int|
            0 <= k < final(w).bullets@.len() ==> frame_shows(
                final(frame)@,
                old(frame)@.len() as int,
                #[trigger] final(w).bullets@[k],
            ),
        forall|p: int| 0 <= p < final(frame)@.len() ==> (#[trigger] final(frame)@[p]).pts@.len()
            >= 3,
{
    let ghost mid = *w;
    let mut moved_buls: Vec<Entity> = Vec::new();
    proof {
        assert(w.bullets@ =~= mid.bullets@.skip(0));
    }
    while w.bullets.len() > 0
        invariant
            w.ship == mid.ship,
            w.alive == mid.alive,
            w.score == mid.score,
            w.fire_delay == mid.fire_delay,
            w.spawn_phase == mid.spawn_phase,
            w.spawn_count == mid.spawn_count,
            w.width == mid.width,
            w.height == mid.height,
            w.obstacles@ == mid.obstacles@,
            mid.ship.wf(),
            0 < mid.ship.radius <= RADIUS_LIMIT,
            forall|k: int|
                0 <= k < w.bullets@.len() ==> (#[trigger] w.bullets@[k]).wf() && w.bullets@[k].kind
                    == Kind::Bullet,
            forall|k: int|
                0 <= k < moved_buls@.len() ==> (#[trigger] moved_buls@[k]).wf()
                    && moved_buls@[k].kind == Kind::Bullet,
            moved_buls@.len() + w.bullets@.len() == mid.bullets@.len(),
            w.bullets@ == mid.bullets@.skip(moved_buls@.len() as int),
            forall|k: int|
                0 <= k < moved_buls@.len() ==> bullet_advanced(
                    #[trigger] mid.bullets@[k],
                    moved_buls@[k],
                    mid.ship.radius as int,
                ),
            forall|k: int|
                0 <= k < moved_buls@.len() ==> frame_shows(
                    frame@,
                    old(frame)@.len() as int,
                    #[trigger] moved_buls@[k],
                ),
            frame@.len() >= old(frame)@.len(),
            frame@.subrange(0, old(frame)@.len() as int) == old(frame)@,
            forall|p: int| 0 <= p < frame@.len() ==> (#[trigger] frame@[p]).pts@.len() >= 3,
        decreases w.bullets@.len(),
    {
        let ghost c0 = moved_buls@.len() as int;
        let mut e = w.bullets.remove(0);
        proof {
            assert(w.bullets@ =~= mid.bullets@.skip(c0 + 1));
            assert(e == mid.bullets@[c0]);
        }
        move_bullet(&mut e, w.ship.radius);
        let ev = vertices(&e);
        let ghost pre_frame = frame@;
        frame.push(Polygon { pts: ev, color: e.color });
        moved_buls.push(e);
        proof {
            assert(frame@.subrange(0, old(frame)@.len() as int) =~= old(frame)@);
            assert(poly_is_loop_of(frame@[frame@.len() - 1], e));
            assert(bullet_advanced(mid.bullets@[c0], e, mid.ship.radius as int));
            assert forall|k: int|
                0 <= k < moved_buls@.len() implies frame_shows(
                frame@,
                old(frame)@.len() as int,
                #[trigger] moved_buls@[k],
            ) by {
                if k < moved_buls@.len() - 1 {
                    assert(forall|p: int| 0 <= p < pre_frame.len() ==> frame@[p] == pre_frame[p]);
                    lemma_frame_shows_extend(
                        pre_frame,
                        frame@,
                        old(frame)@.len() as int,
                        moved_buls@[k],
                    );
                } else {
                    assert(moved_buls@[k] == e);
                    assert(frame_shows(frame@, old(frame)@.len() as int, e));
                }
            }
        }
    }
    w.bullets = moved_buls;
    proof {
        assert(mid.bullets@.skip(0) =~= mid.bullets@);
    }
}

/// Resolve this tick's combat: the scan-ordered bullet-obstacle hit (score
/// and fragmentation), the ship-obstacle test (which only clears the alive
/// flag), then the cull of undersized obstacles.
fn combat_phase(w: &mut World)
    requires
        old(w).ship.wf(),
        old(w).ship.kind == Kind::Ship,
        UNIT <= old(w).ship.radius <= RADIUS_LIMIT,
        forall|k: int|
            0 <= k < old(w).obstacles@.len() ==> (#[trigger] old(w).obstacles@[k]).wf() && old(
                w,
            ).obstacles@[k].kind == Kind::Asteroid && old(w).obstacles@[k].radius >= 5,
        forall|k: int|
            0 <= k < old(w).bullets@.len() ==> (#[trigger] old(w).bullets@[k]).wf() && old(
                w,
            ).bullets@[k].kind == Kind::Bullet,
    ensures
        final(w).ship == old(w).ship,
        final(w).score >= old(w).score,
        old(w).bullets@.len() == 0 ==> final(w).score == old(w).score,
        final(w).bullets@.len() <= old(w).bullets@.len(),
        !any_hit(old(w).obstacles@, old(w).bullets@) ==> final(w).bullets@ == old(w).bullets@
            && final(w).score == old(w).score,
        forall|i: int, j: int|
            #[trigger] is_first_hit(old(w).obstacles@, old(w).bullets@, i, j)
                ==> final(w).bullets@ == old(w).bullets@.remove(j) && final(w).score
                == add_score_spec(old(w).score as int, old(w).obstacles@[i].radius as int),
        !old(w).alive ==> !final(w).alive,
        final(w).fire_delay == old(w).fire_delay,
        final(w).spawn_phase == old(w).spawn_phase,
        final(w).spawn_count == old(w).spawn_count,
        final(w).width == old(w).width,
        final(w).height == old(w).height,
        forall|k: int|
            0 <= k < final(w).obstacles@.len() ==> (#[trigger] final(w).obstacles@[k]).wf()
                && final(w).obstacles@[k].kind == Kind::Asteroid,
        forall|k: int|
            0 <= k < final(w).obstacles@.len() ==> 2 * (#[trigger] final(w).obstacles@[k]).radius
                > final(w).ship.radius,
        forall|k: int|
            0 <= k < final(w).bullets@.len() ==> (#[trigger] final(w).bullets@[k]).wf() && final(w).bullets@[k].kind
                == Kind::Bullet,
{
    let ghost pre_obs = w.obstacles@;
    let ghost pre_buls = w.bullets@;
    proof {
        if pre_buls.len() == 0 {
            assert(!any_hit(pre_obs, pre_buls));
        }
    }
    let ns = collide_step(&mut w.obstacles, &mut w.bullets, w.score);
    w.score = ns;
    if ship_hit(&w.obstacles, &w.ship) {
        w.alive = false;
    }
    let ghost pre_cull = w.obstacles@;
    cull(&mut w.obstacles, w.ship.radius);
    proof {
        assert forall|k: int|
            0 <= k < w.obstacles@.len() implies (#[trigger] w.obstacles@[k]).wf()
            && w.obstacles@[k].kind == Kind::Asteroid by {
            assert(pre_cull.contains(w.obstacles@[k]));
            let idx = choose|idx: int|
                0 <= idx < pre_cull.len() && pre_cull[idx] == w.obstacles@[k];
            assert(pre_cull[idx].wf());
        }
    }
}

/// Advance the simulation by one fixed tick from the held controls, and
/// return the frame: every polygon to draw, ghost duplicates included. The
/// sequence mirrors one pass of the game loop: debug controls, ship
/// steering and fire, ship wrap, stale-bullet removal, the periodic
/// spawner, obstacle motion and wrap, bullet motion, bullet-obstacle
/// collision, ship-obstacle collision, and the cull of undersized
/// obstacles.
pub fn tick(w: &mut World, c: Controls) -> (frame: Vec<Polygon>)
    requires
        old(w).wf(),
    ensures
        final(w).wf(),
        final(w).score >= old(w).score,
        final(w).width == old(w).width,
        final(w).height == old(w).height,
        final(w).ship.radius == debug_radius(old(w).ship.radius as int, c.grow, c.shrink),
        forall|k: int|
            0 <= k < final(w).obstacles@.len() ==> 2 * (#[trigger] final(w).obstacles@[k]).radius
                > final(w).ship.radius,
        !old(w).alive && !c.revive ==> !final(w).alive,
        final(w).spawn_phase == if old(w).spawn_phase == 59 {
            0
        } else {
            old(w).spawn_phase + 1
        },
        old(w).bullets@.len() == 0 && !(old(w).alive || c.revive) ==> final(w).score == old(
            w,
        ).score,
        final(w).bullets@.len() <= old(w).bullets@.len() + 1,
        old(w).alive || c.revive ==> frame@.len() >= 1,
        old(w).alive || c.revive ==> {
            &&& final(w).ship.speed == step_speed(
                old(w).ship.speed as int,
                c.thrust_forward,
                c.thrust_backward,
            )
            &&& final(w).ship.spin_rate == step_spin(
                old(w).ship.spin_rate as int,
                c.turn_left,
                c.turn_right,
            )
            &&& final(w).ship.rot == steered_rot(
                old(w).ship.rot as int,
                old(w).ship.spin_rate as int,
                c.turn_left,
                c.turn_right,
            )
            &&& final(w).ship.pos.x == steered_wrapped_x(
                (Entity {
                    radius: debug_radius(old(w).ship.radius as int, c.grow, c.shrink) as i64,
                    ..old(w).ship
                }),
                c,
                old(w).width as int,
            )
            &&& final(w).ship.pos.y == steered_wrapped_y(
                (Entity {
                    radius: debug_radius(old(w).ship.radius as int, c.grow, c.shrink) as i64,
                    ..old(w).ship
                }),
                c,
                old(w).height as int,
            )
            &&& final(w).fire_delay as int == if c.fire || old(w).fire_delay > 0 {
                (old(w).fire_delay as int + 1) % 15
            } else {
                old(w).fire_delay as int
            }
            &&& frame_shows(frame@, 0, final(w).ship)
        },
        !(old(w).alive || c.revive) ==> final(w).ship.pos == old(w).ship.pos && final(w).ship.rot
            == old(w).ship.rot && final(w).ship.speed == old(w).ship.speed
            && final(w).ship.spin_rate == old(w).ship.spin_rate && final(w).fire_delay == old(
            w,
        ).fire_delay,
        forall|p: int| 0 <= p < frame@.len() ==> (#[trigger] frame@[p]).pts@.len() >= 3,
{
    let mut frame: Vec<Polygon> = Vec::new();

    debug_controls(w, c);
    let ghost sd = w.ship;
    ship_phase(w, c, &mut frame);
    let ghost f1 = frame@;
    proof {
        if old(w).alive || c.revive {
            let lit = Entity {
                radius: debug_radius(old(w).ship.radius as int, c.grow, c.shrink) as i64,
                ..old(w).ship
            };
            assert(steered_rot(sd.rot as int, sd.spin_rate as int, c.turn_left, c.turn_right)
                == steered_rot(lit.rot as int, lit.spin_rate as int, c.turn_left, c.turn_right));
            assert(steered_mx(sd, c) == steered_mx(lit, c));
            assert(steered_my(sd, c) == steered_my(lit, c));
            assert(steered_wrapped_x(sd, c, w.width as int) == steered_wrapped_x(
                lit,
                c,
                w.width as int,
            ));
            assert(steered_wrapped_y(sd, c, w.height as int) == steered_wrapped_y(
                lit,
                c,
                w.height as int,
            ));
            assert(poly_is_loop_of(f1[f1.len() - 1], w.ship));
            assert(frame_shows(f1, 0, w.ship));
        }
    }

    // Only the oldest bullet is tested against the world bounds.
    if w.bullets.len() > 0 {
        let p = w.bullets[0].pos;
        if p.x < 0 || p.x > w.width || p.y < 0 || p.y > w.height {
            w.bullets.remove(0);
        }
    }

    // The periodic spawner: one obstacle every four phase wraps.
    if w.spawn_phase == 0 {
        w.spawn_count = w.spawn_count + 1;
        if w.spawn_count == 4 {
            let a = create_asteroid(w.width, w.height);
            w.obstacles.push(a);
            w.spawn_count = 0;
        }
    }

    let ghost ship2 = w.ship;
    obstacles_phase(w, &mut frame);
    proof {
        if old(w).alive || c.revive {
            lemma_frame_shows_extend(f1, frame@, 0, ship2);
        }
    }
    bullets_phase(w, &mut frame);
    proof {
        if old(w).alive || c.revive {
            lemma_frame_shows_extend(f1, frame@, 0, ship2);
        }
    }
    combat_phase(w);

    // Advance the tick phase.
    let np = w.spawn_phase + 1;
    w.spawn_phase = if np >= 60 {
        np - 60
    } else {
        np
    };

    frame
}

} // verus!
