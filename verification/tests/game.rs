use asteroids::collide::{collide_step, cull, ship_hit};
use asteroids::entity::{Entity, Kind, PolarVertex, Rgb};
use asteroids::geom::Pt;
use asteroids::sim::{tick, Controls, World};
use asteroids::spawn::{create_asteroid, fragment, gen_silhouette};
use asteroids::wrap::wrap_step;

const W: i64 = 600 * 1024;
const H: i64 = 600 * 1024;

fn white() -> Rgb {
    Rgb { r: 255, g: 255, b: 255 }
}

fn asteroid_at(x: i64, y: i64, radius: i64, speed: i64) -> Entity {
    Entity {
        pos: Pt { x, y },
        prev_pos: Pt { x, y },
        rot: 0,
        prev_rot: 0,
        speed,
        spin_rate: 0,
        spin: 0,
        silhouette: vec![
            PolarVertex { dist: radius, ang: 0 },
            PolarVertex { dist: radius / 2, ang: 1000 },
            PolarVertex { dist: radius / 2, ang: 2500 },
        ],
        color: white(),
        radius,
        kind: Kind::Asteroid,
        wrap_eligible: true,
    }
}

fn bullet_at(x: i64, y: i64) -> Entity {
    Entity {
        pos: Pt { x, y },
        prev_pos: Pt { x, y },
        rot: 0,
        prev_rot: 0,
        speed: 6 * 1024,
        spin_rate: 0,
        spin: 0,
        silhouette: Vec::new(),
        color: white(),
        radius: 2 * 1024,
        kind: Kind::Bullet,
        wrap_eligible: false,
    }
}

#[test]
fn spawner_ranges() {
    for _ in 0..8 {
        let a = create_asteroid(W, H);
        assert_eq!(a.kind, Kind::Asteroid);
        assert!(10 * 1024 <= a.radius && a.radius <= 80 * 1024);
        assert!(8 <= a.speed && a.speed <= 24);
        assert!(!a.wrap_eligible);
        assert!(a.pos.x <= 0 || a.pos.x >= W || a.pos.y <= 0 || a.pos.y >= H);
        assert!(3 <= a.silhouette.len() && a.silhouette.len() <= 64);
        for p in a.silhouette.iter() {
            assert!(7 * a.radius / 10 <= p.dist && p.dist <= a.radius);
            assert!(0 <= p.ang && p.ang < 4096);
        }
    }
}

#[test]
fn spawner_actually_samples() {
    // Eight spawns with all-equal radii would mean the sampler is constant.
    let radii: Vec<i64> = (0..8).map(|_| create_asteroid(W, H).radius).collect();
    assert!(radii.iter().any(|r| *r != radii[0]));
}

#[test]
fn silhouette_walks_a_full_turn() {
    let sil = gen_silhouette(40 * 1024);
    assert!(16 <= sil.len() && sil.len() <= 64);
    for w in sil.windows(2) {
        assert!(w[0].ang < w[1].ang);
    }
}

#[test]
fn fragmentation_splits_radius_exactly() {
    let parent = asteroid_at(300 * 1024, 300 * 1024, 40 * 1024, 16);
    let (a, b) = fragment(&parent);
    assert_eq!(a.radius + b.radius, parent.radius);
    assert!(2 * parent.radius / 5 <= b.radius && b.radius <= 3 * parent.radius / 5);
    assert!(a.speed >= parent.speed);
    assert!(b.speed >= parent.speed);
    assert!(a.wrap_eligible && b.wrap_eligible);
    assert_eq!(a.pos, parent.pos);
    assert_eq!(b.pos, parent.pos);
}

#[test]
fn collision_destroys_one_and_removes_bullet() {
    let mut obstacles = vec![asteroid_at(300 * 1024, 300 * 1024, 40 * 1024, 0)];
    let mut bullets = vec![bullet_at(300 * 1024, 300 * 1024)];
    let score = collide_step(&mut obstacles, &mut bullets, 0);
    assert_eq!(obstacles.len(), 2);
    assert_eq!(bullets.len(), 0);
    assert_eq!(score, 40);
}

#[test]
fn collision_scenario_center_shot() {
    // One obstacle of radius 40 at world center, zero velocity; one bullet
    // dead on it. After resolution: two fragments whose radii split the
    // parent's 40 exactly, no bullets, score 40.
    let mut obstacles = vec![asteroid_at(W / 2, H / 2, 40 * 1024, 0)];
    let mut bullets = vec![bullet_at(W / 2, H / 2)];
    let score = collide_step(&mut obstacles, &mut bullets, 0);
    assert_eq!(score, 40);
    assert_eq!(obstacles.len(), 2);
    assert!(bullets.is_empty());
    let total: i64 = obstacles.iter().map(|o| o.radius).sum();
    assert_eq!(total, 40 * 1024);
    assert!(obstacles[0].radius < 40 * 1024);
    assert!(obstacles[1].radius < 40 * 1024);
}

#[test]
fn collision_is_scan_ordered() {
    // Two obstacles over the same bullet: only the first in scan order is
    // destroyed this tick.
    let mut obstacles = vec![
        asteroid_at(300 * 1024, 300 * 1024, 40 * 1024, 0),
        asteroid_at(300 * 1024, 300 * 1024, 30 * 1024, 0),
    ];
    let mut bullets = vec![bullet_at(300 * 1024, 300 * 1024)];
    let score = collide_step(&mut obstacles, &mut bullets, 0);
    // The first obstacle (radius 40) was hit, not the second.
    assert_eq!(score, 40);
    assert_eq!(obstacles.len(), 3);
    assert_eq!(bullets.len(), 0);
    // The survivor of radius 30 is still there; no entity keeps radius 40.
    assert!(obstacles.iter().any(|o| o.radius == 30 * 1024));
    assert!(obstacles.iter().all(|o| o.radius != 40 * 1024));
}

#[test]
fn collision_misses_distant_bullet() {
    let mut obstacles = vec![asteroid_at(100 * 1024, 100 * 1024, 20 * 1024, 0)];
    let mut bullets = vec![bullet_at(500 * 1024, 500 * 1024)];
    let score = collide_step(&mut obstacles, &mut bullets, 7);
    assert_eq!(score, 7);
    assert_eq!(obstacles.len(), 1);
    assert_eq!(bullets.len(), 1);
}

#[test]
fn bullet_is_a_point_for_collision() {
    // Hit iff squared center distance is within the obstacle's squared
    // radius alone; the bullet's own radius buys nothing.
    let r: i64 = 20 * 1024;
    let mut obstacles = vec![asteroid_at(0, 0, r, 0)];
    let mut bullets = vec![bullet_at(r, 0)];
    let s = collide_step(&mut obstacles, &mut bullets, 0);
    assert_eq!(s, 20);
    let mut obstacles2 = vec![asteroid_at(0, 0, r, 0)];
    let mut bullets2 = vec![bullet_at(r + 1, 0)];
    let s2 = collide_step(&mut obstacles2, &mut bullets2, 0);
    assert_eq!(s2, 0);
    assert_eq!(bullets2.len(), 1);
}

#[test]
fn ship_collision_boundary() {
    let ship = Entity {
        pos: Pt { x: 0, y: 0 },
        prev_pos: Pt { x: 0, y: 0 },
        rot: 0,
        prev_rot: 0,
        speed: 0,
        spin_rate: 0,
        spin: 0,
        silhouette: Vec::new(),
        color: white(),
        radius: 10 * 1024,
        kind: Kind::Ship,
        wrap_eligible: true,
    };
    // 25·d² ≤ 16·(r₁+r₂)² at exactly d = 0.8·(r₁+r₂): 16384 = 4/5·20480.
    let on_edge = vec![asteroid_at(16384, 0, 10 * 1024, 0)];
    assert!(ship_hit(&on_edge, &ship));
    let past_edge = vec![asteroid_at(16385, 0, 10 * 1024, 0)];
    assert!(!ship_hit(&past_edge, &ship));
}

#[test]
fn cull_removes_at_or_below_half_ship_radius() {
    let ship_radius: i64 = 10 * 1024;
    let mut obstacles = vec![
        asteroid_at(0, 0, 5 * 1024, 0),       // exactly half: culled
        asteroid_at(0, 0, 5 * 1024 + 1, 0),   // just above half: kept
        asteroid_at(0, 0, 2 * 1024, 0),       // culled
        asteroid_at(0, 0, 40 * 1024, 0),      // kept
    ];
    cull(&mut obstacles, ship_radius);
    assert_eq!(obstacles.len(), 2);
    assert_eq!(obstacles[0].radius, 5 * 1024 + 1);
    assert_eq!(obstacles[1].radius, 40 * 1024);
}

#[test]
fn wrap_emits_ghost_before_crossing() {
    // A ship at x = 2 with radius 10 in a 600-wide world: the wrap check
    // emits a ghost copy shifted to x = 602 while no hard wrap happens.
    let mut w = World::new(W, H);
    w.ship.pos = Pt { x: 2 * 1024, y: 300 * 1024 };
    w.ship.prev_pos = w.ship.pos;
    let sv = asteroids::entity::vertices(&w.ship);
    let mut ship = w.ship;
    let ghosts = wrap_step(&mut ship, &sv, W, H);
    assert_eq!(ship.pos.x, 2 * 1024);
    assert_eq!(ghosts.len(), 1);
    assert_eq!(ghosts[0].dx, W);
    assert_eq!(ghosts[0].dy, 0);
    // Every ghost vertex is the ship's, shifted a world width right.
    for (g, s) in ghosts[0].verts.iter().zip(sv.iter()) {
        assert_eq!(g.x, s.x + W);
        assert_eq!(g.y, s.y);
    }
}

#[test]
fn wrap_hard_wraps_past_edge() {
    let mut w = World::new(W, H);
    w.ship.pos = Pt { x: W + 600, y: 300 * 1024 };
    w.ship.prev_pos = w.ship.pos;
    let sv = asteroids::entity::vertices(&w.ship);
    let mut ship = w.ship;
    let ghosts = wrap_step(&mut ship, &sv, W, H);
    assert_eq!(ship.pos.x, 600);
    assert!(0 <= ship.pos.x && ship.pos.x < W);
    // Near the right edge it also announced itself on the left.
    assert!(ghosts.iter().any(|g| g.dx == -W));
}

#[test]
fn wrap_ignores_ineligible_entities() {
    let mut a = asteroid_at(-5 * 1024, 300 * 1024, 20 * 1024, 8);
    a.wrap_eligible = false;
    let sv = asteroids::entity::vertices(&a);
    let ghosts = wrap_step(&mut a, &sv, W, H);
    assert!(ghosts.is_empty());
    assert_eq!(a.pos.x, -5 * 1024);
}

#[test]
fn thrust_reaches_full_speed_in_32_ticks() {
    // Hold thrust-forward 32 ticks: speed is exactly 1.0 (32/32), then
    // released it decays back to 0 within 32 more.
    let mut w = World::new(W, H);
    let mut c = Controls::none();
    c.thrust_forward = true;
    for _ in 0..32 {
        tick(&mut w, c);
    }
    assert_eq!(w.ship.speed, 32);
    let idle = Controls::none();
    for _ in 0..32 {
        tick(&mut w, idle);
    }
    assert_eq!(w.ship.speed, 0);
}

#[test]
fn fire_cooldown_cycles() {
    let mut w = World::new(W, H);
    let mut c = Controls::none();
    c.fire = true;
    tick(&mut w, c);
    assert_eq!(w.bullets.len(), 1);
    assert_eq!(w.fire_delay, 1);
    for _ in 0..14 {
        tick(&mut w, c);
    }
    // The cooldown wrapped: the 16th tick fires again.
    assert_eq!(w.fire_delay, 0);
    tick(&mut w, c);
    assert_eq!(w.bullets.len(), 2);
}

#[test]
fn debug_controls_change_world() {
    let mut w = World::new(W, H);
    let mut grow = Controls::none();
    grow.grow = true;
    tick(&mut w, grow);
    assert_eq!(w.ship.radius, 11 * 1024);
    let mut shrink = Controls::none();
    shrink.shrink = true;
    tick(&mut w, shrink);
    assert_eq!(w.ship.radius, 10 * 1024);
    let mut spawn = Controls::none();
    spawn.spawn_obstacle = true;
    tick(&mut w, spawn);
    assert!(w.obstacles.len() >= 1);
    let mut clear = Controls::none();
    clear.clear_obstacles = true;
    tick(&mut w, clear);
    assert_eq!(w.obstacles.len(), 0);
}

#[test]
fn dead_ship_ignores_controls_until_revived() {
    let mut w = World::new(W, H);
    w.alive = false;
    let mut c = Controls::none();
    c.thrust_forward = true;
    tick(&mut w, c);
    assert!(!w.alive);
    assert_eq!(w.ship.speed, 0);
    let mut revive = Controls::none();
    revive.revive = true;
    revive.thrust_forward = true;
    tick(&mut w, revive);
    assert!(w.alive);
    assert_eq!(w.ship.speed, 1);
}

#[test]
fn score_grows_only_through_hits() {
    let mut w = World::new(W, H);
    let idle = Controls::none();
    for _ in 0..10 {
        tick(&mut w, idle);
    }
    assert_eq!(w.score, 0);
    w.obstacles.push(asteroid_at(W / 2, 200 * 1024, 40 * 1024, 0));
    w.bullets.push(bullet_at(W / 2, 200 * 1024));
    tick(&mut w, idle);
    // One hit: exactly the obstacle's radius in world units, no more ticks
    // can lower it.
    assert_eq!(w.score, 40);
    let s = w.score;
    for _ in 0..5 {
        tick(&mut w, idle);
        assert!(w.score >= s);
    }
}

#[test]
fn spawner_runs_every_240_ticks() {
    let mut w = World::new(W, H);
    let idle = Controls::none();
    for _ in 0..181 {
        tick(&mut w, idle);
    }
    assert!(w.obstacles.len() >= 1);
}

#[test]
fn world_starts_centered() {
    let w = World::new(W, H);
    assert!(w.alive);
    assert_eq!(w.score, 0);
    assert_eq!(w.ship.pos.x, W / 2);
    assert_eq!(w.ship.pos.y, H / 2);
    assert_eq!(w.ship.radius, 10 * 1024);
    assert!(w.bullets.is_empty());
    assert!(w.obstacles.is_empty());
}

#[test]
fn frame_holds_ship_polygon_when_alive() {
    let mut w = World::new(W, H);
    let frame = tick(&mut w, Controls::none());
    assert_eq!(frame.len(), 1);
    assert_eq!(frame[0].pts.len(), 4);
    let mut dead = World::new(W, H);
    dead.alive = false;
    let empty_frame = tick(&mut dead, Controls::none());
    assert!(empty_frame.is_empty());
}

#[test]
fn tick_phase_wraps_at_sixty() {
    let mut w = World::new(W, H);
    let idle = Controls::none();
    for expected in 1..=59u8 {
        tick(&mut w, idle);
        assert_eq!(w.spawn_phase, expected);
    }
    tick(&mut w, idle);
    assert_eq!(w.spawn_phase, 0);
}

#[test]
fn stale_bullet_is_dropped_at_the_bounds() {
    let mut w = World::new(W, H);
    w.bullets.push(bullet_at(-1024, 300 * 1024));
    tick(&mut w, Controls::none());
    assert!(w.bullets.is_empty());
}

#[test]
fn fragments_inherit_color_and_position() {
    let mut parent = asteroid_at(200 * 1024, 150 * 1024, 30 * 1024, 12);
    parent.color = Rgb { r: 17, g: 34, b: 51 };
    let (a, b) = fragment(&parent);
    assert_eq!(a.color, parent.color);
    assert_eq!(b.color, parent.color);
    assert_eq!(a.pos, Pt { x: 200 * 1024, y: 150 * 1024 });
    assert_eq!(b.pos, a.pos);
}

#[test]
fn spawner_bands_and_inward_heading() {
    for _ in 0..12 {
        let a = create_asteroid(W, H);
        // Each coordinate sits in a half-playfield band outside an edge.
        assert!((-W / 2 <= a.pos.x && a.pos.x <= 0) || (W <= a.pos.x && a.pos.x <= W + W / 2));
        assert!((-H / 2 <= a.pos.y && a.pos.y <= 0) || (H <= a.pos.y && a.pos.y <= H + H / 2));
        // The heading is the arctangent toward the playfield center, so its
        // quadrant follows from which bands the spawn point landed in.
        let dx = W / 2 - a.pos.x;
        let dy = H / 2 - a.pos.y;
        if dx > 0 && dy > 0 {
            assert!(0 <= a.rot && a.rot <= 1024);
        } else if dx < 0 && dy > 0 {
            assert!(1024 <= a.rot && a.rot <= 2048);
        } else if dx < 0 && dy < 0 {
            assert!(2048 <= a.rot && a.rot <= 3072);
        } else if dx > 0 && dy < 0 {
            assert!(a.rot == 0 || (3072 <= a.rot && a.rot < 4096));
        }
        // Zero turn-rate and the spawner's white.
        assert_eq!(a.spin_rate, 0);
        assert_eq!(a.color, Rgb { r: 255, g: 255, b: 255 });
    }
}
