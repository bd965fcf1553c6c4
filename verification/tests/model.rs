use asteroids::entity::{fire, vertices, Entity, Kind, PolarVertex, Rgb};
use asteroids::geom::{dist_sq, div_pos, mul_div, Pt};
use asteroids::kinem::{move_bullet, move_obstacle, steer};
use asteroids::trig::{add_angle, atan2_fp, cos_fp, norm_angle, sin_fp};

fn white() -> Rgb {
    Rgb { r: 255, g: 255, b: 255 }
}

fn ship_at(x: i64, y: i64, rot: i64, radius: i64) -> Entity {
    Entity {
        pos: Pt { x, y },
        prev_pos: Pt { x, y },
        rot,
        prev_rot: rot,
        speed: 0,
        spin_rate: 0,
        spin: 0,
        silhouette: Vec::new(),
        color: white(),
        radius,
        kind: Kind::Ship,
        wrap_eligible: true,
    }
}

fn asteroid_at(x: i64, y: i64, radius: i64, speed: i64, spin: i64) -> Entity {
    Entity {
        pos: Pt { x, y },
        prev_pos: Pt { x, y },
        rot: 0,
        prev_rot: 0,
        speed,
        spin_rate: 0,
        spin,
        silhouette: vec![
            PolarVertex { dist: radius, ang: 0 },
            PolarVertex { dist: radius / 2, ang: 1000 },
            PolarVertex { dist: radius - 7, ang: 2500 },
        ],
        color: white(),
        radius,
        kind: Kind::Asteroid,
        wrap_eligible: true,
    }
}

#[test]
fn sine_exact_points() {
    assert_eq!(sin_fp(0), 0);
    assert_eq!(sin_fp(1024), 1024);
    assert_eq!(sin_fp(2048), 0);
    assert_eq!(sin_fp(3072), -1024);
    assert_eq!(cos_fp(0), 1024);
    assert_eq!(cos_fp(1024), 0);
    assert_eq!(cos_fp(2048), -1024);
    assert_eq!(cos_fp(3072), 0);
}

#[test]
fn sine_symmetry_and_range() {
    for a in 0..4096 {
        let s = sin_fp(a);
        assert!(-1024 <= s && s <= 1024);
        assert_eq!(sin_fp(norm_angle(a + 2048)), -s);
        assert_eq!(cos_fp(a), sin_fp(norm_angle(a + 1024)));
    }
}

#[test]
fn angle_normalization() {
    assert_eq!(norm_angle(-1), 4095);
    assert_eq!(norm_angle(4096), 0);
    assert_eq!(norm_angle(4095), 4095);
    assert_eq!(add_angle(4000, 200), 104);
}

#[test]
fn arctangent_axes() {
    assert_eq!(atan2_fp(0, 7), 0);
    assert_eq!(atan2_fp(7, 0), 1024);
    assert_eq!(atan2_fp(0, -7), 2048);
    assert_eq!(atan2_fp(-7, 0), 3072);
}

#[test]
fn arctangent_quadrants() {
    let a = atan2_fp(100, 100);
    assert!(0 < a && a < 1024);
    // 45 degrees is 512 units; the approximation is within a couple units.
    assert!((a - 512).abs() <= 4);
    let b = atan2_fp(100, -100);
    assert!(1024 < b && b < 2048);
    let c = atan2_fp(-100, -100);
    assert!(2048 < c && c < 3072);
    let d = atan2_fp(-100, 100);
    assert!(3072 < d && d < 4096);
}

#[test]
fn fixed_point_product_truncates_toward_zero() {
    assert_eq!(mul_div(7, 3, 2), 10);
    assert_eq!(mul_div(-7, 3, 2), -10);
    assert_eq!(mul_div(7, -3, 2), -10);
    assert_eq!(mul_div(-7, -3, 2), 10);
    assert_eq!(div_pos(9, 2), 4);
}

#[test]
fn squared_distance() {
    let a = Pt { x: 0, y: 0 };
    let b = Pt { x: 3, y: 4 };
    assert_eq!(dist_sq(a, b), 25);
    assert_eq!(dist_sq(b, b), 0);
}

#[test]
fn ship_renders_four_vertices() {
    let s = ship_at(300 * 1024, 300 * 1024, 0, 10 * 1024);
    let v = vertices(&s);
    assert_eq!(v.len(), 4);
    // The nose points along the heading: +x here.
    assert_eq!(v[0].x, 300 * 1024 + 10 * 1024);
    assert_eq!(v[0].y, 300 * 1024);
}

#[test]
fn bullet_renders_three_vertices() {
    let s = ship_at(300 * 1024, 300 * 1024, 0, 10 * 1024);
    let b = fire(&s);
    let v = vertices(&b);
    assert_eq!(v.len(), 3);
}

#[test]
fn asteroid_vertex_count_fixed_across_ticks() {
    let mut a = asteroid_at(300 * 1024, 300 * 1024, 10 * 1024, 16, 7);
    let n = vertices(&a).len();
    assert_eq!(n, 3);
    for _ in 0..100 {
        move_obstacle(&mut a);
        assert_eq!(vertices(&a).len(), n);
    }
}

#[test]
fn silhouette_radial_distance_invariant() {
    // Whatever the spin, every vertex keeps its radial distance.
    let mut a = asteroid_at(300 * 1024, 300 * 1024, 10 * 1024, 16, 13);
    let dists: Vec<i64> = a.silhouette.iter().map(|p| p.dist).collect();
    for _ in 0..200 {
        move_obstacle(&mut a);
        let now: Vec<i64> = a.silhouette.iter().map(|p| p.dist).collect();
        assert_eq!(now, dists);
    }
}

#[test]
fn silhouette_static_with_zero_spin() {
    // Zero rotation delta and zero spin: the silhouette is exactly frozen.
    let mut a = asteroid_at(300 * 1024, 300 * 1024, 10 * 1024, 16, 0);
    let before = a.silhouette.clone();
    for _ in 0..50 {
        move_obstacle(&mut a);
    }
    assert_eq!(a.silhouette, before);
}

#[test]
fn fire_spawns_at_nose() {
    let s = ship_at(300 * 1024, 300 * 1024, 0, 10 * 1024);
    let b = fire(&s);
    assert_eq!(b.kind, Kind::Bullet);
    assert_eq!(b.pos.x, 300 * 1024 + 10 * 1024);
    assert_eq!(b.pos.y, 300 * 1024);
    assert_eq!(b.radius, 10 * 1024 / 4);
    assert_eq!(b.speed, 10 * 1024);
    assert_eq!(b.rot, s.rot);
}

#[test]
fn bullet_moves_at_ship_scaled_speed() {
    let s = ship_at(300 * 1024, 300 * 1024, 0, 10 * 1024);
    let mut b = fire(&s);
    let x0 = b.pos.x;
    move_bullet(&mut b, s.radius);
    // Speed is re-pinned to 0.6 of the ship's radius, heading +x.
    assert_eq!(b.speed, 10 * 1024 * 3 / 5);
    assert_eq!(b.pos.x, x0 + 6 * 1024);
    assert_eq!(b.pos.y, 300 * 1024);
}

#[test]
fn obstacle_drifts_by_radius_and_speed() {
    let mut a = asteroid_at(300 * 1024, 300 * 1024, 10 * 1024, 32, 0);
    move_obstacle(&mut a);
    // radius/16 at full speed: 10240*32/512 = 640 sub-units along +x.
    assert_eq!(a.pos.x, 300 * 1024 + 640);
    assert_eq!(a.pos.y, 300 * 1024);
}

#[test]
fn steer_thrust_ladder_steps() {
    let mut s = ship_at(300 * 1024, 300 * 1024, 0, 10 * 1024);
    steer(&mut s, false, false, true, false);
    assert_eq!(s.speed, 1);
    steer(&mut s, false, false, true, false);
    assert_eq!(s.speed, 2);
    // Released: decay toward zero one step per tick.
    steer(&mut s, false, false, false, false);
    assert_eq!(s.speed, 1);
    steer(&mut s, false, false, false, false);
    assert_eq!(s.speed, 0);
    steer(&mut s, false, false, false, false);
    assert_eq!(s.speed, 0);
}

#[test]
fn steer_reversal_double_step() {
    let mut s = ship_at(300 * 1024, 300 * 1024, 0, 10 * 1024);
    steer(&mut s, false, false, true, false);
    assert_eq!(s.speed, 1);
    // Braking against forward motion: double step through zero.
    steer(&mut s, false, false, false, true);
    assert_eq!(s.speed, -1);
    steer(&mut s, false, false, false, true);
    assert_eq!(s.speed, -2);
}

#[test]
fn steer_backward_bound_is_half() {
    let mut s = ship_at(300 * 1024, 300 * 1024, 0, 10 * 1024);
    for _ in 0..40 {
        steer(&mut s, false, false, false, true);
    }
    // -0.5 in 1/32nds.
    assert_eq!(s.speed, -16);
}

#[test]
fn steer_spin_rate_bound() {
    let mut s = ship_at(300 * 1024, 300 * 1024, 0, 10 * 1024);
    for _ in 0..16 {
        steer(&mut s, true, false, false, false);
    }
    assert_eq!(s.spin_rate, -16);
    // Turning resumes oscillating at the bound, as holding the key does.
    steer(&mut s, true, false, false, false);
    assert_eq!(s.spin_rate, -15);
}

#[test]
fn steer_both_directions_decays() {
    let mut s = ship_at(300 * 1024, 300 * 1024, 0, 10 * 1024);
    steer(&mut s, true, false, false, false);
    assert_eq!(s.spin_rate, -1);
    steer(&mut s, true, true, false, false);
    assert_eq!(s.spin_rate, 0);
}
