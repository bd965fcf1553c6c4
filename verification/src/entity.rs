use vstd::prelude::*;
use vstd::arithmetic::div_mod::{
    lemma_div_is_ordered, lemma_div_nonincreasing, lemma_div_pos_is_pos, lemma_small_mod,
};
use vstd::assert_seqs_equal;
use crate::geom::{
    clamp_spec, mdiv, mul_div, offset_pt, pt_in_bounds, translate_clamped, Pt, POS_LIMIT,
    RADIUS_LIMIT, SPEED_LIMIT,
};
use crate::trig::{add_angle, ang_norm, norm_angle, cos_spec, sin_spec, TURN};

verus! {

/// A color, as the render sink takes it.
#[derive(Clone, Copy, PartialEq, Eq, Structural, Debug)]
pub struct Rgb {
    pub r: u8,
    pub g: u8,
    pub b: u8,
}

/// The closed set of simulated entity kinds. Ghost duplicates for edge-wrap
/// rendering are not entities: they are the transient `GhostCopy` values the
/// wrap check emits.
#[derive(Clone, Copy, PartialEq, Eq, Structural, Debug)]
pub enum Kind {
    Ship,
    Bullet,
    Asteroid,
}

/// One silhouette vertex in polar form: radial distance from the entity's
/// center and absolute angle. Keeping the silhouette polar makes each
/// vertex's radial distance a constant of the shape by construction.
#[derive(Clone, Copy, PartialEq, Eq, Structural, Debug)]
pub struct PolarVertex {
    pub dist: i64,
    pub ang: i64,
}

/// Fixed aesthetic wing offset of the ship and bullet arrowheads,
/// 0.53 radians in angle units.
pub const WING_ANGLE: i64 = 345;

/// Every vertex lies within `radius` of the center, at a canonical angle.
pub open spec fn wf_silhouette(sil: Seq<PolarVertex>, radius: int) -> bool {
    forall|i: int|
        0 <= i < sil.len() ==> {
            &&& 0 <= (#[trigger] sil[i]).dist <= radius
            &&& 0 <= sil[i].ang < TURN
        }
}

/// The core simulated object.
pub struct Entity {
    /// Center this frame.
    pub pos: Pt,
    /// Center as of the prior frame.
    pub prev_pos: Pt,
    /// Heading angle this frame, canonical.
    pub rot: i64,
    /// Heading angle as of the prior frame.
    pub prev_rot: i64,
    /// Speed scalar; its unit depends on the kind.
    pub speed: i64,
    /// Turn-rate scalar of the ship, in 1/16ths.
    pub spin_rate: i64,
    /// Fixed per-instance angular drift of an asteroid's silhouette,
    /// assigned once at creation.
    pub spin: i64,
    /// Cached polygon silhouette (asteroids only).
    pub silhouette: Vec<PolarVertex>,
    pub color: Rgb,
    /// Visual size and collision radius, in sub-units.
    pub radius: i64,
    pub kind: Kind,
    /// Set once the entity has been fully inside the playfield; gates
    /// ghost rendering and hard wrapping.
    pub wrap_eligible: bool,
}

impl Entity {
    /// The internal invariant every live entity maintains.
    pub open spec fn wf(self) -> bool {
        &&& pt_in_bounds(self.pos)
        &&& pt_in_bounds(self.prev_pos)
        &&& 0 <= self.rot < TURN
        &&& 0 <= self.prev_rot < TURN
        &&& 0 < self.radius <= RADIUS_LIMIT
        &&& -32 <= self.spin <= 32
        &&& -16 <= self.spin_rate <= 16
        &&& wf_silhouette(self.silhouette@, self.radius as int)
        &&& match self.kind {
            Kind::Ship => -16 <= self.speed <= 32 && self.silhouette@.len() == 0,
            Kind::Bullet => 0 <= self.speed <= RADIUS_LIMIT && self.silhouette@.len() == 0,
            Kind::Asteroid => 0 <= self.speed <= SPEED_LIMIT && 3 <= self.silhouette@.len() <= 64,
        }
    }

    /// How many polygon vertices this entity renders with: 4 for the ship,
    /// 3 for a bullet, and an asteroid's count as fixed at first generation.
    pub open spec fn vertex_count(self) -> int {
        match self.kind {
            Kind::Ship => 4,
            Kind::Bullet => 3,
            Kind::Asteroid => self.silhouette@.len() as int,
        }
    }

    /// The polar offset (distance, angle) of render vertex `i`.
    pub open spec fn vertex_polar(self, i: int) -> (int, int) {
        match self.kind {
            Kind::Ship => if i == 0 {
                (self.radius as int, self.rot as int)
            } else if i == 1 {
                (self.radius as int, ang_norm(self.rot + 2048 + WING_ANGLE))
            } else if i == 2 {
                (self.radius as int / 4, ang_norm(self.rot + 2048))
            } else {
                (self.radius as int, ang_norm(self.rot + 2048 - WING_ANGLE))
            },
            Kind::Bullet => if i == 0 {
                (self.radius as int, self.rot as int)
            } else if i == 1 {
                (self.radius as int, ang_norm(self.rot + 2048 - WING_ANGLE))
            } else {
                (self.radius as int, ang_norm(self.rot + 2048 + WING_ANGLE))
            },
            Kind::Asteroid => (self.silhouette@[i].dist as int, self.silhouette@[i].ang as int),
        }
    }

    /// The model coordinates of render vertex `i`: the center offset by the
    /// vertex's polar coordinates.
    pub open spec fn vertex_x(self, i: int) -> int {
        self.pos.x + mdiv(self.vertex_polar(i).0, cos_spec(self.vertex_polar(i).1), 1024)
    }

    pub open spec fn vertex_y(self, i: int) -> int {
        self.pos.y + mdiv(self.vertex_polar(i).0, sin_spec(self.vertex_polar(i).1), 1024)
    }
}

/// Derive the renderable polygon of an entity: an ordered closed vertex loop
/// centered on its position and oriented by its rotation. The ship is a
/// 4-point arrow with a rear notch, a bullet the same arrow without the
/// notch, and an asteroid its cached polar silhouette projected from the
/// current center.
pub fn vertices(e: &Entity) -> (v: Vec<Pt>)
    requires
        e.wf(),
    ensures
        v@.len() == e.vertex_count(),
        forall|i: int|
            0 <= i < v@.len() ==> (#[trigger] v@[i]).x == e.vertex_x(i) && v@[i].y == e.vertex_y(i),
        forall|i: int| 0 <= i < v@.len() ==> crate::geom::vert_in_bounds(#[trigger] v@[i]),
{
    let mut v: Vec<Pt> = Vec::new();
    match e.kind {
        Kind::Ship => {
            let notch_dist = mul_div(e.radius, 1, 4);
            proof {
                lemma_div_pos_is_pos(e.radius as int, 4);
                lemma_div_nonincreasing(e.radius as int, 4);
                assert(e.radius as int * 1 == e.radius as int) by (nonlinear_arith);
            }
            v.push(offset_pt(e.pos, e.radius, e.rot));
            v.push(offset_pt(e.pos, e.radius, add_angle(e.rot, 2048 + WING_ANGLE)));
            v.push(offset_pt(e.pos, notch_dist, add_angle(e.rot, 2048)));
            v.push(offset_pt(e.pos, e.radius, add_angle(e.rot, 2048 - WING_ANGLE)));
        },
        Kind::Bullet => {
            v.push(offset_pt(e.pos, e.radius, e.rot));
            v.push(offset_pt(e.pos, e.radius, add_angle(e.rot, 2048 - WING_ANGLE)));
            v.push(offset_pt(e.pos, e.radius, add_angle(e.rot, 2048 + WING_ANGLE)));
        },
        Kind::Asteroid => {
            let n = e.silhouette.len();
            let mut i: usize = 0;
            while i < n
                invariant
                    e.wf(),
                    e.kind == Kind::Asteroid,
                    n == e.silhouette@.len(),
                    i <= n,
                    v@.len() == i,
                    forall|j: int|
                        0 <= j < i as int ==> (#[trigger] v@[j]).x == e.vertex_x(j) && v@[j].y
                            == e.vertex_y(j),
                    forall|j: int| 0 <= j < i as int ==> crate::geom::vert_in_bounds(#[trigger] v@[j]),
                decreases n - i,
            {
                let pv = e.silhouette[i];
                v.push(offset_pt(e.pos, pv.dist, pv.ang));
                i = i + 1;
            }
        },
    }
    v
}

/// Law: the vertex count of an entity never changes after creation. It
/// depends only on the kind — 4 for the ship, 3 for a bullet — and, for an
/// asteroid, on the silhouette length as fixed at first generation, which
/// no mutation of the entity's motion state alters.
pub proof fn lemma_vertex_count_by_kind(e: Entity, e2: Entity)
    requires
        e.kind == e2.kind,
        e.silhouette@.len() == e2.silhouette@.len(),
    ensures
        e.vertex_count() == e2.vertex_count(),
        e.kind == Kind::Ship ==> e.vertex_count() == 4,
        e.kind == Kind::Bullet ==> e.vertex_count() == 3,
        e.kind == Kind::Asteroid ==> e.vertex_count() == e.silhouette@.len(),
{
}

/// The silhouette after one frame's advance in the model: every distance
/// kept, every angle advanced by the rotation delta plus the spin.
pub open spec fn advance_polar(sil: Seq<PolarVertex>, delta: int, spin: int) -> Seq<PolarVertex> {
    Seq::new(
        sil.len(),
        |i: int| PolarVertex { dist: sil[i].dist, ang: ang_norm(sil[i].ang + delta + spin) as i64 },
    )
}

/// The silhouette after `n` such frames.
pub open spec fn advance_polar_n(sil: Seq<PolarVertex>, delta: int, spin: int, n: nat) -> Seq<
    PolarVertex,
>
    decreases n,
{
    if n == 0 {
        sil
    } else {
        advance_polar(advance_polar_n(sil, delta, spin, (n - 1) as nat), delta, spin)
    }
}

/// Law: across any number of frames, whatever the rotation delta and spin,
/// every silhouette vertex keeps its radial distance from the center.
pub proof fn lemma_radial_distance_invariant(sil: Seq<PolarVertex>, delta: int, spin: int, n: nat)
    ensures
        advance_polar_n(sil, delta, spin, n).len() == sil.len(),
        forall|i: int|
            0 <= i < sil.len() ==> (#[trigger] advance_polar_n(sil, delta, spin, n)[i]).dist
                == sil[i].dist,
    decreases n,
{
    if n > 0 {
        lemma_radial_distance_invariant(sil, delta, spin, (n - 1) as nat);
    }
}

/// Law: with zero rotation delta and zero spin, a well-formed silhouette is
/// exactly unchanged, across any number of frames.
pub proof fn lemma_static_silhouette_fixed(sil: Seq<PolarVertex>, radius: int, n: nat)
    requires
        wf_silhouette(sil, radius),
    ensures
        advance_polar_n(sil, 0, 0, n) == sil,
    decreases n,
{
    if n > 0 {
        lemma_static_silhouette_fixed(sil, radius, (n - 1) as nat);
        assert_seqs_equal!(advance_polar(sil, 0, 0) == sil, i => {
            assert(0 <= sil[i].ang < 4096);
            lemma_small_mod(sil[i].ang as nat, 4096);
        });
    }
}

/// Advance an asteroid's silhouette by this frame's rotation delta plus its
/// fixed spin; every radial distance is unchanged.
pub fn advance_silhouette(e: &mut Entity)
    requires
        old(e).wf(),
        old(e).kind == Kind::Asteroid,
    ensures
        final(e).wf(),
        final(e).silhouette@ == advance_polar(
            old(e).silhouette@,
            old(e).rot - old(e).prev_rot,
            old(e).spin as int,
        ),
        final(e).pos == old(e).pos,
        final(e).prev_pos == old(e).prev_pos,
        final(e).rot == old(e).rot,
        final(e).prev_rot == old(e).prev_rot,
        final(e).speed == old(e).speed,
        final(e).spin_rate == old(e).spin_rate,
        final(e).spin == old(e).spin,
        final(e).color == old(e).color,
        final(e).radius == old(e).radius,
        final(e).kind == old(e).kind,
        final(e).wrap_eligible == old(e).wrap_eligible,
{
    let ghost target = advance_polar(
        old(e).silhouette@,
        old(e).rot - old(e).prev_rot,
        old(e).spin as int,
    );
    let delta = e.rot - e.prev_rot;
    let n = e.silhouette.len();
    let mut i: usize = 0;
    while i < n
        invariant
            old(e).wf(),
            old(e).kind == Kind::Asteroid,
            delta == old(e).rot - old(e).prev_rot,
            target == advance_polar(old(e).silhouette@, delta as int, old(e).spin as int),
            n == old(e).silhouette@.len(),
            i <= n,
            e.silhouette@.len() == n,
            e.pos == old(e).pos,
            e.prev_pos == old(e).prev_pos,
            e.rot == old(e).rot,
            e.prev_rot == old(e).prev_rot,
            e.speed == old(e).speed,
            e.spin_rate == old(e).spin_rate,
            e.spin == old(e).spin,
            e.color == old(e).color,
            e.radius == old(e).radius,
            e.kind == old(e).kind,
            e.wrap_eligible == old(e).wrap_eligible,
            forall|j: int| 0 <= j < i as int ==> #[trigger] e.silhouette@[j] == target[j],
            forall|j: int|
                i as int <= j < n as int ==> #[trigger] e.silhouette@[j] == old(e).silhouette@[j],
        decreases n - i,
    {
        let pv = e.silhouette[i];
        let a1 = norm_angle(pv.ang + delta);
        let a2 = norm_angle(a1 + e.spin);
        proof {
            crate::trig::lemma_norm_cases(
                a2 as int,
                pv.ang + delta + e.spin,
            );
        }
        e.silhouette.set(i, PolarVertex { dist: pv.dist, ang: a2 });
        i = i + 1;
    }
    proof {
        assert_seqs_equal!(e.silhouette@ == target);
    }
}

/// The bullet the ship's fire action creates: spawned at the ship's nose,
/// aimed along its heading, a quarter of its radius, initial speed equal to
/// the ship's radius.
pub fn fire(ship: &Entity) -> (b: Entity)
    requires
        ship.wf(),
        ship.kind == Kind::Ship,
        ship.radius >= 4,
    ensures
        b.wf(),
        b.kind == Kind::Bullet,
        b.pos.x == clamp_spec(
            ship.pos.x + mdiv(ship.radius as int, cos_spec(ship.rot as int), 1024),
            -POS_LIMIT as int,
            POS_LIMIT as int,
        ),
        b.pos.y == clamp_spec(
            ship.pos.y + mdiv(ship.radius as int, sin_spec(ship.rot as int), 1024),
            -POS_LIMIT as int,
            POS_LIMIT as int,
        ),
        b.prev_pos == b.pos,
        b.rot == ship.rot,
        b.prev_rot == ship.rot,
        b.radius == ship.radius as int / 4,
        b.speed == ship.radius,
        b.color == ship.color,
        b.spin == 0,
        b.spin_rate == 0,
        b.wrap_eligible == false,
        b.silhouette@.len() == 0,
{
    let c = crate::trig::cos_fp(ship.rot);
    let s = crate::trig::sin_fp(ship.rot);
    let dx = mul_div(ship.radius, c, 1024);
    let dy = mul_div(ship.radius, s, 1024);
    proof {
        crate::geom::lemma_mdiv_abs(ship.radius as int, c as int, 1024, RADIUS_LIMIT as int, 1024);
        crate::geom::lemma_mdiv_abs(ship.radius as int, s as int, 1024, RADIUS_LIMIT as int, 1024);
    }
    let pos = translate_clamped(ship.pos, dx, dy);
    let radius = mul_div(ship.radius, 1, 4);
    proof {
        lemma_div_pos_is_pos(ship.radius as int, 4);
        lemma_div_nonincreasing(ship.radius as int, 4);
        lemma_div_is_ordered(4, ship.radius as int, 4);
        assert(ship.radius as int * 1 == ship.radius as int) by (nonlinear_arith);
        assert(ship.radius as int / 4 >= 1);
    }
    Entity {
        pos,
        prev_pos: pos,
        rot: ship.rot,
        prev_rot: ship.rot,
        speed: ship.radius,
        spin_rate: 0,
        spin: 0,
        silhouette: Vec::new(),
        color: ship.color,
        radius,
        kind: Kind::Bullet,
        wrap_eligible: false,
    }
}

} // verus!
