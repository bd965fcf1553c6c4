use vstd::prelude::*;
use crate::entity::{Entity, Rgb};
use crate::geom::{vert_in_bounds, Pt, UNIT};

verus! {

/// A transient duplicate emitted while an entity straddles a world edge: the
/// entity's polygon shifted by a whole world dimension, rendered and then
/// discarded within the same tick. It carries no simulation state.
pub struct GhostCopy {
    /// World-size shift from the entity to the duplicate.
    pub dx: i64,
    pub dy: i64,
    /// The entity's vertex loop, shifted by `(dx, dy)`.
    pub verts: Vec<Pt>,
    pub color: Rgb,
}

/// Within `radius` of the left playfield edge.
pub open spec fn near_left(e: Entity) -> bool {
    e.pos.x <= e.radius
}

/// Within `radius` of the right playfield edge.
pub open spec fn near_right(e: Entity, w: int) -> bool {
    e.pos.x >= w - e.radius
}

/// Within `radius` of the top playfield edge.
pub open spec fn near_top(e: Entity) -> bool {
    e.pos.y <= e.radius
}

/// Within `radius` of the bottom playfield edge.
pub open spec fn near_bottom(e: Entity, h: int) -> bool {
    e.pos.y >= h - e.radius
}

/// The ghost shifts a wrap check emits, in emission order: one
/// mirrored copy per nearby edge, then the diagonal copy for each nearby
/// corner. Entities not yet wrap-eligible emit none.
pub open spec fn ghost_offsets(e: Entity, w: i64, h: i64) -> Seq<(i64, i64)> {
    if !e.wrap_eligible {
        Seq::empty()
    } else {
        let s0 = Seq::<(i64, i64)>::empty();
        let s1 = if near_left(e) {
            s0.push((w, 0))
        } else {
            s0
        };
        let s2 = if near_right(e, w as int) {
            s1.push(((-w) as i64, 0))
        } else {
            s1
        };
        let s3 = if near_top(e) {
            s2.push((0, h))
        } else {
            s2
        };
        let s4 = if near_bottom(e, h as int) {
            s3.push((0, (-h) as i64))
        } else {
            s3
        };
        let s5 = if near_left(e) && near_top(e) {
            s4.push((w, h))
        } else {
            s4
        };
        let s6 = if near_left(e) && near_bottom(e, h as int) {
            s5.push((w, (-h) as i64))
        } else {
            s5
        };
        let s7 = if near_right(e, w as int) && near_top(e) {
            s6.push(((-w) as i64, h))
        } else {
            s6
        };
        if near_right(e, w as int) && near_bottom(e, h as int) {
            s7.push(((-w) as i64, (-h) as i64))
        } else {
            s7
        }
    }
}

/// Hard wrap of one coordinate: once the center has fully crossed an edge it
/// reappears one world dimension away on the opposite side.
pub open spec fn wrap_coord(x: int, w: int) -> int {
    if x < 0 {
        x + w
    } else if x >= w {
        x - w
    } else {
        x
    }
}

/// Shift a vertex loop by a fixed offset.
fn translate_poly(verts: &Vec<Pt>, dx: i64, dy: i64) -> (r: Vec<Pt>)
    requires
        forall|j: int| 0 <= j < verts@.len() ==> vert_in_bounds(#[trigger] verts@[j]),
        -0x4000_0000 <= dx <= 0x4000_0000,
        -0x4000_0000 <= dy <= 0x4000_0000,
    ensures
        r@.len() == verts@.len(),
        forall|j: int|
            0 <= j < verts@.len() ==> (#[trigger] r@[j]).x == verts@[j].x + dx && r@[j].y
                == verts@[j].y + dy,
{
    let n = verts.len();
    let mut r: Vec<Pt> = Vec::new();
    let mut j: usize = 0;
    while j < n
        invariant
            n == verts@.len(),
            j <= n,
            r@.len() == j,
            forall|k: int| 0 <= k < verts@.len() ==> vert_in_bounds(#[trigger] verts@[k]),
            -0x4000_0000 <= dx <= 0x4000_0000,
            -0x4000_0000 <= dy <= 0x4000_0000,
            forall|k: int|
                0 <= k < j as int ==> (#[trigger] r@[k]).x == verts@[k].x + dx && r@[k].y
                    == verts@[k].y + dy,
        decreases n - j,
    {
        let p = verts[j];
        r.push(Pt { x: p.x + dx, y: p.y + dy });
        j = j + 1;
    }
    r
}

/// The two-stage toroidal boundary step for one entity. First, while the
/// entity is within `radius` of an edge, emit ghost duplicates mirrored one
/// world dimension away (so the entity is already visible on the opposite
/// side before it crosses). Second, once the center has fully crossed an
/// edge, hard-wrap the position so the entity reappears from the opposite
/// side. Only wrap-eligible entities take part.
pub fn wrap_step(e: &mut Entity, verts: &Vec<Pt>, w: i64, h: i64) -> (g: Vec<GhostCopy>)
    requires
        old(e).wf(),
        UNIT <= w <= 0x4000_0000,
        UNIT <= h <= 0x4000_0000,
        forall|j: int| 0 <= j < verts@.len() ==> vert_in_bounds(#[trigger] verts@[j]),
    ensures
        final(e).wf(),
        final(e).pos.x == if old(e).wrap_eligible {
            wrap_coord(old(e).pos.x as int, w as int)
        } else {
            old(e).pos.x as int
        },
        final(e).pos.y == if old(e).wrap_eligible {
            wrap_coord(old(e).pos.y as int, h as int)
        } else {
            old(e).pos.y as int
        },
        final(e).prev_pos == old(e).prev_pos,
        final(e).rot == old(e).rot,
        final(e).prev_rot == old(e).prev_rot,
        final(e).speed == old(e).speed,
        final(e).spin_rate == old(e).spin_rate,
        final(e).spin == old(e).spin,
        final(e).color == old(e).color,
        final(e).radius == old(e).radius,
        final(e).kind == old(e).kind,
        final(e).wrap_eligible == old(e).wrap_eligible,
        final(e).silhouette@ == old(e).silhouette@,
        g@.len() == ghost_offsets(*old(e), w, h).len(),
        forall|i: int|
            0 <= i < g@.len() ==> ((#[trigger] g@[i]).dx, g@[i].dy) == ghost_offsets(
                *old(e),
                w,
                h,
            )[i],
        forall|i: int| 0 <= i < g@.len() ==> (#[trigger] g@[i]).color == old(e).color,
        forall|i: int| 0 <= i < g@.len() ==> (#[trigger] g@[i]).verts@.len() == verts@.len(),
        forall|i: int, j: int|
            0 <= i < g@.len() && 0 <= j < verts@.len() ==> (#[trigger] g@[i].verts@[j]).x
                == verts@[j].x + g@[i].dx && g@[i].verts@[j].y == verts@[j].y + g@[i].dy,
{
    let mut g: Vec<GhostCopy> = Vec::new();
    if !e.wrap_eligible {
        return g;
    }
    let l = e.pos.x <= e.radius;
    let r = e.pos.x >= w - e.radius;
    let t = e.pos.y <= e.radius;
    let b = e.pos.y >= h - e.radius;
    if l {
        g.push(GhostCopy { dx: w, dy: 0, verts: translate_poly(verts, w, 0), color: e.color });
    }
    if r {
        g.push(GhostCopy { dx: -w, dy: 0, verts: translate_poly(verts, -w, 0), color: e.color });
    }
    if t {
        g.push(GhostCopy { dx: 0, dy: h, verts: translate_poly(verts, 0, h), color: e.color });
    }
    if b {
        g.push(GhostCopy { dx: 0, dy: -h, verts: translate_poly(verts, 0, -h), color: e.color });
    }
    if l && t {
        g.push(GhostCopy { dx: w, dy: h, verts: translate_poly(verts, w, h), color: e.color });
    }
    if l && b {
        g.push(GhostCopy { dx: w, dy: -h, verts: translate_poly(verts, w, -h), color: e.color });
    }
    if r && t {
        g.push(GhostCopy { dx: -w, dy: h, verts: translate_poly(verts, -w, h), color: e.color });
    }
    if r && b {
        g.push(GhostCopy { dx: -w, dy: -h, verts: translate_poly(verts, -w, -h), color: e.color });
    }
    if e.pos.x < 0 {
        e.pos.x = e.pos.x + w;
    } else if e.pos.x >= w {
        e.pos.x = e.pos.x - w;
    }
    if e.pos.y < 0 {
        e.pos.y = e.pos.y + h;
    } else if e.pos.y >= h {
        e.pos.y = e.pos.y - h;
    }
    g
}

/// Law: toroidal wrap is seamless. For a wrap-eligible entity whose center
/// is within one world width of the playfield, the hard-wrapped x coordinate
/// lands in `[0, w)`; and while the entity is still within `radius` of the
/// right edge (as in the tick just before crossing `x = w`), the wrap check
/// emits a ghost shifted to the opposite side, `(-w, 0)` — symmetrically
/// `(w, 0)` at the left edge.
pub proof fn lemma_wrap_seamless(e: Entity, w: i64, h: i64)
    requires
        e.wf(),
        e.wrap_eligible,
        UNIT <= w,
        UNIT <= h,
        -w <= e.pos.x < 2 * w,
    ensures
        0 <= wrap_coord(e.pos.x as int, w as int) < w,
        0 <= e.pos.x < w ==> wrap_coord(e.pos.x as int, w as int) == e.pos.x,
        0 <= e.pos.y < h ==> wrap_coord(e.pos.y as int, h as int) == e.pos.y,
        near_right(e, w as int) ==> ghost_offsets(e, w, h).contains((((-w) as i64), 0)),
        near_left(e) ==> ghost_offsets(e, w, h).contains((w, 0)),
{
    let offs = ghost_offsets(e, w, h);
    if near_left(e) {
        assert(offs[0] == (w, 0int as i64));
        assert(offs.contains((w, 0int as i64)));
    }
    if near_right(e, w as int) {
        let i = if near_left(e) { 1int } else { 0int };
        assert(offs[i] == (((-w) as i64), 0int as i64));
        assert(offs.contains((((-w) as i64), 0int as i64)));
    }
}

} // verus!
