use vstd::prelude::*;
use vstd::arithmetic::div_mod::{lemma_div_nonincreasing, lemma_div_pos_is_pos};
use crate::entity::{Entity, Kind};
use crate::geom::{dist_sq, dist_sq_spec, div_pos};
use crate::spawn::{frag_pair, fragment};

verus! {

/// A bullet overlaps an obstacle when the squared center distance is within
/// the obstacle's squared radius alone: the bullet is treated as a point,
/// its own radius is not part of the sum.
pub open spec fn bullet_hits(o: Entity, b: Entity) -> bool {
    dist_sq_spec(o.pos, b.pos) <= o.radius * o.radius
}

/// Some obstacle/bullet pair overlaps.
pub open spec fn any_hit(obs: Seq<Entity>, buls: Seq<Entity>) -> bool {
    exists|i: int, j: int|
        0 <= i < obs.len() && 0 <= j < buls.len() && #[trigger] bullet_hits(obs[i], buls[j])
}

/// `(i, j)` is the first overlapping pair in scan order: obstacles
/// outermost, bullets innermost.
pub open spec fn is_first_hit(obs: Seq<Entity>, buls: Seq<Entity>, i: int, j: int) -> bool {
    &&& 0 <= i < obs.len()
    &&& 0 <= j < buls.len()
    &&& bullet_hits(obs[i], buls[j])
    &&& forall|i2: int, j2: int|
        0 <= i2 < i && 0 <= j2 < buls.len() ==> !(#[trigger] bullet_hits(obs[i2], buls[j2]))
    &&& forall|j2: int| 0 <= j2 < j ==> !(#[trigger] bullet_hits(obs[i], buls[j2]))
}

/// Law: the scan-ordered first hit is unique, so ties among simultaneous
/// overlaps are broken deterministically by encounter order.
pub proof fn lemma_first_hit_unique(
    obs: Seq<Entity>,
    buls: Seq<Entity>,
    i1: int,
    j1: int,
    i2: int,
    j2: int,
)
    requires
        is_first_hit(obs, buls, i1, j1),
        is_first_hit(obs, buls, i2, j2),
    ensures
        i1 == i2,
        j1 == j2,
{
    if i1 < i2 {
        assert(!bullet_hits(obs[i1], buls[j1]));
    } else if i2 < i1 {
        assert(!bullet_hits(obs[i2], buls[j2]));
    } else {
        if j1 < j2 {
            assert(!bullet_hits(obs[i2], buls[j1]));
        } else if j2 < j1 {
            assert(!bullet_hits(obs[i1], buls[j2]));
        }
    }
}

/// Law: collision is symmetric in effect but scan-ordered in resolution.
/// When a second obstacle `k` overlaps the same bullet as the first hit
/// `(i, j)`, only `i` is the resolved hit, and obstacle `k` survives the
/// compaction, shifted one slot down.
pub proof fn lemma_scan_order_resolution(
    obs: Seq<Entity>,
    buls: Seq<Entity>,
    i: int,
    j: int,
    k: int,
)
    requires
        is_first_hit(obs, buls, i, j),
        i < k < obs.len(),
        bullet_hits(obs[k], buls[j]),
    ensures
        obs.remove(i)[k - 1] == obs[k],
        forall|j2: int| !is_first_hit(obs, buls, k, j2),
{
    assert forall|j2: int| !is_first_hit(obs, buls, k, j2) by {
        if is_first_hit(obs, buls, k, j2) {
            lemma_first_hit_unique(obs, buls, i, j, k, j2);
        }
    }
}

/// Law: fragmentation conserves counts. Resolving one bullet-obstacle hit
/// replaces the one destroyed obstacle by exactly two children and removes
/// exactly one bullet.
pub proof fn lemma_fragment_counts(
    obs: Seq<Entity>,
    buls: Seq<Entity>,
    i: int,
    j: int,
    a: Entity,
    b: Entity,
)
    requires
        0 <= i < obs.len(),
        0 <= j < buls.len(),
    ensures
        obs.remove(i).push(a).push(b).len() == obs.len() + 1,
        buls.remove(j).len() == buls.len() - 1,
{
}

/// Saturating score accrual: the destroyed obstacle's radius in whole world
/// units, added to the running score.
pub open spec fn add_score_spec(score: int, radius: int) -> int {
    if score + radius / 1024 <= 0xFFFF_FFFF_FFFF_FFFF {
        score + radius / 1024
    } else {
        0xFFFF_FFFF_FFFF_FFFF
    }
}

/// Law: the score only ever increases, and a bullet-obstacle hit raises it
/// by exactly the destroyed obstacle's radius truncated to whole world
/// units, as long as the counter has room. Ship-obstacle collisions do not
/// touch the score: `ship_hit` returns only a flag.
pub proof fn lemma_score_monotone(score: int, radius: int)
    requires
        0 <= score <= 0xFFFF_FFFF_FFFF_FFFF,
        0 <= radius,
    ensures
        add_score_spec(score, radius) >= score,
        score + radius / 1024 <= 0xFFFF_FFFF_FFFF_FFFF ==> add_score_spec(score, radius) == score
            + radius / 1024,
{
    lemma_div_pos_is_pos(radius, 1024);
}

fn find_hit(obs: &Vec<Entity>, buls: &Vec<Entity>) -> (r: Option<(usize, usize)>)
    requires
        forall|i: int| 0 <= i < obs@.len() ==> (#[trigger] obs@[i]).wf(),
        forall|j: int| 0 <= j < buls@.len() ==> (#[trigger] buls@[j]).wf(),
    ensures
        match r {
            Some(p) => is_first_hit(obs@, buls@, p.0 as int, p.1 as int),
            None => !any_hit(obs@, buls@),
        },
{
    let mut i: usize = 0;
    while i < obs.len()
        invariant
            forall|i2: int| 0 <= i2 < obs@.len() ==> (#[trigger] obs@[i2]).wf(),
            forall|j2: int| 0 <= j2 < buls@.len() ==> (#[trigger] buls@[j2]).wf(),
            i <= obs@.len(),
            forall|i2: int, j2: int|
                0 <= i2 < i as int && 0 <= j2 < buls@.len() ==> !(#[trigger] bullet_hits(
                    obs@[i2],
                    buls@[j2],
                )),
        decreases obs@.len() - i,
    {
        let mut j: usize = 0;
        while j < buls.len()
            invariant
                forall|i2: int| 0 <= i2 < obs@.len() ==> (#[trigger] obs@[i2]).wf(),
                forall|j2: int| 0 <= j2 < buls@.len() ==> (#[trigger] buls@[j2]).wf(),
                i < obs@.len(),
                j <= buls@.len(),
                forall|i2: int, j2: int|
                    0 <= i2 < i as int && 0 <= j2 < buls@.len() ==> !(#[trigger] bullet_hits(
                        obs@[i2],
                        buls@[j2],
                    )),
                forall|j2: int|
                    0 <= j2 < j as int ==> !(#[trigger] bullet_hits(obs@[i as int], buls@[j2])),
            decreases buls@.len() - j,
        {
            let d = dist_sq(obs[i].pos, buls[j].pos);
            let rr = obs[i].radius;
            proof {
                assert(0 <= (rr as int) * (rr as int) < 0x1_0000_0000_0000_0000) by (nonlinear_arith)
                    requires
                        0 < rr as int <= 0x100_0000,
                ;
            }
            if d <= (rr as i128) * (rr as i128) {
                return Some((i, j));
            }
            j = j + 1;
        }
        i = i + 1;
    }
    None
}

/// One bullet-obstacle resolution pass. The first overlapping pair in scan
/// order — and only it — is resolved: the obstacle's radius in whole world
/// units is added to the score, the obstacle is replaced by its two
/// fragments, and the consumed bullet is removed. With no overlap, nothing
/// changes.
pub fn collide_step(obstacles: &mut Vec<Entity>, bullets: &mut Vec<Entity>, score: u64) -> (new_score:
    u64)
    requires
        forall|i: int|
            0 <= i < old(obstacles)@.len() ==> (#[trigger] old(obstacles)@[i]).wf()
                && old(obstacles)@[i].kind == Kind::Asteroid && old(obstacles)@[i].radius >= 5,
        forall|j: int|
            0 <= j < old(bullets)@.len() ==> (#[trigger] old(bullets)@[j]).wf()
                && old(bullets)@[j].kind == Kind::Bullet,
    ensures
        !any_hit(old(obstacles)@, old(bullets)@) ==> final(obstacles)@ == old(obstacles)@
            && final(bullets)@ == old(bullets)@ && new_score == score,
        forall|i: int, j: int|
            #[trigger] is_first_hit(old(obstacles)@, old(bullets)@, i, j) ==> {
                &&& final(bullets)@ == old(bullets)@.remove(j)
                &&& final(obstacles)@.len() == old(obstacles)@.len() + 1
                &&& new_score == add_score_spec(score as int, old(obstacles)@[i].radius as int)
                &&& exists|a: Entity, b: Entity|
                    #[trigger] frag_pair(old(obstacles)@[i], a, b)
                        && final(obstacles)@ == old(obstacles)@.remove(i).push(a).push(b)
            },
        new_score >= score,
        forall|k: int|
            0 <= k < final(obstacles)@.len() ==> (#[trigger] final(obstacles)@[k]).wf()
                && final(obstacles)@[k].kind == Kind::Asteroid,
        forall|k: int|
            0 <= k < final(bullets)@.len() ==> (#[trigger] final(bullets)@[k]).wf()
                && final(bullets)@[k].kind == Kind::Bullet,
        final(bullets)@.len() <= old(bullets)@.len(),
{
    let hit = find_hit(obstacles, bullets);
    match hit {
        None => {
            proof {
                assert forall|i: int, j: int|
                    !is_first_hit(old(obstacles)@, old(bullets)@, i, j) by {
                    if is_first_hit(old(obstacles)@, old(bullets)@, i, j) {
                        assert(any_hit(old(obstacles)@, old(bullets)@));
                    }
                }
            }
            score
        },
        Some((hi, hj)) => {
            let parent = obstacles.remove(hi);
            let ru = div_pos(parent.radius, 1024);
            proof {
                lemma_div_nonincreasing(parent.radius as int, 1024);
            }
            let ruu: u64 = ru as u64;
            let new_score = if score <= u64::MAX - ruu {
                score + ruu
            } else {
                u64::MAX
            };
            let (a, b) = fragment(&parent);
            let ghost ga = a;
            let ghost gb = b;
            obstacles.push(a);
            obstacles.push(b);
            bullets.remove(hj);
            proof {
                assert forall|i: int, j: int|
                    #[trigger] is_first_hit(old(obstacles)@, old(bullets)@, i, j) implies {
                    &&& bullets@ == old(bullets)@.remove(j)
                    &&& obstacles@.len() == old(obstacles)@.len() + 1
                    &&& new_score == add_score_spec(score as int, old(obstacles)@[i].radius as int)
                    &&& exists|x: Entity, y: Entity|
                        #[trigger] frag_pair(old(obstacles)@[i], x, y)
                        && obstacles@ == old(obstacles)@.remove(i).push(x).push(y)
                } by {
                    lemma_first_hit_unique(
                        old(obstacles)@,
                        old(bullets)@,
                        i,
                        j,
                        hi as int,
                        hj as int,
                    );
                    assert(frag_pair(old(obstacles)@[i], ga, gb));
                    assert(obstacles@ == old(obstacles)@.remove(i).push(ga).push(gb));
                }
            }
            new_score
        },
    }
}

/// The ship-obstacle overlap test: squared center distance against the
/// radius sum, both radii taken at 80% — exactly the comparison
/// `d² ≤ (0.8·(r₁ + r₂))²`, cleared of fractions.
pub open spec fn ship_overlap(o: Entity, ship: Entity) -> bool {
    25 * dist_sq_spec(o.pos, ship.pos) <= 16 * ((o.radius + ship.radius) * (o.radius
        + ship.radius))
}

/// Whether any obstacle currently overlaps the ship. A hit only flags the
/// ship as destroyed; there is no fragmentation and no score.
pub fn ship_hit(obstacles: &Vec<Entity>, ship: &Entity) -> (r: bool)
    requires
        forall|i: int| 0 <= i < obstacles@.len() ==> (#[trigger] obstacles@[i]).wf(),
        ship.wf(),
    ensures
        r == exists|i: int|
            0 <= i < obstacles@.len() && #[trigger] ship_overlap(obstacles@[i], *ship),
{
    let mut i: usize = 0;
    while i < obstacles.len()
        invariant
            forall|i2: int| 0 <= i2 < obstacles@.len() ==> (#[trigger] obstacles@[i2]).wf(),
            ship.wf(),
            i <= obstacles@.len(),
            forall|i2: int| 0 <= i2 < i as int ==> !(#[trigger] ship_overlap(obstacles@[i2], *ship)),
        decreases obstacles@.len() - i,
    {
        let d = dist_sq(obstacles[i].pos, ship.pos);
        let sum = obstacles[i].radius + ship.radius;
        proof {
            assert(0 <= (sum as int) * (sum as int) <= 0x4_0000_0000_0000) by (nonlinear_arith)
                requires
                    0 < sum as int <= 0x200_0000,
            ;
        }
        if 25 * d <= 16 * ((sum as i128) * (sum as i128)) {
            proof {
                assert(ship_overlap(obstacles@[i as int], *ship));
            }
            return true;
        }
        i = i + 1;
    }
    false
}

proof fn lemma_filter_members(s: Seq<Entity>, pred: spec_fn(Entity) -> bool)
    ensures
        forall|k: int|
            0 <= k < s.filter(pred).len() ==> s.contains(#[trigger] s.filter(pred)[k]),
    decreases s.len(),
{
    reveal(Seq::filter);
    if s.len() != 0 {
        lemma_filter_members(s.drop_last(), pred);
        assert forall|k: int|
            0 <= k < s.filter(pred).len() implies s.contains(#[trigger] s.filter(pred)[k]) by {
            if k < s.drop_last().filter(pred).len() {
                assert(s.drop_last().contains(s.drop_last().filter(pred)[k]));
                let w = choose|w: int|
                    0 <= w < s.drop_last().len() && s.drop_last()[w] == s.drop_last().filter(
                        pred,
                    )[k];
                assert(s[w] == s.filter(pred)[k]);
            } else {
                assert(s.filter(pred)[k] == s.last());
                assert(s[s.len() - 1] == s.last());
            }
        }
    }
}

/// Remove every obstacle whose radius has fallen to at most half the ship's
/// radius, keeping the survivors in order: exactly those above the
/// threshold remain, none is lost, none is invented.
pub fn cull(obstacles: &mut Vec<Entity>, ship_radius: i64)
    requires
        0 <= ship_radius,
        forall|k: int| 0 <= k < old(obstacles)@.len() ==> (#[trigger] old(obstacles)@[k]).wf(),
    ensures
        final(obstacles)@.len() <= old(obstacles)@.len(),
        forall|k: int|
            0 <= k < final(obstacles)@.len() ==> 2 * (#[trigger] final(obstacles)@[k]).radius
                > ship_radius,
        forall|k: int|
            0 <= k < final(obstacles)@.len() ==> old(obstacles)@.contains(
                #[trigger] final(obstacles)@[k],
            ),
        forall|k: int|
            0 <= k < old(obstacles)@.len() && 2 * old(obstacles)@[k].radius > ship_radius
                ==> final(obstacles)@.contains(#[trigger] old(obstacles)@[k]),
{
    let ghost pred = |e: Entity| 2 * e.radius as int > ship_radius as int;
    let ghost orig = old(obstacles)@;
    let mut kept: Vec<Entity> = Vec::new();
    let ghost mut c: int = 0;
    proof {
        assert(orig.take(0) =~= Seq::<Entity>::empty());
        reveal(Seq::filter);
    }
    while obstacles.len() > 0
        invariant
            0 <= ship_radius,
            forall|e: Entity| #[trigger] pred(e) <==> 2 * e.radius as int > ship_radius as int,
            forall|k: int| 0 <= k < orig.len() ==> (#[trigger] orig[k]).wf(),
            0 <= c <= orig.len(),
            obstacles@ == orig.skip(c),
            kept@ == orig.take(c).filter(pred),
            kept@.len() <= c,
        decreases orig.len() - c,
    {
        proof {
            assert(orig.skip(c).len() > 0);
            assert(c < orig.len());
            assert(obstacles@[0] == orig[c]);
        }
        let e = obstacles.remove(0);
        proof {
            assert(e == orig[c]);
            assert(e.wf());
            assert(obstacles@ =~= orig.skip(c + 1));
            orig.take(c).lemma_filter_len(pred);
            reveal(Seq::filter);
            assert(orig.take(c + 1).drop_last() =~= orig.take(c));
            assert(orig.take(c + 1).last() == orig[c]);
            assert(orig.take(c + 1).filter(pred) == if pred(orig[c]) {
                orig.take(c).filter(pred).push(orig[c])
            } else {
                orig.take(c).filter(pred)
            });
        }
        if 2 * e.radius > ship_radius {
            kept.push(e);
            proof {
                assert(pred(orig[c]));
                assert(kept@ == orig.take(c + 1).filter(pred));
            }
        } else {
            proof {
                assert(!pred(orig[c]));
                assert(kept@ == orig.take(c + 1).filter(pred));
            }
        }
        proof {
            c = c + 1;
        }
    }
    proof {
        assert(orig.skip(c).len() == 0);
        assert(c == orig.len());
        assert(orig.take(c) =~= orig);
        assert(kept@ == orig.filter(pred));
        broadcast use vstd::seq_lib::group_filter_ensures;

        lemma_filter_members(orig, pred);
    }
    *obstacles = kept;
}

} // verus!
