//! Scrolling entities: obstacles, bonus items and decorative particles, and
//! the per-frame passes over them (motion, culling, collision).
use crate::world::{overlap_spec, overlaps, Rect, COORD_LIMIT, PLAYER_HEIGHT, PLAYER_WIDTH, PLAYER_X, UNIT};
use vstd::prelude::*;

verus! {

/// Leftward speed of everything that scrolls, per millisecond (200 units a second).
pub const SCROLL_SPEED: i64 = 200_000;

pub const OBSTACLE_WIDTH: i64 = 20 * UNIT;

pub const OBSTACLE_HEIGHT: i64 = 60 * UNIT;

pub const BONUS_SIZE: i64 = 15 * UNIT;

/// An obstacle or a bonus item: its top-left corner.
#[derive(Clone, Copy, PartialEq, Eq, Debug)]
pub struct Entity {
    pub x: i64,
    pub y: i64,
}

/// A decorative particle; it never collides and never scores.
#[derive(Clone, Copy, PartialEq, Eq, Debug)]
pub struct Particle {
    pub x: i64,
    pub y: i64,
    /// Radius.
    pub size: i64,
    /// Index into the presentation's palette.
    pub tint: u8,
}

/// Coordinates small enough for every pass below.
pub open spec fn placed(x: int, y: int) -> bool {
    -COORD_LIMIT <= x <= COORD_LIMIT && 0 <= y <= COORD_LIMIT
}

pub open spec fn all_placed(s: Seq<Entity>) -> bool {
    forall|i: int| 0 <= i < s.len() ==> placed(#[trigger] s[i].x as int, s[i].y as int)
}

/// Each entity moved `d` to the left.
pub open spec fn shifted(s: Seq<Entity>, d: int) -> Seq<Entity> {
    Seq::new(s.len(), |i: int| Entity { x: (s[i].x - d) as i64, y: s[i].y })
}

pub open spec fn particles_shifted(s: Seq<Particle>, d: int) -> Seq<Particle> {
    Seq::new(s.len(), |i: int| Particle { x: (s[i].x - d) as i64, ..s[i] })
}

/// Whether an entity is still to the right of `limit`.
pub open spec fn beyond(limit: int) -> spec_fn(Entity) -> bool {
    |e: Entity| e.x > limit
}

pub open spec fn particle_beyond(limit: int) -> spec_fn(Particle) -> bool {
    |p: Particle| p.x > limit
}

/// The player's box when its top edge is at `y`.
pub open spec fn player_box(y: i64) -> Rect {
    Rect { x: PLAYER_X, y, w: PLAYER_WIDTH, h: PLAYER_HEIGHT }
}

pub open spec fn touches(player_y: i64, e: Entity, w: i64, h: i64) -> bool {
    overlap_spec(player_box(player_y), Rect { x: e.x, y: e.y, w, h })
}

/// Whether a `w` by `h` entity keeps clear of the player.
pub open spec fn clear_of(player_y: i64, w: i64, h: i64) -> spec_fn(Entity) -> bool {
    |e: Entity| !touches(player_y, e, w, h)
}

/// Moves every entity `d` to the left.
pub fn shift(v: &mut Vec<Entity>, d: i64)
    requires
        0 <= d <= COORD_LIMIT,
        forall|i: int| 0 <= i < old(v)@.len() ==> -COORD_LIMIT <= #[trigger] old(v)@[i].x,
    ensures
        final(v)@ == shifted(old(v)@, d as int),
{
    let ghost start = v@;
    let mut i: usize = 0;
    while i < v.len()
        invariant
            0 <= d <= COORD_LIMIT,
            i <= v@.len() == start.len(),
            forall|j: int| 0 <= j < start.len() ==> -COORD_LIMIT <= #[trigger] start[j].x,
            forall|j: int| 0 <= j < i ==> v@[j] == shifted(start, d as int)[j],
            forall|j: int| i <= j < v@.len() ==> v@[j] == start[j],
        decreases start.len() - i,
    {
        let e = v[i];
        assert(e == start[i as int]);
        v.set(i, Entity { x: e.x - d, y: e.y });
        i += 1;
    }
    assert(v@ =~= shifted(start, d as int));
}

/// Moves every particle `d` to the left.
pub fn shift_particles(v: &mut Vec<Particle>, d: i64)
    requires
        0 <= d <= COORD_LIMIT,
        forall|i: int| 0 <= i < old(v)@.len() ==> -COORD_LIMIT <= #[trigger] old(v)@[i].x,
    ensures
        final(v)@ == particles_shifted(old(v)@, d as int),
{
    let ghost start = v@;
    let mut i: usize = 0;
    while i < v.len()
        invariant
            0 <= d <= COORD_LIMIT,
            i <= v@.len() == start.len(),
            forall|j: int| 0 <= j < start.len() ==> -COORD_LIMIT <= #[trigger] start[j].x,
            forall|j: int| 0 <= j < i ==> v@[j] == particles_shifted(start, d as int)[j],
            forall|j: int| i <= j < v@.len() ==> v@[j] == start[j],
        decreases start.len() - i,
    {
        let p = v[i];
        assert(p == start[i as int]);
        v.set(i, Particle { x: p.x - d, ..p });
        i += 1;
    }
    assert(v@ =~= particles_shifted(start, d as int));
}

/// Keeps the entities to the right of `limit`, in order; returns how many
/// were removed.
pub fn retain_beyond(v: &mut Vec<Entity>, limit: i64) -> (removed: usize)
    ensures
        final(v)@ == old(v)@.filter(beyond(limit as int)),
        removed == old(v)@.len() - final(v)@.len(),
{
    let ghost start = v@;
    let mut kept: Vec<Entity> = Vec::new();
    let mut i: usize = 0;
    while i < v.len()
        invariant
            v@ == start,
            i <= start.len(),
            kept@ == start.subrange(0, i as int).filter(beyond(limit as int)),
        decreases start.len() - i,
    {
        proof {
            reveal(Seq::filter);
            assert(start.subrange(0, i as int + 1).drop_last() =~= start.subrange(0, i as int));
        }
        if v[i].x > limit {
            kept.push(v[i]);
        }
        i += 1;
    }
    proof {
        assert(start.subrange(0, start.len() as int) =~= start);
        start.lemma_filter_len(beyond(limit as int));
    }
    let removed = v.len() - kept.len();
    *v = kept;
    removed
}

/// Keeps the particles to the right of `limit`, in order.
pub fn retain_particles_beyond(v: &mut Vec<Particle>, limit: i64)
    ensures
        final(v)@ == old(v)@.filter(particle_beyond(limit as int)),
{
    let ghost start = v@;
    let mut kept: Vec<Particle> = Vec::new();
    let mut i: usize = 0;
    while i < v.len()
        invariant
            v@ == start,
            i <= start.len(),
            kept@ == start.subrange(0, i as int).filter(particle_beyond(limit as int)),
        decreases start.len() - i,
    {
        proof {
            reveal(Seq::filter);
            assert(start.subrange(0, i as int + 1).drop_last() =~= start.subrange(0, i as int));
        }
        if v[i].x > limit {
            kept.push(v[i]);
        }
        i += 1;
    }
    proof {
        assert(start.subrange(0, start.len() as int) =~= start);
    }
    *v = kept;
}

/// Keeps the `w` by `h` entities that do not touch the player, in order;
/// returns how many were removed.
pub fn retain_clear_of(v: &mut Vec<Entity>, player_y: i64, w: i64, h: i64) -> (removed: usize)
    requires
        all_placed(old(v)@),
        -COORD_LIMIT <= player_y <= COORD_LIMIT,
        0 <= w <= COORD_LIMIT,
        0 <= h <= COORD_LIMIT,
    ensures
        final(v)@ == old(v)@.filter(clear_of(player_y, w, h)),
        removed == old(v)@.len() - final(v)@.len(),
{
    let ghost start = v@;
    let player = Rect { x: PLAYER_X, y: player_y, w: PLAYER_WIDTH, h: PLAYER_HEIGHT };
    let mut kept: Vec<Entity> = Vec::new();
    let mut i: usize = 0;
    while i < v.len()
        invariant
            v@ == start,
            all_placed(start),
            player == player_box(player_y),
            player.within(),
            0 <= w <= COORD_LIMIT,
            0 <= h <= COORD_LIMIT,
            i <= start.len(),
            kept@ == start.subrange(0, i as int).filter(clear_of(player_y, w, h)),
        decreases start.len() - i,
    {
        proof {
            reveal(Seq::filter);
            assert(start.subrange(0, i as int + 1).drop_last() =~= start.subrange(0, i as int));
        }
        let e = v[i];
        if !overlaps(&player, &Rect { x: e.x, y: e.y, w, h }) {
            kept.push(e);
        }
        i += 1;
    }
    proof {
        assert(start.subrange(0, start.len() as int) =~= start);
        start.lemma_filter_len(clear_of(player_y, w, h));
    }
    let removed = v.len() - kept.len();
    *v = kept;
    removed
}

/// Whether some `w` by `h` entity touches the player.
pub fn any_touches(v: &Vec<Entity>, player_y: i64, w: i64, h: i64) -> (r: bool)
    requires
        all_placed(v@),
        -COORD_LIMIT <= player_y <= COORD_LIMIT,
        0 <= w <= COORD_LIMIT,
        0 <= h <= COORD_LIMIT,
    ensures
        r == exists|i: int| 0 <= i < v@.len() && touches(player_y, #[trigger] v@[i], w, h),
{
    let player = Rect { x: PLAYER_X, y: player_y, w: PLAYER_WIDTH, h: PLAYER_HEIGHT };
    let mut i: usize = 0;
    while i < v.len()
        invariant
            all_placed(v@),
            player == player_box(player_y),
            player.within(),
            0 <= w <= COORD_LIMIT,
            0 <= h <= COORD_LIMIT,
            i <= v@.len(),
            forall|j: int| 0 <= j < i ==> !touches(player_y, #[trigger] v@[j], w, h),
        decreases v@.len() - i,
    {
        let e = v[i];
        if overlaps(&player, &Rect { x: e.x, y: e.y, w, h }) {
            return true;
        }
        i += 1;
    }
    false
}

} // verus!
