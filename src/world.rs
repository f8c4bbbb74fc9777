//! Units, geometry and the player's vertical motion.
//!
//! Positions are in millionths of a screen unit, time in milliseconds, and
//! vertical velocity in thousandths of a unit per second; with these units one
//! integration step is exact integer arithmetic.
use vstd::prelude::*;

verus! {

/// Position units per screen unit.
pub const UNIT: i64 = 1_000_000;

/// Velocity gained per millisecond of fall (800 units per second squared).
pub const GRAVITY: i64 = 800;

/// Upward speed given by a jump, in thousandths of a unit per second.
pub const JUMP_SPEED: i64 = 400_000;

/// The first ground line.
pub const GROUND_Y: i64 = 400 * UNIT;

/// The second ground line, below the first.
pub const GROUND_Y2: i64 = 450 * UNIT;

/// Fixed horizontal position of the player's left edge.
pub const PLAYER_X: i64 = 120 * UNIT;

pub const PLAYER_WIDTH: i64 = 25 * UNIT;

pub const PLAYER_HEIGHT: i64 = 35 * UNIT;

/// Top of the player when it stands on the ground: the lowest it can be.
pub const STANDING_Y: i64 = GROUND_Y - PLAYER_HEIGHT;

/// Bound on any coordinate or size that the geometry handles.
pub const COORD_LIMIT: i64 = 0x4_0000_0000_0000;

/// A box given by its top-left corner and its size; edges are inclusive.
pub struct Rect {
    pub x: i64,
    pub y: i64,
    pub w: i64,
    pub h: i64,
}

impl Rect {
    pub open spec fn within(self) -> bool {
        &&& -COORD_LIMIT <= self.x <= COORD_LIMIT
        &&& -COORD_LIMIT <= self.y <= COORD_LIMIT
        &&& 0 <= self.w <= COORD_LIMIT
        &&& 0 <= self.h <= COORD_LIMIT
    }
}

pub open spec fn overlap_spec(a: Rect, b: Rect) -> bool {
    &&& a.x <= b.x + b.w
    &&& a.x + a.w >= b.x
    &&& a.y <= b.y + b.h
    &&& a.y + a.h >= b.y
}

/// Whether two boxes overlap or touch.
pub fn overlaps(a: &Rect, b: &Rect) -> (r: bool)
    requires
        a.within(),
        b.within(),
    ensures
        r == overlap_spec(*a, *b),
{
    a.x <= b.x + b.w && a.x + a.w >= b.x && a.y <= b.y + b.h && a.y + a.h >= b.y
}

/// The controllable character; only its height changes.
#[derive(Clone, Copy, PartialEq, Eq, Debug)]
pub struct Player {
    /// Top edge; grows downward.
    pub y: i64,
    /// Vertical velocity, positive downward.
    pub velocity: i64,
    pub airborne: bool,
}

impl Player {
    /// Height of the player above the ground.
    pub open spec fn lift(self) -> int {
        STANDING_Y - self.y
    }

    /// Never below the ground, and never more energy than one jump gives: a
    /// rise converts at most `JUMP_SPEED` of speed into height.
    pub open spec fn wf(self) -> bool {
        &&& 0 <= self.lift()
        &&& 2 * GRAVITY * self.lift() + self.velocity * self.velocity <= JUMP_SPEED * JUMP_SPEED
        &&& !self.airborne ==> self.is_grounded()
    }

    pub open spec fn is_grounded(self) -> bool {
        self.y == STANDING_Y && self.velocity == 0 && !self.airborne
    }

    pub open spec fn grounded_spec() -> Player {
        Player { y: STANDING_Y, velocity: 0, airborne: false }
    }

    /// One frame of motion: a jump is honoured only from the ground; then
    /// `velocity += gravity * dt`, `y += velocity * dt`, and a step that ends at
    /// or below the ground lands the player.
    pub open spec fn moved(self, dt: u32, jump: bool) -> Player {
        let takes_off = jump && !self.airborne;
        let v0: int = if takes_off { -JUMP_SPEED } else { self.velocity as int };
        let v = v0 + GRAVITY * dt;
        let y = self.y + v * dt;
        if y >= STANDING_Y {
            Player::grounded_spec()
        } else {
            Player { y: y as i64, velocity: v as i64, airborne: takes_off || self.airborne }
        }
    }

    /// A jump rises at most 100 units.
    pub proof fn lemma_height(self)
        requires
            self.wf(),
        ensures
            STANDING_Y - 100 * UNIT <= self.y <= STANDING_Y,
    {
        assert(self.velocity * self.velocity >= 0) by (nonlinear_arith);
        assert(JUMP_SPEED * JUMP_SPEED == 160_000_000_000) by (nonlinear_arith);
        let h = self.lift();
        assert(2 * GRAVITY * h <= 160_000_000_000);
        assert(h <= 100_000_000) by (nonlinear_arith)
            requires 1600 * h <= 160_000_000_000;
    }

    /// A player standing on the ground.
    pub fn grounded() -> (r: Player)
        ensures
            r == Player::grounded_spec(),
            r.wf(),
    {
        Player { y: STANDING_Y, velocity: 0, airborne: false }
    }

    /// Integrates one frame of `dt` milliseconds.
    pub fn step(&mut self, dt: u32, jump: bool)
        requires
            old(self).wf(),
        ensures
            *final(self) == old(self).moved(dt, jump),
            final(self).wf(),
            final(self).y <= STANDING_Y,
    {
        let takes_off = jump && !self.airborne;
        let v0: i64 = if takes_off { -JUMP_SPEED } else { self.velocity };
        let ghost h: int = self.lift();
        let ghost h0: int = if takes_off { 0 } else { h };
        proof {
            if takes_off {
                assert(v0 * v0 == JUMP_SPEED * JUMP_SPEED) by (nonlinear_arith)
                    requires v0 == -JUMP_SPEED;
            }
            assert(2 * GRAVITY * h0 + v0 * v0 <= JUMP_SPEED * JUMP_SPEED);
            lemma_speed_bound(v0 as int, h0);
        }
        let v: i64 = v0 + GRAVITY * (dt as i64);
        assert(-0x1_0000_0000_0000_0000_0000 <= (v as i128) * (dt as i128) <= 0x1_0000_0000_0000_0000_0000)
            by (nonlinear_arith)
            requires
                -JUMP_SPEED <= v <= JUMP_SPEED + GRAVITY * 0x1_0000_0000,
                0 <= dt <= 0x1_0000_0000,
        ;
        let y: i128 = self.y as i128 + (v as i128) * (dt as i128);
        if !takes_off && !self.airborne {
            assert(v * dt >= 0) by (nonlinear_arith)
                requires v == GRAVITY * dt, dt >= 0;
        }
        if y >= STANDING_Y as i128 {
            self.y = STANDING_Y;
            self.velocity = 0;
            self.airborne = false;
        } else {
            proof {
                lemma_energy_step(v0 as int, dt as int, h0);
            }
            assert(STANDING_Y - y == h0 - v * dt);
            assert(2 * GRAVITY * (STANDING_Y - y) + v * v <= JUMP_SPEED * JUMP_SPEED);
            self.y = y as i64;
            self.velocity = v;
            self.airborne = takes_off || self.airborne;
        }
        assert(0 <= self.lift());
        assert(2 * GRAVITY * self.lift() + self.velocity * self.velocity <= JUMP_SPEED * JUMP_SPEED);
        assert(!self.airborne ==> self.is_grounded());
    }
}

proof fn lemma_speed_bound(v: int, h: int)
    requires
        0 <= h,
        2 * GRAVITY * h + v * v <= JUMP_SPEED * JUMP_SPEED,
    ensures
        -JUMP_SPEED <= v <= JUMP_SPEED,
{
    assert(v * v <= JUMP_SPEED * JUMP_SPEED);
    if v > JUMP_SPEED {
        assert(v * v > JUMP_SPEED * JUMP_SPEED) by (nonlinear_arith)
            requires v > JUMP_SPEED;
    }
    if v < -JUMP_SPEED {
        assert(v * v > JUMP_SPEED * JUMP_SPEED) by (nonlinear_arith)
            requires v < -JUMP_SPEED;
    }
}

/// One integration step loses energy: `2g·h' + v'^2 = 2g·h + v^2 - g^2·dt^2`.
proof fn lemma_energy_step(v0: int, dt: int, h0: int)
    requires
        0 <= h0,
        2 * GRAVITY * h0 + v0 * v0 <= JUMP_SPEED * JUMP_SPEED,
        0 <= dt,
    ensures
        2 * GRAVITY * (h0 - (v0 + GRAVITY * dt) * dt) + (v0 + GRAVITY * dt) * (v0 + GRAVITY * dt)
            <= JUMP_SPEED * JUMP_SPEED,
        2 * GRAVITY * (h0 - (v0 + GRAVITY * dt) * dt) <= JUMP_SPEED * JUMP_SPEED,
{
    let v = v0 + GRAVITY * dt;
    assert(2 * GRAVITY * (h0 - v * dt) + v * v == 2 * GRAVITY * h0 + v0 * v0 - GRAVITY * GRAVITY
        * dt * dt) by (nonlinear_arith)
        requires v == v0 + GRAVITY * dt;
    assert(GRAVITY * GRAVITY * dt * dt >= 0) by (nonlinear_arith);
    assert(v * v >= 0) by (nonlinear_arith);
}

} // verus!
