//! The simulation: the player, the scrolling entities, the score and the
//! lifecycle with its revival challenge, advanced one frame at a time.
use crate::draws::{Draws, ParticleDraw};
use crate::entity::{
    any_touches, beyond, clear_of, particle_beyond, particles_shifted, retain_beyond,
    retain_clear_of, retain_particles_beyond, shift, shift_particles, shifted, touches, Entity,
    Particle, BONUS_SIZE, OBSTACLE_HEIGHT, OBSTACLE_WIDTH, SCROLL_SPEED,
};
use crate::quiz::{
    all_digits, digits_text, evaluate, parsed, question_text, Quiz, MAX_DIGITS,
};
use crate::world::{Player, COORD_LIMIT, GROUND_Y, GROUND_Y2, PLAYER_X, STANDING_Y, UNIT};
use vstd::prelude::*;

verus! {

/// Milliseconds between two firings of the obstacle spawner.
pub const OBSTACLE_PERIOD: u64 = 2500;

/// Milliseconds between two firings of the bonus spawner.
pub const BONUS_PERIOD: u64 = 1500;

/// Milliseconds between two firings of the particle spawner.
pub const PARTICLE_PERIOD: u64 = 200;

/// Top of an obstacle: its bottom lies midway between the two ground lines.
pub const OBSTACLE_Y: i64 = 365 * UNIT;

/// Where the second obstacle of a pair starts, past the first (a small gap).
pub const PAIR_OFFSET: i64 = OBSTACLE_WIDTH + 5 * UNIT;

/// Lowest top edge of a bonus item; it is lifted from here by up to 60 units.
pub const BONUS_TOP: i64 = 360 * UNIT;

/// An obstacle is gone once its left edge is at or left of this.
pub const OBSTACLE_EXIT: i64 = -20 * UNIT;

/// A bonus item is gone once its left edge is at or left of this.
pub const BONUS_EXIT: i64 = -15 * UNIT;

/// A particle is gone once it is at or left of this.
pub const PARTICLE_EXIT: i64 = -10 * UNIT;

/// On revival, obstacles at or left of this are cleared away.
pub const GRACE_X: i64 = PLAYER_X + 100 * UNIT;

/// Points for each obstacle that scrolls off.
pub const OBSTACLE_REWARD: u64 = 10;

/// Points for each bonus item collected.
pub const BONUS_REWARD: u64 = 5;

/// Widest visible area the game accepts.
pub const MAX_VIEW_WIDTH: i64 = 100_000 * UNIT;

/// Right-most place an entity can be.
pub const MAX_X: i64 = MAX_VIEW_WIDTH + 100 * UNIT;

/// Lowest place an entity can be.
pub const FIELD_DEPTH: i64 = 1000 * UNIT;

/// Where the game is in its lifecycle.
pub enum Phase {
    Playing,
    /// The player hit an obstacle and may answer `quiz` to play on; `buffer`
    /// holds the digits typed so far.
    Revival { quiz: Quiz, buffer: Vec<u8> },
    /// The game is over until it is restarted.
    Over,
}

/// `Phase` as a value of the model.
pub enum Stage {
    Playing,
    Revival { quiz: Quiz, buffer: Seq<u8> },
    Over,
}

/// The lifecycle state without its data.
#[derive(Clone, Copy, PartialEq, Eq, Structural, Debug)]
pub enum Lifecycle {
    Playing,
    Revival,
    Over,
}

/// The discrete events of one frame.
pub struct Input {
    pub jump: bool,
    /// Digit keys pressed, each in `0..=9`, in the order to apply them.
    pub digits: Vec<u8>,
    pub backspace: bool,
    pub submit: bool,
    pub cancel: bool,
    pub restart: bool,
}

impl Input {
    pub open spec fn wf(&self) -> bool {
        all_digits(self.digits@)
    }
}

/// The whole game state.
pub struct Game {
    pub player: Player,
    /// Obstacles, oldest first.
    pub obstacles: Vec<Entity>,
    /// Bonus items, oldest first.
    pub bonuses: Vec<Entity>,
    pub particles: Vec<Particle>,
    pub score: u64,
    pub phase: Phase,
    /// Milliseconds since the obstacle spawner last fired.
    pub obstacle_clock: u64,
    /// Milliseconds since the bonus spawner last fired.
    pub bonus_clock: u64,
    /// Milliseconds since the particle spawner last fired.
    pub particle_clock: u64,
    /// Right edge of the visible area, where entities appear.
    pub view_width: i64,
}

/// The mathematical value of a `Game`.
pub struct GameModel {
    pub player: Player,
    pub obstacles: Seq<Entity>,
    pub bonuses: Seq<Entity>,
    pub particles: Seq<Particle>,
    pub score: u64,
    pub stage: Stage,
    pub obstacle_clock: u64,
    pub bonus_clock: u64,
    pub particle_clock: u64,
    pub view_width: i64,
}

impl View for Game {
    type V = GameModel;

    open spec fn view(&self) -> GameModel {
        GameModel {
            player: self.player,
            obstacles: self.obstacles@,
            bonuses: self.bonuses@,
            particles: self.particles@,
            score: self.score,
            stage: match self.phase {
                Phase::Playing => Stage::Playing,
                Phase::Revival { quiz, buffer } => Stage::Revival { quiz, buffer: buffer@ },
                Phase::Over => Stage::Over,
            },
            obstacle_clock: self.obstacle_clock,
            bonus_clock: self.bonus_clock,
            particle_clock: self.particle_clock,
            view_width: self.view_width,
        }
    }
}

/// Every entity lies right of `exit` and within the field.
pub open spec fn in_lane(s: Seq<Entity>, exit: int) -> bool {
    forall|i: int|
        0 <= i < s.len() ==> exit < #[trigger] s[i].x <= MAX_X && 0 <= s[i].y <= FIELD_DEPTH
}

pub open spec fn particles_in_lane(s: Seq<Particle>, exit: int) -> bool {
    forall|i: int|
        0 <= i < s.len() ==> exit < #[trigger] s[i].x <= MAX_X && 0 <= s[i].y <= FIELD_DEPTH
}

impl GameModel {
    /// The state invariant. Whatever has crossed its exit is gone, the player
    /// is never below the ground, the spawn clocks never pass their periods,
    /// and a pending question is consistent with its answer.
    pub open spec fn wf(self) -> bool {
        &&& self.player.wf()
        &&& 0 <= self.view_width <= MAX_VIEW_WIDTH
        &&& in_lane(self.obstacles, OBSTACLE_EXIT as int)
        &&& in_lane(self.bonuses, BONUS_EXIT as int)
        &&& particles_in_lane(self.particles, PARTICLE_EXIT as int)
        &&& self.obstacle_clock <= OBSTACLE_PERIOD
        &&& self.bonus_clock <= BONUS_PERIOD
        &&& self.particle_clock <= PARTICLE_PERIOD
        &&& match self.stage {
            Stage::Revival { quiz, buffer } => {
                &&& quiz.wf()
                &&& buffer.len() <= MAX_DIGITS
                &&& all_digits(buffer)
            },
            _ => true,
        }
    }

    pub open spec fn lifecycle(self) -> Lifecycle {
        match self.stage {
            Stage::Playing => Lifecycle::Playing,
            Stage::Revival { .. } => Lifecycle::Revival,
            Stage::Over => Lifecycle::Over,
        }
    }
}

/// A fresh game with its right edge at `w`.
pub open spec fn initial(w: i64) -> GameModel {
    GameModel {
        player: Player::grounded_spec(),
        obstacles: seq![],
        bonuses: seq![],
        particles: seq![],
        score: 0,
        stage: Stage::Playing,
        obstacle_clock: 0,
        bonus_clock: 0,
        particle_clock: 0,
        view_width: w,
    }
}

/// Whether a spawner whose clock reads `clock` fires after `dt` more.
pub open spec fn fires(clock: u64, dt: u32, period: u64) -> bool {
    clock + dt > period
}

pub open spec fn clock_after(clock: u64, dt: u32, period: u64) -> u64 {
    if fires(clock, dt, period) {
        0
    } else {
        (clock + dt) as u64
    }
}

/// What the obstacle spawner adds when it fires.
pub open spec fn obstacle_spawn(w: i64, d: Draws) -> Seq<Entity> {
    if !d.obstacle {
        seq![]
    } else if d.pair {
        seq![Entity { x: w, y: OBSTACLE_Y }, Entity { x: (w + PAIR_OFFSET) as i64, y: OBSTACLE_Y }]
    } else {
        seq![Entity { x: w, y: OBSTACLE_Y }]
    }
}

/// What the bonus spawner adds when it fires.
pub open spec fn bonus_spawn(w: i64, d: Draws) -> Seq<Entity> {
    if d.bonus {
        seq![Entity { x: w, y: (BONUS_TOP - d.bonus_lift) as i64 }]
    } else {
        seq![]
    }
}

pub open spec fn particle_y(pd: ParticleDraw) -> int {
    if pd.between {
        GROUND_Y + pd.depth
    } else if pd.upper {
        GROUND_Y + pd.jitter
    } else {
        GROUND_Y2 + pd.jitter
    }
}

/// A particle strictly between the ground lines takes its bright tint, any
/// other its muted one.
pub open spec fn particle_of(pd: ParticleDraw, w: i64) -> Particle {
    let y = particle_y(pd);
    Particle {
        x: (w + pd.dx) as i64,
        y: y as i64,
        size: pd.size,
        tint: if GROUND_Y < y < GROUND_Y2 { pd.bright } else { pd.muted },
    }
}

/// What the particle spawner adds when it fires.
pub open spec fn particle_spawn(w: i64, d: Draws) -> Seq<Particle> {
    if d.particles {
        d.batch@.map_values(|pd: ParticleDraw| particle_of(pd, w))
    } else {
        seq![]
    }
}

pub open spec fn when(c: bool, s: Seq<Entity>) -> Seq<Entity> {
    if c { s } else { seq![] }
}

pub open spec fn capped(n: int) -> u64 {
    if n > u64::MAX {
        u64::MAX
    } else {
        n as u64
    }
}

/// One frame of play: motion, spawning, scrolling, culling (each obstacle
/// that leaves scores), collecting (each bonus scores), and the first
/// obstacle that touches the player starts the revival challenge.
pub open spec fn frame(m: GameModel, dt: u32, jump: bool, d: Draws) -> GameModel {
    let player = m.player.moved(dt, jump);
    let w = m.view_width;
    let dx = SCROLL_SPEED * dt;
    let moved = shifted(
        m.obstacles + when(fires(m.obstacle_clock, dt, OBSTACLE_PERIOD), obstacle_spawn(w, d)),
        dx,
    );
    let obstacles = moved.filter(beyond(OBSTACLE_EXIT as int));
    let in_view = shifted(
        m.bonuses + when(fires(m.bonus_clock, dt, BONUS_PERIOD), bonus_spawn(w, d)),
        dx,
    ).filter(beyond(BONUS_EXIT as int));
    let bonuses = in_view.filter(clear_of(player.y, BONUS_SIZE, BONUS_SIZE));
    let particles = particles_shifted(
        m.particles + (if fires(m.particle_clock, dt, PARTICLE_PERIOD) {
            particle_spawn(w, d)
        } else {
            seq![]
        }),
        dx,
    ).filter(particle_beyond(PARTICLE_EXIT as int));
    let passed = moved.len() - obstacles.len();
    let collected = in_view.len() - bonuses.len();
    let hit = exists|i: int|
        0 <= i < obstacles.len() && touches(
            player.y,
            #[trigger] obstacles[i],
            OBSTACLE_WIDTH,
            OBSTACLE_HEIGHT,
        );
    GameModel {
        player,
        obstacles,
        bonuses,
        particles,
        score: capped(m.score + OBSTACLE_REWARD * passed + BONUS_REWARD * collected),
        stage: if hit {
            Stage::Revival { quiz: d.quiz, buffer: seq![] }
        } else {
            Stage::Playing
        },
        obstacle_clock: clock_after(m.obstacle_clock, dt, OBSTACLE_PERIOD),
        bonus_clock: clock_after(m.bonus_clock, dt, BONUS_PERIOD),
        particle_clock: clock_after(m.particle_clock, dt, PARTICLE_PERIOD),
        view_width: w,
    }
}

/// The buffer after typing `digits`: each is appended while fewer than four
/// are held, and ignored otherwise.
pub open spec fn typed(buffer: Seq<u8>, digits: Seq<u8>) -> Seq<u8>
    decreases digits.len(),
{
    if digits.len() == 0 {
        buffer
    } else {
        let b = typed(buffer, digits.drop_last());
        if b.len() < MAX_DIGITS {
            b.push(digits.last())
        } else {
            b
        }
    }
}

/// The buffer after a frame's digits and backspace.
pub open spec fn edited(buffer: Seq<u8>, input: Input) -> Seq<u8> {
    let t = typed(buffer, input.digits@);
    if input.backspace && t.len() > 0 {
        t.drop_last()
    } else {
        t
    }
}

/// The state after a revival, from `m`: the player stands on the ground at
/// rest, obstacles close ahead are cleared away, and play resumes.
pub open spec fn revived(m: GameModel) -> GameModel {
    GameModel {
        player: Player::grounded_spec(),
        obstacles: m.obstacles.filter(beyond(GRACE_X as int)),
        stage: Stage::Playing,
        ..m
    }
}

/// One frame of the revival challenge. The right answer revives; a cancel
/// ends the game; a wrong or unreadable answer brings a fresh question and an
/// empty buffer.
pub open spec fn answered(m: GameModel, input: Input, d: Draws) -> GameModel {
    match m.stage {
        Stage::Revival { quiz, buffer } => {
            let b = edited(buffer, input);
            if input.submit && parsed(b) == Some(quiz.answer as nat) {
                revived(m)
            } else if input.cancel {
                GameModel { stage: Stage::Over, ..m }
            } else if input.submit {
                GameModel { stage: Stage::Revival { quiz: d.quiz, buffer: seq![] }, ..m }
            } else {
                GameModel { stage: Stage::Revival { quiz, buffer: b }, ..m }
            }
        },
        _ => m,
    }
}

/// The state after one call of `advance` that drew `d`. A game that is over
/// changes only on restart, which starts a fresh game and plays the frame.
pub open spec fn next(m: GameModel, dt: u32, input: Input, d: Draws) -> GameModel {
    match m.stage {
        Stage::Playing => frame(m, dt, input.jump, d),
        Stage::Revival { .. } => answered(m, input, d),
        Stage::Over => if input.restart {
            frame(initial(m.view_width), dt, input.jump, d)
        } else {
            m
        },
    }
}

/// What holds of every element of a sequence holds of every element of a
/// filter of it, as does the filter's own predicate.
pub proof fn lemma_filter_all<A>(s: Seq<A>, keep: spec_fn(A) -> bool, p: spec_fn(A) -> bool)
    requires
        forall|i: int| 0 <= i < s.len() ==> p(#[trigger] s[i]),
    ensures
        forall|i: int|
            0 <= i < s.filter(keep).len() ==> p(#[trigger] s.filter(keep)[i]) && keep(
                s.filter(keep)[i],
            ),
    decreases s.len(),
{
    reveal(Seq::filter);
    if s.len() > 0 {
        lemma_filter_all(s.drop_last(), keep, p);
        let sub = s.drop_last().filter(keep);
        assert forall|i: int| 0 <= i < s.filter(keep).len() implies p(
            #[trigger] s.filter(keep)[i],
        ) && keep(s.filter(keep)[i]) by {
            if i < sub.len() {
                assert(s.filter(keep)[i] == sub[i]);
            } else {
                assert(p(s[s.len() - 1]));
            }
        }
    }
}

impl Game {
    /// A fresh game whose entities appear at `view_width`.
    pub fn new(view_width: i64) -> (r: Game)
        requires
            0 <= view_width <= MAX_VIEW_WIDTH,
        ensures
            r@ == initial(view_width),
            r@.wf(),
    {
        let r = Game {
            player: Player::grounded(),
            obstacles: Vec::new(),
            bonuses: Vec::new(),
            particles: Vec::new(),
            score: 0,
            phase: Phase::Playing,
            obstacle_clock: 0,
            bonus_clock: 0,
            particle_clock: 0,
            view_width,
        };
        assert(r@ =~= initial(view_width));
        r
    }

    /// Back to a fresh game, keeping the visible width.
    pub fn reset(&mut self)
        requires
            0 <= old(self).view_width <= MAX_VIEW_WIDTH,
        ensures
            final(self)@ == initial(old(self).view_width),
            final(self)@.wf(),
    {
        *self = Game::new(self.view_width);
    }

    /// Moves the right edge where entities appear.
    pub fn set_view_width(&mut self, view_width: i64)
        requires
            0 <= view_width <= MAX_VIEW_WIDTH,
            old(self)@.wf(),
        ensures
            final(self)@ == (GameModel { view_width, ..old(self)@ }),
            final(self)@.wf(),
    {
        self.view_width = view_width;
    }

    /// Resumes play after a right answer: the player stands on the ground at
    /// rest and obstacles at or left of `GRACE_X` are cleared away.
    pub fn revive(&mut self)
        requires
            old(self)@.wf(),
        ensures
            final(self)@ == revived(old(self)@),
            final(self)@.wf(),
    {
        let ghost before = self@;
        self.player = Player::grounded();
        retain_beyond(&mut self.obstacles, GRACE_X);
        self.phase = Phase::Playing;
        proof {
            lemma_filter_all(
                before.obstacles,
                beyond(GRACE_X as int),
                |e: Entity| OBSTACLE_EXIT < e.x <= MAX_X && 0 <= e.y <= FIELD_DEPTH,
            );
        }
        assert(self@ =~= revived(before));
    }

    /// The lifecycle state.
    pub fn lifecycle(&self) -> (r: Lifecycle)
        ensures
            r == self@.lifecycle(),
    {
        match self.phase {
            Phase::Playing => Lifecycle::Playing,
            Phase::Revival { .. } => Lifecycle::Revival,
            Phase::Over => Lifecycle::Over,
        }
    }

    /// The pending question's text, during the revival challenge.
    pub fn question(&self) -> (r: Option<String>)
        ensures
            match self@.stage {
                Stage::Revival { quiz, .. } => r == Some(quiz.question),
                _ => r is None,
            },
    {
        match &self.phase {
            Phase::Revival { quiz, .. } => Some(quiz.question.clone()),
            _ => None,
        }
    }

    /// The digits typed so far, during the revival challenge.
    pub fn typed_answer(&self) -> (r: Option<String>)
        requires
            self@.wf(),
        ensures
            match self@.stage {
                Stage::Revival { buffer, .. } => r is Some && r->0@ == buffer.map_values(
                    |d: u8| crate::quiz::digit_char(d as int),
                ),
                _ => r is None,
            },
    {
        match &self.phase {
            Phase::Revival { buffer, .. } => Some(digits_text(buffer)),
            _ => None,
        }
    }
}

/// The particle a draw makes at right edge `w`.
pub fn particle_from(pd: &ParticleDraw, w: i64) -> (r: Particle)
    requires
        pd.wf(),
        0 <= w <= MAX_VIEW_WIDTH,
    ensures
        r == particle_of(*pd, w),
{
    let y: i64 = if pd.between {
        GROUND_Y + pd.depth
    } else if pd.upper {
        GROUND_Y + pd.jitter
    } else {
        GROUND_Y2 + pd.jitter
    };
    let tint = if GROUND_Y < y && y < GROUND_Y2 {
        pd.bright
    } else {
        pd.muted
    };
    Particle { x: w + pd.dx, y, size: pd.size, tint }
}

/// Appends the particles of a batch, in order.
fn spawn_particles(v: &mut Vec<Particle>, batch: &Vec<ParticleDraw>, w: i64)
    requires
        forall|i: int| 0 <= i < batch@.len() ==> (#[trigger] batch@[i]).wf(),
        0 <= w <= MAX_VIEW_WIDTH,
    ensures
        final(v)@ == old(v)@ + batch@.map_values(|pd: ParticleDraw| particle_of(pd, w)),
{
    let ghost start = v@;
    let mut i: usize = 0;
    while i < batch.len()
        invariant
            forall|j: int| 0 <= j < batch@.len() ==> (#[trigger] batch@[j]).wf(),
            0 <= w <= MAX_VIEW_WIDTH,
            i <= batch@.len(),
            v@ == start + batch@.subrange(0, i as int).map_values(
                |pd: ParticleDraw| particle_of(pd, w),
            ),
        decreases batch@.len() - i,
    {
        v.push(particle_from(&batch[i], w));
        i += 1;
        assert(v@ =~= start + batch@.subrange(0, i as int).map_values(
            |pd: ParticleDraw| particle_of(pd, w),
        ));
    }
    assert(batch@.subrange(0, batch@.len() as int) =~= batch@);
}

/// The score after `passed` obstacles and `collected` bonus items, held at
/// the largest `u64`.
pub fn add_rewards(score: u64, passed: usize, collected: usize) -> (r: u64)
    ensures
        r == capped(score + OBSTACLE_REWARD * passed + BONUS_REWARD * collected),
{
    let total: u128 = score as u128 + OBSTACLE_REWARD as u128 * passed as u128
        + BONUS_REWARD as u128 * collected as u128;
    if total > u64::MAX as u128 {
        u64::MAX
    } else {
        total as u64
    }
}

impl Game {
    /// One frame of play.
    fn run_frame(&mut self, dt: u32, jump: bool, draws: Draws)
        requires
            old(self)@.wf(),
            old(self)@.stage is Playing,
            draws.wf(),
        ensures
            final(self)@ == frame(old(self)@, dt, jump, draws),
            final(self)@.wf(),
    {
        let ghost m = self@;
        let ghost d = draws;
        self.player.step(dt, jump);
        proof {
            self.player.lemma_height();
        }
        let w = self.view_width;

        if self.obstacle_clock + dt as u64 > OBSTACLE_PERIOD {
            if draws.obstacle {
                self.obstacles.push(Entity { x: w, y: OBSTACLE_Y });
                if draws.pair {
                    self.obstacles.push(Entity { x: w + PAIR_OFFSET, y: OBSTACLE_Y });
                }
            }
            self.obstacle_clock = 0;
        } else {
            self.obstacle_clock = self.obstacle_clock + dt as u64;
        }
        assert(self.obstacles@ =~= m.obstacles + when(
            fires(m.obstacle_clock, dt, OBSTACLE_PERIOD),
            obstacle_spawn(w, d),
        ));

        if self.bonus_clock + dt as u64 > BONUS_PERIOD {
            if draws.bonus {
                self.bonuses.push(Entity { x: w, y: BONUS_TOP - draws.bonus_lift });
            }
            self.bonus_clock = 0;
        } else {
            self.bonus_clock = self.bonus_clock + dt as u64;
        }
        assert(self.bonuses@ =~= m.bonuses + when(
            fires(m.bonus_clock, dt, BONUS_PERIOD),
            bonus_spawn(w, d),
        ));

        if self.particle_clock + dt as u64 > PARTICLE_PERIOD {
            if draws.particles {
                spawn_particles(&mut self.particles, &draws.batch, w);
            }
            self.particle_clock = 0;
        } else {
            self.particle_clock = self.particle_clock + dt as u64;
        }
        let ghost spawned_particles = self.particles@;
        assert(spawned_particles =~= m.particles + (if fires(
            m.particle_clock,
            dt,
            PARTICLE_PERIOD,
        ) {
            particle_spawn(w, d)
        } else {
            seq![]
        }));

        // Everything scrolls left by the same distance.
        let dx: i64 = SCROLL_SPEED * dt as i64;
        let ghost spawned_obstacles = self.obstacles@;
        let ghost spawned_bonuses = self.bonuses@;
        shift(&mut self.obstacles, dx);
        shift(&mut self.bonuses, dx);
        shift_particles(&mut self.particles, dx);
        let ghost moved = self.obstacles@;
        let ghost moved_bonuses = self.bonuses@;
        let ghost moved_particles = self.particles@;
        let ghost field = |e: Entity| -COORD_LIMIT <= e.x <= MAX_X && 0 <= e.y <= FIELD_DEPTH;
        let ghost field_particle = |q: Particle|
            -COORD_LIMIT <= q.x <= MAX_X && 0 <= q.y <= FIELD_DEPTH;
        assert forall|i: int| 0 <= i < moved.len() implies field(#[trigger] moved[i]) by {
            assert(moved[i].x == spawned_obstacles[i].x - dx);
            if i >= m.obstacles.len() {
                assert(spawned_obstacles[i] == obstacle_spawn(w, d)[i - m.obstacles.len()]);
            }
        }
        assert forall|i: int| 0 <= i < moved_bonuses.len() implies field(
            #[trigger] moved_bonuses[i],
        ) by {
            assert(moved_bonuses[i].x == spawned_bonuses[i].x - dx);
            if i >= m.bonuses.len() {
                assert(spawned_bonuses[i] == bonus_spawn(w, d)[i - m.bonuses.len()]);
            }
        }
        assert forall|i: int| 0 <= i < moved_particles.len() implies field_particle(
            #[trigger] moved_particles[i],
        ) by {
            assert(moved_particles[i].x == spawned_particles[i].x - dx);
            if i >= m.particles.len() {
                let k = i - m.particles.len();
                assert(spawned_particles[i] == particle_of(d.batch@[k], w));
                assert(d.batch@[k].wf());
            }
        }

        // Culling: every obstacle that leaves scores.
        let passed = retain_beyond(&mut self.obstacles, OBSTACLE_EXIT);
        retain_beyond(&mut self.bonuses, BONUS_EXIT);
        retain_particles_beyond(&mut self.particles, PARTICLE_EXIT);
        proof {
            lemma_filter_all(moved, beyond(OBSTACLE_EXIT as int), field);
            lemma_filter_all(moved_bonuses, beyond(BONUS_EXIT as int), field);
            lemma_filter_all(
                moved_particles,
                particle_beyond(PARTICLE_EXIT as int),
                field_particle,
            );
        }
        let ghost in_view = self.bonuses@;

        // Collecting: every bonus item the player touches scores.
        let collected = retain_clear_of(&mut self.bonuses, self.player.y, BONUS_SIZE, BONUS_SIZE);
        proof {
            lemma_filter_all(
                in_view,
                clear_of(self.player.y, BONUS_SIZE, BONUS_SIZE),
                |e: Entity| BONUS_EXIT < e.x <= MAX_X && 0 <= e.y <= FIELD_DEPTH,
            );
        }
        self.score = add_rewards(self.score, passed, collected);

        if any_touches(&self.obstacles, self.player.y, OBSTACLE_WIDTH, OBSTACLE_HEIGHT) {
            self.phase = Phase::Revival { quiz: draws.quiz, buffer: Vec::new() };
        }
        assert(self@ =~= frame(m, dt, jump, d));
    }
}

/// Typing keeps the buffer short and made of digits.
pub proof fn lemma_typed_wf(buffer: Seq<u8>, digits: Seq<u8>)
    requires
        buffer.len() <= MAX_DIGITS,
        all_digits(buffer),
        all_digits(digits),
    ensures
        typed(buffer, digits).len() <= MAX_DIGITS,
        all_digits(typed(buffer, digits)),
    decreases digits.len(),
{
    if digits.len() > 0 {
        lemma_typed_wf(buffer, digits.drop_last());
        let b = typed(buffer, digits.drop_last());
        assert(digits.last() == digits[digits.len() - 1]);
        if b.len() < MAX_DIGITS {
            assert forall|i: int| 0 <= i < b.push(digits.last()).len() implies #[trigger] b.push(
                digits.last(),
            )[i] <= 9 by {
                if i < b.len() {
                    assert(b.push(digits.last())[i] == b[i]);
                }
            }
        }
    }
}

/// Applies typed digits to the buffer.
fn type_digits(buffer: &mut Vec<u8>, digits: &Vec<u8>)
    requires
        old(buffer)@.len() <= MAX_DIGITS,
        all_digits(old(buffer)@),
        all_digits(digits@),
    ensures
        final(buffer)@ == typed(old(buffer)@, digits@),
        final(buffer)@.len() <= MAX_DIGITS,
        all_digits(final(buffer)@),
{
    let ghost start = buffer@;
    let mut i: usize = 0;
    while i < digits.len()
        invariant
            i <= digits@.len(),
            start.len() <= MAX_DIGITS,
            all_digits(start),
            all_digits(digits@),
            buffer@ == typed(start, digits@.subrange(0, i as int)),
        decreases digits@.len() - i,
    {
        proof {
            let pre = digits@.subrange(0, i as int + 1);
            assert(pre.drop_last() =~= digits@.subrange(0, i as int));
            assert(all_digits(digits@.subrange(0, i as int)));
            lemma_typed_wf(start, digits@.subrange(0, i as int));
        }
        if buffer.len() < MAX_DIGITS {
            buffer.push(digits[i]);
        }
        i += 1;
    }
    proof {
        assert(digits@.subrange(0, digits@.len() as int) =~= digits@);
        lemma_typed_wf(start, digits@);
    }
}

impl Game {
    /// One frame of the revival challenge.
    fn answer(&mut self, input: &Input, draws: Draws)
        requires
            old(self)@.wf(),
            old(self)@.stage is Revival,
            input.wf(),
            draws.wf(),
        ensures
            final(self)@ == answered(old(self)@, *input, draws),
            final(self)@.wf(),
    {
        let ghost m = self@;
        let mut phase = Phase::Over;
        std::mem::swap(&mut phase, &mut self.phase);
        match phase {
            Phase::Revival { quiz, mut buffer } => {
                type_digits(&mut buffer, &input.digits);
                if input.backspace && buffer.len() > 0 {
                    buffer.pop();
                }
                assert(buffer@ =~= edited(m.stage->Revival_buffer, *input));
                if input.submit && quiz.accepts(&buffer) {
                    self.phase = Phase::Playing;
                    self.revive();
                    assert(self@ =~= revived(m));
                } else if input.cancel {
                    assert(self@ =~= (GameModel { stage: Stage::Over, ..m }));
                } else if input.submit {
                    self.phase = Phase::Revival { quiz: draws.quiz, buffer: Vec::new() };
                    assert(self@ =~= (GameModel {
                        stage: Stage::Revival { quiz: draws.quiz, buffer: seq![] },
                        ..m
                    }));
                } else {
                    self.phase = Phase::Revival { quiz, buffer };
                }
            },
            other => {
                self.phase = other;
            },
        }
    }

    /// One frame with the chance outcomes given: play, the revival challenge,
    /// or, once over, a restart.
    pub fn step(&mut self, dt: u32, input: &Input, draws: Draws)
        requires
            old(self)@.wf(),
            input.wf(),
            draws.wf(),
        ensures
            final(self)@ == next(old(self)@, dt, *input, draws),
            final(self)@.wf(),
            final(self).player.y <= STANDING_Y,
            !(old(self)@.stage is Over && input.restart) ==> old(self).score <= final(self).score,
            forall|i: int|
                #![trigger final(self).obstacles@[i]]
                0 <= i < final(self).obstacles@.len() ==> OBSTACLE_EXIT < final(self).obstacles@[i].x,
            forall|i: int|
                #![trigger final(self).bonuses@[i]]
                0 <= i < final(self).bonuses@.len() ==> BONUS_EXIT < final(self).bonuses@[i].x,
    {
        match self.phase {
            Phase::Playing => self.run_frame(dt, input.jump, draws),
            Phase::Revival { .. } => self.answer(input, draws),
            Phase::Over => {
                if input.restart {
                    self.reset();
                    self.run_frame(dt, input.jump, draws);
                }
            },
        }
    }

    /// One frame of `dt` milliseconds, drawing its chance outcomes from the
    /// thread-local generator. Time is unsigned, so a negative frame time
    /// cannot be given.
    pub fn advance(&mut self, dt: u32, input: &Input)
        requires
            old(self)@.wf(),
            input.wf(),
        ensures
            exists|d: Draws| d.wf() && final(self)@ == next(old(self)@, dt, *input, d),
            final(self)@.wf(),
            final(self).player.y <= STANDING_Y,
            !(old(self)@.stage is Over && input.restart) ==> old(self).score <= final(self).score,
            forall|i: int|
                #![trigger final(self).obstacles@[i]]
                0 <= i < final(self).obstacles@.len() ==> OBSTACLE_EXIT < final(self).obstacles@[i].x,
            forall|i: int|
                #![trigger final(self).bonuses@[i]]
                0 <= i < final(self).bonuses@.len() ==> BONUS_EXIT < final(self).bonuses@[i].x,
    {
        let draws = Draws::roll();
        let ghost d = draws;
        self.step(dt, input, draws);
        assert(d.wf() && self@ == next(old(self)@, dt, *input, d));
    }
}

/// Submitting the right answer during the revival challenge resumes play,
/// with the player standing on the ground at rest whatever its velocity was.
pub proof fn lemma_right_answer_revives(m: GameModel, dt: u32, input: Input, d: Draws)
    requires
        m.stage is Revival,
        input.submit,
        parsed(edited(m.stage->Revival_buffer, input)) == Some(
            m.stage->Revival_quiz.answer as nat,
        ),
    ensures
        next(m, dt, input, d).stage is Playing,
        next(m, dt, input, d).player.y == STANDING_Y,
        next(m, dt, input, d).player.velocity == 0,
        !next(m, dt, input, d).player.airborne,
{
}

/// Submitting a wrong or unreadable answer (without cancelling) asks a fresh
/// question with an empty buffer, and that question's answer is the stated
/// operation on the stated operands.
pub proof fn lemma_wrong_answer_asks_again(m: GameModel, dt: u32, input: Input, d: Draws)
    requires
        m.stage is Revival,
        d.wf(),
        input.submit,
        !input.cancel,
        parsed(edited(m.stage->Revival_buffer, input)) != Some(
            m.stage->Revival_quiz.answer as nat,
        ),
    ensures
        match next(m, dt, input, d).stage {
            Stage::Revival { quiz, buffer } => {
                &&& quiz == d.quiz
                &&& buffer.len() == 0
                &&& quiz.answer == evaluate(quiz.op, quiz.lhs as int, quiz.rhs as int)
                &&& quiz.question@ == question_text(quiz.op, quiz.lhs as nat, quiz.rhs as nat)
            },
            _ => false,
        },
{
}

/// A score never goes down from one frame to the next, except through a
/// restart of a game that is over.
pub proof fn lemma_score_never_drops(m: GameModel, dt: u32, input: Input, d: Draws)
    requires
        !(m.stage is Over && input.restart),
    ensures
        m.score <= next(m, dt, input, d).score,
{
}

} // verus!
