//! The chance outcomes that one frame may use, drawn up front so that the
//! frame itself is a function of its inputs.
use crate::quiz::Quiz;
use crate::random::{random_in, random_ratio};
use crate::world::UNIT;
use vstd::prelude::*;

verus! {

/// The random parts of one decorative particle.
#[derive(Clone, Copy, PartialEq, Eq, Debug)]
pub struct ParticleDraw {
    /// Placed between the two ground lines (else near one of them).
    pub between: bool,
    /// Near the first ground line rather than the second.
    pub upper: bool,
    /// Depth below the first line, for a particle between the lines.
    pub depth: i64,
    /// Offset from its line, for a particle near a line.
    pub jitter: i64,
    /// Distance beyond the right edge.
    pub dx: i64,
    pub size: i64,
    /// Palette index used between the lines.
    pub bright: u8,
    /// Palette index used elsewhere.
    pub muted: u8,
}

impl ParticleDraw {
    pub open spec fn wf(&self) -> bool {
        &&& 5 * UNIT <= self.depth < 45 * UNIT
        &&& -8 * UNIT <= self.jitter < 12 * UNIT
        &&& 0 <= self.dx < 60 * UNIT
        &&& UNIT + UNIT / 2 <= self.size < 4 * UNIT + UNIT / 2
        &&& self.bright < 7
        &&& 7 <= self.muted < 9
    }

    /// One particle's draws: 70% between the lines, else evenly near either line.
    pub fn roll() -> (r: ParticleDraw)
        ensures
            r.wf(),
    {
        let between = random_ratio(7, 10);
        let upper = random_ratio(1, 2);
        let depth = random_in(5 * UNIT, 45 * UNIT);
        let jitter = random_in(-8 * UNIT, 12 * UNIT);
        let dx = random_in(0, 60 * UNIT);
        let size = random_in(UNIT + UNIT / 2, 4 * UNIT + UNIT / 2);
        let bright = random_in(0, 7) as u8;
        let muted = random_in(7, 9) as u8;
        ParticleDraw { between, upper, depth, jitter, dx, size, bright, muted }
    }
}

/// Longest batch of particles one spawn makes.
pub const MAX_BATCH: usize = 8;

/// Everything a frame may draw by chance.
pub struct Draws {
    /// An obstacle appears when its spawner fires (40%).
    pub obstacle: bool,
    /// That obstacle comes with a second one beside it (30%).
    pub pair: bool,
    /// A bonus item appears when its spawner fires (80%).
    pub bonus: bool,
    /// Height of that bonus above its lowest place.
    pub bonus_lift: i64,
    /// A batch of particles appears when its spawner fires (95%).
    pub particles: bool,
    pub batch: Vec<ParticleDraw>,
    /// The question asked if the player must answer one this frame.
    pub quiz: Quiz,
}

impl Draws {
    pub open spec fn wf(&self) -> bool {
        &&& 0 <= self.bonus_lift < 60 * UNIT
        &&& self.batch@.len() < MAX_BATCH
        &&& forall|i: int| 0 <= i < self.batch@.len() ==> (#[trigger] self.batch@[i]).wf()
        &&& self.quiz.wf()
    }

    /// Draws a frame's outcomes with the game's odds.
    pub fn roll() -> (r: Draws)
        ensures
            r.wf(),
            4 <= r.batch@.len(),
    {
        let obstacle = random_ratio(2, 5);
        let pair = random_ratio(3, 10);
        let bonus = random_ratio(4, 5);
        let bonus_lift = random_in(0, 60 * UNIT);
        let particles = random_ratio(19, 20);
        let count = random_in(4, 8) as usize;
        let mut batch: Vec<ParticleDraw> = Vec::new();
        while batch.len() < count
            invariant
                4 <= count < MAX_BATCH,
                batch@.len() <= count,
                forall|i: int| 0 <= i < batch@.len() ==> (#[trigger] batch@[i]).wf(),
            decreases count - batch@.len(),
        {
            batch.push(ParticleDraw::roll());
        }
        Draws { obstacle, pair, bonus, bonus_lift, particles, batch, quiz: Quiz::random() }
    }
}

} // verus!
