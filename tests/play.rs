use dino_game::draws::{Draws, ParticleDraw};
use dino_game::entity::{Entity, BONUS_SIZE};
use dino_game::game::{
    add_rewards, particle_from, Game, Input, Lifecycle, BONUS_EXIT, BONUS_TOP, OBSTACLE_EXIT,
    OBSTACLE_Y, PAIR_OFFSET,
};
use dino_game::quiz::{Operation, Quiz};
use dino_game::world::{overlaps, Player, Rect, GROUND_Y, GROUND_Y2, STANDING_Y, UNIT};

fn quiet() -> Draws {
    Draws {
        obstacle: false,
        pair: false,
        bonus: false,
        bonus_lift: 0,
        particles: false,
        batch: Vec::new(),
        quiz: Quiz::new(Operation::Add, 10, 10),
    }
}

fn no_input() -> Input {
    Input { jump: false, digits: Vec::new(), backspace: false, submit: false, cancel: false, restart: false }
}

fn jump() -> Input {
    Input { jump: true, ..no_input() }
}

#[test]
fn obstacle_culled_after_four_point_one_seconds() {
    let mut g = Game::new(800 * UNIT);
    g.step(2401, &no_input(), quiet());
    assert!(g.obstacles.is_empty());
    // The spawner fires in this frame; the new obstacle starts at x = 800
    // and has already moved 20 units by the end of the frame.
    g.step(100, &no_input(), Draws { obstacle: true, ..quiet() });
    assert_eq!(g.obstacles, vec![Entity { x: 780 * UNIT, y: OBSTACLE_Y }]);
    let mut t = 100;
    while t < 4200 {
        let input = if t + 100 == 3100 { jump() } else { no_input() };
        g.step(100, &input, quiet());
        t += 100;
        assert_eq!(g.lifecycle(), Lifecycle::Playing, "hit at t = {}", t);
        if t == 4000 {
            assert_eq!(g.obstacles, vec![Entity { x: 0, y: OBSTACLE_Y }]);
            assert_eq!(g.score, 0);
        }
        if t == 4100 {
            assert!(g.obstacles.is_empty());
            assert_eq!(g.score, 10);
        }
    }
    assert_eq!(t, 4200);
    assert!(g.obstacles.is_empty());
    assert_eq!(g.score, 10);
}

#[test]
fn pair_spawns_side_by_side() {
    let mut g = Game::new(800 * UNIT);
    g.step(2500, &no_input(), quiet());
    g.step(5, &no_input(), Draws { obstacle: true, pair: true, ..quiet() });
    assert_eq!(
        g.obstacles,
        vec![
            Entity { x: 799 * UNIT, y: OBSTACLE_Y },
            Entity { x: 800 * UNIT + PAIR_OFFSET - UNIT, y: OBSTACLE_Y },
        ]
    );
    assert_eq!(g.obstacle_clock, 0);
}

#[test]
fn spawner_does_not_fire_at_its_period() {
    let mut g = Game::new(800 * UNIT);
    g.step(2500, &no_input(), Draws { obstacle: true, ..quiet() });
    assert!(g.obstacles.is_empty());
    assert_eq!(g.obstacle_clock, 2500);
    assert_eq!(g.bonus_clock, 0);
    assert_eq!(g.particle_clock, 0);
}

#[test]
fn bonus_collected_scores_five() {
    let mut g = Game::new(130 * UNIT);
    g.step(1500, &no_input(), quiet());
    g.step(1, &no_input(), Draws { bonus: true, bonus_lift: 0, ..quiet() });
    assert!(g.bonuses.is_empty());
    assert_eq!(g.score, 5);
}

#[test]
fn bonus_out_of_reach_scrolls_away() {
    let mut g = Game::new(800 * UNIT);
    g.step(1500, &no_input(), quiet());
    g.step(1, &no_input(), Draws { bonus: true, bonus_lift: 59 * UNIT, ..quiet() });
    assert_eq!(g.bonuses, vec![Entity { x: 800 * UNIT - 200_000, y: BONUS_TOP - 59 * UNIT }]);
    for _ in 0..41 {
        g.step(100, &no_input(), quiet());
        assert!(g.bonuses.iter().all(|b| b.x > BONUS_EXIT));
    }
    assert!(g.bonuses.is_empty());
    assert_eq!(g.score, 0);
    assert!(BONUS_SIZE > 0);
}

#[test]
fn jump_rises_and_lands() {
    let mut p = Player::grounded();
    p.step(100, true);
    assert_eq!(p.velocity, -320_000);
    assert_eq!(p.y, STANDING_Y - 32 * UNIT);
    assert!(p.airborne);
    // A second jump in the air is ignored.
    p.step(100, true);
    assert_eq!(p.velocity, -240_000);
    assert_eq!(p.y, STANDING_Y - 56 * UNIT);
    let mut frames = 0;
    while p.airborne {
        p.step(100, false);
        assert!(p.y <= STANDING_Y);
        frames += 1;
    }
    assert_eq!(frames, 7);
    assert_eq!(p, Player::grounded());
}

#[test]
fn zero_time_keeps_a_standing_player() {
    let mut p = Player::grounded();
    p.step(0, false);
    assert_eq!(p, Player::grounded());
}

#[test]
fn long_frame_lands_the_player() {
    let mut p = Player::grounded();
    p.step(2000, true);
    assert_eq!(p, Player::grounded());
}

#[test]
fn touching_boxes_overlap() {
    let a = Rect { x: 0, y: 0, w: 10, h: 10 };
    assert!(overlaps(&a, &Rect { x: 10, y: 10, w: 5, h: 5 }));
    assert!(!overlaps(&a, &Rect { x: 11, y: 0, w: 5, h: 5 }));
    assert!(!overlaps(&a, &Rect { x: 0, y: -6, w: 5, h: 5 }));
}

#[test]
fn particles_take_their_band_tint() {
    let d = ParticleDraw {
        between: true,
        upper: true,
        depth: 5 * UNIT,
        jitter: -8 * UNIT,
        dx: 10 * UNIT,
        size: 2 * UNIT,
        bright: 3,
        muted: 8,
    };
    let p = particle_from(&d, 800 * UNIT);
    assert_eq!((p.x, p.y, p.size, p.tint), (810 * UNIT, GROUND_Y + 5 * UNIT, 2 * UNIT, 3));
    let near = particle_from(&ParticleDraw { between: false, ..d }, 800 * UNIT);
    assert_eq!((near.y, near.tint), (GROUND_Y - 8 * UNIT, 8));
    let inside = particle_from(&ParticleDraw { between: false, jitter: 11 * UNIT, ..d }, 0);
    assert_eq!((inside.y, inside.tint), (GROUND_Y + 11 * UNIT, 3));
    let low = particle_from(&ParticleDraw { between: false, upper: false, ..d }, 0);
    assert_eq!((low.y, low.tint), (GROUND_Y2 - 8 * UNIT, 3));
    let edge = particle_from(&ParticleDraw { between: false, upper: false, jitter: 0, ..d }, 0);
    assert_eq!((edge.y, edge.tint), (GROUND_Y2, 8));
}

#[test]
fn particles_spawn_and_scroll_off() {
    let mut g = Game::new(800 * UNIT);
    let d = ParticleDraw {
        between: true,
        upper: true,
        depth: 20 * UNIT,
        jitter: 0,
        dx: 0,
        size: 3 * UNIT,
        bright: 1,
        muted: 7,
    };
    g.step(201, &no_input(), Draws { particles: true, batch: vec![d; 5], ..quiet() });
    assert_eq!(g.particles.len(), 5);
    assert_eq!(g.particles[0].x, 800 * UNIT - 201 * 200_000);
    for _ in 0..5 {
        g.step(1000, &no_input(), quiet());
    }
    assert!(g.particles.is_empty());
    assert_eq!(g.score, 0);
}

#[test]
fn score_is_held_at_its_largest() {
    assert_eq!(add_rewards(7, 2, 3), 42);
    assert_eq!(add_rewards(u64::MAX - 1, 1, 0), u64::MAX);
    assert_eq!(add_rewards(u64::MAX, 0, 1), u64::MAX);
}

#[test]
fn random_frames_keep_the_invariants() {
    let mut g = Game::new(800 * UNIT);
    let mut score = 0;
    for i in 0..3000u32 {
        let input = Input { jump: i % 7 == 0, ..no_input() };
        g.advance(16 + i % 40, &input);
        assert!(g.player.y <= STANDING_Y);
        assert!(g.score >= score);
        score = g.score;
        assert!(g.obstacles.iter().all(|o| o.x > OBSTACLE_EXIT));
        assert!(g.bonuses.iter().all(|b| b.x > BONUS_EXIT));
        if g.lifecycle() != Lifecycle::Playing {
            let q = g.question().unwrap();
            assert!(q.ends_with(" = ?"));
            let cancel = Input { cancel: true, ..no_input() };
            g.advance(16, &cancel);
            assert_eq!(g.lifecycle(), Lifecycle::Over);
            g.advance(16, &Input { restart: true, ..no_input() });
            assert_eq!(g.lifecycle(), Lifecycle::Playing);
            score = g.score;
        }
    }
}

#[test]
fn without_jumps_the_player_stays_on_the_ground() {
    let mut g = Game::new(800 * UNIT);
    for i in 0..2000u32 {
        g.advance(1 + i % 100, &no_input());
        assert_eq!(g.player.y, STANDING_Y);
        assert!(g.score % 5 == 0);
    }
}

#[test]
fn rolled_draws_are_in_range() {
    let mut pairs = 0;
    for _ in 0..500 {
        let d = Draws::roll();
        assert!((4..8).contains(&d.batch.len()));
        assert!((0..60 * UNIT).contains(&d.bonus_lift));
        for p in &d.batch {
            assert!(p.bright < 7 && (7..9).contains(&p.muted));
        }
        if d.obstacle {
            pairs += 1;
        }
    }
    assert!(pairs > 0 && pairs < 500);
}
