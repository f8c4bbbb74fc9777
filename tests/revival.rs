use dino_game::draws::Draws;
use dino_game::entity::Entity;
use dino_game::game::{Game, Input, Lifecycle, Phase, GRACE_X, OBSTACLE_Y};
use dino_game::quiz::{read_digits, Operation, Quiz};
use dino_game::world::{STANDING_Y, UNIT};

fn quiet(quiz: Quiz) -> Draws {
    Draws {
        obstacle: false,
        pair: false,
        bonus: false,
        bonus_lift: 0,
        particles: false,
        batch: Vec::new(),
        quiz,
    }
}

fn no_input() -> Input {
    Input { jump: false, digits: Vec::new(), backspace: false, submit: false, cancel: false, restart: false }
}

fn typing(digits: Vec<u8>, submit: bool) -> Input {
    Input { digits, submit, ..no_input() }
}

/// A game whose first obstacle appears right on the player, so that the
/// revival challenge starts with `quiz`.
fn in_revival(quiz: Quiz, pair: bool) -> Game {
    let mut g = Game::new(130 * UNIT);
    g.step(2500, &no_input(), quiet(Quiz::new(Operation::Add, 10, 10)));
    assert_eq!(g.lifecycle(), Lifecycle::Playing);
    let d = Draws { obstacle: true, pair, ..quiet(quiz) };
    g.step(1, &no_input(), d);
    assert_eq!(g.lifecycle(), Lifecycle::Revival);
    g
}

#[test]
fn seven_times_eight_carries_fifty_six() {
    let q = Quiz::new(Operation::Multiply, 7, 8);
    assert_eq!(q.answer, 56);
    assert_eq!(q.question, "7 \u{d7} 8 = ?");
}

#[test]
fn right_answer_resumes_play() {
    let mut g = in_revival(Quiz::new(Operation::Multiply, 7, 8), false);
    assert_eq!(g.question(), Some("7 \u{d7} 8 = ?".to_string()));
    g.step(16, &typing(vec![5, 6], true), quiet(Quiz::new(Operation::Add, 10, 10)));
    assert_eq!(g.lifecycle(), Lifecycle::Playing);
    assert_eq!(g.player.y, STANDING_Y);
    assert_eq!(g.player.velocity, 0);
    assert!(!g.player.airborne);
    assert_eq!(g.question(), None);
}

#[test]
fn wrong_answer_asks_a_fresh_question() {
    let mut g = in_revival(Quiz::new(Operation::Multiply, 7, 8), false);
    g.step(16, &typing(vec![5, 7], true), quiet(Quiz::new(Operation::Subtract, 23, 9)));
    assert_eq!(g.lifecycle(), Lifecycle::Revival);
    assert_eq!(g.question(), Some("23 - 9 = ?".to_string()));
    assert_eq!(g.typed_answer(), Some(String::new()));
    match &g.phase {
        Phase::Revival { quiz, buffer } => {
            assert_eq!(quiz.answer, 14);
            assert!(buffer.is_empty());
        }
        _ => panic!("expected the revival challenge"),
    }
}

#[test]
fn empty_submit_asks_a_fresh_question() {
    let mut g = in_revival(Quiz::new(Operation::Multiply, 7, 8), false);
    g.step(16, &typing(Vec::new(), true), quiet(Quiz::new(Operation::Add, 12, 34)));
    assert_eq!(g.question(), Some("12 + 34 = ?".to_string()));
}

#[test]
fn buffer_holds_at_most_four_digits() {
    let mut g = in_revival(Quiz::new(Operation::Add, 10, 10), false);
    g.step(16, &typing(vec![1, 2, 3], false), quiet(Quiz::new(Operation::Add, 10, 10)));
    g.step(16, &typing(vec![4, 5, 6], false), quiet(Quiz::new(Operation::Add, 10, 10)));
    assert_eq!(g.typed_answer(), Some("1234".to_string()));
    let backspace = Input { backspace: true, ..no_input() };
    g.step(16, &backspace, quiet(Quiz::new(Operation::Add, 10, 10)));
    assert_eq!(g.typed_answer(), Some("123".to_string()));
}

#[test]
fn backspace_then_submit_in_one_frame() {
    let mut g = in_revival(Quiz::new(Operation::Add, 10, 10), false);
    let input = Input { digits: vec![2, 0, 9], backspace: true, submit: true, ..no_input() };
    g.step(16, &input, quiet(Quiz::new(Operation::Add, 10, 10)));
    assert_eq!(g.lifecycle(), Lifecycle::Playing);
}

#[test]
fn cancel_ends_the_game() {
    let mut g = in_revival(Quiz::new(Operation::Add, 10, 10), false);
    let cancel = Input { cancel: true, ..no_input() };
    g.step(16, &cancel, quiet(Quiz::new(Operation::Add, 10, 10)));
    assert_eq!(g.lifecycle(), Lifecycle::Over);
    assert_eq!(g.question(), None);
    // Nothing moves once over, and digits do nothing.
    let before = g.obstacles.clone();
    g.step(500, &typing(vec![2, 0], true), quiet(Quiz::new(Operation::Add, 10, 10)));
    assert_eq!(g.lifecycle(), Lifecycle::Over);
    assert_eq!(g.obstacles, before);
}

#[test]
fn restart_only_once_over() {
    let mut g = in_revival(Quiz::new(Operation::Add, 10, 10), false);
    let restart = Input { restart: true, ..no_input() };
    g.step(16, &restart, quiet(Quiz::new(Operation::Add, 10, 10)));
    assert_eq!(g.lifecycle(), Lifecycle::Revival);
    g.step(16, &Input { cancel: true, ..no_input() }, quiet(Quiz::new(Operation::Add, 10, 10)));
    g.step(16, &restart, quiet(Quiz::new(Operation::Add, 10, 10)));
    assert_eq!(g.lifecycle(), Lifecycle::Playing);
    assert!(g.obstacles.is_empty());
    assert_eq!(g.score, 0);
    assert_eq!(g.obstacle_clock, 16);
}

#[test]
fn revival_clears_obstacles_close_ahead() {
    let mut g = in_revival(Quiz::new(Operation::Multiply, 3, 4), true);
    assert_eq!(g.obstacles.len(), 2);
    g.obstacles.push(Entity { x: 215 * UNIT, y: OBSTACLE_Y });
    g.obstacles.push(Entity { x: 400 * UNIT, y: OBSTACLE_Y });
    g.step(16, &typing(vec![1, 2], true), quiet(Quiz::new(Operation::Add, 10, 10)));
    assert_eq!(g.lifecycle(), Lifecycle::Playing);
    assert_eq!(g.obstacles, vec![Entity { x: 400 * UNIT, y: OBSTACLE_Y }]);
    assert!(g.obstacles.iter().all(|o| o.x > GRACE_X));
}

#[test]
fn subtraction_never_goes_below_zero() {
    let q = Quiz::new(Operation::Subtract, 23, 22);
    assert_eq!(q.answer, 1);
    let mut seen = 0;
    for _ in 0..3000 {
        let q = Quiz::random();
        if q.op == Operation::Subtract {
            seen += 1;
            assert!(20 <= q.lhs && q.lhs < 99);
            assert!(10 <= q.rhs && q.rhs < q.lhs);
            assert_eq!(q.answer, q.lhs - q.rhs);
        }
    }
    assert!(seen > 0);
}

#[test]
fn random_questions_are_consistent() {
    let mut kinds = [false; 3];
    for _ in 0..3000 {
        let q = Quiz::random();
        let (a, b) = (q.lhs, q.rhs);
        match q.op {
            Operation::Add => {
                kinds[0] = true;
                assert!((10..99).contains(&a) && (10..99).contains(&b));
                assert_eq!(q.answer, a + b);
                assert_eq!(q.question, format!("{} + {} = ?", a, b));
            }
            Operation::Subtract => {
                kinds[1] = true;
                assert_eq!(q.answer, a - b);
                assert_eq!(q.question, format!("{} - {} = ?", a, b));
            }
            Operation::Multiply => {
                kinds[2] = true;
                assert!((2..10).contains(&a) && (2..10).contains(&b));
                assert_eq!(q.answer, a * b);
                assert_eq!(q.question, format!("{} \u{d7} {} = ?", a, b));
            }
        }
    }
    assert_eq!(kinds, [true, true, true]);
}

#[test]
fn digits_read_as_a_number() {
    assert_eq!(read_digits(&vec![0, 4, 2]), 42);
    assert_eq!(read_digits(&vec![9, 9, 9, 9]), 9999);
    assert_eq!(read_digits(&Vec::new()), 0);
}

#[test]
fn question_accepts_only_its_answer() {
    let q = Quiz::new(Operation::Add, 45, 67);
    assert!(q.accepts(&vec![1, 1, 2]));
    assert!(q.accepts(&vec![0, 1, 1, 2]));
    assert!(!q.accepts(&vec![1, 1, 3]));
    assert!(!q.accepts(&Vec::new()));
}
