use snek::food::Meal;
use snek::game::Game;
use snek::snake::BodyPiece;
use snek::snake::Direction;
use snek::snake::Snek;

fn game_of(
    cols: u32,
    rows: u32,
    cells: &[(u32, u32)],
    facing: Direction,
    ate: bool,
    target: (u32, u32),
    score: u32,
) -> Game {
    let mut body: Vec<BodyPiece> = Vec::new();
    for &(x, y) in cells {
        body.push(BodyPiece(x, y));
    }
    Game {
        rows,
        cols,
        snek: Snek { body, facing },
        ate,
        square_width: 8,
        target: Meal { x: target.0, y: target.1 },
        score,
    }
}

#[test]
fn new_game_matches_the_fixed_start() {
    let g = Game::new(64, 32, 8);
    assert_eq!(g.cols, 64);
    assert_eq!(g.rows, 32);
    assert_eq!(g.square_width, 8);
    assert_eq!(g.snek.body, vec![BodyPiece(32, 16)]);
    assert_eq!(g.snek.facing, Direction::Right);
    assert!(!g.ate);
    assert_eq!((g.target.x, g.target.y), (1, 1));
    assert_eq!(g.score, 0);
}

#[test]
fn eating_grows_and_scores_one_tick_late() {
    let mut g = game_of(4, 4, &[(1, 1)], Direction::Right, false, (2, 1), 0);

    assert!(g.update());
    assert_eq!(g.snek.body, vec![BodyPiece(2, 1)]);
    assert!(g.ate);
    assert_eq!(g.score, 0);
    assert_ne!((g.target.x, g.target.y), (2, 1));
    assert!(g.target.x < 4 && g.target.y < 4);

    assert!(g.update());
    assert_eq!(g.snek.body.len(), 2);
    assert_eq!(g.snek.body[0], BodyPiece(3, 1));
    assert_eq!(g.snek.body[1], BodyPiece(2, 1));
    assert_eq!(g.score, 1);
}

#[test]
fn wall_collision_is_game_over_and_keeps_score() {
    let mut g = game_of(4, 4, &[(3, 1)], Direction::Right, false, (0, 0), 7);
    assert!(!g.update());
    assert_eq!(g.score, 7);
    assert_eq!(g.snek.body, vec![BodyPiece(3, 1)]);
    assert!(!g.ate);
}

#[test]
fn opposite_press_is_ignored() {
    let mut g = game_of(4, 4, &[(2, 2), (2, 1)], Direction::Down, false, (0, 0), 0);
    g.pressed(Direction::Up);
    assert_eq!(g.snek.facing, Direction::Down);
    g.pressed(Direction::Left);
    assert_eq!(g.snek.facing, Direction::Left);
}

#[test]
fn self_collision_is_game_over() {
    let mut g = game_of(
        4,
        4,
        &[(1, 1), (1, 2), (2, 2), (2, 1)],
        Direction::Down,
        false,
        (0, 0),
        2,
    );
    assert!(!g.update());
    assert_eq!(g.score, 2);
}

#[test]
fn meal_stays_put_when_the_snake_fills_the_grid() {
    let mut g = game_of(2, 1, &[(0, 0)], Direction::Right, true, (1, 0), 0);
    assert!(g.update());
    assert_eq!(g.snek.body, vec![BodyPiece(1, 0), BodyPiece(0, 0)]);
    assert_eq!(g.score, 1);
    assert!(g.ate);
    assert_eq!((g.target.x, g.target.y), (1, 0));
}

#[test]
fn missing_the_meal_leaves_it_alone() {
    let mut g = game_of(4, 4, &[(1, 1)], Direction::Down, false, (3, 3), 0);
    assert!(g.update());
    assert!(!g.ate);
    assert_eq!((g.target.x, g.target.y), (3, 3));
    assert_eq!(g.score, 0);
}

#[test]
fn pending_growth_scores_even_without_a_new_meal() {
    let mut g = game_of(4, 4, &[(0, 0)], Direction::Down, true, (3, 3), 4);
    assert!(g.update());
    assert_eq!(g.snek.body, vec![BodyPiece(0, 1), BodyPiece(0, 0)]);
    assert_eq!(g.score, 5);
    assert!(!g.ate);
}
