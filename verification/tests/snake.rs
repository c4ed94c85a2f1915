use snek::snake::BodyPiece;
use snek::snake::Direction;
use snek::snake::Snek;

fn snake_of(cells: &[(u32, u32)], facing: Direction) -> Snek {
    let mut body: Vec<BodyPiece> = Vec::new();
    for &(x, y) in cells {
        body.push(BodyPiece(x, y));
    }
    Snek { body, facing }
}

#[test]
fn heading_request_opposite_is_ignored() {
    let mut s = snake_of(&[(2, 2), (2, 1)], Direction::Down);
    s.set_heading(Direction::Up);
    assert_eq!(s.facing, Direction::Down);
    assert_eq!(s.body, vec![BodyPiece(2, 2), BodyPiece(2, 1)]);
}

#[test]
fn heading_request_sideways_is_applied() {
    let mut s = snake_of(&[(2, 2)], Direction::Right);
    s.set_heading(Direction::Up);
    assert_eq!(s.facing, Direction::Up);
    s.set_heading(Direction::Left);
    assert_eq!(s.facing, Direction::Left);
    s.set_heading(Direction::Right);
    assert_eq!(s.facing, Direction::Left);
}

#[test]
fn update_without_growth_keeps_length() {
    let mut s = snake_of(&[(1, 1), (0, 1)], Direction::Right);
    assert!(s.update(false, 8, 8));
    assert_eq!(s.body, vec![BodyPiece(2, 1), BodyPiece(1, 1)]);
}

#[test]
fn update_with_growth_adds_one() {
    let mut s = snake_of(&[(1, 1), (0, 1)], Direction::Right);
    assert!(s.update(true, 8, 8));
    assert_eq!(s.body, vec![BodyPiece(2, 1), BodyPiece(1, 1), BodyPiece(0, 1)]);
}

#[test]
fn moving_into_vacated_tail_cell_is_legal() {
    let mut s = snake_of(&[(0, 0), (1, 0)], Direction::Right);
    assert!(s.update(false, 4, 4));
    assert_eq!(s.body, vec![BodyPiece(1, 0), BodyPiece(0, 0)]);
}

#[test]
fn self_collision_ends_the_game() {
    let mut s = snake_of(&[(1, 1), (1, 2), (2, 2), (2, 1)], Direction::Down);
    assert!(!s.update(false, 4, 4));
}

#[test]
fn wall_hit_right() {
    let mut s = snake_of(&[(3, 1)], Direction::Right);
    assert!(!s.update(false, 4, 4));
    assert_eq!(s.body, vec![BodyPiece(3, 1)]);
}

#[test]
fn wall_hit_left() {
    let mut s = snake_of(&[(0, 1)], Direction::Left);
    assert!(!s.update(false, 4, 4));
}

#[test]
fn wall_hit_up() {
    let mut s = snake_of(&[(1, 0)], Direction::Up);
    assert!(!s.update(false, 4, 4));
}

#[test]
fn wall_hit_down() {
    let mut s = snake_of(&[(1, 3)], Direction::Down);
    assert!(!s.update(false, 4, 4));
}

#[test]
fn is_collide_finds_every_segment() {
    let s = snake_of(&[(1, 1), (1, 2), (2, 2)], Direction::Up);
    assert!(s.is_collide(1, 1));
    assert!(s.is_collide(1, 2));
    assert!(s.is_collide(2, 2));
    assert!(!s.is_collide(2, 1));
    assert!(!s.is_collide(0, 0));
}
