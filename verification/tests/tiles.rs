use snek::field::{cell_at, derive_field, FieldCell};
use snek::game::{Dir, GameConf, GameState};

fn conf(width: usize, height: usize, length: usize, food_n: u32) -> GameConf {
    GameConf {
        food_to_speed_up: 4,
        food_n,
        initial_speed: 6,
        height,
        width,
        initial_length: length,
        seed: 11,
        solid_walls: false,
    }
}

#[test]
fn straight_snake_derives_head_body_tail() {
    // 4 by 3 board: snake (2,1) (1,1) (0,1) heading right
    let game = GameState::new(conf(4, 3, 3, 0));
    let screen = derive_field(&game);
    assert_eq!(cell_at(&screen, 1, 2), FieldCell::HeadRight);
    assert_eq!(cell_at(&screen, 1, 1), FieldCell::BodyHorizontal);
    assert_eq!(cell_at(&screen, 1, 0), FieldCell::TailLeft);
    for row in 0..3 {
        for col in 0..4 {
            if row != 1 || col > 2 {
                assert_eq!(cell_at(&screen, row, col), FieldCell::Empty);
            }
        }
    }
}

#[test]
fn turning_derives_a_corner() {
    let mut game = GameState::new(conf(4, 3, 3, 0));
    game.make_step(Some(Dir::Up));
    // snake is now (2,0) (2,1) (1,1)
    let screen = derive_field(&game);
    assert_eq!(cell_at(&screen, 0, 2), FieldCell::HeadUp);
    assert_eq!(cell_at(&screen, 1, 2), FieldCell::BodyDownRight);
    assert_eq!(cell_at(&screen, 1, 1), FieldCell::TailLeft);
}

#[test]
fn single_cell_snake_is_just_a_head() {
    let game = GameState::new(conf(3, 3, 1, 0));
    let screen = derive_field(&game);
    let snake = game.snake_iter();
    assert_eq!(snake.len(), 1);
    assert_eq!(
        cell_at(&screen, snake[0].y, snake[0].x),
        FieldCell::HeadRight
    );
}

#[test]
fn two_cell_snake_has_head_and_tail_only() {
    let game = GameState::new(conf(5, 3, 2, 0));
    let screen = derive_field(&game);
    let snake = game.snake_iter();
    assert_eq!(cell_at(&screen, snake[0].y, snake[0].x), FieldCell::HeadRight);
    assert_eq!(cell_at(&screen, snake[1].y, snake[1].x), FieldCell::TailLeft);
}

#[test]
fn vertical_body_derives_across_the_top_edge() {
    let mut game = GameState::new(conf(4, 3, 3, 0));
    game.make_step(Some(Dir::Up));
    // snake (2,0) (2,1) (1,1); moving up again wraps the head to the
    // bottom row, leaving a vertical middle piece on the seam
    game.make_step(None);
    // snake (2,2) (2,0) (2,1)
    let screen = derive_field(&game);
    assert_eq!(cell_at(&screen, 2, 2), FieldCell::HeadUp);
    assert_eq!(cell_at(&screen, 0, 2), FieldCell::BodyVertical);
    assert_eq!(cell_at(&screen, 1, 2), FieldCell::TailDown);
}

#[test]
fn food_cells_carry_their_identifier() {
    let game = GameState::new(conf(6, 6, 3, 2));
    let screen = derive_field(&game);
    for f in game.food() {
        assert_eq!(cell_at(&screen, f.pos.y, f.pos.x), FieldCell::Food(f.id));
    }
}

#[test]
fn wrap_adjacent_body_derives_across_the_edge() {
    // 4 by 3 wrapping board: walk the head across the right edge, then
    // the body spans the seam and the shapes still line up
    let mut game = GameState::new(conf(4, 3, 3, 0));
    game.make_step(None);
    // snake (3,1) (2,1) (1,1)
    game.make_step(None);
    // snake (0,1) (3,1) (2,1): head wrapped to column zero
    let screen = derive_field(&game);
    assert_eq!(cell_at(&screen, 1, 0), FieldCell::HeadRight);
    assert_eq!(cell_at(&screen, 1, 3), FieldCell::BodyHorizontal);
    assert_eq!(cell_at(&screen, 1, 2), FieldCell::TailLeft);
}
