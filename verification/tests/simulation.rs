use snek::game::{Coords, Dir, GameConf, GameState, GameStatus};

fn conf(width: usize, height: usize, length: usize, food_n: u32) -> GameConf {
    GameConf {
        food_to_speed_up: 4,
        food_n,
        initial_speed: 6,
        height,
        width,
        initial_length: length,
        seed: 42,
        solid_walls: false,
    }
}

#[test]
fn initial_snake_lies_on_middle_row_heading_right() {
    let game = GameState::new(conf(10, 10, 3, 0));
    let snake = game.snake_iter();
    assert_eq!(snake.len(), 3);
    // head at ((w-1)/2 + len/2, h/2), body extending left
    assert_eq!(snake[0], Coords { x: 5, y: 5 });
    assert_eq!(snake[1], Coords { x: 4, y: 5 });
    assert_eq!(snake[2], Coords { x: 3, y: 5 });
    assert_eq!(game.snake_dir(), Dir::Right);
    assert_eq!(game.status(), GameStatus::Ongoing);
    assert_eq!(game.score(), 0);
}

#[test]
fn construction_places_requested_food_on_free_cells() {
    let game = GameState::new(conf(10, 10, 3, 4));
    assert_eq!(game.food().len(), 4);
    let snake = game.snake_iter();
    let mut seen: Vec<Coords> = Vec::new();
    for f in game.food() {
        assert!(f.pos.x < 10 && f.pos.y < 10);
        assert!(!snake.contains(&f.pos));
        assert!(!seen.contains(&f.pos));
        seen.push(f.pos);
    }
}

#[test]
fn plain_step_advances_without_growing() {
    let mut game = GameState::new(conf(10, 10, 3, 0));
    game.make_step(None);
    let snake = game.snake_iter();
    assert_eq!(snake.len(), 3);
    assert_eq!(snake[0], Coords { x: 6, y: 5 });
    assert_eq!(snake[1], Coords { x: 5, y: 5 });
    assert_eq!(snake[2], Coords { x: 4, y: 5 });
    assert_eq!(game.status(), GameStatus::Ongoing);
}

#[test]
fn wrapping_walls_carry_the_head_to_the_far_side() {
    let mut game = GameState::new(conf(8, 5, 3, 0));
    // head starts at x = (8-1)/2 + 3/2 = 4; four steps reach the edge,
    // the fifth wraps to column zero
    for _ in 0..4 {
        game.make_step(None);
        assert_eq!(game.status(), GameStatus::Ongoing);
    }
    assert_eq!(game.snake_iter()[0], Coords { x: 0, y: 2 });
    assert_eq!(game.status(), GameStatus::Ongoing);
}

#[test]
fn moving_into_the_vacated_tail_cell_is_not_fatal() {
    // length-two snake: turning back on the same axis is impossible, but
    // the simulation applies whatever turn it is handed, and the tail
    // cell is vacated before the collision test
    let mut game = GameState::new(conf(5, 5, 2, 0));
    let snake = game.snake_iter();
    let head = snake[0];
    let tail = snake[1];
    assert_eq!(tail, Coords { x: head.x - 1, y: head.y });
    game.make_step(Some(Dir::Left));
    assert_eq!(game.status(), GameStatus::Ongoing);
    let after = game.snake_iter();
    assert_eq!(after[0], tail);
    assert_eq!(after[1], head);
}

#[test]
fn moving_into_another_body_cell_is_fatal_and_mutates_nothing_else() {
    // length-four snake: turning back lands on the second body element,
    // which stays occupied
    let mut game = GameState::new(conf(10, 10, 4, 0));
    let before = game.snake_iter();
    let food_before = game.food().len();
    let score_before = game.score();
    game.make_step(Some(Dir::Left));
    assert_eq!(game.status(), GameStatus::Dead);
    // the tail had already been removed when the collision was found
    let after = game.snake_iter();
    assert_eq!(after.len(), before.len() - 1);
    assert_eq!(&before[..3], &after[..]);
    assert_eq!(game.food().len(), food_before);
    assert_eq!(game.score(), score_before);
}

#[test]
fn solid_wall_hit_dies_on_the_exact_tick() {
    // 10 by 10 board, solid walls, snake of three spawned horizontally:
    // the head starts at column 5 and may advance to column 9; the step
    // that would leave the board kills
    let mut game = GameState::new(GameConf {
        food_to_speed_up: 4,
        food_n: 0,
        initial_speed: 6,
        height: 10,
        width: 10,
        initial_length: 3,
        seed: 7,
        solid_walls: true,
    });
    for expected_x in 6..10 {
        game.make_step(None);
        assert_eq!(game.status(), GameStatus::Ongoing);
        assert_eq!(game.snake_iter()[0], Coords { x: expected_x, y: 5 });
    }
    let before = game.snake_iter();
    game.make_step(None);
    assert_eq!(game.status(), GameStatus::Dead);
    // a wall death mutates nothing beside the status
    assert_eq!(game.snake_iter(), before);
    assert_eq!(game.score(), 0);
}

#[test]
fn full_board_at_construction_is_an_immediate_win() {
    // two cells, snake of two: no cell is left for the requested food
    let game = GameState::new(conf(2, 1, 2, 1));
    assert_eq!(game.status(), GameStatus::Win);
    assert_eq!(game.food().len(), 0);
    assert_eq!(game.snake_iter().len(), 2);
}

#[test]
fn eating_grows_scores_and_speeds_up() {
    // 4 by 1 board: the snake of three fills columns 0..=2 and the one
    // free cell holds the only food; eating it fills the board and wins
    let mut game = GameState::new(GameConf {
        food_to_speed_up: 1,
        food_n: 1,
        initial_speed: 6,
        height: 1,
        width: 4,
        initial_length: 3,
        seed: 3,
        solid_walls: true,
    });
    assert_eq!(game.status(), GameStatus::Ongoing);
    assert_eq!(game.food().len(), 1);
    assert_eq!(game.food()[0].pos, Coords { x: 3, y: 0 });
    game.make_step(None);
    assert_eq!(game.score(), 1);
    assert_eq!(game.snake_iter().len(), 4);
    // threshold one: speed is the initial speed plus the score
    assert_eq!(game.expected_frametime(), 1_000_000_000 / 7);
    assert_eq!(game.status(), GameStatus::Win);
    assert_eq!(game.food().len(), 0);
}

#[test]
fn speed_saturates_near_the_maximum() {
    let mut game = GameState::new(GameConf {
        food_to_speed_up: 1,
        food_n: 1,
        initial_speed: u32::MAX,
        height: 1,
        width: 4,
        initial_length: 3,
        seed: 3,
        solid_walls: true,
    });
    game.make_step(None);
    assert_eq!(game.score(), 1);
    assert_eq!(game.expected_frametime(), 1_000_000_000 / (u32::MAX as u64));
}

#[test]
fn zero_threshold_never_changes_speed() {
    let mut game = GameState::new(GameConf {
        food_to_speed_up: 0,
        food_n: 1,
        initial_speed: 9,
        height: 1,
        width: 4,
        initial_length: 3,
        seed: 3,
        solid_walls: true,
    });
    game.make_step(None);
    assert_eq!(game.score(), 1);
    assert_eq!(game.expected_frametime(), 1_000_000_000 / 9);
}

#[test]
fn same_seed_gives_the_same_trajectory() {
    let mut a = GameState::new(conf(12, 9, 3, 3));
    let mut b = GameState::new(conf(12, 9, 3, 3));
    let turns = [
        None,
        Some(Dir::Up),
        None,
        Some(Dir::Left),
        None,
        Some(Dir::Down),
        None,
    ];
    for t in turns {
        if a.status() != GameStatus::Ongoing {
            break;
        }
        a.make_step(t);
        b.make_step(t);
        assert_eq!(a.snake_iter(), b.snake_iter());
        assert_eq!(a.score(), b.score());
        assert_eq!(a.status(), b.status());
        assert_eq!(a.food().len(), b.food().len());
        for (fa, fb) in a.food().iter().zip(b.food().iter()) {
            assert_eq!(fa.pos, fb.pos);
            assert_eq!(fa.id, fb.id);
        }
    }
}

#[test]
fn placement_with_one_free_cell_returns_that_cell() {
    // 3 by 1 board, snake of two on columns 1 and 2: only (0, 0) is free
    let mut game = GameState::new(conf(3, 1, 2, 0));
    let placed = game.find_new_food_place().expect("one cell is free");
    assert_eq!(placed.pos, Coords { x: 0, y: 0 });
}

#[test]
fn placement_with_no_free_cell_returns_nothing() {
    // 2 by 1 board, snake of two: the board is full
    let mut game = GameState::new(conf(2, 1, 2, 0));
    assert!(game.find_new_food_place().is_none());
}
