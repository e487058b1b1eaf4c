use snek::game::{Dir, GameConf, GameState};
use snek::input::InputBuffer;

fn game_heading_right() -> GameState {
    GameState::new(GameConf {
        food_to_speed_up: 4,
        food_n: 0,
        initial_speed: 6,
        height: 10,
        width: 10,
        initial_length: 3,
        seed: 1,
        solid_walls: false,
    })
}

#[test]
fn non_perpendicular_offer_to_empty_buffer_is_rejected() {
    let game = game_heading_right();
    let mut buf = InputBuffer::new();
    buf.buffer_input(&game, Dir::Right);
    assert_eq!(buf.turn_to_do(Dir::Right), None);
    let mut buf = InputBuffer::new();
    buf.buffer_input(&game, Dir::Left);
    assert_eq!(buf.turn_to_do(Dir::Right), None);
}

#[test]
fn perpendicular_offer_to_empty_buffer_is_queued() {
    let game = game_heading_right();
    let mut buf = InputBuffer::new();
    buf.buffer_input(&game, Dir::Up);
    assert_eq!(buf.turn_to_do(Dir::Right), Some(Dir::Up));
    assert_eq!(buf.turn_to_do(Dir::Right), None);
}

#[test]
fn duplicate_offer_is_queued_once() {
    let game = game_heading_right();
    let mut buf = InputBuffer::new();
    buf.buffer_input(&game, Dir::Up);
    buf.buffer_input(&game, Dir::Up);
    assert_eq!(buf.turn_to_do(Dir::Right), Some(Dir::Up));
    assert_eq!(buf.turn_to_do(Dir::Right), None);
}

#[test]
fn next_turn_skips_entries_no_longer_perpendicular() {
    let game = game_heading_right();
    let mut buf = InputBuffer::new();
    buf.buffer_input(&game, Dir::Up);
    buf.buffer_input(&game, Dir::Left);
    // by the time the turn is consumed the snake already moves up, so
    // the queued upward turn is stale and the left turn is valid
    assert_eq!(buf.turn_to_do(Dir::Up), Some(Dir::Left));
    assert_eq!(buf.turn_to_do(Dir::Left), None);
}

#[test]
fn next_turn_never_returns_current_or_its_reversal() {
    let game = game_heading_right();
    for offered in [Dir::Left, Dir::Right, Dir::Up, Dir::Down] {
        let mut buf = InputBuffer::new();
        buf.buffer_input(&game, offered);
        for current in [Dir::Left, Dir::Right, Dir::Up, Dir::Down] {
            let mut probe = InputBuffer::new();
            probe.buffer_input(&game, offered);
            if let Some(turn) = probe.turn_to_do(current) {
                assert_ne!(turn, current);
                let reversal = match current {
                    Dir::Left => Dir::Right,
                    Dir::Right => Dir::Left,
                    Dir::Up => Dir::Down,
                    Dir::Down => Dir::Up,
                };
                assert_ne!(turn, reversal);
            }
        }
    }
}

#[test]
fn full_buffer_drops_further_offers() {
    let game = game_heading_right();
    let mut buf = InputBuffer::new();
    // alternate perpendicular-looking directions so each offer differs
    // from the last queued one; capacity is five
    buf.buffer_input(&game, Dir::Up);
    buf.buffer_input(&game, Dir::Down);
    buf.buffer_input(&game, Dir::Up);
    buf.buffer_input(&game, Dir::Down);
    buf.buffer_input(&game, Dir::Up);
    buf.buffer_input(&game, Dir::Down);
    let mut handed: u32 = 0;
    while buf.turn_to_do(Dir::Right).is_some() {
        handed += 1;
    }
    assert_eq!(handed, 5);
}
