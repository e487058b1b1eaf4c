use snek::conf::{create_game_conf, ConfError};

#[test]
fn valid_parameters_build_the_config() {
    let conf = create_game_conf(25, 15, 6, 3, 1, 4, 9, false).expect("valid");
    assert_eq!(conf.width, 25);
    assert_eq!(conf.height, 15);
    assert_eq!(conf.initial_speed, 6);
    assert_eq!(conf.initial_length, 3);
    assert_eq!(conf.food_n, 1);
    assert_eq!(conf.food_to_speed_up, 4);
    assert_eq!(conf.seed, 9);
    assert!(!conf.solid_walls);
}

#[test]
fn zero_height_is_rejected_first() {
    assert_eq!(
        create_game_conf(0, 0, 0, 0, 1, 4, 9, false),
        Err(ConfError::ZeroHeight)
    );
}

#[test]
fn zero_width_is_rejected() {
    assert_eq!(
        create_game_conf(0, 15, 6, 3, 1, 4, 9, false),
        Err(ConfError::ZeroWidth)
    );
}

#[test]
fn zero_speed_is_rejected() {
    assert_eq!(
        create_game_conf(25, 15, 0, 3, 1, 4, 9, false),
        Err(ConfError::ZeroSpeed)
    );
}

#[test]
fn zero_length_is_rejected() {
    assert_eq!(
        create_game_conf(25, 15, 6, 0, 1, 4, 9, false),
        Err(ConfError::ZeroLength)
    );
}

#[test]
fn overlong_snake_is_rejected() {
    assert_eq!(
        create_game_conf(25, 15, 6, 26, 1, 4, 9, false),
        Err(ConfError::LengthExceedsWidth)
    );
}

#[test]
fn oversized_board_is_rejected() {
    assert_eq!(
        create_game_conf(usize::MAX, 2, 6, 3, 1, 4, 9, false),
        Err(ConfError::BoardTooLarge)
    );
}

#[test]
fn nonzero_seed_is_kept() {
    let conf = create_game_conf(10, 10, 6, 3, 1, 4, 12345, true).expect("valid");
    assert_eq!(conf.seed, 12345);
    assert!(conf.solid_walls);
}
