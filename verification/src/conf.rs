//! Validation of game parameters before a game is built.
//!
//! The simulation assumes a well-formed configuration and does not
//! re-validate; this is the one place the checks happen. Each rejection
//! names the first check that failed, in a fixed order.

use crate::game::{conf_wf, GameConf};
use vstd::prelude::*;

verus! {

/// Why a configuration was rejected.
#[derive(Clone, Copy, Debug, PartialEq, Eq, Structural)]
pub enum ConfError {
    ZeroHeight,
    ZeroWidth,
    ZeroSpeed,
    ZeroLength,
    LengthExceedsWidth,
    BoardTooLarge,
}

/// The first validation failure for these parameters, checked in the
/// fixed order: height, width, speed, length, length against width, and
/// the machine bound on the cell count (the score and every cell index
/// must stay representable).
pub open spec fn conf_error_for(width: usize, height: usize, speed: u32, length: usize) -> ConfError {
    if height == 0 {
        ConfError::ZeroHeight
    } else if width == 0 {
        ConfError::ZeroWidth
    } else if speed == 0 {
        ConfError::ZeroSpeed
    } else if length == 0 {
        ConfError::ZeroLength
    } else if length > width {
        ConfError::LengthExceedsWidth
    } else {
        ConfError::BoardTooLarge
    }
}

/// Whether the parameters pass every validation.
pub open spec fn conf_acceptable(width: usize, height: usize, speed: u32, length: usize) -> bool {
    height > 0 && width > 0 && speed > 0 && length > 0 && length <= width && width * height
        <= u32::MAX
}

/// Validates the parameters and builds the game configuration. A zero
/// seed asks for a randomly drawn one; any other seed is kept as given,
/// so that equal seeds reproduce equal games.
pub fn create_game_conf(
    width: usize,
    height: usize,
    speed: u32,
    snake_length: usize,
    food_n: u32,
    food_to_speed_up: u32,
    seed: u64,
    solid_walls: bool,
) -> (r: Result<GameConf, ConfError>)
    ensures
        r is Ok <==> conf_acceptable(width, height, speed, snake_length),
        r matches Err(e) ==> e == conf_error_for(width, height, speed, snake_length),
        r matches Ok(conf) ==> conf_wf(conf) && conf.width == width && conf.height == height
            && conf.initial_speed == speed && conf.initial_length == snake_length && conf.food_n
            == food_n && conf.food_to_speed_up == food_to_speed_up && conf.solid_walls
            == solid_walls && (seed != 0 ==> conf.seed == seed),
{
    if height == 0 {
        return Err(ConfError::ZeroHeight);
    }
    if width == 0 {
        return Err(ConfError::ZeroWidth);
    }
    if speed == 0 {
        return Err(ConfError::ZeroSpeed);
    }
    if snake_length == 0 {
        return Err(ConfError::ZeroLength);
    }
    if snake_length > width {
        return Err(ConfError::LengthExceedsWidth);
    }
    let cells_ok = match width.checked_mul(height) {
        Some(p) => p <= u32::MAX as usize,
        None => false,
    };
    if !cells_ok {
        return Err(ConfError::BoardTooLarge);
    }
    let actual_seed = if seed == 0 {
        crate::rng::random_seed()
    } else {
        seed
    };
    Ok(
        GameConf {
            food_to_speed_up,
            food_n,
            initial_speed: speed,
            height,
            width,
            initial_length: snake_length,
            seed: actual_seed,
            solid_walls,
        },
    )
}

} // verus!
