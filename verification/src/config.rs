//! The fixed rules of the game and the values a service is set up with.

use vstd::prelude::*;

verus! {

/// Side length of the square board.
pub const BOARD_SIZE: usize = 5;

/// Number of equal pieces in an unbroken line that wins a game.
pub const WIN_LENGTH: usize = 5;

/// Most turns a game can take: one per cell.
pub const MAX_NUM_TURNS: u64 = 25;

/// Denominator of every rate: rates are given in basis points.
pub const BASIS_P: u32 = 10_000;

/// Smallest service fee rate accepted, in basis points.
pub const MIN_FEES: u32 = 10;

/// Largest service fee rate accepted, in basis points.
pub const MAX_FEES: u32 = 1_000;

/// Shortest whole-game time limit accepted, in seconds.
pub const MIN_GAME_DURATION_SEC: u32 = 100;

/// Longest whole-game time limit accepted, in seconds.
pub const MAX_GAME_DURATION_SEC: u32 = 3_600;

/// Time, in nanoseconds, that a waiting registration may outlive the whole-game
/// limit before it is swept.
pub const GRACE_WINDOW: u64 = 300_000_000_000;

/// Upper bound, in nanoseconds, on the time any registration can wait, whatever
/// whole-game limit the service was set up with.
pub const MAX_TIME_TO_BE_AVAILABLE: u64 = 3_900_000_000_000;

/// One unit of the native token, in its smallest denomination.
pub const ONE_NEAR: u128 = 1_000_000_000_000_000_000_000_000;

/// Smallest deposit of the native token accepted by a registration.
pub const MIN_DEPOSIT_NEAR: u128 = 10_000_000_000_000_000_000_000;

/// Share of the service fee that goes to referrers unless set otherwise, in
/// basis points.
pub const DEFAULT_REFERRER_RATIO: u32 = 9_500;

/// Whole-game time limit unless set otherwise, in seconds.
pub const DEFAULT_GAME_DURATION_SEC: u32 = 3_600;

/// Number of finished games kept for display unless set otherwise.
pub const DEFAULT_STORED_GAMES: u8 = 50;

/// The values a service is set up with.
#[derive(Clone, Copy, Debug, PartialEq, Eq, Structural)]
pub struct Config {
    /// Service fee rate, in basis points of the combined stake.
    pub service_fee_percentage: u32,
    /// Share of the service fee that goes to referrers, in basis points.
    pub referrer_ratio: u32,
    /// Whole-game time limit, in seconds.
    pub max_game_duration_sec: u32,
    /// Number of finished games kept for display.
    pub max_stored_games: u8,
}

impl Config {
    /// Whether the values are within their limits.
    pub open spec fn valid(self) -> bool {
        &&& MIN_FEES <= self.service_fee_percentage <= MAX_FEES
        &&& self.referrer_ratio <= BASIS_P
        &&& MIN_GAME_DURATION_SEC <= self.max_game_duration_sec <= MAX_GAME_DURATION_SEC
    }

    /// Computes [`Config::valid`].
    pub fn is_valid(&self) -> (r: bool)
        ensures
            r == self.valid(),
    {
        MIN_FEES <= self.service_fee_percentage && self.service_fee_percentage <= MAX_FEES && self.referrer_ratio
            <= BASIS_P && MIN_GAME_DURATION_SEC <= self.max_game_duration_sec && self.max_game_duration_sec
            <= MAX_GAME_DURATION_SEC
    }

    /// The values used when none are given: the largest fee, most of it for
    /// referrers, games of up to an hour, and the last fifty games on display.
    pub open spec fn standard() -> Config {
        Config {
            service_fee_percentage: MAX_FEES,
            referrer_ratio: DEFAULT_REFERRER_RATIO,
            max_game_duration_sec: DEFAULT_GAME_DURATION_SEC,
            max_stored_games: DEFAULT_STORED_GAMES,
        }
    }

    /// The values used when none are given.
    pub fn default_values() -> (config: Config)
        ensures
            config == Config::standard(),
            config.valid(),
    {
        Config {
            service_fee_percentage: MAX_FEES,
            referrer_ratio: DEFAULT_REFERRER_RATIO,
            max_game_duration_sec: DEFAULT_GAME_DURATION_SEC,
            max_stored_games: DEFAULT_STORED_GAMES,
        }
    }
}

} // verus!
