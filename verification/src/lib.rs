//! A two-player, wager-backed board game run as a ledger-hosted service.
//!
//! Accounts stake a deposit and wait in a matchmaking queue, are paired into a
//! game session, move in turn under per-turn and whole-game time limits, and the
//! combined stake is settled when the session ends. Every operation is a total
//! function of the service state and of plain values supplied by the host (the
//! calling account, the attached deposit, the block time, one byte of block
//! randomness); payouts leave the service as queued transfer requests.

pub mod account;
pub mod archive;
pub mod board;
pub mod config;
pub mod contract;
pub mod error;
pub mod game;
pub mod game_config;
pub mod laws;
pub mod reward;
pub mod state;
pub mod stats;
pub mod table;
pub mod transfer;
pub mod utils;
pub mod views;

pub use account::AccountId;
pub use board::{Board, MoveError, Piece, Winner};
pub use config::Config;
pub use contract::Contract;
pub use error::{ContractError, ErrorKind};
pub use game::{Game, GameDeposit, GameId, GameResult, GameState, MoveOutcome, Player};
pub use game_config::{GameConfig, GameConfigArgs, GameConfigNear, GameConfigView};
pub use stats::{Stats, UserPenalties};
pub use transfer::{Transfer, TransferOutcome, TransferPurpose};
pub use views::{ContractParams, GameView};
