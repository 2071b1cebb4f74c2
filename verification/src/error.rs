//! Why requests are refused.

use vstd::prelude::*;
use crate::board::Piece;

verus! {

/// The four classes of rejected request. A rejected request changes nothing.
#[derive(Clone, Copy, Debug, PartialEq, Eq, Structural)]
pub enum ErrorKind {
    /// The request's values are not acceptable.
    Validation,
    /// The request does not fit the state of the queue or of the game.
    State,
    /// The calling account may not make the request.
    Authorization,
    /// A stake is too large to be doubled.
    Arithmetic,
}

/// Why a request was rejected.
#[derive(Clone, Copy, Debug, PartialEq, Eq, Structural)]
pub enum ContractError {
    /// The set-up values are outside their limits.
    InvalidConfig,
    /// The wager token is not on the whitelist.
    TokenNotWhitelisted,
    /// The deposit is below the token's minimum.
    DepositTooSmall,
    /// The account is already waiting.
    AlreadyAvailable,
    /// The account is not waiting.
    NotAvailable,
    /// The chosen opponent is not waiting.
    OpponentNotReady,
    /// The account chose itself as opponent.
    SamePlayer,
    /// The opponent waits for another account.
    WrongAccount,
    /// The two deposits differ.
    MismatchedDeposits,
    /// The two wager tokens differ.
    MismatchedTokens,
    /// Twice the deposit does not fit the balance type, or no game number is left.
    Overflow,
    /// No active game has this number.
    GameNotFound,
    /// The game is finished.
    GameAlreadyOver,
    /// The account is not the one that may act now.
    NoAccess,
    /// The position lies outside the board.
    InvalidPosition { row: usize, col: usize },
    /// The position already holds a piece.
    TileFilled { other_piece: Piece, row: usize, col: usize },
    /// The account does not play in this game.
    NotInGame,
    /// Neither time limit has run out.
    TooEarly,
}

impl ContractError {
    /// The class of the error.
    pub open spec fn class(self) -> ErrorKind {
        match self {
            ContractError::InvalidConfig
            | ContractError::TokenNotWhitelisted
            | ContractError::DepositTooSmall
            | ContractError::MismatchedDeposits
            | ContractError::MismatchedTokens
            | ContractError::InvalidPosition { .. }
            | ContractError::TileFilled { .. } => ErrorKind::Validation,
            ContractError::AlreadyAvailable
            | ContractError::NotAvailable
            | ContractError::OpponentNotReady
            | ContractError::GameNotFound
            | ContractError::GameAlreadyOver
            | ContractError::TooEarly => ErrorKind::State,
            ContractError::SamePlayer
            | ContractError::WrongAccount
            | ContractError::NoAccess
            | ContractError::NotInGame => ErrorKind::Authorization,
            ContractError::Overflow => ErrorKind::Arithmetic,
        }
    }

    /// The class of the error.
    pub fn kind(&self) -> (k: ErrorKind)
        ensures
            k == self.class(),
    {
        match self {
            ContractError::InvalidConfig
            | ContractError::TokenNotWhitelisted
            | ContractError::DepositTooSmall
            | ContractError::MismatchedDeposits
            | ContractError::MismatchedTokens
            | ContractError::InvalidPosition { .. }
            | ContractError::TileFilled { .. } => ErrorKind::Validation,
            ContractError::AlreadyAvailable
            | ContractError::NotAvailable
            | ContractError::OpponentNotReady
            | ContractError::GameNotFound
            | ContractError::GameAlreadyOver
            | ContractError::TooEarly => ErrorKind::State,
            ContractError::SamePlayer
            | ContractError::WrongAccount
            | ContractError::NoAccess
            | ContractError::NotInGame => ErrorKind::Authorization,
            ContractError::Overflow => ErrorKind::Arithmetic,
        }
    }
}

} // verus!
