//! A game session: two players, a board, a clock and a stake.

use vstd::prelude::*;
use crate::account::AccountId;
use crate::board::{Board, MoveError, Piece, Tiles, Winner};
use crate::board::pieces_kept;
use crate::error::ContractError;
use crate::utils::{elapsed, elapsed_since};

verus! {

/// Number of a game session.
pub type GameId = u64;

/// An amount of a wager token, in its smallest denomination.
pub type Balance = u128;

/// A point in time, in nanoseconds.
pub type Timestamp = u64;

/// A span of time, in nanoseconds.
pub type Duration = u64;

/// The account of a wager token.
pub type TokenContractId = AccountId;

/// Where a session is in its life. A finished session never becomes active again.
#[derive(Clone, Copy, Debug, PartialEq, Eq, Structural)]
pub enum GameState {
    Active,
    Finished,
}

/// One of the two seats of a session.
#[derive(Clone, Copy, Debug, PartialEq, Eq)]
pub struct Player {
    pub account_id: AccountId,
    pub piece: Piece,
}

/// An amount of one wager token.
#[derive(Clone, Copy, Debug, PartialEq, Eq)]
pub struct GameDeposit {
    pub token_id: TokenContractId,
    pub balance: Balance,
}

/// How a session ended.
#[derive(Clone, Copy, Debug, PartialEq, Eq)]
pub enum GameResult {
    Win(AccountId),
    Tie,
}

/// What an accepted move led to.
#[derive(Clone, Copy, Debug, PartialEq, Eq)]
pub enum MoveOutcome {
    /// The game goes on; the other player moves next.
    Continues,
    /// The move ended the game on the board.
    Finished(GameResult),
    /// The move came after a time limit had run out: the mover forfeits.
    TimedOut,
}

/// A match between two accounts: their seats, the board, whose turn it is, the
/// clock and the combined stake.
#[derive(Clone, Copy, Debug, PartialEq, Eq)]
pub struct Game {
    pub game_state: GameState,
    pub players: [Player; 2],
    pub current_piece: Piece,
    pub current_player_index: usize,
    pub reward: GameDeposit,
    pub board: Board,
    pub total_turns: u64,
    pub initiated_at: Timestamp,
    pub last_turn_timestamp: Timestamp,
    pub current_duration: Duration,
}

/// One more turn, as far as the counter can count.
pub open spec fn next_count(n: u64) -> u64 {
    if n < u64::MAX {
        (n + 1) as u64
    } else {
        n
    }
}

/// Computes [`next_count`].
pub fn count_up(n: u64) -> (m: u64)
    ensures
        m == next_count(n),
{
    if n < u64::MAX {
        n + 1
    } else {
        n
    }
}

impl Game {
    /// What every session satisfies: two different accounts with different
    /// pieces, the turn belongs to one of them, the board and the session agree
    /// on the piece to play, and an active session has no outcome on its board.
    pub open spec fn wf(self) -> bool {
        &&& self.players[0].account_id != self.players[1].account_id
        &&& self.players[0].piece != self.players[1].piece
        &&& self.current_player_index < 2
        &&& self.current_piece == self.players[self.current_player_index as int].piece
        &&& self.board.current_piece == self.current_piece
        &&& self.game_state == GameState::Active ==> self.board.winner.is_none()
    }

    /// Computes [`Game::wf`].
    pub fn is_well_formed(&self) -> (r: bool)
        ensures
            r == self.wf(),
    {
        if self.current_player_index >= 2 {
            return false;
        }
        let active = match self.game_state {
            GameState::Active => true,
            GameState::Finished => false,
        };
        !self.players[0].account_id.same(&self.players[1].account_id) && self.players[0].piece
            != self.players[1].piece && self.current_piece == self.players[self.current_player_index].piece
            && self.board.current_piece == self.current_piece && (!active || self.board.winner.is_none())
    }

    /// The session that begins at `now` between `first`, who moves first with
    /// `X`, and `second`, each of whom staked `deposit` of `token_id`.
    pub open spec fn opened(
        first: AccountId,
        second: AccountId,
        token_id: TokenContractId,
        deposit: Balance,
        now: Timestamp,
    ) -> Game {
        Game {
            game_state: GameState::Active,
            players: [
                Player { account_id: first, piece: Piece::X },
                Player { account_id: second, piece: Piece::O },
            ],
            current_piece: Piece::X,
            current_player_index: 0,
            reward: GameDeposit { token_id, balance: (2 * deposit) as u128 },
            board: Board::empty(Piece::X),
            total_turns: 0,
            initiated_at: now,
            last_turn_timestamp: 0,
            current_duration: 0,
        }
    }

    /// Opens a session between `first`, who moves first with `X`, and `second`,
    /// each of whom staked `deposit` of `token_id`. There is no session of an
    /// account with itself, and none whose combined stake cannot be counted.
    pub fn create_game(
        first: AccountId,
        second: AccountId,
        token_id: TokenContractId,
        deposit: Balance,
        now: Timestamp,
    ) -> (r: Result<Game, ContractError>)
        ensures
            match r {
                Ok(game) => first != second && 2 * deposit <= u128::MAX && game == Game::opened(
                    first,
                    second,
                    token_id,
                    deposit,
                    now,
                ) && game.wf(),
                Err(e) => if first == second {
                    e == ContractError::SamePlayer
                } else {
                    e == ContractError::Overflow && 2 * deposit > u128::MAX
                },
            },
    {
        if first.same(&second) {
            return Err(ContractError::SamePlayer);
        }
        if deposit > u128::MAX / 2 {
            return Err(ContractError::Overflow);
        }
        let balance: u128 = 2 * deposit;
        Ok(
            Game {
                game_state: GameState::Active,
                players: [
                    Player { account_id: first, piece: Piece::X },
                    Player { account_id: second, piece: Piece::O },
                ],
                current_piece: Piece::X,
                current_player_index: 0,
                reward: GameDeposit { token_id, balance },
                board: Board::new(Piece::X),
                total_turns: 0,
                initiated_at: now,
                last_turn_timestamp: 0,
                current_duration: 0,
            },
        )
    }

    /// The account whose turn it is.
    pub open spec fn mover(self) -> AccountId {
        self.players[self.current_player_index as int].account_id
    }

    /// The account whose turn it is not.
    pub open spec fn waiter(self) -> AccountId {
        self.players[1 - self.current_player_index].account_id
    }

    /// Whether `account` plays in this session.
    pub open spec fn has_player(self, account: AccountId) -> bool {
        account == self.players[0].account_id || account == self.players[1].account_id
    }

    /// The opponent of `account` in this session.
    pub open spec fn opponent_of(self, account: AccountId) -> AccountId {
        if account == self.players[0].account_id {
            self.players[1].account_id
        } else {
            self.players[0].account_id
        }
    }

    /// The account that plays `piece`.
    pub open spec fn account_of(self, piece: Piece) -> AccountId {
        if self.players[0].piece == piece {
            self.players[0].account_id
        } else {
            self.players[1].account_id
        }
    }

    /// The account whose turn it is.
    pub fn current_player_account_id(&self) -> (account: AccountId)
        requires
            self.current_player_index < 2,
        ensures
            account == self.mover(),
    {
        self.players[self.current_player_index].account_id
    }

    /// The account whose turn it is not.
    pub fn next_player_account_id(&self) -> (account: AccountId)
        requires
            self.current_player_index < 2,
        ensures
            account == self.waiter(),
    {
        self.players[1 - self.current_player_index].account_id
    }

    /// The accounts of both seats, first seat first.
    pub fn get_player_accounts(&self) -> (accounts: (AccountId, AccountId))
        ensures
            accounts == (self.players[0].account_id, self.players[1].account_id),
    {
        (self.players[0].account_id, self.players[1].account_id)
    }

    /// The account that plays `piece`.
    pub fn get_player_acc_by_piece(&self, piece: Piece) -> (account: AccountId)
        ensures
            account == self.account_of(piece),
    {
        if self.players[0].piece == piece {
            self.players[0].account_id
        } else {
            self.players[1].account_id
        }
    }

    /// The combined stake.
    pub fn reward(&self) -> (reward: GameDeposit)
        ensures
            reward == self.reward,
    {
        self.reward
    }

    /// Whether `account` plays in this session.
    pub fn contains_player(&self, account: &AccountId) -> (r: bool)
        ensures
            r == self.has_player(*account),
    {
        account.same(&self.players[0].account_id) || account.same(&self.players[1].account_id)
    }

    /// Since when the current turn runs: since the last move, or since the
    /// session began if no move was made.
    pub open spec fn turn_started(self) -> Timestamp {
        if self.total_turns == 0 {
            self.initiated_at
        } else {
            self.last_turn_timestamp
        }
    }

    /// Whether at `now` the session has run longer than `max_game_duration`,
    /// or its current turn longer than `max_turn_duration`.
    pub open spec fn timed_out(self, now: Timestamp, max_turn_duration: Duration, max_game_duration: Duration) -> bool {
        elapsed(now, self.initiated_at) > max_game_duration || elapsed(now, self.turn_started()) > max_turn_duration
    }

    /// Whether at `now` the waiting player may have the session stopped: it has
    /// run for `max_game_duration` at least, or its current turn longer than
    /// `max_turn_duration`.
    pub open spec fn stoppable(self, now: Timestamp, max_turn_duration: Duration, max_game_duration: Duration) -> bool {
        elapsed(now, self.initiated_at) >= max_game_duration || elapsed(now, self.turn_started()) > max_turn_duration
    }

    /// Computes [`Game::timed_out`].
    pub fn is_timed_out(&self, now: Timestamp, max_turn_duration: Duration, max_game_duration: Duration) -> (r: bool)
        ensures
            r == self.timed_out(now, max_turn_duration, max_game_duration),
    {
        let since = if self.total_turns == 0 {
            self.initiated_at
        } else {
            self.last_turn_timestamp
        };
        elapsed_since(now, self.initiated_at) > max_game_duration || elapsed_since(now, since) > max_turn_duration
    }

    /// Computes [`Game::stoppable`].
    pub fn is_stoppable(&self, now: Timestamp, max_turn_duration: Duration, max_game_duration: Duration) -> (r: bool)
        ensures
            r == self.stoppable(now, max_turn_duration, max_game_duration),
    {
        let since = if self.total_turns == 0 {
            self.initiated_at
        } else {
            self.last_turn_timestamp
        };
        elapsed_since(now, self.initiated_at) >= max_game_duration || elapsed_since(now, since) > max_turn_duration
    }

    /// Whether `caller` may move to `(row, col)`: the session is active, it is
    /// the caller's turn, and the cell is on the board and empty.
    pub open spec fn move_check(self, caller: AccountId, row: usize, col: usize) -> Result<(), ContractError> {
        if self.game_state != GameState::Active {
            Err(ContractError::GameAlreadyOver)
        } else if caller != self.mover() {
            Err(ContractError::NoAccess)
        } else {
            match self.board.move_check(row, col) {
                Ok(()) => Ok(()),
                Err(MoveError::GameAlreadyOver) => Err(ContractError::GameAlreadyOver),
                Err(MoveError::InvalidPosition { row, col }) => Err(ContractError::InvalidPosition { row, col }),
                Err(MoveError::TileFilled { other_piece, row, col }) => Err(
                    ContractError::TileFilled { other_piece, row, col },
                ),
            }
        }
    }

    /// The session after the mover's piece is put at `(row, col)` at `now`.
    ///
    /// The piece and the turn pass to the other player. If the board then has
    /// an outcome the session is finished and its clock stays as it was.
    /// Otherwise the turn is counted and the clock is set, and the session is
    /// finished all the same if the move came after a time limit had run out.
    pub open spec fn moved(
        self,
        row: int,
        col: int,
        now: Timestamp,
        max_turn_duration: Duration,
        max_game_duration: Duration,
    ) -> Game {
        let board = self.board.played(row, col);
        let placed = Game {
            board,
            current_piece: self.current_piece.opposite(),
            current_player_index: (1 - self.current_player_index) as usize,
            ..self
        };
        if board.winner.is_some() {
            Game { game_state: GameState::Finished, ..placed }
        } else {
            Game {
                game_state: if self.timed_out(now, max_turn_duration, max_game_duration) {
                    GameState::Finished
                } else {
                    GameState::Active
                },
                total_turns: next_count(self.total_turns),
                last_turn_timestamp: now,
                current_duration: elapsed(now, self.initiated_at),
                ..placed
            }
        }
    }

    /// What the move to `(row, col)` at `now` leads to: the outcome on the
    /// board if the move brings one, else a forfeit if it came too late.
    pub open spec fn move_outcome(
        self,
        row: int,
        col: int,
        now: Timestamp,
        max_turn_duration: Duration,
        max_game_duration: Duration,
    ) -> MoveOutcome {
        match self.board.played(row, col).winner {
            Some(Winner::Tie) => MoveOutcome::Finished(GameResult::Tie),
            Some(Winner::X) => MoveOutcome::Finished(GameResult::Win(self.account_of(Piece::X))),
            Some(Winner::O) => MoveOutcome::Finished(GameResult::Win(self.account_of(Piece::O))),
            None => if self.timed_out(now, max_turn_duration, max_game_duration) {
                MoveOutcome::TimedOut
            } else {
                MoveOutcome::Continues
            },
        }
    }

    /// Makes the move of `caller` to `(row, col)` at time `now`.
    ///
    /// A rejected move leaves the session as it was. An accepted move never
    /// changes a cell that held a piece.
    pub fn apply_move(
        &mut self,
        caller: &AccountId,
        row: usize,
        col: usize,
        now: Timestamp,
        max_turn_duration: Duration,
        max_game_duration: Duration,
    ) -> (r: Result<MoveOutcome, ContractError>)
        requires
            old(self).wf(),
        ensures
            final(self).wf(),
            match r {
                Ok(outcome) => {
                    &&& old(self).move_check(*caller, row, col).is_ok()
                    &&& *final(self) == old(self).moved(
                        row as int,
                        col as int,
                        now,
                        max_turn_duration,
                        max_game_duration,
                    )
                    &&& outcome == old(self).move_outcome(
                        row as int,
                        col as int,
                        now,
                        max_turn_duration,
                        max_game_duration,
                    )
                    &&& (outcome == MoveOutcome::Continues) == (final(self).game_state == GameState::Active)
                    &&& pieces_kept(old(self).board.tiles, final(self).board.tiles)
                },
                Err(e) => old(self).move_check(*caller, row, col) == Err::<(), ContractError>(e) && *final(self)
                    == *old(self),
            },
    {
        match self.game_state {
            GameState::Active => {},
            GameState::Finished => {
                return Err(ContractError::GameAlreadyOver);
            },
        }
        if !caller.same(&self.current_player_account_id()) {
            return Err(ContractError::NoAccess);
        }
        match self.board.check_move(row, col) {
            Ok(()) => {},
            Err(MoveError::GameAlreadyOver) => {
                return Err(ContractError::GameAlreadyOver);
            },
            Err(MoveError::InvalidPosition { row, col }) => {
                return Err(ContractError::InvalidPosition { row, col });
            },
            Err(MoveError::TileFilled { other_piece, row, col }) => {
                return Err(ContractError::TileFilled { other_piece, row, col });
            },
        }
        let late = self.is_timed_out(now, max_turn_duration, max_game_duration);
        self.board.play(row, col);
        self.current_piece = self.current_piece.other();
        self.current_player_index = 1 - self.current_player_index;
        match self.board.winner {
            Some(winner) => {
                self.game_state = GameState::Finished;
                let result = match winner {
                    Winner::X => GameResult::Win(self.get_player_acc_by_piece(Piece::X)),
                    Winner::O => GameResult::Win(self.get_player_acc_by_piece(Piece::O)),
                    Winner::Tie => GameResult::Tie,
                };
                Ok(MoveOutcome::Finished(result))
            },
            None => {
                self.total_turns = count_up(self.total_turns);
                self.last_turn_timestamp = now;
                self.current_duration = elapsed_since(now, self.initiated_at);
                if late {
                    self.game_state = GameState::Finished;
                    Ok(MoveOutcome::TimedOut)
                } else {
                    Ok(MoveOutcome::Continues)
                }
            },
        }
    }

    /// Whether `caller` may resign: the session is active and the caller plays
    /// in it.
    pub open spec fn resign_check(self, caller: AccountId) -> Result<(), ContractError> {
        if self.game_state != GameState::Active {
            Err(ContractError::GameAlreadyOver)
        } else if !self.has_player(caller) {
            Err(ContractError::NotInGame)
        } else {
            Ok(())
        }
    }

    /// Ends the session on the resignation of `caller` and names the winner,
    /// the caller's opponent.
    pub fn resign(&mut self, caller: &AccountId) -> (r: Result<AccountId, ContractError>)
        requires
            old(self).wf(),
        ensures
            final(self).wf(),
            match r {
                Ok(winner) => {
                    &&& old(self).resign_check(*caller).is_ok()
                    &&& winner == old(self).opponent_of(*caller)
                    &&& winner != *caller
                    &&& *final(self) == (Game { game_state: GameState::Finished, ..*old(self) })
                },
                Err(e) => old(self).resign_check(*caller) == Err::<(), ContractError>(e) && *final(self) == *old(
                    self,
                ),
            },
    {
        match self.game_state {
            GameState::Active => {},
            GameState::Finished => {
                return Err(ContractError::GameAlreadyOver);
            },
        }
        let winner = if caller.same(&self.players[0].account_id) {
            self.players[1].account_id
        } else if caller.same(&self.players[1].account_id) {
            self.players[0].account_id
        } else {
            return Err(ContractError::NotInGame);
        };
        self.game_state = GameState::Finished;
        Ok(winner)
    }

    /// Whether `caller` may have the session stopped at `now`: the session is
    /// active, it is not the caller's turn, a time limit has run out, and the
    /// caller plays in the session.
    pub open spec fn stop_check(
        self,
        caller: AccountId,
        now: Timestamp,
        max_turn_duration: Duration,
        max_game_duration: Duration,
    ) -> Result<(), ContractError> {
        if self.game_state != GameState::Active {
            Err(ContractError::GameAlreadyOver)
        } else if caller == self.mover() {
            Err(ContractError::NoAccess)
        } else if !self.stoppable(now, max_turn_duration, max_game_duration) {
            Err(ContractError::TooEarly)
        } else if !self.has_player(caller) {
            Err(ContractError::NotInGame)
        } else {
            Ok(())
        }
    }

    /// Ends the session at `now` for the waiting player `caller`, who wins, and
    /// names the player who did not move in time.
    pub fn force_stop(
        &mut self,
        caller: &AccountId,
        now: Timestamp,
        max_turn_duration: Duration,
        max_game_duration: Duration,
    ) -> (r: Result<AccountId, ContractError>)
        requires
            old(self).wf(),
        ensures
            final(self).wf(),
            match r {
                Ok(loser) => {
                    &&& old(self).stop_check(*caller, now, max_turn_duration, max_game_duration).is_ok()
                    &&& loser == old(self).mover()
                    &&& loser == old(self).opponent_of(*caller)
                    &&& loser != *caller
                    &&& *final(self) == (Game {
                        game_state: GameState::Finished,
                        current_duration: elapsed(now, old(self).initiated_at),
                        ..*old(self)
                    })
                },
                Err(e) => old(self).stop_check(*caller, now, max_turn_duration, max_game_duration) == Err::<
                    (),
                    ContractError,
                >(e) && *final(self) == *old(self),
            },
    {
        match self.game_state {
            GameState::Active => {},
            GameState::Finished => {
                return Err(ContractError::GameAlreadyOver);
            },
        }
        let loser = self.current_player_account_id();
        if caller.same(&loser) {
            return Err(ContractError::NoAccess);
        }
        if !self.is_stoppable(now, max_turn_duration, max_game_duration) {
            return Err(ContractError::TooEarly);
        }
        if !self.contains_player(caller) {
            return Err(ContractError::NotInGame);
        }
        self.current_duration = elapsed_since(now, self.initiated_at);
        self.game_state = GameState::Finished;
        Ok(loser)
    }

    /// The cells of the board.
    pub fn tiles(&self) -> (tiles: Tiles)
        ensures
            tiles == self.board.tiles,
    {
        self.board.tiles
    }
}

/// A finished session stays finished: it refuses every request, and a refused
/// request changes nothing.
pub proof fn lemma_finished_is_final(
    game: Game,
    caller: AccountId,
    row: usize,
    col: usize,
    now: Timestamp,
    max_turn_duration: Duration,
    max_game_duration: Duration,
)
    requires
        game.game_state == GameState::Finished,
    ensures
        game.move_check(caller, row, col) == Err::<(), ContractError>(ContractError::GameAlreadyOver),
        game.resign_check(caller) == Err::<(), ContractError>(ContractError::GameAlreadyOver),
        game.stop_check(caller, now, max_turn_duration, max_game_duration) == Err::<(), ContractError>(
            ContractError::GameAlreadyOver,
        ),
{
}

/// A move made more than `max_turn_duration` after the turn began ends the
/// game at once: unless the move itself brings an outcome on the board, the
/// mover forfeits and the session does not go on.
pub proof fn lemma_late_move_ends_game(
    game: Game,
    caller: AccountId,
    row: usize,
    col: usize,
    now: Timestamp,
    max_turn_duration: Duration,
    max_game_duration: Duration,
)
    requires
        game.wf(),
        game.move_check(caller, row, col).is_ok(),
        now > game.turn_started() + max_turn_duration,
    ensures
        game.moved(row as int, col as int, now, max_turn_duration, max_game_duration).game_state
            == GameState::Finished,
        game.move_outcome(row as int, col as int, now, max_turn_duration, max_game_duration)
            != MoveOutcome::Continues,
        game.board.played(row as int, col as int).winner.is_none() ==> game.move_outcome(
            row as int,
            col as int,
            now,
            max_turn_duration,
            max_game_duration,
        ) == MoveOutcome::TimedOut,
{
}

/// Of the 256 values a seed byte can have, how many below `bound` are odd.
pub open spec fn odd_seeds_below(bound: nat) -> nat
    decreases bound,
{
    if bound == 0 {
        0
    } else if (bound - 1) % 2 == 1 {
        odd_seeds_below((bound - 1) as nat) + 1
    } else {
        odd_seeds_below((bound - 1) as nat)
    }
}

/// The coin is fair: exactly half of the values of a seed byte are odd, so a
/// seed byte drawn evenly lets either account move first with equal chance.
pub proof fn lemma_coin_is_fair()
    ensures
        odd_seeds_below(256) == 128,
{
    lemma_odd_seeds(128);
}

/// Among the first `2 * half` seed values, `half` are odd.
proof fn lemma_odd_seeds(half: nat)
    ensures
        odd_seeds_below(2 * half) == half,
    decreases half,
{
    if half > 0 {
        lemma_odd_seeds((half - 1) as nat);
        assert(odd_seeds_below(2 * half) == odd_seeds_below((2 * half - 1) as nat) + 1);
    }
}

} // verus!
