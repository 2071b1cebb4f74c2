//! The service as a value, and each request as a function from the value before
//! to the value after.

use vstd::prelude::*;
use crate::account::AccountId;
use crate::archive::{archived, lemma_archived, GameLimitedView, Shelf};
use crate::config::{Config, BASIS_P, GRACE_WINDOW, MAX_GAME_DURATION_SEC, MAX_NUM_TURNS};
use crate::error::ContractError;
use crate::game::{Balance, Duration, Game, GameDeposit, GameId, GameResult, GameState, MoveOutcome, Timestamp};
use crate::game::TokenContractId;
use crate::game_config::{fresh, stale_refunds, GameConfig, Queue};
use crate::reward::{lemma_payouts_conserve, payouts_of, Payouts, Verdict};
use crate::stats::{ledger_wf, lemma_ledger_steps, with_game_played, with_penalty, with_referral, with_reward};
use crate::stats::with_victory;
use crate::stats::StatsModel;
use crate::table::{has_key, lemma_position, lemma_without, lookup, position, put, unique_keys, value_of, without};
use crate::transfer::{lemma_total_with_payment, lemma_total_with_referral_payment, total, with_payment};
use crate::transfer::{with_referral_payment, Transfer, TransferPurpose};
use crate::utils::NANOS_PER_SEC;

verus! {

/// Everything the service holds.
pub struct State {
    /// The wager tokens that are accepted, each with its smallest deposit.
    pub whitelisted_tokens: Seq<(TokenContractId, Balance)>,
    /// The active games by number.
    pub games: Seq<(GameId, Game)>,
    /// The accounts that wait for an opponent.
    pub available_players: Queue,
    /// The record of every account that took part.
    pub stats: Seq<(AccountId, StatsModel)>,
    /// For each referred account, the account that referred it.
    pub affiliates: Seq<(AccountId, AccountId)>,
    /// The number that the next game gets.
    pub next_game_id: GameId,
    /// Service fee rate, in basis points.
    pub service_fee_percentage: u32,
    /// Whole-game time limit.
    pub max_game_duration: Duration,
    /// Share of the service fee that goes to referrers, in basis points.
    pub referrer_ratio: u32,
    /// When the service last swept.
    pub last_update_timestamp: Timestamp,
    /// Time limit of one turn.
    pub max_turn_duration: Duration,
    /// Number of finished games kept for display.
    pub max_stored_games: u8,
    /// The finished games kept for display.
    pub stored_games: Shelf,
    /// The payments requested and not yet handed to the ledger.
    pub transfers: Seq<Transfer>,
}

/// Which seat `result` favours in `game`.
pub open spec fn verdict_of(game: Game, result: GameResult) -> Verdict {
    match result {
        GameResult::Tie => Verdict::Tie,
        GameResult::Win(winner) => if winner == game.players[0].account_id {
            Verdict::FirstWins
        } else {
            Verdict::SecondWins
        },
    }
}

/// What the winner is paid; after a tie, what each player is paid.
pub open spec fn winner_part(payouts: Payouts, verdict: Verdict) -> Balance {
    match verdict {
        Verdict::FirstWins => payouts.first,
        Verdict::SecondWins => payouts.second,
        Verdict::Tie => payouts.first,
    }
}

/// The payments of a settlement, added to `transfers`: to the first seat, to
/// the second seat, to the first seat's referrer, to the second seat's
/// referrer; none of them for an amount of zero.
pub open spec fn with_payouts(
    transfers: Seq<Transfer>,
    game: Game,
    verdict: Verdict,
    payouts: Payouts,
    first_referrer: Option<AccountId>,
    second_referrer: Option<AccountId>,
) -> Seq<Transfer> {
    let token_id = game.reward.token_id;
    let purpose = if verdict == Verdict::Tie {
        TransferPurpose::TieRefund
    } else {
        TransferPurpose::Reward
    };
    let a = with_payment(transfers, token_id, game.players[0].account_id, payouts.first, purpose);
    let b = with_payment(a, token_id, game.players[1].account_id, payouts.second, purpose);
    let c = with_referral_payment(b, token_id, first_referrer, payouts.first_referrer);
    with_referral_payment(c, token_id, second_referrer, payouts.second_referrer)
}

/// The records after a settlement: a penalty for the penalized account, a
/// victory for the winner, what the players were paid, and what their
/// referrers were paid.
pub open spec fn with_outcome(
    stats: Seq<(AccountId, StatsModel)>,
    game: Game,
    verdict: Verdict,
    payouts: Payouts,
    penalized: Option<AccountId>,
    first_referrer: Option<AccountId>,
    second_referrer: Option<AccountId>,
) -> Seq<(AccountId, StatsModel)> {
    let token_id = game.reward.token_id;
    let first = game.players[0].account_id;
    let second = game.players[1].account_id;
    let a = match penalized {
        Some(account) => with_penalty(stats, account),
        None => stats,
    };
    let b = match verdict {
        Verdict::FirstWins => with_reward(with_victory(a, first), first, token_id, payouts.first),
        Verdict::SecondWins => with_reward(with_victory(a, second), second, token_id, payouts.second),
        Verdict::Tie => with_reward(with_reward(a, first, token_id, payouts.first), second, token_id, payouts.second),
    };
    let c = with_referral(b, first_referrer, token_id, payouts.first_referrer);
    with_referral(c, second_referrer, token_id, payouts.second_referrer)
}

impl State {
    /// What holds of the service at all times.
    pub open spec fn wf(self) -> bool {
        &&& unique_keys(self.whitelisted_tokens)
        &&& unique_keys(self.games)
        &&& unique_keys(self.available_players)
        &&& unique_keys(self.affiliates)
        &&& ledger_wf(self.stats)
        &&& forall|i: int|
            0 <= i < self.games.len() ==> {
                &&& (#[trigger] self.games[i]).1.wf()
                &&& self.games[i].1.game_state == GameState::Active
                &&& self.games[i].0 < self.next_game_id
            }
        &&& self.stored_games.len() <= self.max_stored_games
        &&& self.service_fee_percentage <= BASIS_P
        &&& self.referrer_ratio <= BASIS_P
        &&& self.max_game_duration <= MAX_GAME_DURATION_SEC * NANOS_PER_SEC
        &&& self.max_turn_duration == self.max_game_duration / MAX_NUM_TURNS
    }

    /// The service as it is set up with `config`: nobody waits, nobody plays.
    pub open spec fn initial(config: Config) -> State {
        State {
            whitelisted_tokens: Seq::empty(),
            games: Seq::empty(),
            available_players: Seq::empty(),
            stats: Seq::empty(),
            affiliates: Seq::empty(),
            next_game_id: 0,
            service_fee_percentage: config.service_fee_percentage,
            max_game_duration: (config.max_game_duration_sec * NANOS_PER_SEC) as u64,
            referrer_ratio: config.referrer_ratio,
            last_update_timestamp: 0,
            max_turn_duration: ((config.max_game_duration_sec * NANOS_PER_SEC) / MAX_NUM_TURNS as int) as u64,
            max_stored_games: config.max_stored_games,
            stored_games: Seq::empty(),
            transfers: Seq::empty(),
        }
    }

    /// How long an account may wait before it is swept: as long as a whole
    /// game may take, and a grace window more.
    pub open spec fn waiting_bound(self) -> Duration {
        (self.max_game_duration + GRACE_WINDOW) as u64
    }

    /// The service in which `referrer`, if given, is noted as the account that
    /// referred `account`, unless another was noted before.
    pub open spec fn with_referrer(self, account: AccountId, referrer: Option<AccountId>) -> State {
        match referrer {
            Some(by) if !has_key(self.affiliates, account) => State {
                affiliates: self.affiliates.push((account, by)),
                ..self
            },
            _ => self,
        }
    }

    /// The first pass of the sweep at `now`: accounts that have waited too long
    /// leave the queue, and their deposits are paid back.
    pub open spec fn swept_players(self, now: Timestamp) -> State {
        State {
            available_players: fresh(self.available_players, now, self.waiting_bound()),
            transfers: self.transfers + stale_refunds(self.available_players, now, self.waiting_bound()),
            last_update_timestamp: now,
            ..self
        }
    }

    /// The division of the stake of `game` when it ends with `result`.
    pub open spec fn payouts_for(self, game: Game, result: GameResult) -> Payouts {
        payouts_of(
            game.reward.balance,
            self.service_fee_percentage,
            self.referrer_ratio,
            verdict_of(game, result),
            has_key(self.affiliates, game.players[0].account_id),
            has_key(self.affiliates, game.players[1].account_id),
        )
    }

    /// The service after the game `game_id`, in its last state `game`, is
    /// settled with `result`.
    ///
    /// The stake is divided and the payments are requested; the records of the
    /// players, of their referrers and of the penalized account are brought up
    /// to date; the game goes from the active games to the archive, listed with
    /// `player1` and `player2`.
    pub open spec fn settled(
        self,
        game_id: GameId,
        game: Game,
        result: GameResult,
        penalized: Option<AccountId>,
        player1: AccountId,
        player2: AccountId,
    ) -> State {
        let verdict = verdict_of(game, result);
        let payouts = self.payouts_for(game, result);
        let first_referrer = lookup(self.affiliates, game.players[0].account_id);
        let second_referrer = lookup(self.affiliates, game.players[1].account_id);
        let kept = GameLimitedView {
            game_result: result,
            player1,
            player2,
            reward_or_tie_refund: GameDeposit {
                token_id: game.reward.token_id,
                balance: winner_part(payouts, verdict),
            },
            board: game.board.tiles,
        };
        State {
            games: without(self.games, game_id),
            stats: with_outcome(self.stats, game, verdict, payouts, penalized, first_referrer, second_referrer),
            transfers: with_payouts(self.transfers, game, verdict, payouts, first_referrer, second_referrer),
            stored_games: archived(self.stored_games, game_id, kept, self.max_stored_games),
            ..self
        }
    }

    /// The service after the active game `game_id` is ended because a time
    /// limit ran out: the waiting player wins, the player to move is penalized.
    pub open spec fn forfeited(self, game_id: GameId, game: Game) -> State {
        self.settled(
            game_id,
            game,
            GameResult::Win(game.waiter()),
            Some(game.mover()),
            game.players[0].account_id,
            game.players[1].account_id,
        )
    }

    /// Whether the sweep at `now` ends `game`.
    pub open spec fn expired(self, game_id: GameId, game: Game, now: Timestamp, spared: Option<GameId>) -> bool {
        spared != Some(game_id) && game.timed_out(now, self.max_turn_duration, self.max_game_duration)
    }

    /// The service after the games of `pending` were looked at one after the
    /// other at `now`, and each one that ran out of time was ended.
    pub open spec fn swept_over(self, pending: Seq<(GameId, Game)>, now: Timestamp, spared: Option<GameId>) -> State
        decreases pending.len(),
    {
        if pending.len() == 0 {
            self
        } else {
            let next = if self.expired(pending[0].0, pending[0].1, now, spared) {
                self.forfeited(pending[0].0, pending[0].1)
            } else {
                self
            };
            next.swept_over(pending.drop_first(), now, spared)
        }
    }

    /// The second pass of the sweep at `now`: every active game that ran out of
    /// time is ended, but for the game `spared`.
    pub open spec fn swept_games(self, now: Timestamp, spared: Option<GameId>) -> State {
        State { last_update_timestamp: now, ..self.swept_over(self.games, now, spared) }
    }

    /// The service after both passes of the sweep at `now`.
    pub open spec fn swept(self, now: Timestamp) -> State {
        self.swept_players(now).swept_games(now, None)
    }

    /// Whether `account` may register at `now` with `amount`, where
    /// `min_deposit` is the smallest deposit of its token, if the token is
    /// accepted. Accounts that have waited too long no longer count as waiting.
    pub open spec fn register_check(self, account: AccountId, min_deposit: Option<Balance>, amount: Balance, now: Timestamp) -> Result<
        (),
        ContractError,
    > {
        if has_key(fresh(self.available_players, now, self.waiting_bound()), account) {
            Err(ContractError::AlreadyAvailable)
        } else {
            match min_deposit {
                None => Err(ContractError::TokenNotWhitelisted),
                Some(least) => if amount < least {
                    Err(ContractError::DepositTooSmall)
                } else {
                    Ok(())
                },
            }
        }
    }

    /// The service after the first pass of the sweep at `now` and the
    /// registration of `account` with `record`.
    pub open spec fn registered(self, account: AccountId, record: GameConfig, now: Timestamp) -> State {
        let swept = self.swept_players(now);
        State { available_players: put(swept.available_players, account, record), ..swept }.with_referrer(
            account,
            record.referrer_id,
        )
    }

    /// Whether `account` may leave the queue.
    pub open spec fn cancel_check(self, account: AccountId) -> Result<(), ContractError> {
        if has_key(self.available_players, account) {
            Ok(())
        } else {
            Err(ContractError::NotAvailable)
        }
    }

    /// The service after `account` left the queue: its deposit is paid back.
    pub open spec fn cancelled(self, account: AccountId) -> State {
        State {
            available_players: without(self.available_players, account),
            transfers: self.transfers.push(value_of(self.available_players, account).refund_to(account)),
            ..self
        }
    }

    /// Whether `initiator` may start a game with `opponent`.
    pub open spec fn match_check(self, initiator: AccountId, opponent: AccountId) -> Result<(), ContractError> {
        if !has_key(self.available_players, opponent) {
            Err(ContractError::OpponentNotReady)
        } else if initiator == opponent {
            Err(ContractError::SamePlayer)
        } else if !has_key(self.available_players, initiator) {
            Err(ContractError::NotAvailable)
        } else {
            let mine = value_of(self.available_players, initiator);
            let theirs = value_of(self.available_players, opponent);
            if theirs.opponent_id.is_some() && theirs.opponent_id != Some(initiator) {
                Err(ContractError::WrongAccount)
            } else if mine.deposit != theirs.deposit {
                Err(ContractError::MismatchedDeposits)
            } else if mine.token_id != theirs.token_id {
                Err(ContractError::MismatchedTokens)
            } else if 2 * theirs.deposit > u128::MAX {
                Err(ContractError::Overflow)
            } else if self.next_game_id == u64::MAX {
                Err(ContractError::Overflow)
            } else {
                Ok(())
            }
        }
    }

    /// The game that `initiator` and `opponent` start at `now`: an even `seed`
    /// lets the opponent move first, an odd one the initiator.
    pub open spec fn game_between(self, initiator: AccountId, opponent: AccountId, now: Timestamp, seed: u8) -> Game {
        let theirs = value_of(self.available_players, opponent);
        if seed % 2 == 0 {
            Game::opened(opponent, initiator, theirs.token_id, theirs.deposit, now)
        } else {
            Game::opened(initiator, opponent, theirs.token_id, theirs.deposit, now)
        }
    }

    /// The service after `initiator` started a game with `opponent` at `now`.
    ///
    /// Both leave the queue, the game gets the next number, the accounts that
    /// referred them are noted, and a game played is counted for each.
    pub open spec fn matched(self, initiator: AccountId, opponent: AccountId, now: Timestamp, seed: u8) -> State {
        let mine = value_of(self.available_players, initiator);
        let theirs = value_of(self.available_players, opponent);
        State {
            games: self.games.push((self.next_game_id, self.game_between(initiator, opponent, now, seed))),
            next_game_id: (self.next_game_id + 1) as u64,
            available_players: without(without(self.available_players, initiator), opponent),
            stats: with_game_played(with_game_played(self.stats, initiator), opponent),
            ..self
        }.with_referrer(initiator, mine.referrer_id).with_referrer(opponent, theirs.referrer_id)
    }

    /// Whether `caller` may move to `(row, col)` in the game `game_id`.
    pub open spec fn move_check(self, caller: AccountId, game_id: GameId, row: usize, col: usize) -> Result<
        (),
        ContractError,
    > {
        match lookup(self.games, game_id) {
            None => Err(ContractError::GameNotFound),
            Some(game) => game.move_check(caller, row, col),
        }
    }

    /// The service after the move of `caller` to `(row, col)` in the game
    /// `game_id` at `now`.
    ///
    /// Every other active game that ran out of time is ended first. The move
    /// is made; the game goes on, or is settled with the outcome on the board,
    /// or, if the move came too late, is settled as won by the opponent with
    /// the caller penalized.
    pub open spec fn moved(self, caller: AccountId, game_id: GameId, row: int, col: int, now: Timestamp) -> State {
        let game = value_of(self.games, game_id);
        let swept = self.swept_games(now, Some(game_id));
        let after = game.moved(row, col, now, self.max_turn_duration, self.max_game_duration);
        let first = game.players[0].account_id;
        let second = game.players[1].account_id;
        match game.move_outcome(row, col, now, self.max_turn_duration, self.max_game_duration) {
            MoveOutcome::Continues => State { games: put(swept.games, game_id, after), ..swept },
            MoveOutcome::Finished(result) => swept.settled(game_id, after, result, None, first, second),
            MoveOutcome::TimedOut => swept.settled(
                game_id,
                after,
                GameResult::Win(game.waiter()),
                Some(caller),
                first,
                second,
            ),
        }
    }

    /// Whether `caller` may resign from the game `game_id`.
    pub open spec fn resign_check(self, caller: AccountId, game_id: GameId) -> Result<(), ContractError> {
        match lookup(self.games, game_id) {
            None => Err(ContractError::GameNotFound),
            Some(game) => game.resign_check(caller),
        }
    }

    /// The service after `caller` resigned from the game `game_id`: the game
    /// is settled as won by the opponent.
    pub open spec fn resigned(self, caller: AccountId, game_id: GameId) -> State {
        let game = value_of(self.games, game_id);
        self.settled(
            game_id,
            Game { game_state: GameState::Finished, ..game },
            GameResult::Win(game.opponent_of(caller)),
            None,
            game.players[0].account_id,
            game.players[1].account_id,
        )
    }

    /// Whether `caller` may have the game `game_id` stopped at `now`.
    pub open spec fn stop_check(self, caller: AccountId, game_id: GameId, now: Timestamp) -> Result<(), ContractError> {
        match lookup(self.games, game_id) {
            None => Err(ContractError::GameNotFound),
            Some(game) => game.stop_check(caller, now, self.max_turn_duration, self.max_game_duration),
        }
    }

    /// The service after `caller` had the game `game_id` stopped at `now`: the
    /// game is settled as won by the caller, and the opponent is penalized.
    pub open spec fn stopped(self, caller: AccountId, game_id: GameId, now: Timestamp) -> State {
        let game = value_of(self.games, game_id);
        self.settled(
            game_id,
            Game {
                game_state: GameState::Finished,
                current_duration: crate::utils::elapsed(now, game.initiated_at),
                ..game
            },
            GameResult::Win(caller),
            Some(game.opponent_of(caller)),
            caller,
            game.opponent_of(caller),
        )
    }
}

/// The records stay well formed under a settlement.
pub proof fn lemma_with_outcome(
    stats: Seq<(AccountId, StatsModel)>,
    game: Game,
    verdict: Verdict,
    payouts: Payouts,
    penalized: Option<AccountId>,
    first_referrer: Option<AccountId>,
    second_referrer: Option<AccountId>,
)
    requires
        ledger_wf(stats),
    ensures
        ledger_wf(with_outcome(stats, game, verdict, payouts, penalized, first_referrer, second_referrer)),
{
    let token_id = game.reward.token_id;
    let first = game.players[0].account_id;
    let second = game.players[1].account_id;
    let a = match penalized {
        Some(account) => with_penalty(stats, account),
        None => stats,
    };
    if penalized.is_some() {
        lemma_ledger_steps(stats, penalized.unwrap(), token_id, 0);
    }
    let b = match verdict {
        Verdict::FirstWins => with_reward(with_victory(a, first), first, token_id, payouts.first),
        Verdict::SecondWins => with_reward(with_victory(a, second), second, token_id, payouts.second),
        Verdict::Tie => with_reward(with_reward(a, first, token_id, payouts.first), second, token_id, payouts.second),
    };
    match verdict {
        Verdict::FirstWins => {
            lemma_ledger_steps(a, first, token_id, payouts.first);
            lemma_ledger_steps(with_victory(a, first), first, token_id, payouts.first);
        },
        Verdict::SecondWins => {
            lemma_ledger_steps(a, second, token_id, payouts.second);
            lemma_ledger_steps(with_victory(a, second), second, token_id, payouts.second);
        },
        Verdict::Tie => {
            lemma_ledger_steps(a, first, token_id, payouts.first);
            lemma_ledger_steps(with_reward(a, first, token_id, payouts.first), second, token_id, payouts.second);
        },
    }
    let c = with_referral(b, first_referrer, token_id, payouts.first_referrer);
    if first_referrer.is_some() {
        lemma_ledger_steps(b, first_referrer.unwrap(), token_id, payouts.first_referrer);
    }
    if second_referrer.is_some() {
        lemma_ledger_steps(c, second_referrer.unwrap(), token_id, payouts.second_referrer);
    }
}

/// The payments of a settlement add up to what the players are paid and what
/// the referrers that there are are paid.
pub proof fn lemma_with_payouts(
    transfers: Seq<Transfer>,
    game: Game,
    verdict: Verdict,
    payouts: Payouts,
    first_referrer: Option<AccountId>,
    second_referrer: Option<AccountId>,
)
    ensures
        total(with_payouts(transfers, game, verdict, payouts, first_referrer, second_referrer)) == total(transfers)
            + payouts.first + payouts.second + (if first_referrer.is_some() {
            payouts.first_referrer as int
        } else {
            0
        }) + (if second_referrer.is_some() {
            payouts.second_referrer as int
        } else {
            0
        }),
{
    let token_id = game.reward.token_id;
    let purpose = if verdict == Verdict::Tie {
        TransferPurpose::TieRefund
    } else {
        TransferPurpose::Reward
    };
    let a = with_payment(transfers, token_id, game.players[0].account_id, payouts.first, purpose);
    lemma_total_with_payment(transfers, token_id, game.players[0].account_id, payouts.first, purpose);
    let b = with_payment(a, token_id, game.players[1].account_id, payouts.second, purpose);
    lemma_total_with_payment(a, token_id, game.players[1].account_id, payouts.second, purpose);
    let c = with_referral_payment(b, token_id, first_referrer, payouts.first_referrer);
    lemma_total_with_referral_payment(b, token_id, first_referrer, payouts.first_referrer);
    lemma_total_with_referral_payment(c, token_id, second_referrer, payouts.second_referrer);
}

/// A settlement keeps the service well formed.
pub proof fn lemma_settled_wf(
    state: State,
    game_id: GameId,
    game: Game,
    result: GameResult,
    penalized: Option<AccountId>,
    player1: AccountId,
    player2: AccountId,
)
    requires
        state.wf(),
    ensures
        state.settled(game_id, game, result, penalized, player1, player2).wf(),
{
    let after = state.settled(game_id, game, result, penalized, player1, player2);
    let verdict = verdict_of(game, result);
    let payouts = state.payouts_for(game, result);
    lemma_with_outcome(
        state.stats,
        game,
        verdict,
        payouts,
        penalized,
        lookup(state.affiliates, game.players[0].account_id),
        lookup(state.affiliates, game.players[1].account_id),
    );
    lemma_without(state.games, game_id);
    lemma_position(state.games, game_id);
    let p = position(state.games, game_id);
    assert forall|i: int| 0 <= i < after.games.len() implies {
        &&& (#[trigger] after.games[i]).1.wf()
        &&& after.games[i].1.game_state == GameState::Active
        &&& after.games[i].0 < after.next_game_id
    } by {
        if has_key(state.games, game_id) {
            if i < p {
                assert(after.games[i] == state.games[i]);
            } else {
                assert(after.games[i] == state.games[i + 1]);
            }
        }
    }
    let kept = GameLimitedView {
        game_result: result,
        player1,
        player2,
        reward_or_tie_refund: GameDeposit { token_id: game.reward.token_id, balance: winner_part(payouts, verdict) },
        board: game.board.tiles,
    };
    lemma_archived(state.stored_games, game_id, kept, state.max_stored_games);
}

/// Conservation: what a settlement asks the ledger to pay and what the service
/// keeps add up to the combined stake of the game, exactly. This holds of a
/// win on the board, a tie, a resignation, a stop and a forfeit alike, for
/// every stake that the balance type can hold.
pub proof fn lemma_settlement_conserves(
    state: State,
    game_id: GameId,
    game: Game,
    result: GameResult,
    penalized: Option<AccountId>,
    player1: AccountId,
    player2: AccountId,
)
    requires
        state.service_fee_percentage <= BASIS_P,
        state.referrer_ratio <= BASIS_P,
    ensures
        total(state.settled(game_id, game, result, penalized, player1, player2).transfers) - total(state.transfers)
            + state.payouts_for(game, result).retained == game.reward.balance,
{
    let first = game.players[0].account_id;
    let second = game.players[1].account_id;
    lemma_payouts_conserve(
        game.reward.balance,
        state.service_fee_percentage,
        state.referrer_ratio,
        verdict_of(game, result),
        has_key(state.affiliates, first),
        has_key(state.affiliates, second),
    );
    lemma_with_payouts(
        state.transfers,
        game,
        verdict_of(game, result),
        state.payouts_for(game, result),
        lookup(state.affiliates, first),
        lookup(state.affiliates, second),
    );
}

} // verus!
