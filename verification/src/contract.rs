//! The service: its state and the requests it answers.
//!
//! Every request is answered in full or refused: a refused request leaves the
//! service exactly as it was. Nothing runs in the background. Stale entries are
//! swept lazily, before the request that would meet them: a registration first
//! sweeps the queue, a move first sweeps the other active games, and the game
//! moved on is held to the same time limits by the move itself. [`Contract::sweep`]
//! runs both passes for a host that wants to sweep at other times.
//!
//! Payments are not made here. A settlement or a refund commits the state and
//! queues a request to the ledger; the host takes the queued requests with
//! [`Contract::take_transfers`] and reports how each went with
//! [`Contract::resolve_transfer`].

use vstd::prelude::*;
use crate::account::{is_account, near_token, native_token, AccountId};
use crate::archive::{store, GameLimitedView};
use crate::board::{pieces_kept, Tiles};
use crate::config::{Config, BASIS_P, GRACE_WINDOW, MAX_GAME_DURATION_SEC, MAX_NUM_TURNS, MIN_DEPOSIT_NEAR};
use crate::error::ContractError;
use crate::game::{Balance, Duration, Game, GameDeposit, GameId, GameResult, GameState, MoveOutcome, Timestamp};
use crate::game::TokenContractId;
use crate::game_config::{evict_stale, lemma_fresh, lemma_fresh_key, GameConfig, GameConfigArgs, GameConfigNear};
use crate::reward::{divide, Verdict};
use crate::state::{lemma_settled_wf, lemma_settlement_conserves, verdict_of, winner_part, State};
use crate::stats::{lemma_ledger_steps, with_game_played, StatsLedger};
use crate::table::{contains, find, get, has_key, has_unique_keys, insert, lookup, position, put, remove};
use crate::table::unique_keys;
use crate::table::{value_of, without};
use crate::table::{lemma_position, lemma_position_is, lemma_position_unique, lemma_put, lemma_without};
use crate::transfer::{add_payment, add_referral_payment, total, Transfer, TransferOutcome, TransferPurpose};
use crate::utils::{sec_to_nano, NANOS_PER_SEC};

verus! {

/// The service.
#[derive(Debug, PartialEq, Eq)]
pub struct Contract {
    /// The wager tokens that are accepted, each with its smallest deposit.
    pub whitelisted_tokens: Vec<(TokenContractId, Balance)>,
    /// The active games by number.
    pub games: Vec<(GameId, Game)>,
    /// The accounts that wait for an opponent.
    pub available_players: Vec<(AccountId, GameConfig)>,
    /// The record of every account that took part.
    pub stats: StatsLedger,
    /// For each referred account, the account that referred it.
    pub affiliates: Vec<(AccountId, AccountId)>,
    /// The number that the next game gets.
    pub next_game_id: GameId,
    /// Service fee rate, in basis points.
    pub service_fee_percentage: u32,
    /// Whole-game time limit, in nanoseconds.
    pub max_game_duration: Duration,
    /// Share of the service fee that goes to referrers, in basis points.
    pub referrer_ratio: u32,
    /// When the service last swept.
    pub last_update_timestamp: u64,
    /// Time limit of one turn, in nanoseconds.
    pub max_turn_duration: u64,
    /// Number of finished games kept for display.
    pub max_stored_games: u8,
    /// The finished games kept for display, oldest first.
    pub stored_games: Vec<(GameId, GameLimitedView)>,
    /// The payments requested and not yet handed to the ledger.
    pub transfers: Vec<Transfer>,
}

impl View for Contract {
    type V = State;

    open spec fn view(&self) -> State {
        State {
            whitelisted_tokens: self.whitelisted_tokens@,
            games: self.games@,
            available_players: self.available_players@,
            stats: self.stats@,
            affiliates: self.affiliates@,
            next_game_id: self.next_game_id,
            service_fee_percentage: self.service_fee_percentage,
            max_game_duration: self.max_game_duration,
            referrer_ratio: self.referrer_ratio,
            last_update_timestamp: self.last_update_timestamp,
            max_turn_duration: self.max_turn_duration,
            max_stored_games: self.max_stored_games,
            stored_games: self.stored_games@,
            transfers: self.transfers@,
        }
    }
}

/// Index of the entry of `games` for the game `game_id`, if there is one.
pub fn find_game(games: &Vec<(GameId, Game)>, game_id: GameId) -> (at: Option<usize>)
    ensures
        match at {
            Some(i) => has_key(games@, game_id) && i == position(games@, game_id) && games@[i as int].0 == game_id,
            None => !has_key(games@, game_id),
        },
{
    let mut i: usize = 0;
    while i < games.len()
        invariant
            i <= games.len(),
            forall|j: int| 0 <= j < i ==> (#[trigger] games@[j]).0 != game_id,
        decreases games.len() - i,
    {
        if games[i].0 == game_id {
            proof {
                lemma_position_is(games@, game_id, i as int);
            }
            return Some(i);
        }
        i += 1;
    }
    proof {
        lemma_position_is(games@, game_id, i as int);
    }
    None
}

/// Whether the games of `games` are well formed and active, and have
/// different numbers, all below `next_game_id`.
pub fn games_in_order(games: &Vec<(GameId, Game)>, next_game_id: GameId) -> (r: bool)
    ensures
        r == (unique_keys(games@) && forall|i: int|
            0 <= i < games@.len() ==> {
                &&& (#[trigger] games@[i]).1.wf()
                &&& games@[i].1.game_state == GameState::Active
                &&& games@[i].0 < next_game_id
            }),
{
    let mut j: usize = 0;
    while j < games.len()
        invariant
            j <= games.len(),
            forall|a: int, b: int| 0 <= a < b < j ==> (#[trigger] games@[a]).0 != (#[trigger] games@[b]).0,
            forall|i: int|
                0 <= i < j ==> {
                    &&& (#[trigger] games@[i]).1.wf()
                    &&& games@[i].1.game_state == GameState::Active
                    &&& games@[i].0 < next_game_id
                },
        decreases games.len() - j,
    {
        let active = match games[j].1.game_state {
            GameState::Active => true,
            GameState::Finished => false,
        };
        if !games[j].1.is_well_formed() || !active || games[j].0 >= next_game_id {
            return false;
        }
        let mut i: usize = 0;
        while i < j
            invariant
                i <= j < games.len(),
                forall|a: int| 0 <= a < i ==> (#[trigger] games@[a]).0 != games@[j as int].0,
            decreases j - i,
        {
            if games[i].0 == games[j].0 {
                return false;
            }
            i += 1;
        }
        j += 1;
    }
    true
}

impl Contract {
    /// Sets the service up with `config`, or with the standard values if none
    /// is given. Values outside their limits are refused.
    pub fn new(config: Option<Config>) -> (r: Result<Contract, ContractError>)
        ensures
            match r {
                Ok(contract) => {
                    &&& config.is_some() ==> config.unwrap().valid()
                    &&& contract@ == State::initial(
                        if config.is_some() {
                            config.unwrap()
                        } else {
                            Config::standard()
                        },
                    )
                    &&& contract@.wf()
                },
                Err(e) => e == ContractError::InvalidConfig && config.is_some() && !config.unwrap().valid(),
            },
    {
        let config = match config {
            Some(given) => {
                if !given.is_valid() {
                    return Err(ContractError::InvalidConfig);
                }
                given
            },
            None => Config::default_values(),
        };
        let max_game_duration = sec_to_nano(config.max_game_duration_sec);
        assert(config.max_game_duration_sec * NANOS_PER_SEC <= MAX_GAME_DURATION_SEC * NANOS_PER_SEC)
            by (nonlinear_arith)
            requires
                config.max_game_duration_sec <= MAX_GAME_DURATION_SEC,
        ;
        let contract = Contract {
            whitelisted_tokens: Vec::new(),
            games: Vec::new(),
            available_players: Vec::new(),
            stats: StatsLedger::new(),
            affiliates: Vec::new(),
            next_game_id: 0,
            service_fee_percentage: config.service_fee_percentage,
            max_game_duration,
            referrer_ratio: config.referrer_ratio,
            last_update_timestamp: 0,
            max_turn_duration: max_game_duration / MAX_NUM_TURNS,
            max_stored_games: config.max_stored_games,
            stored_games: Vec::new(),
            transfers: Vec::new(),
        };
        Ok(contract)
    }

    /// Whether the service is well formed: what every request asks of the
    /// service before it, and leaves behind.
    pub fn is_well_formed(&self) -> (r: bool)
        ensures
            r == self@.wf(),
    {
        has_unique_keys(&self.whitelisted_tokens) && games_in_order(&self.games, self.next_game_id)
            && has_unique_keys(&self.available_players) && has_unique_keys(&self.affiliates)
            && self.stats.is_well_formed() && self.stored_games.len() <= self.max_stored_games as usize
            && self.service_fee_percentage <= BASIS_P && self.referrer_ratio <= BASIS_P && self.max_game_duration
            <= MAX_GAME_DURATION_SEC as u64 * NANOS_PER_SEC && self.max_turn_duration == self.max_game_duration
            / MAX_NUM_TURNS
    }

    /// Accepts `token_id` as a wager token with `min_deposit` as its smallest
    /// deposit; a token accepted before gets the new smallest deposit.
    pub fn whitelist_token(&mut self, token_id: TokenContractId, min_deposit: Balance)
        requires
            old(self)@.wf(),
        ensures
            final(self)@.wf(),
            final(self)@ == (State {
                whitelisted_tokens: put(old(self)@.whitelisted_tokens, token_id, min_deposit),
                ..old(self)@
            }),
    {
        proof {
            lemma_put(self.whitelisted_tokens@, token_id, min_deposit);
        }
        insert(&mut self.whitelisted_tokens, token_id, min_deposit);
    }

    /// Notes `referrer`, if given, as the account that referred `account`,
    /// unless another was noted before.
    fn internal_add_referrer(&mut self, account: &AccountId, referrer: Option<AccountId>)
        requires
            old(self)@.wf(),
        ensures
            final(self)@.wf(),
            final(self)@ == old(self)@.with_referrer(*account, referrer),
    {
        match referrer {
            Some(by) => {
                if !contains(&self.affiliates, account) {
                    proof {
                        lemma_put(self.affiliates@, *account, by);
                    }
                    self.affiliates.push((*account, by));
                }
            },
            None => {},
        }
    }

    /// Settles the game `game_id`, whose last state is `game`, with `result`,
    /// and hands back what the winner is paid (after a tie, each player).
    fn settle(
        &mut self,
        game_id: GameId,
        game: &Game,
        result: GameResult,
        penalized: Option<AccountId>,
        player1: AccountId,
        player2: AccountId,
    ) -> (paid: Balance)
        requires
            old(self)@.wf(),
        ensures
            final(self)@.wf(),
            final(self)@ == old(self)@.settled(game_id, *game, result, penalized, player1, player2),
            paid == winner_part(old(self)@.payouts_for(*game, result), verdict_of(*game, result)),
            total(final(self)@.transfers) + old(self)@.payouts_for(*game, result).retained == total(
                old(self)@.transfers,
            ) + game.reward.balance,
    {
        proof {
            lemma_settled_wf(self@, game_id, *game, result, penalized, player1, player2);
            lemma_settlement_conserves(self@, game_id, *game, result, penalized, player1, player2);
        }
        let token_id = game.reward.token_id;
        let first = game.players[0].account_id;
        let second = game.players[1].account_id;
        let verdict = match result {
            GameResult::Tie => Verdict::Tie,
            GameResult::Win(winner) => if winner.same(&first) {
                Verdict::FirstWins
            } else {
                Verdict::SecondWins
            },
        };
        let first_referrer = get(&self.affiliates, &first);
        let second_referrer = get(&self.affiliates, &second);
        let payouts = divide(
            game.reward.balance,
            self.service_fee_percentage,
            self.referrer_ratio,
            verdict,
            first_referrer.is_some(),
            second_referrer.is_some(),
        );
        let purpose = match verdict {
            Verdict::Tie => TransferPurpose::TieRefund,
            _ => TransferPurpose::Reward,
        };
        add_payment(&mut self.transfers, token_id, first, payouts.first, purpose);
        add_payment(&mut self.transfers, token_id, second, payouts.second, purpose);
        add_referral_payment(&mut self.transfers, token_id, first_referrer, payouts.first_referrer);
        add_referral_payment(&mut self.transfers, token_id, second_referrer, payouts.second_referrer);
        match penalized {
            Some(account) => {
                self.stats.add_penalty(&account);
            },
            None => {},
        }
        match verdict {
            Verdict::FirstWins => {
                self.stats.add_victory(&first);
                self.stats.add_reward(&first, token_id, payouts.first);
            },
            Verdict::SecondWins => {
                self.stats.add_victory(&second);
                self.stats.add_reward(&second, token_id, payouts.second);
            },
            Verdict::Tie => {
                self.stats.add_reward(&first, token_id, payouts.first);
                self.stats.add_reward(&second, token_id, payouts.second);
            },
        }
        self.stats.add_referral(first_referrer, token_id, payouts.first_referrer);
        self.stats.add_referral(second_referrer, token_id, payouts.second_referrer);
        let paid = match verdict {
            Verdict::FirstWins => payouts.first,
            Verdict::SecondWins => payouts.second,
            Verdict::Tie => payouts.first,
        };
        let kept = GameLimitedView {
            game_result: result,
            player1,
            player2,
            reward_or_tie_refund: GameDeposit { token_id, balance: paid },
            board: game.board.tiles,
        };
        store(&mut self.stored_games, game_id, kept, self.max_stored_games);
        match find_game(&self.games, game_id) {
            Some(at) => {
                let _ = self.games.remove(at);
            },
            None => {},
        }
        paid
    }

    /// The first pass of the sweep: accounts that at `now` have waited longer
    /// than a whole game may take and a grace window more leave the queue, and
    /// their deposits are paid back.
    pub fn internal_ping_expired_players(&mut self, now: Timestamp)
        requires
            old(self)@.wf(),
        ensures
            final(self)@.wf(),
            final(self)@ == old(self)@.swept_players(now),
    {
        let bound: u64 = self.max_game_duration + GRACE_WINDOW;
        proof {
            lemma_fresh(self.available_players@, now, bound);
        }
        evict_stale(&mut self.available_players, &mut self.transfers, now, bound);
        self.last_update_timestamp = now;
    }

    /// The second pass of the sweep: every active game that at `now` has run
    /// longer than a whole game may take, or whose current turn has run longer
    /// than a turn may take, is ended as won by the waiting player, and the
    /// player to move is penalized. The game `spared` is left alone.
    pub fn internal_ping_expired_games(&mut self, now: Timestamp, spared: Option<GameId>)
        requires
            old(self)@.wf(),
        ensures
            final(self)@.wf(),
            final(self)@ == old(self)@.swept_games(now, spared),
            final(self)@.next_game_id == old(self)@.next_game_id,
            final(self)@.max_turn_duration == old(self)@.max_turn_duration,
            final(self)@.max_game_duration == old(self)@.max_game_duration,
            final(self)@.available_players == old(self)@.available_players,
            final(self)@.affiliates == old(self)@.affiliates,
            final(self)@.whitelisted_tokens == old(self)@.whitelisted_tokens,
            spared.is_some() ==> lookup(final(self)@.games, spared.unwrap()) == lookup(
                old(self)@.games,
                spared.unwrap(),
            ),
    {
        let mut i: usize = 0;
        assert(self@.games.skip(0) == self@.games);
        while i < self.games.len()
            invariant
                i <= self.games.len(),
                self@.wf(),
                self@.next_game_id == old(self)@.next_game_id,
                self@.max_turn_duration == old(self)@.max_turn_duration,
                self@.max_game_duration == old(self)@.max_game_duration,
                self@.available_players == old(self)@.available_players,
                self@.affiliates == old(self)@.affiliates,
                self@.whitelisted_tokens == old(self)@.whitelisted_tokens,
                self@.last_update_timestamp == old(self)@.last_update_timestamp,
                spared.is_some() ==> lookup(self@.games, spared.unwrap()) == lookup(
                    old(self)@.games,
                    spared.unwrap(),
                ),
                old(self)@.swept_over(old(self)@.games, now, spared) == self@.swept_over(
                    self@.games.skip(i as int),
                    now,
                    spared,
                ),
            decreases self.games.len() - i,
        {
            let game_id = self.games[i].0;
            let game = self.games[i].1;
            let ghost before = self@;
            let ghost pending = before.games.skip(i as int);
            assert(pending.drop_first() == before.games.skip(i + 1));
            let spare = match spared {
                Some(id) => id == game_id,
                None => false,
            };
            if !spare && game.is_timed_out(now, self.max_turn_duration, self.max_game_duration) {
                proof {
                    lemma_position_unique(before.games, i as int);
                    lemma_without(before.games, game_id);
                }
                let winner = game.next_player_account_id();
                let loser = game.current_player_account_id();
                let _ = self.settle(
                    game_id,
                    &game,
                    GameResult::Win(winner),
                    Some(loser),
                    game.players[0].account_id,
                    game.players[1].account_id,
                );
                assert(self@.games.skip(i as int) == before.games.skip(i + 1));
            } else {
                i += 1;
            }
        }
        self.last_update_timestamp = now;
    }

    /// Both passes of the sweep at `now`.
    pub fn sweep(&mut self, now: Timestamp)
        requires
            old(self)@.wf(),
        ensures
            final(self)@.wf(),
            final(self)@ == old(self)@.swept(now),
    {
        self.internal_ping_expired_players(now);
        self.internal_ping_expired_games(now, None);
    }

    /// Registers `account` at `now` as waiting with `amount` of `token_id`,
    /// after the first pass of the sweep.
    ///
    /// `min_deposit` is the smallest deposit of the token, if the token is
    /// accepted. The request is refused if the account still waits, if the
    /// token is not accepted, or if the amount is below the smallest deposit.
    fn register(
        &mut self,
        account: &AccountId,
        token_id: TokenContractId,
        min_deposit: Option<Balance>,
        amount: Balance,
        args: GameConfigArgs,
        now: Timestamp,
    ) -> (r: Result<(), ContractError>)
        requires
            old(self)@.wf(),
        ensures
            final(self)@.wf(),
            match r {
                Ok(()) => {
                    &&& old(self)@.register_check(*account, min_deposit, amount, now).is_ok()
                    &&& final(self)@ == old(self)@.registered(
                        *account,
                        GameConfig {
                            token_id,
                            deposit: amount,
                            opponent_id: args.opponent_id,
                            referrer_id: args.referrer_id,
                            created_at: now,
                        },
                        now,
                    )
                },
                Err(e) => old(self)@.register_check(*account, min_deposit, amount, now) == Err::<(), ContractError>(e)
                    && *final(self) == *old(self),
            },
    {
        let bound: u64 = self.max_game_duration + GRACE_WINDOW;
        proof {
            lemma_fresh_key(self.available_players@, now, bound, *account);
        }
        match get(&self.available_players, account) {
            Some(held) => {
                if !held.is_stale(now, bound) {
                    return Err(ContractError::AlreadyAvailable);
                }
            },
            None => {},
        }
        match min_deposit {
            None => {
                return Err(ContractError::TokenNotWhitelisted);
            },
            Some(least) => {
                if amount < least {
                    return Err(ContractError::DepositTooSmall);
                }
            },
        }
        self.internal_ping_expired_players(now);
        let record = GameConfig {
            token_id,
            deposit: amount,
            opponent_id: args.opponent_id,
            referrer_id: args.referrer_id,
            created_at: now,
        };
        proof {
            lemma_put(self.available_players@, *account, record);
        }
        insert(&mut self.available_players, *account, record);
        self.internal_add_referrer(account, args.referrer_id);
        Ok(())
    }

    /// Registers `account_id` at `now` as waiting with `deposit` of the native
    /// token, of which at least `MIN_DEPOSIT_NEAR` is asked.
    pub fn make_available(
        &mut self,
        account_id: &AccountId,
        deposit: Balance,
        now: Timestamp,
        game_config: Option<GameConfigNear>,
    ) -> (r: Result<(), ContractError>)
        requires
            old(self)@.wf(),
        ensures
            final(self)@.wf(),
            match r {
                Ok(()) => {
                    &&& old(self)@.register_check(*account_id, Some(MIN_DEPOSIT_NEAR), deposit, now).is_ok()
                    &&& final(self)@ == old(self)@.registered(
                        *account_id,
                        GameConfig {
                            token_id: native_token(),
                            deposit,
                            opponent_id: if game_config.is_some() {
                                game_config.unwrap().opponent_id
                            } else {
                                None
                            },
                            referrer_id: if game_config.is_some() {
                                game_config.unwrap().referrer_id
                            } else {
                                None
                            },
                            created_at: now,
                        },
                        now,
                    )
                },
                Err(e) => old(self)@.register_check(*account_id, Some(MIN_DEPOSIT_NEAR), deposit, now) == Err::<
                    (),
                    ContractError,
                >(e) && *final(self) == *old(self),
            },
    {
        let args = match game_config {
            Some(given) => given,
            None => GameConfigArgs { opponent_id: None, referrer_id: None },
        };
        self.register(account_id, near_token(), Some(MIN_DEPOSIT_NEAR), deposit, args, now)
    }

    /// Registers `sender_id` at `now` as waiting with `amount` of the token
    /// `token_id`, which has to be accepted.
    pub fn ft_on_transfer(
        &mut self,
        token_id: &TokenContractId,
        sender_id: &AccountId,
        amount: Balance,
        now: Timestamp,
        args: GameConfigArgs,
    ) -> (r: Result<(), ContractError>)
        requires
            old(self)@.wf(),
        ensures
            final(self)@.wf(),
            match r {
                Ok(()) => {
                    &&& old(self)@.register_check(
                        *sender_id,
                        lookup(old(self)@.whitelisted_tokens, *token_id),
                        amount,
                        now,
                    ).is_ok()
                    &&& final(self)@ == old(self)@.registered(
                        *sender_id,
                        GameConfig {
                            token_id: *token_id,
                            deposit: amount,
                            opponent_id: args.opponent_id,
                            referrer_id: args.referrer_id,
                            created_at: now,
                        },
                        now,
                    )
                },
                Err(e) => old(self)@.register_check(
                    *sender_id,
                    lookup(old(self)@.whitelisted_tokens, *token_id),
                    amount,
                    now,
                ) == Err::<(), ContractError>(e) && *final(self) == *old(self),
            },
    {
        let min_deposit = get(&self.whitelisted_tokens, token_id);
        self.register(sender_id, *token_id, min_deposit, amount, args, now)
    }

    /// Takes `account_id` out of the queue and asks for its deposit to be paid
    /// back. The request is refused if the account does not wait.
    pub fn make_unavailable(&mut self, account_id: &AccountId) -> (r: Result<(), ContractError>)
        requires
            old(self)@.wf(),
        ensures
            final(self)@.wf(),
            match r {
                Ok(()) => old(self)@.cancel_check(*account_id).is_ok() && final(self)@ == old(self)@.cancelled(
                    *account_id,
                ),
                Err(e) => old(self)@.cancel_check(*account_id) == Err::<(), ContractError>(e) && *final(self) == *old(
                    self,
                ),
            },
    {
        proof {
            lemma_without(self.available_players@, *account_id);
        }
        match find(&self.available_players, account_id) {
            Some(at) => {
                let held = self.available_players.remove(at);
                self.transfers.push(held.1.refund(account_id));
                Ok(())
            },
            None => Err(ContractError::NotAvailable),
        }
    }

    /// Starts a game at `now` between the waiting accounts `player_1_id`, who
    /// asks for it, and `player_2_id`, and hands back its number.
    ///
    /// `seed` is a byte of the block's randomness: if it is even the opponent
    /// moves first, if it is odd the account that asked. The request is refused
    /// if the opponent does not wait, if both are one account, if the asking
    /// account does not wait, if the opponent waits for another account, if
    /// the deposits or the tokens differ, or if the doubled deposit or the
    /// game number cannot be counted.
    pub fn start_game(&mut self, player_1_id: &AccountId, player_2_id: &AccountId, now: Timestamp, seed: u8) -> (r:
        Result<GameId, ContractError>)
        requires
            old(self)@.wf(),
        ensures
            final(self)@.wf(),
            match r {
                Ok(game_id) => {
                    &&& old(self)@.match_check(*player_1_id, *player_2_id).is_ok()
                    &&& final(self)@ == old(self)@.matched(*player_1_id, *player_2_id, now, seed)
                    &&& game_id == old(self)@.next_game_id
                    &&& lookup(final(self)@.games, game_id) == Some(
                        old(self)@.game_between(*player_1_id, *player_2_id, now, seed),
                    )
                    &&& value_of(final(self)@.games, game_id).has_player(*player_1_id)
                    &&& value_of(final(self)@.games, game_id).has_player(*player_2_id)
                },
                Err(e) => old(self)@.match_check(*player_1_id, *player_2_id) == Err::<(), ContractError>(e)
                    && *final(self) == *old(self),
            },
    {
        let theirs = match get(&self.available_players, player_2_id) {
            Some(held) => held,
            None => {
                return Err(ContractError::OpponentNotReady);
            },
        };
        if player_1_id.same(player_2_id) {
            return Err(ContractError::SamePlayer);
        }
        let mine = match get(&self.available_players, player_1_id) {
            Some(held) => held,
            None => {
                return Err(ContractError::NotAvailable);
            },
        };
        if theirs.opponent_id.is_some() && !is_account(&theirs.opponent_id, player_1_id) {
            return Err(ContractError::WrongAccount);
        }
        if mine.deposit != theirs.deposit {
            return Err(ContractError::MismatchedDeposits);
        }
        if !mine.token_id.same(&theirs.token_id) {
            return Err(ContractError::MismatchedTokens);
        }
        if theirs.deposit > u128::MAX / 2 {
            return Err(ContractError::Overflow);
        }
        if self.next_game_id == u64::MAX {
            return Err(ContractError::Overflow);
        }
        let opened = if seed % 2 == 0 {
            Game::create_game(*player_2_id, *player_1_id, theirs.token_id, theirs.deposit, now)
        } else {
            Game::create_game(*player_1_id, *player_2_id, theirs.token_id, theirs.deposit, now)
        };
        let game = match opened {
            Ok(game) => game,
            Err(e) => {
                return Err(e);
            },
        };
        let game_id = self.next_game_id;
        proof {
            let s = old(self)@;
            // the new number is above every number in use
            assert forall|j: int| 0 <= j < s.games.len() implies (#[trigger] s.games[j]).0 != game_id by {}
            lemma_position_is(s.games, game_id, s.games.len() as int);
            lemma_put(s.games, game_id, game);
            lemma_without(s.available_players, *player_1_id);
            lemma_without(without(s.available_players, *player_1_id), *player_2_id);
            lemma_ledger_steps(s.stats, *player_1_id, game.reward.token_id, 0);
            lemma_ledger_steps(
                with_game_played(s.stats, *player_1_id),
                *player_2_id,
                game.reward.token_id,
                0,
            );
        }
        self.games.push((game_id, game));
        self.next_game_id = game_id + 1;
        let _ = remove(&mut self.available_players, player_1_id);
        let _ = remove(&mut self.available_players, player_2_id);
        self.stats.add_played(player_1_id);
        self.stats.add_played(player_2_id);
        self.internal_add_referrer(player_1_id, mine.referrer_id);
        self.internal_add_referrer(player_2_id, theirs.referrer_id);
        Ok(game_id)
    }

    /// Makes the move of `caller` to `(row, col)` in the game `game_id` at
    /// `now`, and hands back the board after the move.
    ///
    /// The request is refused, and nothing changes, if no active game has the
    /// number, if it is not the caller's turn, or if the cell is off the board
    /// or holds a piece. Otherwise every other game that ran out of time is
    /// ended, and the move is made. If it brings an outcome on the board the
    /// game is settled with it. If it came after a time limit had run out the
    /// game is settled as won by the opponent, and the caller is penalized.
    /// A cell that held a piece holds it afterwards.
    pub fn make_move(&mut self, caller: &AccountId, game_id: &GameId, row: usize, col: usize, now: Timestamp) -> (r:
        Result<Tiles, ContractError>)
        requires
            old(self)@.wf(),
        ensures
            final(self)@.wf(),
            match r {
                Ok(tiles) => {
                    let game = value_of(old(self)@.games, *game_id);
                    &&& old(self)@.move_check(*caller, *game_id, row, col).is_ok()
                    &&& final(self)@ == old(self)@.moved(*caller, *game_id, row as int, col as int, now)
                    &&& tiles == game.board.played(row as int, col as int).tiles
                    &&& pieces_kept(game.board.tiles, tiles)
                    &&& has_key(final(self)@.games, *game_id) == (game.move_outcome(
                        row as int,
                        col as int,
                        now,
                        old(self)@.max_turn_duration,
                        old(self)@.max_game_duration,
                    ) == MoveOutcome::Continues)
                },
                Err(e) => old(self)@.move_check(*caller, *game_id, row, col) == Err::<(), ContractError>(e)
                    && *final(self) == *old(self),
            },
    {
        let before = match find_game(&self.games, *game_id) {
            Some(at) => self.games[at].1,
            None => {
                return Err(ContractError::GameNotFound);
            },
        };
        proof {
            lemma_position(self.games@, *game_id);
        }
        let mut game = before;
        let outcome = match game.apply_move(caller, row, col, now, self.max_turn_duration, self.max_game_duration) {
            Ok(outcome) => outcome,
            Err(e) => {
                return Err(e);
            },
        };
        self.internal_ping_expired_games(now, Some(*game_id));
        let first = before.players[0].account_id;
        let second = before.players[1].account_id;
        proof {
            lemma_position(self.games@, *game_id);
            lemma_put(self.games@, *game_id, game);
            lemma_without(self.games@, *game_id);
        }
        match outcome {
            MoveOutcome::Continues => {
                match find_game(&self.games, *game_id) {
                    Some(at) => {
                        self.games[at] = (*game_id, game);
                    },
                    None => {},
                }
            },
            MoveOutcome::Finished(result) => {
                let _ = self.settle(*game_id, &game, result, None, first, second);
            },
            MoveOutcome::TimedOut => {
                let winner = before.next_player_account_id();
                let _ = self.settle(*game_id, &game, GameResult::Win(winner), Some(*caller), first, second);
            },
        }
        Ok(game.board.tiles)
    }

    /// Ends the game `game_id` on the resignation of `caller`: the opponent
    /// wins and the game is settled. The request is refused if no active game
    /// has the number or if the caller does not play in it.
    pub fn give_up(&mut self, caller: &AccountId, game_id: &GameId) -> (r: Result<(), ContractError>)
        requires
            old(self)@.wf(),
        ensures
            final(self)@.wf(),
            match r {
                Ok(()) => old(self)@.resign_check(*caller, *game_id).is_ok() && final(self)@ == old(self)@.resigned(
                    *caller,
                    *game_id,
                ),
                Err(e) => old(self)@.resign_check(*caller, *game_id) == Err::<(), ContractError>(e) && *final(self)
                    == *old(self),
            },
    {
        let before = match find_game(&self.games, *game_id) {
            Some(at) => self.games[at].1,
            None => {
                return Err(ContractError::GameNotFound);
            },
        };
        proof {
            lemma_position(self.games@, *game_id);
        }
        let mut game = before;
        let winner = match game.resign(caller) {
            Ok(winner) => winner,
            Err(e) => {
                return Err(e);
            },
        };
        let first = before.players[0].account_id;
        let second = before.players[1].account_id;
        let _ = self.settle(*game_id, &game, GameResult::Win(winner), None, first, second);
        Ok(())
    }

    /// Ends the game `game_id` at `now` for the waiting player `caller`: the
    /// caller wins, the opponent is penalized, and the game is settled.
    ///
    /// The request is refused if no active game has the number, if it is the
    /// caller's turn, if the game has neither run for as long as a whole game
    /// may take nor its turn for longer than a turn may take, or if the caller
    /// does not play in it.
    pub fn stop_game(&mut self, caller: &AccountId, game_id: &GameId, now: Timestamp) -> (r: Result<(), ContractError>)
        requires
            old(self)@.wf(),
        ensures
            final(self)@.wf(),
            match r {
                Ok(()) => old(self)@.stop_check(*caller, *game_id, now).is_ok() && final(self)@ == old(
                    self,
                )@.stopped(*caller, *game_id, now),
                Err(e) => old(self)@.stop_check(*caller, *game_id, now) == Err::<(), ContractError>(e) && *final(self)
                    == *old(self),
            },
    {
        let before = match find_game(&self.games, *game_id) {
            Some(at) => self.games[at].1,
            None => {
                return Err(ContractError::GameNotFound);
            },
        };
        proof {
            lemma_position(self.games@, *game_id);
        }
        let mut game = before;
        let loser = match game.force_stop(caller, now, self.max_turn_duration, self.max_game_duration) {
            Ok(loser) => loser,
            Err(e) => {
                return Err(e);
            },
        };
        let _ = self.settle(*game_id, &game, GameResult::Win(*caller), Some(loser), *caller, loser);
        Ok(())
    }

    /// Hands over the payments requested so far, oldest first, and forgets
    /// them.
    pub fn take_transfers(&mut self) -> (requests: Vec<Transfer>)
        requires
            old(self)@.wf(),
        ensures
            final(self)@.wf(),
            requests@ == old(self)@.transfers,
            final(self)@ == (State { transfers: Seq::empty(), ..old(self)@ }),
    {
        let mut requests: Vec<Transfer> = Vec::new();
        let mut i: usize = 0;
        while i < self.transfers.len()
            invariant
                i <= self.transfers.len(),
                *self == *old(self),
                requests@ == self.transfers@.take(i as int),
            decreases self.transfers.len() - i,
        {
            requests.push(self.transfers[i]);
            i += 1;
        }
        self.transfers = Vec::new();
        requests
    }

    /// Takes note of the ledger's answer to the payment `transfer`. A payment
    /// that failed is requested again, for the same amount to the same account;
    /// one that succeeded needs nothing more.
    pub fn resolve_transfer(&mut self, transfer: Transfer, outcome: TransferOutcome)
        requires
            old(self)@.wf(),
        ensures
            final(self)@.wf(),
            final(self)@ == (State {
                transfers: if outcome == TransferOutcome::Failure {
                    old(self)@.transfers.push(transfer)
                } else {
                    old(self)@.transfers
                },
                ..old(self)@
            }),
            total(final(self)@.transfers) == total(old(self)@.transfers) + if outcome == TransferOutcome::Failure {
                transfer.amount as int
            } else {
                0
            },
    {
        match outcome {
            TransferOutcome::Failure => {
                self.transfers.push(transfer);
                assert(self.transfers@.drop_last() == old(self).transfers@);
            },
            TransferOutcome::Success => {},
        }
    }
}

} // verus!
