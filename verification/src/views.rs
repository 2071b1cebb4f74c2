//! What the service shows of its state. Nothing here changes it.

use vstd::prelude::*;
use crate::account::AccountId;
use crate::archive::GameLimitedView;
use crate::board::Tiles;
use crate::contract::{find_game, Contract};
use crate::game::{Balance, Duration, Game, GameDeposit, GameId, GameState, Player, Timestamp, TokenContractId};
use crate::game_config::GameConfigView;
use crate::stats::{record_of, Stats, StatsLedger, StatsModel, UserPenalties};
use crate::table::{copy_of, lookup};

verus! {

/// How an active game is listed.
#[derive(Clone, Copy, Debug, PartialEq, Eq)]
pub struct GameView {
    pub player1: AccountId,
    pub player2: AccountId,
    pub game_status: GameState,
    pub current_player: Player,
    pub reward: GameDeposit,
    pub tiles: Tiles,
    pub initiated_at: Timestamp,
    pub last_turn_timestamp: Timestamp,
    pub current_duration: Duration,
}

impl GameView {
    /// How `game` is listed.
    pub open spec fn of(game: Game) -> GameView {
        GameView {
            player1: game.players[0].account_id,
            player2: game.players[1].account_id,
            game_status: game.game_state,
            current_player: game.players[if game.current_player_index < 2 {
                game.current_player_index as int
            } else {
                0
            }],
            reward: game.reward,
            tiles: game.board.tiles,
            initiated_at: game.initiated_at,
            last_turn_timestamp: game.last_turn_timestamp,
            current_duration: game.current_duration,
        }
    }
}

impl From<&Game> for GameView {
    fn from(game: &Game) -> (view: GameView) {
        let turn: usize = if game.current_player_index < 2 {
            game.current_player_index
        } else {
            0
        };
        GameView {
            player1: game.players[0].account_id,
            player2: game.players[1].account_id,
            game_status: game.game_state,
            current_player: game.players[turn],
            reward: game.reward,
            tiles: game.board.tiles,
            initiated_at: game.initiated_at,
            last_turn_timestamp: game.last_turn_timestamp,
            current_duration: game.current_duration,
        }
    }
}

impl vstd::std_specs::convert::FromSpecImpl<&Game> for GameView {
    open spec fn obeys_from_spec() -> bool {
        true
    }

    open spec fn from_spec(game: &Game) -> GameView {
        GameView::of(*game)
    }
}

/// The settings of the service and how much it holds.
#[derive(Clone, Copy, Debug, PartialEq, Eq, Structural)]
pub struct ContractParams {
    pub games: usize,
    pub available_players: usize,
    pub service_fee_percentage: u32,
    pub max_game_duration: Duration,
    pub referrer_ratio: u32,
    pub last_update_timestamp: Timestamp,
    pub max_turn_duration: Duration,
    pub max_stored_games: u8,
}

/// The games of `games` as they are listed, in their order.
pub open spec fn listed(games: Seq<(GameId, Game)>) -> Seq<(GameId, GameView)> {
    games.map_values(|entry: (GameId, Game)| (entry.0, GameView::of(entry.1)))
}

/// The accounts of `ledger` that have at least one penalty, each with the
/// number of its penalties, in the order of the ledger.
pub open spec fn penalized_in(ledger: Seq<(AccountId, StatsModel)>) -> Seq<(AccountId, UserPenalties)> {
    ledger.filter_map(
        |entry: (AccountId, StatsModel)|
            if entry.1.penalties_num > 0 {
                Some((entry.0, UserPenalties { penalties_num: entry.1.penalties_num }))
            } else {
                None
            },
    )
}

/// The accounts of `ledger` that have played at least one game, in the order
/// of the ledger.
pub open spec fn played_in(ledger: Seq<(AccountId, StatsModel)>) -> Seq<AccountId> {
    ledger.filter_map(
        |entry: (AccountId, StatsModel)|
            if entry.1.games_played > 0 {
                Some(entry.0)
            } else {
                None
            },
    )
}

impl StatsLedger {
    /// The accounts that have at least one penalty, each with the number of
    /// its penalties.
    pub fn penalty_users(&self) -> (users: Vec<(AccountId, UserPenalties)>)
        ensures
            users@ == penalized_in(self@),
    {
        let mut users: Vec<(AccountId, UserPenalties)> = Vec::new();
        let mut i: usize = 0;
        while i < self.records.len()
            invariant
                i <= self.records.len(),
                users@ == penalized_in(self@.take(i as int)),
            decreases self.records.len() - i,
        {
            proof {
                let next = self@.take(i + 1);
                assert(next.drop_last() == self@.take(i as int));
            }
            if self.records[i].1.penalties_num > 0 {
                let user = (self.records[i].0, UserPenalties { penalties_num: self.records[i].1.penalties_num });
                users.push(user);
            }
            i += 1;
        }
        assert(self@.take(i as int) == self@);
        users
    }

    /// The accounts that have played at least one game.
    pub fn accounts_played(&self) -> (accounts: Vec<AccountId>)
        ensures
            accounts@ == played_in(self@),
    {
        let mut accounts: Vec<AccountId> = Vec::new();
        let mut i: usize = 0;
        while i < self.records.len()
            invariant
                i <= self.records.len(),
                accounts@ == played_in(self@.take(i as int)),
            decreases self.records.len() - i,
        {
            proof {
                let next = self@.take(i + 1);
                assert(next.drop_last() == self@.take(i as int));
            }
            if self.records[i].1.games_played > 0 {
                accounts.push(self.records[i].0);
            }
            i += 1;
        }
        assert(self@.take(i as int) == self@);
        accounts
    }
}

impl Contract {
    /// The settings of the service, and how many games are active and how
    /// many accounts wait.
    pub fn get_contract_params(&self) -> (params: ContractParams)
        ensures
            params == (ContractParams {
                games: self@.games.len() as usize,
                available_players: self@.available_players.len() as usize,
                service_fee_percentage: self@.service_fee_percentage,
                max_game_duration: self@.max_game_duration,
                referrer_ratio: self@.referrer_ratio,
                last_update_timestamp: self@.last_update_timestamp,
                max_turn_duration: self@.max_turn_duration,
                max_stored_games: self@.max_stored_games,
            }),
    {
        ContractParams {
            games: self.games.len(),
            available_players: self.available_players.len(),
            service_fee_percentage: self.service_fee_percentage,
            max_game_duration: self.max_game_duration,
            referrer_ratio: self.referrer_ratio,
            last_update_timestamp: self.last_update_timestamp,
            max_turn_duration: self.max_turn_duration,
            max_stored_games: self.max_stored_games,
        }
    }

    /// The accepted wager tokens, each with its smallest deposit.
    pub fn get_whitelisted_tokens(&self) -> (tokens: Vec<(TokenContractId, Balance)>)
        ensures
            tokens@ == self@.whitelisted_tokens,
    {
        copy_of(&self.whitelisted_tokens)
    }

    /// The waiting accounts with their records, longest-waiting entry first.
    pub fn get_available_players(&self) -> (players: Vec<(AccountId, GameConfigView)>)
        ensures
            players@ == self@.available_players,
    {
        copy_of(&self.available_players)
    }

    /// The active games as they are listed, by number.
    pub fn get_active_games(&self) -> (games: Vec<(GameId, GameView)>)
        ensures
            games@ == listed(self@.games),
    {
        let mut games: Vec<(GameId, GameView)> = Vec::new();
        let mut i: usize = 0;
        while i < self.games.len()
            invariant
                i <= self.games.len(),
                games@ == listed(self@.games.take(i as int)),
            decreases self.games.len() - i,
        {
            let view = GameView::from(&self.games[i].1);
            games.push((self.games[i].0, view));
            i += 1;
        }
        games
    }

    /// The active game `game_id`, if there is one.
    pub fn internal_get_game(&self, game_id: &GameId) -> (game: Option<Game>)
        ensures
            game == lookup(self@.games, *game_id),
    {
        match find_game(&self.games, *game_id) {
            Some(at) => Some(self.games[at].1),
            None => None,
        }
    }

    /// The active game `game_id` as it is listed, if there is one.
    pub fn get_game(&self, game_id: &GameId) -> (game: Option<GameView>)
        ensures
            game == match lookup(self@.games, *game_id) {
                Some(held) => Some(GameView::of(held)),
                None => None,
            },
    {
        match find_game(&self.games, *game_id) {
            Some(at) => Some(GameView::from(&self.games[at].1)),
            None => None,
        }
    }

    /// The record that waits for `account_id`, if the account waits.
    pub fn internal_get_available_player(&self, account_id: &AccountId) -> (record: Option<GameConfigView>)
        ensures
            record == lookup(self@.available_players, *account_id),
    {
        crate::table::get(&self.available_players, account_id)
    }

    /// The record of `account_id`; a blank one if nothing was counted for it.
    pub fn get_stats(&self, account_id: &AccountId) -> (stats: Stats)
        ensures
            stats@ == record_of(self@.stats, *account_id),
    {
        self.stats.get(account_id)
    }

    /// Number of accounts that have a record.
    pub fn get_total_stats_num(&self) -> (n: usize)
        ensures
            n == self@.stats.len(),
    {
        self.stats.len()
    }

    /// The accounts that have played at least one game.
    pub fn get_accounts_played(&self) -> (accounts: Vec<AccountId>)
        ensures
            accounts@ == played_in(self@.stats),
    {
        self.stats.accounts_played()
    }

    /// How many penalties `account_id` has.
    pub fn get_user_penalties(&self, account_id: &AccountId) -> (penalties: UserPenalties)
        ensures
            penalties.penalties_num == record_of(self@.stats, *account_id).penalties_num,
    {
        let stats = self.stats.get(account_id);
        UserPenalties { penalties_num: stats.penalties_num }
    }

    /// The accounts that have at least one penalty, each with the number of
    /// its penalties.
    pub fn get_penalty_users(&self) -> (users: Vec<(AccountId, UserPenalties)>)
        ensures
            users@ == penalized_in(self@.stats),
    {
        self.stats.penalty_users()
    }

    /// The finished games kept for display, oldest first.
    pub fn get_last_games(&self) -> (games: Vec<(GameId, GameLimitedView)>)
        ensures
            games@ == self@.stored_games,
    {
        let mut games: Vec<(GameId, GameLimitedView)> = Vec::new();
        let mut i: usize = 0;
        while i < self.stored_games.len()
            invariant
                i <= self.stored_games.len(),
                games@ == self.stored_games@.take(i as int),
            decreases self.stored_games.len() - i,
        {
            games.push(self.stored_games[i]);
            assert(self.stored_games@.take(i + 1) == self.stored_games@.take(i as int).push(
                self.stored_games@[i as int],
            ));
            i += 1;
        }
        games
    }
}

} // verus!
