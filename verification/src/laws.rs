//! What holds of the service, whatever state it is in and whatever it is asked.

use vstd::prelude::*;
use crate::account::AccountId;
use crate::board::{lemma_play_keeps_pieces, pieces_kept};
use crate::config::MAX_TIME_TO_BE_AVAILABLE;
use crate::game::{Game, GameId, GameResult, GameState, MoveOutcome, Timestamp};
use crate::game_config::{lemma_fresh, lemma_fresh_all};
use crate::reward::{Payouts, Verdict};
use crate::state::{lemma_settled_wf, verdict_of, with_outcome, State};
use crate::stats::{ledger_grew, lemma_ledger_grew_onward, lemma_ledger_grows, with_game_played, with_penalty};
use crate::stats::{with_referral, with_reward, with_victory, StatsModel};
use crate::table::{has_key, lemma_position, lemma_position_is, lemma_position_unique, lemma_put, lemma_without};
use crate::table::{lookup, position, value_of, without};
use crate::utils::elapsed;

verus! {

/// Whether the sweep at `now` would end none of `games`.
pub open spec fn none_expired(state: State, games: Seq<(GameId, Game)>, now: Timestamp, spared: Option<GameId>) -> bool {
    forall|i: int| 0 <= i < games.len() ==> !state.expired((#[trigger] games[i]).0, games[i].1, now, spared)
}

/// Whether two states have the same settings, queue and referrals.
pub open spec fn same_frame(a: State, b: State) -> bool {
    &&& a.whitelisted_tokens == b.whitelisted_tokens
    &&& a.available_players == b.available_players
    &&& a.affiliates == b.affiliates
    &&& a.next_game_id == b.next_game_id
    &&& a.service_fee_percentage == b.service_fee_percentage
    &&& a.max_game_duration == b.max_game_duration
    &&& a.referrer_ratio == b.referrer_ratio
    &&& a.last_update_timestamp == b.last_update_timestamp
    &&& a.max_turn_duration == b.max_turn_duration
    &&& a.max_stored_games == b.max_stored_games
}

/// The second pass of the sweep leaves the settings, the queue and the
/// referrals alone, keeps the service well formed, and leaves no game behind
/// that it would end.
///
/// `done` are the active games already looked at, `pending` those still to be
/// looked at.
pub proof fn lemma_swept_over(
    state: State,
    done: Seq<(GameId, Game)>,
    pending: Seq<(GameId, Game)>,
    now: Timestamp,
    spared: Option<GameId>,
)
    requires
        state.wf(),
        state.games == done + pending,
        none_expired(state, done, now, spared),
    ensures
        state.swept_over(pending, now, spared).wf(),
        same_frame(state.swept_over(pending, now, spared), state),
        none_expired(state, state.swept_over(pending, now, spared).games, now, spared),
    decreases pending.len(),
{
    if pending.len() == 0 {
        assert(done + pending == done);
    } else {
        let game_id = pending[0].0;
        let game = pending[0].1;
        let rest = pending.drop_first();
        let at = done.len() as int;
        if state.expired(game_id, game, now, spared) {
            let next = state.forfeited(game_id, game);
            lemma_settled_wf(
                state,
                game_id,
                game,
                GameResult::Win(game.waiter()),
                Some(game.mover()),
                game.players[0].account_id,
                game.players[1].account_id,
            );
            lemma_position_unique(state.games, at);
            assert(next.games == done + rest);
            lemma_swept_over(next, done, rest, now, spared);
        } else {
            let seen = done.push(pending[0]);
            assert(state.games == seen + rest);
            assert forall|i: int| 0 <= i < seen.len() implies !state.expired(
                (#[trigger] seen[i]).0,
                seen[i].1,
                now,
                spared,
            ) by {
                if i < done.len() {
                    assert(seen[i] == done[i]);
                }
            }
            lemma_swept_over(state, seen, rest, now, spared);
        }
    }
}

/// Where the sweep would end none of the games, it changes nothing.
pub proof fn lemma_swept_over_none(state: State, pending: Seq<(GameId, Game)>, now: Timestamp, spared: Option<GameId>)
    requires
        none_expired(state, pending, now, spared),
    ensures
        state.swept_over(pending, now, spared) == state,
    decreases pending.len(),
{
    if pending.len() > 0 {
        let rest = pending.drop_first();
        assert forall|i: int| 0 <= i < rest.len() implies !state.expired(
            (#[trigger] rest[i]).0,
            rest[i].1,
            now,
            spared,
        ) by {
            assert(rest[i] == pending[i + 1]);
        }
        lemma_swept_over_none(state, rest, now, spared);
    }
}

/// The sweep keeps the service well formed.
pub proof fn lemma_swept_wf(state: State, now: Timestamp)
    requires
        state.wf(),
    ensures
        state.swept_players(now).wf(),
        state.swept(now).wf(),
{
    let first = state.swept_players(now);
    lemma_fresh(state.available_players, now, state.waiting_bound());
    lemma_swept_over(first, Seq::empty(), first.games, now, None);
}

/// The sweep is idempotent: a second sweep at the same time changes nothing.
pub proof fn lemma_sweep_idempotent(state: State, now: Timestamp)
    requires
        state.wf(),
    ensures
        state.swept(now).swept(now) == state.swept(now),
{
    let first = state.swept_players(now);
    let once = state.swept(now);
    lemma_swept_wf(state, now);
    lemma_fresh(state.available_players, now, state.waiting_bound());
    lemma_swept_over(first, Seq::empty(), first.games, now, None);
    let over = first.swept_over(first.games, now, None);
    // the queue holds no stale record any more
    lemma_fresh_all(once.available_players, now, once.waiting_bound());
    // no game is left that ran out of time
    assert(none_expired(once, once.games, now, None)) by {
        assert forall|i: int| 0 <= i < once.games.len() implies !once.expired(
            (#[trigger] once.games[i]).0,
            once.games[i].1,
            now,
            None,
        ) by {
            assert(!first.expired(over.games[i].0, over.games[i].1, now, None));
        }
    }
    lemma_swept_over_none(once, once.games, now, None);
}

/// After a sweep at `now` no account has waited longer than
/// `MAX_TIME_TO_BE_AVAILABLE`, whatever time limit the service has.
pub proof fn lemma_waiting_is_bounded(state: State, now: Timestamp, i: int)
    requires
        state.wf(),
        0 <= i < state.swept(now).available_players.len(),
    ensures
        elapsed(now, state.swept(now).available_players[i].1.created_at) <= MAX_TIME_TO_BE_AVAILABLE,
{
    let first = state.swept_players(now);
    lemma_swept_wf(state, now);
    lemma_fresh(state.available_players, now, state.waiting_bound());
    lemma_swept_over(first, Seq::empty(), first.games, now, None);
}

/// The second pass of the sweep does not touch the game it spares.
pub proof fn lemma_swept_over_spares(state: State, pending: Seq<(GameId, Game)>, now: Timestamp, spared: GameId)
    ensures
        lookup(state.swept_over(pending, now, Some(spared)).games, spared) == lookup(state.games, spared),
    decreases pending.len(),
{
    if pending.len() > 0 {
        let game_id = pending[0].0;
        let game = pending[0].1;
        if state.expired(game_id, game, now, Some(spared)) {
            lemma_without(state.games, game_id);
            lemma_swept_over_spares(state.forfeited(game_id, game), pending.drop_first(), now, spared);
        } else {
            lemma_swept_over_spares(state, pending.drop_first(), now, spared);
        }
    }
}

/// Two accounts that wait with equal deposits of one token can always be
/// matched, and the game that begins seats exactly the two of them: the
/// opponent first if the seed is even, the account that asked if it is odd.
///
/// This holds unless the opponent insists on another account, the doubled
/// deposit does not fit the balance type, or no game number is left.
pub proof fn lemma_match_seats_both(state: State, initiator: AccountId, opponent: AccountId, now: Timestamp, seed: u8)
    requires
        state.wf(),
        initiator != opponent,
        has_key(state.available_players, initiator),
        has_key(state.available_players, opponent),
        value_of(state.available_players, initiator).deposit == value_of(state.available_players, opponent).deposit,
        value_of(state.available_players, initiator).token_id == value_of(
            state.available_players,
            opponent,
        ).token_id,
        value_of(state.available_players, opponent).opponent_id.is_none() || value_of(
            state.available_players,
            opponent,
        ).opponent_id == Some(initiator),
        2 * value_of(state.available_players, opponent).deposit <= u128::MAX,
        state.next_game_id < u64::MAX,
    ensures
        state.match_check(initiator, opponent).is_ok(),
        ({
            let after = state.matched(initiator, opponent, now, seed);
            let game = value_of(after.games, state.next_game_id);
            &&& has_key(after.games, state.next_game_id)
            &&& game == state.game_between(initiator, opponent, now, seed)
            &&& game.has_player(initiator) && game.has_player(opponent)
            &&& game.players[0].account_id != game.players[1].account_id
            &&& game.mover() == if seed % 2 == 0 {
                opponent
            } else {
                initiator
            }
            &&& game.waiter() == if seed % 2 == 0 {
                initiator
            } else {
                opponent
            }
            &&& game.reward.balance == 2 * value_of(state.available_players, opponent).deposit
            &&& !has_key(after.available_players, initiator)
            &&& !has_key(after.available_players, opponent)
        }),
{
    let after = state.matched(initiator, opponent, now, seed);
    assert forall|j: int| 0 <= j < state.games.len() implies (#[trigger] state.games[j]).0 != state.next_game_id by {}
    lemma_position_is(after.games, state.next_game_id, state.games.len() as int);
    lemma_without(state.available_players, initiator);
    lemma_without(without(state.available_players, initiator), opponent);
}

/// Whether every game that is active before and after has kept its pieces:
/// no cell that held a piece has changed.
pub open spec fn boards_kept(before: State, after: State) -> bool {
    forall|game_id: GameId|
        has_key(before.games, game_id) && #[trigger] has_key(after.games, game_id) ==> pieces_kept(
            value_of(before.games, game_id).board.tiles,
            value_of(after.games, game_id).board.tiles,
        )
}

/// Whether every game that is active after was active before, and is as it was.
pub open spec fn games_untouched(before: State, after: State) -> bool {
    forall|game_id: GameId| #[trigger]
        has_key(after.games, game_id) ==> lookup(after.games, game_id) == lookup(before.games, game_id)
}

/// A settlement takes one game away and leaves the others as they are.
pub proof fn lemma_settled_keeps_games(
    state: State,
    game_id: GameId,
    game: Game,
    result: GameResult,
    penalized: Option<AccountId>,
    player1: AccountId,
    player2: AccountId,
)
    requires
        state.wf(),
    ensures
        games_untouched(state, state.settled(game_id, game, result, penalized, player1, player2)),
        !has_key(state.settled(game_id, game, result, penalized, player1, player2).games, game_id),
{
    lemma_without(state.games, game_id);
}

/// The second pass of the sweep takes games away and leaves the others as
/// they are.
pub proof fn lemma_swept_over_keeps_games(
    state: State,
    done: Seq<(GameId, Game)>,
    pending: Seq<(GameId, Game)>,
    now: Timestamp,
    spared: Option<GameId>,
)
    requires
        state.wf(),
        state.games == done + pending,
        none_expired(state, done, now, spared),
    ensures
        games_untouched(state, state.swept_over(pending, now, spared)),
    decreases pending.len(),
{
    if pending.len() > 0 {
        let game_id = pending[0].0;
        let game = pending[0].1;
        let rest = pending.drop_first();
        let at = done.len() as int;
        if state.expired(game_id, game, now, spared) {
            let next = state.forfeited(game_id, game);
            lemma_settled_wf(
                state,
                game_id,
                game,
                GameResult::Win(game.waiter()),
                Some(game.mover()),
                game.players[0].account_id,
                game.players[1].account_id,
            );
            lemma_settled_keeps_games(
                state,
                game_id,
                game,
                GameResult::Win(game.waiter()),
                Some(game.mover()),
                game.players[0].account_id,
                game.players[1].account_id,
            );
            lemma_position_unique(state.games, at);
            assert(next.games == done + rest);
            lemma_swept_over_keeps_games(next, done, rest, now, spared);
            let last = next.swept_over(rest, now, spared);
            assert forall|id: GameId| #[trigger] has_key(last.games, id) implies lookup(last.games, id) == lookup(
                state.games,
                id,
            ) by {
                assert(has_key(next.games, id));
            }
        } else {
            let seen = done.push(pending[0]);
            assert(state.games == seen + rest);
            assert forall|i: int| 0 <= i < seen.len() implies !state.expired(
                (#[trigger] seen[i]).0,
                seen[i].1,
                now,
                spared,
            ) by {
                if i < done.len() {
                    assert(seen[i] == done[i]);
                }
            }
            lemma_swept_over_keeps_games(state, seen, rest, now, spared);
        }
    }
}

/// Cells are immutable under every request: whatever the service is asked, a
/// cell of an active game that holds a piece holds the same piece afterwards,
/// for as long as the game is active.
///
/// The sweep, a registration, a cancellation, a new game, a resignation and a
/// stop change no board; a move changes one empty cell of one board.
pub proof fn lemma_cells_are_immutable(
    state: State,
    caller: AccountId,
    other: AccountId,
    game_id: GameId,
    row: usize,
    col: usize,
    now: Timestamp,
    seed: u8,
)
    requires
        state.wf(),
    ensures
        boards_kept(state, state.swept(now)),
        boards_kept(state, state.swept_players(now)),
        boards_kept(state, state.registered(caller, value_of(state.available_players, other), now)),
        boards_kept(state, state.cancelled(caller)),
        state.match_check(caller, other).is_ok() ==> boards_kept(state, state.matched(caller, other, now, seed)),
        state.move_check(caller, game_id, row, col).is_ok() ==> boards_kept(
            state,
            state.moved(caller, game_id, row as int, col as int, now),
        ),
        boards_kept(state, state.resigned(caller, game_id)),
        boards_kept(state, state.stopped(caller, game_id, now)),
{
    // the sweep
    let first = state.swept_players(now);
    lemma_swept_wf(state, now);
    lemma_swept_over_keeps_games(first, Seq::empty(), first.games, now, None);
    assert(boards_kept(state, state.swept(now))) by {
        assert forall|id: GameId| has_key(state.games, id) && #[trigger] has_key(state.swept(now).games, id) implies pieces_kept(
            value_of(state.games, id).board.tiles,
            value_of(state.swept(now).games, id).board.tiles,
        ) by {
            assert(lookup(state.swept(now).games, id) == lookup(first.games, id));
        }
    }
    // a new game
    if state.match_check(caller, other).is_ok() {
        let after = state.matched(caller, other, now, seed);
        assert forall|id: GameId| has_key(state.games, id) && #[trigger] has_key(after.games, id) implies pieces_kept(
            value_of(state.games, id).board.tiles,
            value_of(after.games, id).board.tiles,
        ) by {
            lemma_position(state.games, id);
            lemma_position_is(after.games, id, position(state.games, id));
        }
    }
    // a resignation and a stop
    let game = value_of(state.games, game_id);
    lemma_settled_keeps_games(
        state,
        game_id,
        Game { game_state: GameState::Finished, ..game },
        GameResult::Win(game.opponent_of(caller)),
        None,
        game.players[0].account_id,
        game.players[1].account_id,
    );
    lemma_settled_keeps_games(
        state,
        game_id,
        Game {
            game_state: GameState::Finished,
            current_duration: elapsed(now, game.initiated_at),
            ..game
        },
        GameResult::Win(caller),
        Some(game.opponent_of(caller)),
        caller,
        game.opponent_of(caller),
    );
    // a move
    if state.move_check(caller, game_id, row, col).is_ok() {
        let swept = state.swept_games(now, Some(game_id));
        lemma_swept_over(state, Seq::empty(), state.games, now, Some(game_id));
        lemma_swept_over_keeps_games(state, Seq::empty(), state.games, now, Some(game_id));
        lemma_swept_over_spares(state, state.games, now, game_id);
        let after = game.moved(row as int, col as int, now, state.max_turn_duration, state.max_game_duration);
        lemma_play_keeps_pieces(game.board, row, col);
        let last = state.moved(caller, game_id, row as int, col as int, now);
        assert forall|id: GameId| has_key(state.games, id) && #[trigger] has_key(last.games, id) implies pieces_kept(
            value_of(state.games, id).board.tiles,
            value_of(last.games, id).board.tiles,
        ) by {
            lemma_put(swept.games, game_id, after);
            lemma_without(swept.games, game_id);
            if id != game_id {
                assert(lookup(last.games, id) == lookup(swept.games, id));
            }
        }
    }
}

/// A settlement loses no record and lowers no counter.
pub proof fn lemma_outcome_grows(
    stats: Seq<(AccountId, StatsModel)>,
    game: Game,
    verdict: Verdict,
    payouts: Payouts,
    penalized: Option<AccountId>,
    first_referrer: Option<AccountId>,
    second_referrer: Option<AccountId>,
)
    ensures
        ledger_grew(stats, with_outcome(stats, game, verdict, payouts, penalized, first_referrer, second_referrer)),
{
    let token_id = game.reward.token_id;
    let first = game.players[0].account_id;
    let second = game.players[1].account_id;
    let a = match penalized {
        Some(account) => with_penalty(stats, account),
        None => stats,
    };
    if penalized.is_some() {
        lemma_ledger_grows(stats, penalized.unwrap(), token_id, 0);
    }
    let b = match verdict {
        Verdict::FirstWins => with_reward(with_victory(a, first), first, token_id, payouts.first),
        Verdict::SecondWins => with_reward(with_victory(a, second), second, token_id, payouts.second),
        Verdict::Tie => with_reward(with_reward(a, first, token_id, payouts.first), second, token_id, payouts.second),
    };
    match verdict {
        Verdict::FirstWins => {
            lemma_ledger_grows(a, first, token_id, payouts.first);
            lemma_ledger_grows(with_victory(a, first), first, token_id, payouts.first);
            lemma_ledger_grew_onward(a, with_victory(a, first), b);
        },
        Verdict::SecondWins => {
            lemma_ledger_grows(a, second, token_id, payouts.second);
            lemma_ledger_grows(with_victory(a, second), second, token_id, payouts.second);
            lemma_ledger_grew_onward(a, with_victory(a, second), b);
        },
        Verdict::Tie => {
            lemma_ledger_grows(a, first, token_id, payouts.first);
            lemma_ledger_grows(with_reward(a, first, token_id, payouts.first), second, token_id, payouts.second);
            lemma_ledger_grew_onward(a, with_reward(a, first, token_id, payouts.first), b);
        },
    }
    lemma_ledger_grew_onward(stats, a, b);
    let c = with_referral(b, first_referrer, token_id, payouts.first_referrer);
    if first_referrer.is_some() {
        lemma_ledger_grows(b, first_referrer.unwrap(), token_id, payouts.first_referrer);
    }
    lemma_ledger_grew_onward(stats, b, c);
    let d = with_outcome(stats, game, verdict, payouts, penalized, first_referrer, second_referrer);
    if second_referrer.is_some() {
        lemma_ledger_grows(c, second_referrer.unwrap(), token_id, payouts.second_referrer);
    }
    lemma_ledger_grew_onward(stats, c, d);
}

/// The second pass of the sweep loses no record and lowers no counter.
pub proof fn lemma_swept_over_grows(state: State, pending: Seq<(GameId, Game)>, now: Timestamp, spared: Option<GameId>)
    ensures
        ledger_grew(state.stats, state.swept_over(pending, now, spared).stats),
    decreases pending.len(),
{
    if pending.len() > 0 {
        let game_id = pending[0].0;
        let game = pending[0].1;
        if state.expired(game_id, game, now, spared) {
            let next = state.forfeited(game_id, game);
            let result = GameResult::Win(game.waiter());
            lemma_outcome_grows(
                state.stats,
                game,
                verdict_of(game, result),
                state.payouts_for(game, result),
                Some(game.mover()),
                lookup(state.affiliates, game.players[0].account_id),
                lookup(state.affiliates, game.players[1].account_id),
            );
            lemma_swept_over_grows(next, pending.drop_first(), now, spared);
            lemma_ledger_grew_onward(state.stats, next.stats, next.swept_over(pending.drop_first(), now, spared).stats);
        } else {
            lemma_swept_over_grows(state, pending.drop_first(), now, spared);
        }
    }
}

/// Records are never lost and counters never fall: whatever the service is
/// asked, every account that has a record keeps one, and no count of games
/// played, of victories or of penalties and no amount paid is lower afterwards.
pub proof fn lemma_records_never_fall(
    state: State,
    caller: AccountId,
    other: AccountId,
    game_id: GameId,
    row: usize,
    col: usize,
    now: Timestamp,
    seed: u8,
)
    ensures
        ledger_grew(state.stats, state.swept(now).stats),
        ledger_grew(state.stats, state.registered(caller, value_of(state.available_players, other), now).stats),
        ledger_grew(state.stats, state.cancelled(caller).stats),
        ledger_grew(state.stats, state.matched(caller, other, now, seed).stats),
        ledger_grew(state.stats, state.moved(caller, game_id, row as int, col as int, now).stats),
        ledger_grew(state.stats, state.resigned(caller, game_id).stats),
        ledger_grew(state.stats, state.stopped(caller, game_id, now).stats),
{
    // the sweep
    let first = state.swept_players(now);
    lemma_swept_over_grows(first, first.games, now, None);
    // a new game
    lemma_ledger_grows(state.stats, caller, caller, 0);
    lemma_ledger_grows(with_game_played(state.stats, caller), other, caller, 0);
    lemma_ledger_grew_onward(
        state.stats,
        with_game_played(state.stats, caller),
        with_game_played(with_game_played(state.stats, caller), other),
    );
    // a resignation and a stop
    let game = value_of(state.games, game_id);
    let resigned = Game { game_state: GameState::Finished, ..game };
    let won = GameResult::Win(game.opponent_of(caller));
    lemma_outcome_grows(
        state.stats,
        resigned,
        verdict_of(resigned, won),
        state.payouts_for(resigned, won),
        None,
        lookup(state.affiliates, game.players[0].account_id),
        lookup(state.affiliates, game.players[1].account_id),
    );
    let stopped = Game {
        game_state: GameState::Finished,
        current_duration: elapsed(now, game.initiated_at),
        ..game
    };
    let taken = GameResult::Win(caller);
    lemma_outcome_grows(
        state.stats,
        stopped,
        verdict_of(stopped, taken),
        state.payouts_for(stopped, taken),
        Some(game.opponent_of(caller)),
        lookup(state.affiliates, game.players[0].account_id),
        lookup(state.affiliates, game.players[1].account_id),
    );
    // a move
    let swept = state.swept_games(now, Some(game_id));
    lemma_swept_over_grows(state, state.games, now, Some(game_id));
    let after = game.moved(row as int, col as int, now, state.max_turn_duration, state.max_game_duration);
    match game.move_outcome(row as int, col as int, now, state.max_turn_duration, state.max_game_duration) {
        MoveOutcome::Continues => {},
        MoveOutcome::Finished(result) => {
            lemma_outcome_grows(
                swept.stats,
                after,
                verdict_of(after, result),
                swept.payouts_for(after, result),
                None,
                lookup(swept.affiliates, after.players[0].account_id),
                lookup(swept.affiliates, after.players[1].account_id),
            );
        },
        MoveOutcome::TimedOut => {
            let result = GameResult::Win(game.waiter());
            lemma_outcome_grows(
                swept.stats,
                after,
                verdict_of(after, result),
                swept.payouts_for(after, result),
                Some(caller),
                lookup(swept.affiliates, after.players[0].account_id),
                lookup(swept.affiliates, after.players[1].account_id),
            );
        },
    }
    lemma_ledger_grew_onward(
        state.stats,
        swept.stats,
        state.moved(caller, game_id, row as int, col as int, now).stats,
    );
}

} // verus!
