//! The finished games kept for display: the most recent ones, oldest first.

use vstd::prelude::*;
use crate::account::AccountId;
use crate::board::Tiles;
use crate::game::{GameDeposit, GameId, GameResult};

verus! {

/// What is kept of a finished game: how it ended, who played, what the winner
/// was paid (after a tie, what each player was paid) and the final board.
#[derive(Clone, Copy, Debug, PartialEq, Eq)]
pub struct GameLimitedView {
    pub game_result: GameResult,
    pub player1: AccountId,
    pub player2: AccountId,
    pub reward_or_tie_refund: GameDeposit,
    pub board: Tiles,
}

/// The kept games with their numbers.
pub type Shelf = Seq<(GameId, GameLimitedView)>;

/// The last `max` entries of `shelf`; all of them if there are no more.
pub open spec fn newest(shelf: Shelf, max: int) -> Shelf {
    if shelf.len() > max {
        shelf.skip(shelf.len() - max)
    } else {
        shelf
    }
}

/// `shelf` with one more game: the new entry comes last, and only the last
/// `max` entries stay.
pub open spec fn archived(shelf: Shelf, game_id: GameId, game: GameLimitedView, max: u8) -> Shelf {
    newest(shelf.push((game_id, game)), max as int)
}

/// `shelf` with the games of `games` added one after the other.
pub open spec fn archived_all(shelf: Shelf, games: Shelf, max: u8) -> Shelf
    decreases games.len(),
{
    if games.len() == 0 {
        shelf
    } else {
        archived(archived_all(shelf, games.drop_last(), max), games.last().0, games.last().1, max)
    }
}

/// The bound of the archive: a shelf within the bound stays within it when a
/// game is added, and once it is full each new game pushes the oldest out.
pub proof fn lemma_archived(shelf: Shelf, game_id: GameId, game: GameLimitedView, max: u8)
    requires
        shelf.len() <= max,
    ensures
        archived(shelf, game_id, game, max).len() <= max,
        shelf.len() < max ==> archived(shelf, game_id, game, max) == shelf.push((game_id, game)),
        shelf.len() == max ==> archived(shelf, game_id, game, max) == shelf.push((game_id, game)).drop_first(),
{
}

/// Adding games one after the other keeps the last `max` of all.
pub proof fn lemma_archived_all(shelf: Shelf, games: Shelf, max: u8)
    requires
        shelf.len() <= max,
    ensures
        archived_all(shelf, games, max) == newest(shelf + games, max as int),
        archived_all(shelf, games, max).len() <= max,
    decreases games.len(),
{
    if games.len() > 0 {
        lemma_archived_all(shelf, games.drop_last(), max);
    }
}

/// After `max + 1` games were added to an empty archive it holds `max` games:
/// all but the first.
pub proof fn lemma_archive_bound(games: Shelf, max: u8)
    requires
        games.len() == max + 1,
    ensures
        archived_all(Seq::empty(), games, max).len() == max,
        archived_all(Seq::empty(), games, max) == games.drop_first(),
{
    lemma_archived_all(Seq::empty(), games, max);
}

/// Adds a game to `shelf`, and takes the oldest out until no more than `max`
/// are held.
pub fn store(shelf: &mut Vec<(GameId, GameLimitedView)>, game_id: GameId, game: GameLimitedView, max: u8)
    ensures
        final(shelf)@ == archived(old(shelf)@, game_id, game, max),
        final(shelf)@.len() <= max,
{
    shelf.push((game_id, game));
    let ghost grown = shelf@;
    let ghost mut gone: int = 0;
    while shelf.len() > max as usize
        invariant
            grown == old(shelf)@.push((game_id, game)),
            0 <= gone,
            gone + shelf@.len() == grown.len(),
            gone == 0 || shelf@.len() >= max,
            shelf@ == grown.skip(gone),
        decreases shelf.len(),
    {
        let _ = shelf.remove(0);
        proof {
            gone = gone + 1;
        }
    }
}

} // verus!
