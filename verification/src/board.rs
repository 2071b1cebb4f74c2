//! The board: its cells, the moves it accepts and how a game on it ends.

use vstd::prelude::*;
use crate::config::BOARD_SIZE;
use crate::config::WIN_LENGTH;

verus! {

/// One of the two kinds of marker that players put on the board.
#[derive(Clone, Copy, Debug, PartialEq, Eq, Structural)]
pub enum Piece {
    X,
    O,
}

impl Piece {
    /// The piece of the opposing player.
    pub open spec fn opposite(self) -> Piece {
        match self {
            Piece::X => Piece::O,
            Piece::O => Piece::X,
        }
    }

    /// The piece of the opposing player.
    pub fn other(self) -> (p: Piece)
        ensures
            p == self.opposite(),
    {
        match self {
            Piece::X => Piece::O,
            Piece::O => Piece::X,
        }
    }
}

/// How a finished board ended.
#[derive(Clone, Copy, Debug, PartialEq, Eq, Structural)]
pub enum Winner {
    X,
    O,
    Tie,
}

impl Winner {
    /// The outcome in which the player of `piece` has won.
    pub open spec fn of(piece: Piece) -> Winner {
        match piece {
            Piece::X => Winner::X,
            Piece::O => Winner::O,
        }
    }
}

/// Why a move cannot be made.
#[derive(Clone, Copy, Debug, PartialEq, Eq, Structural)]
pub enum MoveError {
    /// The board already has a winner or a tie.
    GameAlreadyOver,
    /// The position lies outside the board.
    InvalidPosition { row: usize, col: usize },
    /// The position already holds a piece.
    TileFilled { other_piece: Piece, row: usize, col: usize },
}

/// The cells of a board, row by row.
pub type Tiles = [[Option<Piece>; BOARD_SIZE]; BOARD_SIZE];

/// The four lines through a cell along which a run is counted.
#[derive(Clone, Copy, Debug, PartialEq, Eq, Structural)]
pub enum Axis {
    Horizontal,
    Vertical,
    Diagonal,
    AntiDiagonal,
}

/// Whether `(row, col)` is a cell of the board.
pub open spec fn in_bounds(row: int, col: int) -> bool {
    0 <= row < BOARD_SIZE && 0 <= col < BOARD_SIZE
}

/// The position `k` steps from `(row, col)` along `axis`; negative `k` steps back.
pub open spec fn along(axis: Axis, row: int, col: int, k: int) -> (int, int) {
    match axis {
        Axis::Horizontal => (row, col + k),
        Axis::Vertical => (row + k, col),
        Axis::Diagonal => (row + k, col + k),
        Axis::AntiDiagonal => (row + k, col - k),
    }
}

/// Whether `(row, col)` is a cell of the board that holds `piece`.
pub open spec fn holds(tiles: Tiles, row: int, col: int, piece: Piece) -> bool {
    in_bounds(row, col) && tiles[row][col] == Some(piece)
}

/// Whether the position `k` steps from `(row, col)` along `axis` is a cell of
/// the board that holds `piece`.
pub open spec fn holds_at(tiles: Tiles, axis: Axis, row: int, col: int, k: int, piece: Piece) -> bool {
    holds(tiles, along(axis, row, col, k).0, along(axis, row, col, k).1, piece)
}

/// Whether the `WIN_LENGTH` cells that start `start` steps from `(row, col)`
/// along `axis` all hold `piece`.
pub open spec fn line_from(tiles: Tiles, axis: Axis, row: int, col: int, start: int, piece: Piece) -> bool {
    forall|k: int| start <= k < start + WIN_LENGTH ==> #[trigger] holds_at(tiles, axis, row, col, k, piece)
}

/// Whether an unbroken line of `WIN_LENGTH` cells holding `piece` runs through
/// `(row, col)` along `axis`.
pub open spec fn wins_along(tiles: Tiles, axis: Axis, row: int, col: int, piece: Piece) -> bool {
    exists|start: int| -(WIN_LENGTH as int) < start <= 0 && #[trigger] line_from(tiles, axis, row, col, start, piece)
}

/// Whether an unbroken line of `WIN_LENGTH` cells holding `piece` runs through
/// `(row, col)` along any of the four axes.
pub open spec fn wins_at(tiles: Tiles, row: int, col: int, piece: Piece) -> bool {
    ||| wins_along(tiles, Axis::Horizontal, row, col, piece)
    ||| wins_along(tiles, Axis::Vertical, row, col, piece)
    ||| wins_along(tiles, Axis::Diagonal, row, col, piece)
    ||| wins_along(tiles, Axis::AntiDiagonal, row, col, piece)
}

/// Whether every cell holds a piece.
pub open spec fn is_full(tiles: Tiles) -> bool {
    forall|row: int, col: int| in_bounds(row, col) ==> (#[trigger] tiles[row][col]).is_some()
}

/// Whether no cell holds a piece.
pub open spec fn is_empty(tiles: Tiles) -> bool {
    forall|row: int, col: int| in_bounds(row, col) ==> (#[trigger] tiles[row][col]).is_none()
}

/// The grid without pieces.
pub open spec fn empty_tiles() -> Tiles {
    vstd::array::spec_array_fill_for_copy_type::<[Option<Piece>; BOARD_SIZE], BOARD_SIZE>(
        vstd::array::spec_array_fill_for_copy_type::<Option<Piece>, BOARD_SIZE>(None),
    )
}

/// What the board's outcome is once the piece at `(row, col)` has been played,
/// given the outcome `before`: a win for that piece if a line runs through the
/// cell, else a tie if the board is full, else what it was.
pub open spec fn outcome_after(tiles: Tiles, row: int, col: int, before: Option<Winner>) -> Option<Winner> {
    match tiles[row][col] {
        Some(piece) if wins_at(tiles, row, col, piece) => Some(Winner::of(piece)),
        _ => if is_full(tiles) {
            Some(Winner::Tie)
        } else {
            before
        },
    }
}

/// `tiles` with `piece` put at `(row, col)`.
pub open spec fn with_piece(tiles: Tiles, row: int, col: int, piece: Piece) -> Tiles {
    vstd::array::spec_array_update(tiles, row, vstd::array::spec_array_update(tiles[row], col, Some(piece)))
}

/// Whether every piece on `before` is still on `after`, in its cell.
pub open spec fn pieces_kept(before: Tiles, after: Tiles) -> bool {
    forall|row: int, col: int|
        in_bounds(row, col) && (#[trigger] before[row][col]).is_some() ==> after[row][col] == before[row][col]
}

/// The grid of a game, the piece to be played next and the outcome, once there
/// is one.
#[derive(Clone, Copy, Debug, PartialEq, Eq)]
pub struct Board {
    pub tiles: Tiles,
    pub current_piece: Piece,
    pub winner: Option<Winner>,
}


/// The cell next to `(row, col)` along `axis`, forward or backward, if the
/// board has one.
fn neighbour(axis: Axis, forward: bool, row: usize, col: usize) -> (next: Option<(usize, usize)>)
    requires
        in_bounds(row as int, col as int),
    ensures
        ({
            let to = along(axis, row as int, col as int, if forward { 1 } else { -1 });
            match next {
                Some((r, c)) => in_bounds(to.0, to.1) && r == to.0 && c == to.1,
                None => !in_bounds(to.0, to.1),
            }
        }),
{
    let last: usize = BOARD_SIZE - 1;
    match axis {
        Axis::Horizontal => if forward {
            if col < last { Some((row, col + 1)) } else { None }
        } else {
            if col > 0 { Some((row, col - 1)) } else { None }
        },
        Axis::Vertical => if forward {
            if row < last { Some((row + 1, col)) } else { None }
        } else {
            if row > 0 { Some((row - 1, col)) } else { None }
        },
        Axis::Diagonal => if forward {
            if row < last && col < last { Some((row + 1, col + 1)) } else { None }
        } else {
            if row > 0 && col > 0 { Some((row - 1, col - 1)) } else { None }
        },
        Axis::AntiDiagonal => if forward {
            if row < last && col > 0 { Some((row + 1, col - 1)) } else { None }
        } else {
            if row > 0 && col < last { Some((row - 1, col + 1)) } else { None }
        },
    }
}

/// `k` steps forward, or `k` steps backward.
pub open spec fn toward(forward: bool, k: int) -> int {
    if forward { k } else { -k }
}

/// Number of cells holding `piece` that follow `(row, col)` without a gap along
/// `axis` in one direction.
fn count_run(tiles: &Tiles, axis: Axis, forward: bool, row: usize, col: usize, piece: Piece) -> (n: usize)
    requires
        in_bounds(row as int, col as int),
    ensures
        n < BOARD_SIZE,
        forall|k: int|
            1 <= k <= n ==> #[trigger] holds_at(*tiles, axis, row as int, col as int, toward(forward, k), piece),
        !holds_at(*tiles, axis, row as int, col as int, toward(forward, n + 1), piece),
{
    let mut n: usize = 0;
    let mut r: usize = row;
    let mut c: usize = col;
    loop
        invariant
            in_bounds(row as int, col as int),
            in_bounds(r as int, c as int),
            n < BOARD_SIZE,
            (r as int, c as int) == along(axis, row as int, col as int, toward(forward, n as int)),
            forall|k: int|
                1 <= k <= n ==> #[trigger] holds_at(*tiles, axis, row as int, col as int, toward(forward, k), piece),
        ensures
            n < BOARD_SIZE,
            forall|k: int|
                1 <= k <= n ==> #[trigger] holds_at(*tiles, axis, row as int, col as int, toward(forward, k), piece),
            !holds_at(*tiles, axis, row as int, col as int, toward(forward, n + 1), piece),
        decreases BOARD_SIZE - n,
    {
        match neighbour(axis, forward, r, c) {
            Some((nr, nc)) => {
                let same = match tiles[nr][nc] {
                    Some(p) => p == piece,
                    None => false,
                };
                if !same {
                    break;
                }
                // A run that stays on the board has at most BOARD_SIZE - 1 cells
                // beyond its start.
                n = n + 1;
                r = nr;
                c = nc;
            },
            None => {
                break;
            },
        }
    }
    n
}

/// A run counted in both directions from a cell that holds `piece` reaches
/// `WIN_LENGTH` exactly when a full line runs through the cell.
proof fn lemma_run_is_line(tiles: Tiles, axis: Axis, row: int, col: int, piece: Piece, back: int, ahead: int)
    requires
        holds(tiles, row, col, piece),
        0 <= back,
        0 <= ahead,
        forall|k: int|
            1 <= k <= back ==> #[trigger] holds_at(tiles, axis, row, col, toward(false, k), piece),
        !holds_at(tiles, axis, row, col, toward(false, back + 1), piece),
        forall|k: int|
            1 <= k <= ahead ==> #[trigger] holds_at(tiles, axis, row, col, toward(true, k), piece),
        !holds_at(tiles, axis, row, col, toward(true, ahead + 1), piece),
    ensures
        (back + ahead + 1 >= WIN_LENGTH) == wins_along(tiles, axis, row, col, piece),
{
    assert forall|k: int| -back <= k <= ahead implies holds_at(tiles, axis, row, col, k, piece) by {
        if k > 0 {
            assert(toward(true, k) == k);
        } else if k < 0 {
            assert(toward(false, -k) == k);
        }
    }
    if back + ahead + 1 >= WIN_LENGTH {
        let start: int = if back >= WIN_LENGTH - 1 { -(WIN_LENGTH - 1) } else { -back };
        assert(line_from(tiles, axis, row, col, start, piece));
    } else {
        assert forall|start: int| -(WIN_LENGTH as int) < start <= 0 implies !#[trigger] line_from(
            tiles,
            axis,
            row,
            col,
            start,
            piece,
        ) by {
            // a line would reach past one end of the run
            if line_from(tiles, axis, row, col, start, piece) && start > -(back + 1) {
                assert(holds_at(tiles, axis, row, col, ahead + 1, piece));
            }
        }
    }
}

impl Board {
    /// The empty board on which `first` is played first.
    pub open spec fn empty(first: Piece) -> Board {
        Board { tiles: empty_tiles(), current_piece: first, winner: None }
    }

    /// An empty board on which `first` is played first.
    pub fn new(first: Piece) -> (board: Board)
        ensures
            board == Board::empty(first),
            is_empty(board.tiles),
    {
        let row: [Option<Piece>; BOARD_SIZE] = [None; BOARD_SIZE];
        Board { tiles: [row; BOARD_SIZE], current_piece: first, winner: None }
    }

    /// What [`Board::check_move`] answers for a move to `(row, col)`.
    pub open spec fn move_check(self, row: usize, col: usize) -> Result<(), MoveError> {
        if self.winner.is_some() {
            Err(MoveError::GameAlreadyOver)
        } else if !in_bounds(row as int, col as int) {
            Err(MoveError::InvalidPosition { row, col })
        } else {
            match self.tiles[row as int][col as int] {
                Some(other_piece) => Err(MoveError::TileFilled { other_piece, row, col }),
                None => Ok(()),
            }
        }
    }

    /// Accepts a move to `(row, col)` if the board has no outcome yet, the
    /// position is on the board and the cell is empty; says why not otherwise.
    pub fn check_move(&self, row: usize, col: usize) -> (r: Result<(), MoveError>)
        ensures
            r == self.move_check(row, col),
    {
        if self.winner.is_some() {
            return Err(MoveError::GameAlreadyOver);
        }
        if row >= BOARD_SIZE || col >= BOARD_SIZE {
            return Err(MoveError::InvalidPosition { row, col });
        }
        match self.tiles[row][col] {
            Some(other_piece) => Err(MoveError::TileFilled { other_piece, row, col }),
            None => Ok(()),
        }
    }

    /// The board once its current piece is put at `(row, col)`: the other piece
    /// is next, and the outcome follows from the new grid.
    pub open spec fn played(self, row: int, col: int) -> Board {
        let tiles = with_piece(self.tiles, row, col, self.current_piece);
        Board {
            tiles,
            current_piece: self.current_piece.opposite(),
            winner: outcome_after(tiles, row, col, self.winner),
        }
    }

    /// Puts the current piece at `(row, col)`, hands the turn to the other
    /// piece and records the outcome, if the move brought one.
    pub fn play(&mut self, row: usize, col: usize)
        requires
            old(self).move_check(row, col).is_ok(),
        ensures
            *final(self) == old(self).played(row as int, col as int),
            pieces_kept(old(self).tiles, final(self).tiles),
    {
        let piece = self.current_piece;
        let mut line = self.tiles[row];
        line[col] = Some(piece);
        self.tiles[row] = line;
        self.current_piece = piece.other();
        assert(self.tiles =~= with_piece(old(self).tiles, row as int, col as int, piece));
        self.update_winner(row, col);
    }

    /// Whether every cell holds a piece.
    pub fn full(&self) -> (r: bool)
        ensures
            r == is_full(self.tiles),
    {
        let mut row: usize = 0;
        while row < BOARD_SIZE
            invariant
                row <= BOARD_SIZE,
                forall|i: int, j: int| 0 <= i < row && 0 <= j < BOARD_SIZE ==> (#[trigger] self.tiles[i][j]).is_some(),
            decreases BOARD_SIZE - row,
        {
            let mut col: usize = 0;
            while col < BOARD_SIZE
                invariant
                    row < BOARD_SIZE,
                    col <= BOARD_SIZE,
                    forall|i: int, j: int|
                        0 <= i < row && 0 <= j < BOARD_SIZE ==> (#[trigger] self.tiles[i][j]).is_some(),
                    forall|j: int| 0 <= j < col ==> (#[trigger] self.tiles[row as int][j]).is_some(),
                decreases BOARD_SIZE - col,
            {
                if self.tiles[row][col].is_none() {
                    return false;
                }
                col += 1;
            }
            row += 1;
        }
        true
    }

    /// Whether a full line of `piece` runs through `(row, col)` along `axis`.
    fn line_along(&self, axis: Axis, row: usize, col: usize, piece: Piece) -> (r: bool)
        requires
            holds(self.tiles, row as int, col as int, piece),
        ensures
            r == wins_along(self.tiles, axis, row as int, col as int, piece),
    {
        let back = count_run(&self.tiles, axis, false, row, col, piece);
        let ahead = count_run(&self.tiles, axis, true, row, col, piece);
        proof {
            lemma_run_is_line(self.tiles, axis, row as int, col as int, piece, back as int, ahead as int);
        }
        back + ahead + 1 >= WIN_LENGTH
    }

    /// Looks for a finished line through the cell just played, along the row,
    /// the column and both diagonals. A line makes its piece the winner; a full
    /// board without one is a tie; otherwise the outcome stays as it is.
    pub fn update_winner(&mut self, row: usize, col: usize)
        requires
            in_bounds(row as int, col as int),
        ensures
            final(self).tiles == old(self).tiles,
            final(self).current_piece == old(self).current_piece,
            final(self).winner == outcome_after(old(self).tiles, row as int, col as int, old(self).winner),
    {
        match self.tiles[row][col] {
            Some(piece) => {
                let won = self.line_along(Axis::Horizontal, row, col, piece)
                    || self.line_along(Axis::Vertical, row, col, piece)
                    || self.line_along(Axis::Diagonal, row, col, piece)
                    || self.line_along(Axis::AntiDiagonal, row, col, piece);
                if won {
                    self.winner = Some(
                        match piece {
                            Piece::X => Winner::X,
                            Piece::O => Winner::O,
                        },
                    );
                    return ;
                }
            },
            None => {},
        }
        if self.full() {
            self.winner = Some(Winner::Tie);
        }
    }
}

/// A move never changes a cell that holds a piece.
pub proof fn lemma_play_keeps_pieces(board: Board, row: usize, col: usize)
    requires
        board.move_check(row, col).is_ok(),
    ensures
        pieces_kept(board.tiles, board.played(row as int, col as int).tiles),
        board.played(row as int, col as int).tiles[row as int][col as int] == Some(board.current_piece),
{
}

/// What is kept over one stretch of a game and over the next is kept over both:
/// a cell that holds a piece holds it for the rest of the game.
pub proof fn lemma_pieces_kept_onward(first: Tiles, then: Tiles, last: Tiles)
    requires
        pieces_kept(first, then),
        pieces_kept(then, last),
    ensures
        pieces_kept(first, last),
{
}

} // verus!
