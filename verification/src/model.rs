//! The mathematical model of a game: players, cells and the state of a board
//! as sequences, with the rules of the game stated as spec functions.

use vstd::prelude::*;

verus! {

/// One of the two players. `One` starts in the bottom-left corner and moves
/// first, `Two` starts in the top-right corner.
#[derive(Clone, Copy, Debug, PartialEq, Eq, Structural)]
pub enum Player {
    One,
    Two,
}

impl Player {
    /// The player who is not `self`.
    pub open spec fn other(self) -> Player {
        match self {
            Player::One => Player::Two,
            Player::Two => Player::One,
        }
    }

    /// The player who is not `self`.
    pub fn opponent(self) -> (p: Player)
        ensures
            p == self.other(),
    {
        match self {
            Player::One => Player::Two,
            Player::Two => Player::One,
        }
    }

    /// The letter that stands for the player on a printed board: `X` for
    /// player one, `O` for player two.
    pub fn symbol(self) -> (letter: char)
        ensures
            letter == owner_symbol(Some(self)),
    {
        match self {
            Player::One => 'X',
            Player::Two => 'O',
        }
    }
}

/// The letter that stands for an owner on a printed board: `X` for player
/// one, `O` for player two, `N` for a cell without an owner.
pub open spec fn owner_symbol(owner: Option<Player>) -> char {
    match owner {
        Some(Player::One) => 'X',
        Some(Player::Two) => 'O',
        None => 'N',
    }
}

/// One cell of the board: its colour and, once claimed, its owner.
#[derive(Clone, Copy, Debug, PartialEq, Eq)]
pub struct Cell {
    pub color: char,
    pub owner: Option<Player>,
}

impl Cell {
    /// The letter that stands for the cell's owner on a printed board.
    pub fn symbol(&self) -> (letter: char)
        ensures
            letter == owner_symbol(self.owner),
    {
        match self.owner {
            Some(player) => player.symbol(),
            None => 'N',
        }
    }
}

/// Why a board was refused at construction.
#[derive(Clone, Copy, Debug, PartialEq, Eq, Structural)]
pub enum BoardError {
    /// The board has no rows or no columns.
    EmptyBoard,
    /// Some row is not as long as the top row.
    RaggedRows,
    /// The number of cells does not fit `usize` or `i64`.
    TooLarge,
    /// The palette holds no colour.
    EmptyPalette,
    /// Some cell has a colour that is not in the palette.
    UnknownColor,
}

/// The state of a game as a mathematical value: the grid row by row, with
/// row 0 at the top, the palette in its order, and the player to move.
pub struct GameView {
    pub cells: Seq<Seq<Cell>>,
    pub palette: Seq<char>,
    pub current_player: Player,
}

/// The rows of a nested vector as a sequence of sequences.
pub open spec fn rows_view<T>(rows: Vec<Vec<T>>) -> Seq<Seq<T>> {
    Seq::new(rows@.len(), |r: int| rows@[r]@)
}

/// The owner that the cell `(r, c)` of a new `rows` by `cols` board starts
/// with: player two in the top-right corner, player one in the bottom-left
/// corner, nobody elsewhere. On a board of a single cell the two corners
/// coincide and the cell is player two's.
pub open spec fn initial_owner(rows: nat, cols: nat, r: int, c: int) -> Option<Player> {
    if r == 0 && c == cols - 1 {
        Some(Player::Two)
    } else if r == rows - 1 && c == 0 {
        Some(Player::One)
    } else {
        None
    }
}

/// The cell `(r, c)` of a new board with the given colours: its colour, and
/// its initial owner on a board as wide as the top row of `colors`.
pub open spec fn fresh_cell(colors: Seq<Seq<char>>, r: int, c: int) -> Cell {
    Cell { color: colors[r][c], owner: initial_owner(colors.len(), colors[0].len(), r, c) }
}

/// The cells of a new board with the given colours: the same shape, each
/// cell with its colour and its initial owner.
pub open spec fn fresh_cells(colors: Seq<Seq<char>>) -> Seq<Seq<Cell>> {
    Seq::new(colors.len(), |r: int| Seq::new(colors[r].len(), |c: int| fresh_cell(colors, r, c)))
}

/// What is wrong with the dimensions or the palette of a board, if anything:
/// the first of `EmptyBoard`, `TooLarge` and `EmptyPalette` that applies.
pub open spec fn config_error(rows: nat, cols: nat, palette: Seq<char>) -> Option<BoardError> {
    if rows == 0 || cols == 0 {
        Some(BoardError::EmptyBoard)
    } else if rows * cols > usize::MAX || rows * cols > i64::MAX {
        Some(BoardError::TooLarge)
    } else if palette.len() == 0 {
        Some(BoardError::EmptyPalette)
    } else {
        None
    }
}

/// What is wrong with a grid of cells and a palette, if anything: the first
/// of `EmptyBoard`, `RaggedRows`, `TooLarge`, `EmptyPalette` and
/// `UnknownColor` that applies.
pub open spec fn cells_error(cells: Seq<Seq<Cell>>, palette: Seq<char>) -> Option<BoardError> {
    if cells.len() == 0 || cells[0].len() == 0 {
        Some(BoardError::EmptyBoard)
    } else if exists|r: int| 0 <= r < cells.len() && (#[trigger] cells[r]).len() != cells[0].len() {
        Some(BoardError::RaggedRows)
    } else if config_error(cells.len(), cells[0].len(), palette) is Some {
        config_error(cells.len(), cells[0].len(), palette)
    } else if exists|r: int, c: int|
        0 <= r < cells.len() && 0 <= c < cells[r].len() && !palette.contains(
            (#[trigger] cells[r][c]).color,
        ) {
        Some(BoardError::UnknownColor)
    } else {
        None
    }
}

/// How many cells of `row` belong to `p`.
pub open spec fn count_in_row(row: Seq<Cell>, p: Player) -> nat
    decreases row.len(),
{
    if row.len() == 0 {
        0
    } else {
        count_in_row(row.drop_last(), p) + if row.last().owner == Some(p) {
            1nat
        } else {
            0nat
        }
    }
}

/// How many cells of the rows `cells` belong to `p`.
pub open spec fn count_in_rows(cells: Seq<Seq<Cell>>, p: Player) -> nat
    decreases cells.len(),
{
    if cells.len() == 0 {
        0
    } else {
        count_in_rows(cells.drop_last(), p) + count_in_row(cells.last(), p)
    }
}

impl GameView {
    /// The state of a new game on a grid of colours: every cell with its
    /// initial owner, player one to move.
    pub open spec fn fresh(colors: Seq<Seq<char>>, palette: Seq<char>) -> GameView {
        GameView { cells: fresh_cells(colors), palette, current_player: Player::One }
    }

    /// Number of rows.
    pub open spec fn rows(self) -> nat {
        self.cells.len()
    }

    /// Number of columns: the length of the top row.
    pub open spec fn cols(self) -> nat {
        if self.cells.len() > 0 {
            self.cells[0].len()
        } else {
            0
        }
    }

    /// A state is well formed when the board is a non-empty rectangle whose
    /// number of cells fits both `usize` and `i64`, and the palette is not
    /// empty.
    pub open spec fn wf(self) -> bool {
        &&& self.rows() > 0
        &&& self.cols() > 0
        &&& forall|r: int| 0 <= r < self.rows() ==> (#[trigger] self.cells[r]).len() == self.cols()
        &&& self.rows() * self.cols() <= usize::MAX
        &&& self.rows() * self.cols() <= i64::MAX
        &&& self.palette.len() > 0
    }

    /// Whether `(r, c)` names a cell of the board.
    pub open spec fn in_bounds(self, r: int, c: int) -> bool {
        0 <= r < self.rows() && 0 <= c < self.cols()
    }

    /// The cell in row `r` and column `c`.
    pub open spec fn cell(self, r: int, c: int) -> Cell {
        self.cells[r][c]
    }

    /// Whether every cell has a colour of the palette.
    pub open spec fn colors_in_palette(self) -> bool {
        forall|r: int, c: int|
            self.in_bounds(r, c) ==> self.palette.contains((#[trigger] self.cell(r, c)).color)
    }

    /// Whether every cell has the owner that it starts a game with, so that
    /// no move has been played yet.
    pub open spec fn initial_owners(self) -> bool {
        forall|r: int, c: int|
            self.in_bounds(r, c) ==> (#[trigger] self.cell(r, c)).owner == initial_owner(
                self.rows(),
                self.cols(),
                r,
                c,
            )
    }

    /// Whether `(r, c)` is a cell of the board that belongs to `p`.
    pub open spec fn owned_by(self, r: int, c: int, p: Player) -> bool {
        self.in_bounds(r, c) && self.cell(r, c).owner == Some(p)
    }

    /// Whether one of the four neighbours of `(r, c)`, to the right, to the
    /// left, below or above, is a cell of the board that belongs to `p`.
    /// Positions beyond an edge are no cells, so nothing wraps around.
    pub open spec fn adjacent_to_owned(self, r: int, c: int, p: Player) -> bool {
        ||| self.owned_by(r, c + 1, p)
        ||| self.owned_by(r, c - 1, p)
        ||| self.owned_by(r + 1, c, p)
        ||| self.owned_by(r - 1, c, p)
    }

    /// The identity colour of `p`: the colour that the starting corner of `p`
    /// has now, bottom-left for player one and top-right for player two.
    pub open spec fn identity_color(self, p: Player) -> char {
        match p {
            Player::One => self.cell(self.rows() - 1, 0).color,
            Player::Two => self.cell(0, self.cols() - 1).color,
        }
    }

    /// A colour may be played when it is in the palette and is neither
    /// player's identity colour. Whose turn it is plays no part.
    pub open spec fn valid_move(self, color: char) -> bool {
        &&& self.palette.contains(color)
        &&& color != self.identity_color(Player::One)
        &&& color != self.identity_color(Player::Two)
    }

    /// Whether some colour of the palette may be played.
    pub open spec fn has_valid_move(self) -> bool {
        exists|i: int| 0 <= i < self.palette.len() && self.valid_move(#[trigger] self.palette[i])
    }

    /// The game is over when every cell has an owner.
    pub open spec fn game_over(self) -> bool {
        forall|r: int, c: int| self.in_bounds(r, c) ==> (#[trigger] self.cell(r, c)).owner is Some
    }

    /// Whether the player to move captures `(r, c)` by playing `color`: the
    /// cell has no owner, has that colour, and touches the mover's territory.
    pub open spec fn capturable(self, r: int, c: int, color: char) -> bool {
        &&& self.in_bounds(r, c)
        &&& self.cell(r, c).owner is None
        &&& self.cell(r, c).color == color
        &&& self.adjacent_to_owned(r, c, self.current_player)
    }

    /// The cell `(r, c)` after the player to move has played `color`: a cell
    /// of the mover takes the colour, a capturable cell takes the mover as
    /// its owner, any other cell stays as it is. Both tests look at the
    /// state before the move.
    pub open spec fn cell_after_move(self, r: int, c: int, color: char) -> Cell {
        let cell = self.cell(r, c);
        if cell.owner == Some(self.current_player) {
            Cell { color, owner: cell.owner }
        } else if self.capturable(r, c, color) {
            Cell { color: cell.color, owner: Some(self.current_player) }
        } else {
            cell
        }
    }

    /// The state after the player to move has played `color`: every cell as
    /// `cell_after_move` says, and the turn with the other player.
    pub open spec fn apply_move(self, color: char) -> GameView {
        GameView {
            cells: Seq::new(
                self.rows(),
                |r: int| Seq::new(self.cols(), |c: int| self.cell_after_move(r, c, color)),
            ),
            palette: self.palette,
            current_player: self.current_player.other(),
        }
    }

    /// The state after the colours of `moves` have been played in turn.
    pub open spec fn apply_moves(self, moves: Seq<char>) -> GameView
        decreases moves.len(),
    {
        if moves.len() == 0 {
            self
        } else {
            self.apply_moves(moves.drop_last()).apply_move(moves.last())
        }
    }

    /// How many cells belong to `p`.
    pub open spec fn count_owned(self, p: Player) -> nat {
        count_in_rows(self.cells, p)
    }

    /// The score of a state: player two's cells minus player one's.
    pub open spec fn score(self) -> int {
        self.count_owned(Player::Two) - self.count_owned(Player::One)
    }
}

} // verus!
