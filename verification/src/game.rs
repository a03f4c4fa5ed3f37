//! The executable game state: construction, queries and the move rule.

use vstd::prelude::*;
use crate::model::{cells_error, config_error, fresh_cells, initial_owner, rows_view};
use crate::laws::{lemma_apply_move_keeps_owners, lemma_apply_move_recolors, lemma_apply_move_wf};
use crate::laws::lemma_fresh_wf;
use crate::model::{BoardError, Cell, GameView, Player};

verus! {

/// A game in progress: the grid, the palette and the player to move.
///
/// Every value of this type is well formed: the board is a non-empty
/// rectangle and the palette is not empty.
#[derive(Debug)]
pub struct Game {
    grid: Vec<Vec<Cell>>,
    palette: Vec<char>,
    current_player: Player,
}

impl View for Game {
    type V = GameView;

    closed spec fn view(&self) -> GameView {
        GameView {
            cells: rows_view(self.grid),
            palette: self.palette@,
            current_player: self.current_player,
        }
    }
}

/// The colour at index `i` of `colors`.
pub(crate) fn color_at(colors: &Vec<char>, i: usize) -> (color: char)
    requires
        i < colors@.len(),
    ensures
        color == colors@[i as int],
{
    colors[i]
}

/// The first index at which `color` occurs in `palette`, if it occurs.
pub fn palette_index(palette: &Vec<char>, color: char) -> (index: Option<usize>)
    ensures
        match index {
            Some(i) => {
                &&& i < palette@.len()
                &&& palette@[i as int] == color
                &&& forall|j: int| 0 <= j < i ==> palette@[j] != color
            },
            None => !palette@.contains(color),
        },
{
    let mut i: usize = 0;
    while i < palette.len()
        invariant
            i <= palette.len(),
            forall|j: int| 0 <= j < i ==> palette@[j] != color,
        decreases palette.len() - i,
    {
        if color_at(palette, i) == color {
            return Some(i);
        }
        i += 1;
    }
    None
}

/// Whether `color` occurs in `palette`.
pub fn palette_contains(palette: &Vec<char>, color: char) -> (found: bool)
    ensures
        found == palette@.contains(color),
{
    palette_index(palette, color).is_some()
}

/// What is wrong with the dimensions or the palette of a board, if anything.
pub fn check_config(rows: usize, cols: usize, palette: &Vec<char>) -> (error: Option<BoardError>)
    ensures
        error == config_error(rows as nat, cols as nat, palette@),
{
    if rows == 0 || cols == 0 {
        return Some(BoardError::EmptyBoard);
    }
    let fits = match rows.checked_mul(cols) {
        Some(n) => n as u64 <= i64::MAX as u64,
        None => false,
    };
    if !fits {
        return Some(BoardError::TooLarge);
    }
    if palette.len() == 0 {
        return Some(BoardError::EmptyPalette);
    }
    None
}

/// The owner that the cell `(r, c)` of a new `rows` by `cols` board starts
/// with.
fn starting_owner(rows: usize, cols: usize, r: usize, c: usize) -> (owner: Option<Player>)
    ensures
        owner == initial_owner(rows as nat, cols as nat, r as int, c as int),
{
    if r == 0 && cols > 0 && c == cols - 1 {
        Some(Player::Two)
    } else if rows > 0 && r == rows - 1 && c == 0 {
        Some(Player::One)
    } else {
        None
    }
}

impl Game {
    /// The invariant of the type: the state is well formed.
    #[verifier::type_invariant]
    pub open spec fn inv(self) -> bool {
        self@.wf()
    }

    /// Makes a game from a palette, a grid of cells given row by row from
    /// the top, and the player to move. The cells may already have owners.
    ///
    /// The grid is refused when it is empty, when its rows differ in length,
    /// when it has too many cells, when the palette is empty, or when a cell
    /// has a colour outside the palette; `cells_error` says which error is
    /// reported when several apply.
    pub fn from_cells(palette: Vec<char>, cells: Vec<Vec<Cell>>, current_player: Player) -> (res:
        Result<Game, BoardError>)
        ensures
            match res {
                Ok(game) => {
                    &&& cells_error(rows_view(cells), palette@) is None
                    &&& game@ == (GameView {
                        cells: rows_view(cells),
                        palette: palette@,
                        current_player,
                    })
                    &&& game@.wf()
                    &&& game@.colors_in_palette()
                },
                Err(e) => cells_error(rows_view(cells), palette@) == Some(e),
            },
    {
        let ghost grid = rows_view(cells);
        let rows = cells.len();
        if rows == 0 {
            return Err(BoardError::EmptyBoard);
        }
        let cols = cells[0].len();
        if cols == 0 {
            return Err(BoardError::EmptyBoard);
        }
        let mut r: usize = 0;
        while r < rows
            invariant
                r <= rows,
                rows == cells@.len(),
                grid == rows_view(cells),
                cols == grid[0].len(),
                cols > 0,
                forall|i: int| 0 <= i < r ==> (#[trigger] grid[i]).len() == cols,
            decreases rows - r,
        {
            if cells[r].len() != cols {
                assert(grid[r as int].len() != grid[0].len());
                return Err(BoardError::RaggedRows);
            }
            r += 1;
        }
        if let Some(error) = check_config(rows, cols, &palette) {
            return Err(error);
        }
        let mut r: usize = 0;
        while r < rows
            invariant
                r <= rows,
                rows == cells@.len(),
                grid == rows_view(cells),
                cols == grid[0].len(),
                cols > 0,
                config_error(rows as nat, cols as nat, palette@) is None,
                forall|i: int| 0 <= i < rows ==> (#[trigger] grid[i]).len() == cols,
                forall|i: int, j: int|
                    0 <= i < r && 0 <= j < cols ==> palette@.contains((#[trigger] grid[i][j]).color),
            decreases rows - r,
        {
            let mut c: usize = 0;
            while c < cols
                invariant
                    r < rows,
                    c <= cols,
                    rows == cells@.len(),
                    grid == rows_view(cells),
                    cols == grid[0].len(),
                    cols > 0,
                    config_error(rows as nat, cols as nat, palette@) is None,
                    forall|i: int| 0 <= i < rows ==> (#[trigger] grid[i]).len() == cols,
                    forall|i: int, j: int|
                        0 <= i < r && 0 <= j < cols ==> palette@.contains(
                            (#[trigger] grid[i][j]).color,
                        ),
                    forall|j: int|
                        0 <= j < c ==> palette@.contains((#[trigger] grid[r as int][j]).color),
                decreases cols - c,
            {
                assert(grid[r as int].len() == cols);
                if !palette_contains(&palette, cells[r][c].color) {
                    assert(!palette@.contains(grid[r as int][c as int].color));
                    return Err(BoardError::UnknownColor);
                }
                c += 1;
            }
            r += 1;
        }
        let game = Game { grid: cells, palette, current_player };
        assert(game@.colors_in_palette()) by {
            assert forall|i: int, j: int| game@.in_bounds(i, j) implies game@.palette.contains(
                (#[trigger] game@.cell(i, j)).color,
            ) by {
                assert(palette@.contains(grid[i][j].color));
            }
        }
        Ok(game)
    }

    /// Starts a game on a grid of colours given row by row from the top:
    /// every cell gets its colour, the bottom-left corner goes to player one
    /// and then the top-right corner to player two, whatever their colours,
    /// and player one is to move.
    ///
    /// The grid is refused on the same grounds as in `from_cells`.
    pub fn from_colors(palette: Vec<char>, colors: Vec<Vec<char>>) -> (res: Result<Game, BoardError>)
        ensures
            match res {
                Ok(game) => {
                    &&& cells_error(fresh_cells(rows_view(colors)), palette@) is None
                    &&& game@ == GameView::fresh(rows_view(colors), palette@)
                    &&& game@.wf()
                    &&& game@.colors_in_palette()
                    &&& game@.initial_owners()
                },
                Err(e) => cells_error(fresh_cells(rows_view(colors)), palette@) == Some(e),
            },
    {
        let ghost grid = rows_view(colors);
        let rows = colors.len();
        let cols = if rows > 0 {
            colors[0].len()
        } else {
            0
        };
        let mut cells: Vec<Vec<Cell>> = Vec::with_capacity(rows);
        let mut r: usize = 0;
        while r < rows
            invariant
                r <= rows,
                rows == colors@.len(),
                rows > 0 ==> cols == colors@[0]@.len(),
                grid == rows_view(colors),
                cells@.len() == r,
                forall|i: int| 0 <= i < r ==> (#[trigger] cells@[i])@ == fresh_cells(grid)[i],
            decreases rows - r,
        {
            let width = colors[r].len();
            let mut row: Vec<Cell> = Vec::with_capacity(width);
            let mut c: usize = 0;
            while c < width
                invariant
                    r < rows,
                    c <= width,
                    rows == colors@.len(),
                    cols == colors@[0]@.len(),
                    width == colors@[r as int]@.len(),
                    grid == rows_view(colors),
                    row@.len() == c,
                    forall|j: int|
                        0 <= j < c ==> (#[trigger] row@[j]) == fresh_cells(grid)[r as int][j],
                decreases width - c,
            {
                let owner = starting_owner(rows, cols, r, c);
                row.push(Cell { color: color_at(&colors[r], c), owner });
                c += 1;
            }
            assert(row@ =~= fresh_cells(grid)[r as int]);
            cells.push(row);
            r += 1;
        }
        assert(rows_view(cells) =~= fresh_cells(grid));
        proof {
            if cells_error(fresh_cells(grid), palette@) is None {
                lemma_fresh_wf(grid, palette@);
            }
        }
        Game::from_cells(palette, cells, Player::One)
    }

    /// Number of rows of the board.
    pub fn rows(&self) -> (n: usize)
        ensures
            n == self@.rows(),
            n > 0,
    {
        proof {
            use_type_invariant(self);
        }
        self.grid.len()
    }

    /// Number of columns of the board.
    pub fn cols(&self) -> (n: usize)
        ensures
            n == self@.cols(),
            n > 0,
    {
        proof {
            use_type_invariant(self);
        }
        self.grid[0].len()
    }

    /// The palette, in its order.
    pub fn palette(&self) -> (palette: &Vec<char>)
        ensures
            palette@ == self@.palette,
            palette@.len() > 0,
    {
        proof {
            use_type_invariant(self);
        }
        &self.palette
    }

    /// The player to move.
    pub fn current_player(&self) -> (p: Player)
        ensures
            p == self@.current_player,
    {
        self.current_player
    }

    /// A copy of the grid, row by row from the top.
    pub fn cells(&self) -> (grid: Vec<Vec<Cell>>)
        ensures
            rows_view(grid) == self@.cells,
    {
        let rows = self.rows();
        let cols = self.cols();
        let mut grid: Vec<Vec<Cell>> = Vec::with_capacity(rows);
        let mut r: usize = 0;
        while r < rows
            invariant
                r <= rows,
                rows == self@.rows(),
                cols == self@.cols(),
                grid@.len() == r,
                forall|i: int| 0 <= i < r ==> (#[trigger] grid@[i])@ == self@.cells[i],
            decreases rows - r,
        {
            let mut row: Vec<Cell> = Vec::with_capacity(cols);
            let mut c: usize = 0;
            while c < cols
                invariant
                    r < rows,
                    c <= cols,
                    rows == self@.rows(),
                    cols == self@.cols(),
                    row@.len() == c,
                    forall|j: int| 0 <= j < c ==> (#[trigger] row@[j]) == self@.cell(r as int, j),
                decreases cols - c,
            {
                row.push(self.cell_at(r, c));
                c += 1;
            }
            proof {
                use_type_invariant(self);
            }
            assert(row@ =~= self@.cells[r as int]);
            grid.push(row);
            r += 1;
        }
        proof {
            use_type_invariant(self);
            assert(rows_view(grid) =~= self@.cells);
        }
        grid
    }

    /// The cell in row `r` and column `c`, or `None` where the board has
    /// no such cell.
    pub fn cell(&self, r: usize, c: usize) -> (cell: Option<Cell>)
        ensures
            cell == if self@.in_bounds(r as int, c as int) {
                Some(self@.cell(r as int, c as int))
            } else {
                None
            },
    {
        if r < self.rows() && c < self.cols() {
            Some(self.cell_at(r, c))
        } else {
            None
        }
    }

    /// The cell in row `r` and column `c`.
    pub(crate) fn cell_at(&self, r: usize, c: usize) -> (cell: Cell)
        requires
            self@.in_bounds(r as int, c as int),
        ensures
            cell == self@.cell(r as int, c as int),
    {
        proof {
            use_type_invariant(self);
        }
        self.grid[r][c]
    }

    /// Whether `(r, c)` is a cell of the board that belongs to `p`.
    fn is_owned_by(&self, r: usize, c: usize, p: Player) -> (owned: bool)
        ensures
            owned == self@.owned_by(r as int, c as int, p),
    {
        if r < self.rows() && c < self.cols() {
            match self.cell_at(r, c).owner {
                Some(q) => q == p,
                None => false,
            }
        } else {
            false
        }
    }

    /// Whether one of the four neighbours of `(row, col)`, right, left, below
    /// or above, is a cell of the board that belongs to the player to move.
    /// Neighbours beyond an edge do not exist; nothing wraps around.
    pub fn is_adjacent_to_owned_cell(&self, row: usize, col: usize) -> (adjacent: bool)
        ensures
            adjacent == self@.adjacent_to_owned(row as int, col as int, self@.current_player),
    {
        let rows = self.rows();
        let cols = self.cols();
        let p = self.current_player;
        (col < usize::MAX && self.is_owned_by(row, col + 1, p)) || (col > 0 && self.is_owned_by(
            row,
            col - 1,
            p,
        )) || (row < usize::MAX && self.is_owned_by(row + 1, col, p)) || (row > 0
            && self.is_owned_by(row - 1, col, p))
    }

    /// Whether `color` may be played: it is in the palette and is neither
    /// player's identity colour, the colour now in the bottom-left corner
    /// and the colour now in the top-right corner. Whose turn it is plays no
    /// part.
    pub fn is_valid_move(&self, color: char) -> (valid: bool)
        ensures
            valid == self@.valid_move(color),
    {
        let rows = self.rows();
        let cols = self.cols();
        let player1_color = self.cell_at(rows - 1, 0).color;
        let player2_color = self.cell_at(0, cols - 1).color;
        if color == player1_color || color == player2_color || !palette_contains(
            &self.palette,
            color,
        ) {
            return false;
        }
        true
    }

    /// Hands the turn to the other player and changes nothing else.
    pub fn switch_player(&mut self)
        ensures
            final(self)@ == (GameView {
                current_player: old(self)@.current_player.other(),
                ..old(self)@
            }),
    {
        proof {
            use_type_invariant(&*self);
        }
        self.current_player = self.current_player.opponent();
    }

    /// Whether the game is over: every cell has an owner.
    pub fn is_game_over(&self) -> (over: bool)
        ensures
            over == self@.game_over(),
    {
        let rows = self.rows();
        let cols = self.cols();
        let mut r: usize = 0;
        while r < rows
            invariant
                r <= rows,
                rows == self@.rows(),
                cols == self@.cols(),
                forall|i: int, j: int|
                    0 <= i < r && 0 <= j < cols ==> (#[trigger] self@.cell(i, j)).owner is Some,
            decreases rows - r,
        {
            let mut c: usize = 0;
            while c < cols
                invariant
                    r < rows,
                    c <= cols,
                    rows == self@.rows(),
                    cols == self@.cols(),
                    forall|i: int, j: int|
                        0 <= i < r && 0 <= j < cols ==> (#[trigger] self@.cell(i, j)).owner is Some,
                    forall|j: int| 0 <= j < c ==> (#[trigger] self@.cell(r as int, j)).owner is Some,
                decreases cols - c,
            {
                if self.cell_at(r, c).owner.is_none() {
                    assert(self@.in_bounds(r as int, c as int));
                    return false;
                }
                c += 1;
            }
            r += 1;
        }
        true
    }

    /// Plays `color` for the player to move, whether or not the colour is a
    /// valid move: every cell of the mover takes the colour; every cell
    /// without an owner that has the colour and touches the mover's
    /// territory becomes the mover's; the turn passes to the other player.
    /// Which cells are captured is decided on the board as it was before
    /// the move, so a cell is never captured because a neighbour was just
    /// repainted, and territory grows by one layer of cells at most.
    pub fn make_move(&mut self, color: char)
        ensures
            final(self)@ == old(self)@.apply_move(color),
            final(self)@.wf(),
            final(self)@.rows() == old(self)@.rows(),
            final(self)@.cols() == old(self)@.cols(),
            final(self)@.palette == old(self)@.palette,
            final(self)@.current_player == old(self)@.current_player.other(),
            forall|r: int, c: int|
                old(self)@.in_bounds(r, c) && old(self)@.cell(r, c).owner is Some
                    ==> (#[trigger] final(self)@.cell(r, c)).owner == old(self)@.cell(r, c).owner,
            forall|r: int, c: int|
                old(self)@.owned_by(r, c, old(self)@.current_player)
                    ==> (#[trigger] final(self)@.cell(r, c)).color == color,
    {
        let rows = self.rows();
        let cols = self.cols();
        let mover = self.current_player;
        let ghost before = self@;
        let mut next: Vec<Vec<Cell>> = Vec::with_capacity(rows);
        let mut r: usize = 0;
        while r < rows
            invariant
                r <= rows,
                *self == *old(self),
                before == self@,
                rows == before.rows(),
                cols == before.cols(),
                mover == before.current_player,
                next@.len() == r,
                forall|i: int|
                    0 <= i < r ==> (#[trigger] next@[i])@ == before.apply_move(color).cells[i],
            decreases rows - r,
        {
            let mut row: Vec<Cell> = Vec::with_capacity(cols);
            let mut c: usize = 0;
            while c < cols
                invariant
                    r < rows,
                    c <= cols,
                    *self == *old(self),
                    before == self@,
                    rows == before.rows(),
                    cols == before.cols(),
                    mover == before.current_player,
                    row@.len() == c,
                    forall|j: int|
                        0 <= j < c ==> (#[trigger] row@[j]) == before.cell_after_move(
                            r as int,
                            j,
                            color,
                        ),
                decreases cols - c,
            {
                let cell = self.cell_at(r, c);
                let after = match cell.owner {
                    Some(p) => if p == mover {
                        Cell { color, owner: cell.owner }
                    } else {
                        cell
                    },
                    None => if cell.color == color && self.is_adjacent_to_owned_cell(r, c) {
                        Cell { color: cell.color, owner: Some(mover) }
                    } else {
                        cell
                    },
                };
                row.push(after);
                c += 1;
            }
            assert(row@ =~= before.apply_move(color).cells[r as int]);
            next.push(row);
            r += 1;
        }
        proof {
            use_type_invariant(&*self);
            assert(rows_view(next) =~= before.apply_move(color).cells);
            lemma_apply_move_wf(before, color);
            lemma_apply_move_keeps_owners(before, color);
            lemma_apply_move_recolors(before, color);
        }
        self.grid = next;
        self.current_player = mover.opponent();
    }

    /// The game after `color` has been played, as a new value; `self` stays
    /// as it is.
    pub fn after_move(&self, color: char) -> (next: Game)
        ensures
            next@ == self@.apply_move(color),
            next@.wf(),
    {
        let mut next = self.clone();
        next.make_move(color);
        next
    }

    /// Plays `color` if it is a valid move and says whether it was played.
    /// A colour that is not a valid move leaves the game as it is.
    pub fn try_move(&mut self, color: char) -> (played: bool)
        ensures
            played == old(self)@.valid_move(color),
            played ==> final(self)@ == old(self)@.apply_move(color),
            !played ==> final(self)@ == old(self)@,
            final(self)@.wf(),
    {
        proof {
            use_type_invariant(&*self);
        }
        if self.is_valid_move(color) {
            self.make_move(color);
            true
        } else {
            false
        }
    }
}

impl Clone for Game {
    /// A copy of the game that shares nothing with `self`: what is done to
    /// the copy leaves `self` as it is.
    fn clone(&self) -> (copy: Game)
        ensures
            copy@ == self@,
    {
        let grid = self.cells();
        let mut palette: Vec<char> = Vec::with_capacity(self.palette.len());
        let mut i: usize = 0;
        while i < self.palette.len()
            invariant
                i <= self.palette@.len(),
                palette@ == self.palette@.take(i as int),
            decreases self.palette@.len() - i,
        {
            palette.push(color_at(&self.palette, i));
            assert(self.palette@.take(i as int).push(self.palette@[i as int])
                =~= self.palette@.take(i + 1));
            i += 1;
        }
        proof {
            use_type_invariant(self);
            assert(self.palette@.take(i as int) =~= self.palette@);
        }
        Game { grid, palette, current_player: self.current_player }
    }
}

} // verus!
