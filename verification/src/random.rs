//! Starting a game on a board of random colours.

use vstd::prelude::*;
use rand::seq::SliceRandom;
use crate::game::{check_config, Game};
use crate::model::{cells_error, config_error, fresh_cells, rows_view};
use crate::model::{BoardError, Player};

verus! {

/// Rows of the standard board.
pub const DEFAULT_ROWS: usize = 7;

/// Columns of the standard board.
pub const DEFAULT_COLS: usize = 8;

/// The standard palette of five colours.
pub fn default_palette() -> (palette: Vec<char>)
    ensures
        palette@ == seq!['r', 'g', 'b', 'y', 'k'],
{
    let mut palette: Vec<char> = Vec::with_capacity(5);
    palette.push('r');
    palette.push('g');
    palette.push('b');
    palette.push('y');
    palette.push('k');
    assert(palette@ =~= seq!['r', 'g', 'b', 'y', 'k']);
    palette
}

/// The thread-local random number generator of the `rand` crate. Nothing is
/// known of its state.
#[verifier::external_type_specification]
#[verifier::external_body]
pub struct ExThreadRng(rand::rngs::ThreadRng);

/// `rand::thread_rng` hands out the thread-local generator. Nothing is
/// claimed of the generator it returns.
pub assume_specification[ rand::thread_rng ]() -> (rng: rand::rngs::ThreadRng);

/// Draws one colour of `palette` with `rand::seq::SliceRandom::choose`.
/// Which colour comes out is left open. What is claimed is what `choose`
/// does on every draw: on an empty slice it returns `None`, and on any
/// other slice it returns one of the slice's elements.
#[verifier::external_body]
fn choose_color(palette: &Vec<char>, rng: &mut rand::rngs::ThreadRng) -> (color: Option<char>)
    ensures
        palette@.len() == 0 ==> color is None,
        palette@.len() > 0 ==> color is Some && palette@.contains(color.unwrap()),
{
    palette.choose(rng).copied()
}

impl Game {
    /// Starts a game on a `rows` by `cols` board whose cells each get a
    /// colour drawn at random from `palette`, independently of the others.
    /// The corners then get their owners as in `from_colors`, whatever
    /// colours were drawn for them, and player one is to move.
    ///
    /// The board is refused when it has no cell or too many, or when the
    /// palette is empty; nothing else can fail.
    pub fn new(rows: usize, cols: usize, palette: Vec<char>) -> (res: Result<Game, BoardError>)
        ensures
            match res {
                Ok(game) => {
                    &&& config_error(rows as nat, cols as nat, palette@) is None
                    &&& game@.wf()
                    &&& game@.rows() == rows
                    &&& game@.cols() == cols
                    &&& game@.palette == palette@
                    &&& game@.current_player == Player::One
                    &&& game@.colors_in_palette()
                    &&& game@.initial_owners()
                },
                Err(e) => config_error(rows as nat, cols as nat, palette@) == Some(e),
            },
    {
        if let Some(error) = check_config(rows, cols, &palette) {
            return Err(error);
        }
        let mut rng = rand::thread_rng();
        let mut colors: Vec<Vec<char>> = Vec::with_capacity(rows);
        let mut r: usize = 0;
        while r < rows
            invariant
                r <= rows,
                palette@.len() > 0,
                colors@.len() == r,
                forall|i: int| 0 <= i < r ==> (#[trigger] colors@[i])@.len() == cols,
                forall|i: int, j: int|
                    0 <= i < r && 0 <= j < cols ==> palette@.contains(
                        #[trigger] rows_view(colors)[i][j],
                    ),
            decreases rows - r,
        {
            let mut row: Vec<char> = Vec::with_capacity(cols);
            let mut c: usize = 0;
            while c < cols
                invariant
                    c <= cols,
                    palette@.len() > 0,
                    row@.len() == c,
                    forall|j: int| 0 <= j < c ==> palette@.contains(#[trigger] row@[j]),
                decreases cols - c,
            {
                match choose_color(&palette, &mut rng) {
                    Some(color) => {
                        row.push(color);
                    },
                    None => {
                        return Err(BoardError::EmptyPalette);
                    },
                }
                c += 1;
            }
            let ghost before = rows_view(colors);
            colors.push(row);
            proof {
                let after = rows_view(colors);
                assert forall|i: int, j: int| 0 <= i < r + 1 && 0 <= j < cols implies palette@.contains(
                    #[trigger] after[i][j],
                ) by {
                    if i < r {
                        assert(after[i] == before[i]);
                        assert(palette@.contains(before[i][j]));
                    } else {
                        assert(after[i] == row@);
                        assert(palette@.contains(row@[j]));
                    }
                }
            }
            r += 1;
        }
        let ghost grid = rows_view(colors);
        let res = Game::from_colors(palette, colors);
        proof {
            let cells = fresh_cells(grid);
            assert(cells.len() == rows);
            assert(forall|i: int| 0 <= i < rows ==> (#[trigger] cells[i]).len() == cols);
            assert forall|i: int, j: int| 0 <= i < cells.len() && 0 <= j < cells[i].len() implies palette@.contains(
                (#[trigger] cells[i][j]).color,
            ) by {
                assert(palette@.contains(grid[i][j]));
            }
            assert(cells_error(cells, palette@) is None);
        }
        res
    }
}

} // verus!
