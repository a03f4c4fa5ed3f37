//! Scoring: how many cells each player owns, the score that the search
//! optimises, and who is ahead.

use vstd::prelude::*;
use crate::game::Game;
use crate::model::{count_in_row, count_in_rows};
use crate::laws::{lemma_count_in_row_step, lemma_count_in_rows_bound, lemma_count_in_rows_step};
use crate::laws::lemma_score_bounds;
use crate::model::{Cell, GameView, Player};

verus! {

impl GameView {
    /// The player who owns strictly more cells, if there is one.
    pub open spec fn leader(self) -> Option<Player> {
        if self.count_owned(Player::One) > self.count_owned(Player::Two) {
            Some(Player::One)
        } else if self.count_owned(Player::Two) > self.count_owned(Player::One) {
            Some(Player::Two)
        } else {
            None
        }
    }
}

/// How many cells player one owns and how many player two owns, in that
/// order.
pub fn count_owned_cells(game: &Game) -> (counts: (usize, usize))
    ensures
        counts.0 == game@.count_owned(Player::One),
        counts.1 == game@.count_owned(Player::Two),
        counts.0 + counts.1 <= game@.rows() * game@.cols(),
{
    let rows = game.rows();
    let cols = game.cols();
    let ghost cells = game@.cells;
    let mut player1_count: usize = 0;
    let mut player2_count: usize = 0;
    proof {
        use_type_invariant(game);
        assert(cells.take(0) =~= Seq::<Seq<Cell>>::empty());
    }
    let mut r: usize = 0;
    while r < rows
        invariant
            r <= rows,
            game@.wf(),
            cells == game@.cells,
            rows == game@.rows(),
            cols == game@.cols(),
            player1_count == count_in_rows(cells.take(r as int), Player::One),
            player2_count == count_in_rows(cells.take(r as int), Player::Two),
        decreases rows - r,
    {
        let ghost done1 = player1_count;
        let ghost done2 = player2_count;
        let ghost row = cells[r as int];
        proof {
            assert(row.take(0) =~= Seq::<Cell>::empty());
            lemma_score_bounds(game@);
            lemma_count_in_rows_step(cells, r as int, Player::One);
            lemma_count_in_rows_step(cells, r as int, Player::Two);
            lemma_rows_prefix_bound(cells, (r + 1) as int, cols as nat);
            lemma_prefix_cells(rows as nat, cols as nat, (r + 1) as nat);
        }
        let mut c: usize = 0;
        while c < cols
            invariant
                r < rows,
                c <= cols,
                game@.wf(),
                cells == game@.cells,
                row == cells[r as int],
                rows == game@.rows(),
                cols == game@.cols(),
                player1_count == done1 + count_in_row(row.take(c as int), Player::One),
                player2_count == done2 + count_in_row(row.take(c as int), Player::Two),
                done1 + count_in_row(row, Player::One) + done2 + count_in_row(row, Player::Two)
                    <= usize::MAX,
            decreases cols - c,
        {
            proof {
                lemma_count_in_row_step(row, c as int, Player::One);
                lemma_count_in_row_step(row, c as int, Player::Two);
                lemma_row_prefix_bound(row, (c + 1) as int, Player::One);
                lemma_row_prefix_bound(row, (c + 1) as int, Player::Two);
            }
            match game.cell_at(r, c).owner {
                Some(Player::One) => {
                    player1_count += 1;
                },
                Some(Player::Two) => {
                    player2_count += 1;
                },
                None => {},
            }
            c += 1;
        }
        assert(row.take(cols as int) =~= row);
        r += 1;
    }
    proof {
        assert(cells.take(rows as int) =~= cells);
        lemma_score_bounds(game@);
    }
    (player1_count, player2_count)
}

/// A prefix of a row holds no more cells of `p` than the whole row.
proof fn lemma_row_prefix_bound(row: Seq<Cell>, c: int, p: Player)
    requires
        0 <= c <= row.len(),
    ensures
        count_in_row(row.take(c), p) <= count_in_row(row, p),
    decreases row.len() - c,
{
    if c < row.len() {
        lemma_count_in_row_step(row, c, p);
        lemma_row_prefix_bound(row, c + 1, p);
    } else {
        assert(row.take(c) =~= row);
    }
}

/// The first `r` rows hold no more owned cells than they have cells.
proof fn lemma_rows_prefix_bound(cells: Seq<Seq<Cell>>, r: int, cols: nat)
    requires
        0 <= r <= cells.len(),
        forall|i: int| 0 <= i < cells.len() ==> (#[trigger] cells[i]).len() == cols,
    ensures
        count_in_rows(cells.take(r), Player::One) + count_in_rows(cells.take(r), Player::Two) <= r
            * cols,
{
    let prefix = cells.take(r);
    assert forall|i: int| 0 <= i < prefix.len() implies (#[trigger] prefix[i]).len() == cols by {
        assert(prefix[i] == cells[i]);
    }
    lemma_count_in_rows_bound(prefix, cols);
}

/// The first `r` of `rows` rows have no more cells than the board.
proof fn lemma_prefix_cells(rows: nat, cols: nat, r: nat)
    requires
        r <= rows,
    ensures
        r * cols <= rows * cols,
{
    assert(r * cols <= rows * cols) by (nonlinear_arith)
        requires
            r <= rows,
    ;
}

/// The score of the game: player two's cells minus player one's. Player two
/// is the side that the search maximises for.
pub fn evaluate(game: &Game) -> (score: i64)
    ensures
        score == game@.score(),
{
    let (player1_count, player2_count) = count_owned_cells(game);
    proof {
        use_type_invariant(game);
    }
    (player2_count as i64) - (player1_count as i64)
}

/// The player who owns strictly more cells, or `None` when both own the
/// same number.
pub fn leader(game: &Game) -> (ahead: Option<Player>)
    ensures
        ahead == game@.leader(),
{
    let (player1_count, player2_count) = count_owned_cells(game);
    if player1_count > player2_count {
        Some(Player::One)
    } else if player2_count > player1_count {
        Some(Player::Two)
    } else {
        None
    }
}

} // verus!
