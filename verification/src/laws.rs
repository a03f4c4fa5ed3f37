//! Laws of the model: what holds of every well-formed state, proved once so
//! that callers and the executable code can rely on it.

use vstd::prelude::*;
use crate::model::{cells_error, count_in_row, count_in_rows, fresh_cells};
use crate::model::{Cell, GameView, Player};

verus! {

/// A move keeps the shape of the board and the palette, so a well-formed
/// state stays well formed.
pub proof fn lemma_apply_move_wf(v: GameView, color: char)
    requires
        v.wf(),
    ensures
        v.apply_move(color).wf(),
        v.apply_move(color).rows() == v.rows(),
        v.apply_move(color).cols() == v.cols(),
        v.apply_move(color).palette == v.palette,
        forall|r: int, c: int|
            v.in_bounds(r, c) ==> #[trigger] v.apply_move(color).cell(r, c) == v.cell_after_move(
                r,
                c,
                color,
            ),
{
    let after = v.apply_move(color);
    assert(after.cells[0].len() == v.cols());
    assert forall|r: int| 0 <= r < after.rows() implies (#[trigger] after.cells[r]).len()
        == after.cols() by {}
}

/// Claiming is monotonic: a cell that has an owner keeps that owner through
/// any move, whoever plays it and whatever the colour.
pub proof fn lemma_apply_move_keeps_owners(v: GameView, color: char)
    requires
        v.wf(),
    ensures
        forall|r: int, c: int|
            v.in_bounds(r, c) && v.cell(r, c).owner is Some ==> (#[trigger] v.apply_move(color).cell(
                r,
                c,
            )).owner == v.cell(r, c).owner,
{
    lemma_apply_move_wf(v, color);
}

/// A move repaints the whole territory of the mover in the colour played,
/// also when the territory already has that colour, and always passes the
/// turn to the other player.
pub proof fn lemma_apply_move_recolors(v: GameView, color: char)
    requires
        v.wf(),
    ensures
        v.apply_move(color).current_player == v.current_player.other(),
        forall|r: int, c: int|
            v.owned_by(r, c, v.current_player) ==> (#[trigger] v.apply_move(color).cell(r, c)).color
                == color,
{
    lemma_apply_move_wf(v, color);
}

/// Counting a row one cell further adds one exactly when that cell is `p`'s.
pub proof fn lemma_count_in_row_step(row: Seq<Cell>, c: int, p: Player)
    requires
        0 <= c < row.len(),
    ensures
        count_in_row(row.take(c + 1), p) == count_in_row(row.take(c), p) + if row[c].owner == Some(
            p,
        ) {
            1nat
        } else {
            0nat
        },
{
    assert(row.take(c + 1).drop_last() =~= row.take(c));
}

/// Counting one row further adds what that row holds for `p`.
pub proof fn lemma_count_in_rows_step(cells: Seq<Seq<Cell>>, r: int, p: Player)
    requires
        0 <= r < cells.len(),
    ensures
        count_in_rows(cells.take(r + 1), p) == count_in_rows(cells.take(r), p) + count_in_row(
            cells[r],
            p,
        ),
{
    assert(cells.take(r + 1).drop_last() =~= cells.take(r));
}

/// The two players together own no more cells of a row than the row has.
pub proof fn lemma_count_in_row_bound(row: Seq<Cell>)
    ensures
        count_in_row(row, Player::One) + count_in_row(row, Player::Two) <= row.len(),
    decreases row.len(),
{
    if row.len() > 0 {
        lemma_count_in_row_bound(row.drop_last());
    }
}

/// The two players together own no more cells than the rows have, when
/// every row has `cols` cells.
pub proof fn lemma_count_in_rows_bound(cells: Seq<Seq<Cell>>, cols: nat)
    requires
        forall|r: int| 0 <= r < cells.len() ==> (#[trigger] cells[r]).len() == cols,
    ensures
        count_in_rows(cells, Player::One) + count_in_rows(cells, Player::Two) <= cells.len() * cols,
    decreases cells.len(),
{
    if cells.len() > 0 {
        let rest = cells.drop_last();
        assert forall|r: int| 0 <= r < rest.len() implies (#[trigger] rest[r]).len() == cols by {
            assert(rest[r] == cells[r]);
        }
        lemma_count_in_rows_bound(rest, cols);
        lemma_count_in_row_bound(cells.last());
        assert(cells.len() * cols == rest.len() * cols + cols) by (nonlinear_arith)
            requires
                cells.len() == rest.len() + 1,
        ;
    }
}

/// The two players together own no more cells than the board has, so the
/// score lies between minus and plus the number of cells.
pub proof fn lemma_score_bounds(v: GameView)
    requires
        v.wf(),
    ensures
        v.count_owned(Player::One) + v.count_owned(Player::Two) <= v.rows() * v.cols(),
        -(v.rows() * v.cols()) <= v.score() <= v.rows() * v.cols(),
{
    lemma_count_in_rows_bound(v.cells, v.cols());
}

/// A grid of colours that passes the checks of construction gives a
/// well-formed new game of the same shape, with every colour in the palette
/// and every cell with its initial owner.
pub proof fn lemma_fresh_wf(colors: Seq<Seq<char>>, palette: Seq<char>)
    requires
        cells_error(fresh_cells(colors), palette) is None,
    ensures
        GameView::fresh(colors, palette).wf(),
        GameView::fresh(colors, palette).rows() == colors.len(),
        GameView::fresh(colors, palette).cols() == colors[0].len(),
        GameView::fresh(colors, palette).colors_in_palette(),
        GameView::fresh(colors, palette).initial_owners(),
        forall|r: int, c: int|
            GameView::fresh(colors, palette).in_bounds(r, c) ==> (#[trigger] GameView::fresh(
                colors,
                palette,
            ).cell(r, c)).color == colors[r][c],
{
    let cells = fresh_cells(colors);
    let v = GameView::fresh(colors, palette);
    assert(cells[0].len() == colors[0].len());
    assert forall|r: int| 0 <= r < v.rows() implies (#[trigger] v.cells[r]).len() == v.cols() by {
        assert(cells[r].len() == cells[0].len());
    }
    assert forall|r: int, c: int| v.in_bounds(r, c) implies v.palette.contains(
        (#[trigger] v.cell(r, c)).color,
    ) by {
        assert(cells[r].len() == cells[0].len());
        assert(palette.contains(cells[r][c].color));
    }
    assert forall|r: int, c: int| v.in_bounds(r, c) implies (#[trigger] v.cell(r, c)).color
        == colors[r][c] by {
        assert(cells[r].len() == cells[0].len());
    }
    assert forall|r: int, c: int| v.in_bounds(r, c) implies (#[trigger] v.cell(r, c)).owner
        == crate::model::initial_owner(v.rows(), v.cols(), r, c) by {
        assert(cells[r].len() == cells[0].len());
    }
}

/// In a state where no move has been played, on a board of more than one
/// cell, the bottom-left cell belongs to player one, the top-right cell to
/// player two, and no other cell has an owner.
pub proof fn lemma_initial_owners(v: GameView)
    requires
        v.wf(),
        v.initial_owners(),
        v.rows() > 1 || v.cols() > 1,
    ensures
        v.cell(v.rows() - 1, 0).owner == Some(Player::One),
        v.cell(0, v.cols() - 1).owner == Some(Player::Two),
        forall|r: int, c: int|
            v.in_bounds(r, c) && !(r == v.rows() - 1 && c == 0) && !(r == 0 && c == v.cols() - 1)
                ==> (#[trigger] v.cell(r, c)).owner is None,
{
    assert(v.in_bounds(v.rows() - 1, 0));
    assert(v.in_bounds(0, v.cols() - 1));
}

/// On a board of a single cell the two corners are one cell; where no move
/// has been played it belongs to player two, and the game is over at once.
pub proof fn lemma_single_cell_board(v: GameView)
    requires
        v.wf(),
        v.initial_owners(),
        v.rows() == 1,
        v.cols() == 1,
    ensures
        v.cell(0, 0).owner == Some(Player::Two),
        v.game_over(),
{
    assert(v.in_bounds(0, 0));
}

/// Neither identity colour may be played, whoever is to move; every other
/// colour of the palette may be played; and whether a colour may be played
/// does not depend on whose turn it is.
pub proof fn lemma_valid_moves(v: GameView, color: char)
    requires
        v.wf(),
    ensures
        !v.valid_move(v.identity_color(Player::One)),
        !v.valid_move(v.identity_color(Player::Two)),
        v.palette.contains(color) && color != v.identity_color(Player::One) && color
            != v.identity_color(Player::Two) ==> v.valid_move(color),
        v.valid_move(color) == (GameView {
            current_player: v.current_player.other(),
            ..v
        }).valid_move(color),
{
}

/// A sequence of moves keeps the shape of the board and the palette, so a
/// well-formed state stays well formed.
pub proof fn lemma_apply_moves_wf(v: GameView, moves: Seq<char>)
    requires
        v.wf(),
    ensures
        v.apply_moves(moves).wf(),
        v.apply_moves(moves).rows() == v.rows(),
        v.apply_moves(moves).cols() == v.cols(),
        v.apply_moves(moves).palette == v.palette,
    decreases moves.len(),
{
    if moves.len() > 0 {
        lemma_apply_moves_wf(v, moves.drop_last());
        lemma_apply_move_wf(v.apply_moves(moves.drop_last()), moves.last());
    }
}

/// Once a cell has an owner, it keeps that owner through every sequence of
/// moves that follows.
pub proof fn lemma_apply_moves_keeps_owners(v: GameView, moves: Seq<char>)
    requires
        v.wf(),
    ensures
        forall|r: int, c: int|
            v.in_bounds(r, c) && v.cell(r, c).owner is Some ==> (#[trigger] v.apply_moves(
                moves,
            ).cell(r, c)).owner == v.cell(r, c).owner,
    decreases moves.len(),
{
    if moves.len() > 0 {
        let before = v.apply_moves(moves.drop_last());
        lemma_apply_moves_keeps_owners(v, moves.drop_last());
        lemma_apply_moves_wf(v, moves.drop_last());
        lemma_apply_move_keeps_owners(before, moves.last());
        assert forall|r: int, c: int|
            v.in_bounds(r, c) && v.cell(r, c).owner is Some implies (#[trigger] v.apply_moves(
            moves,
        ).cell(r, c)).owner == v.cell(r, c).owner by {
            assert(before.cell(r, c).owner == v.cell(r, c).owner);
            assert(before.in_bounds(r, c));
        }
    }
}

/// A move with a colour of the palette keeps every colour of the board in
/// the palette.
pub proof fn lemma_apply_move_colors(v: GameView, color: char)
    requires
        v.wf(),
        v.colors_in_palette(),
        v.palette.contains(color),
    ensures
        v.apply_move(color).colors_in_palette(),
{
    lemma_apply_move_wf(v, color);
    let after = v.apply_move(color);
    assert forall|r: int, c: int| after.in_bounds(r, c) implies after.palette.contains(
        (#[trigger] after.cell(r, c)).color,
    ) by {
        assert(v.palette.contains(v.cell(r, c).color));
    }
}

/// A row in which every cell of `p` in `a` is also a cell of `p` in `b`
/// holds at least as many cells of `p` in `b` as in `a`.
pub proof fn lemma_count_in_row_monotone(a: Seq<Cell>, b: Seq<Cell>, p: Player)
    requires
        a.len() == b.len(),
        forall|j: int|
            0 <= j < a.len() && (#[trigger] a[j]).owner == Some(p) ==> b[j].owner == Some(p),
    ensures
        count_in_row(a, p) <= count_in_row(b, p),
    decreases a.len(),
{
    if a.len() > 0 {
        let a0 = a.drop_last();
        let b0 = b.drop_last();
        assert forall|j: int| 0 <= j < a0.len() && (#[trigger] a0[j]).owner == Some(
            p,
        ) implies b0[j].owner == Some(p) by {
            assert(a0[j] == a[j]);
            assert(b0[j] == b[j]);
        }
        lemma_count_in_row_monotone(a0, b0, p);
        assert(a.last() == a[a.len() - 1]);
    }
}

/// Rows in which every cell of `p` in `a` is also a cell of `p` in `b` hold
/// at least as many cells of `p` in `b` as in `a`.
pub proof fn lemma_count_in_rows_monotone(a: Seq<Seq<Cell>>, b: Seq<Seq<Cell>>, p: Player)
    requires
        a.len() == b.len(),
        forall|i: int| 0 <= i < a.len() ==> (#[trigger] a[i]).len() == b[i].len(),
        forall|i: int, j: int|
            0 <= i < a.len() && 0 <= j < a[i].len() && (#[trigger] a[i][j]).owner == Some(p)
                ==> b[i][j].owner == Some(p),
    ensures
        count_in_rows(a, p) <= count_in_rows(b, p),
    decreases a.len(),
{
    if a.len() > 0 {
        let a0 = a.drop_last();
        let b0 = b.drop_last();
        assert forall|i: int| 0 <= i < a0.len() implies (#[trigger] a0[i]).len()
            == b0[i].len() by {
            assert(a0[i] == a[i]);
            assert(b0[i] == b[i]);
        }
        assert forall|i: int, j: int|
            0 <= i < a0.len() && 0 <= j < a0[i].len() && (#[trigger] a0[i][j]).owner == Some(
                p,
            ) implies b0[i][j].owner == Some(p) by {
            assert(a0[i] == a[i]);
            assert(b0[i] == b[i]);
            assert(a[i][j].owner == Some(p));
        }
        lemma_count_in_rows_monotone(a0, b0, p);
        let last = a.len() - 1;
        assert(a[last].len() == b[last].len());
        assert forall|j: int|
            0 <= j < a.last().len() && (#[trigger] a.last()[j]).owner == Some(
                p,
            ) implies b.last()[j].owner == Some(p) by {
            assert(a[last][j].owner == Some(p));
        }
        lemma_count_in_row_monotone(a.last(), b.last(), p);
    }
}

/// A move never takes a cell from anyone: the mover owns at least as many
/// cells after it as before, and the other player exactly as many.
pub proof fn lemma_apply_move_counts(v: GameView, color: char)
    requires
        v.wf(),
    ensures
        v.apply_move(color).count_owned(v.current_player) >= v.count_owned(v.current_player),
        v.apply_move(color).count_owned(v.current_player.other()) == v.count_owned(
            v.current_player.other(),
        ),
{
    let after = v.apply_move(color);
    let mover = v.current_player;
    let other = v.current_player.other();
    lemma_apply_move_wf(v, color);
    assert forall|i: int| 0 <= i < v.cells.len() implies (#[trigger] v.cells[i]).len()
        == after.cells[i].len() by {}
    assert forall|i: int| 0 <= i < after.cells.len() implies (#[trigger] after.cells[i]).len()
        == v.cells[i].len() by {}
    assert forall|i: int, j: int|
        0 <= i < v.cells.len() && 0 <= j < v.cells[i].len() && (#[trigger] v.cells[i][j]).owner
            == Some(mover) implies after.cells[i][j].owner == Some(mover) by {
        assert(v.in_bounds(i, j));
        assert(after.cell(i, j) == v.cell_after_move(i, j, color));
    }
    lemma_count_in_rows_monotone(v.cells, after.cells, mover);
    assert forall|i: int, j: int|
        0 <= i < v.cells.len() && 0 <= j < v.cells[i].len() && (#[trigger] v.cells[i][j]).owner
            == Some(other) implies after.cells[i][j].owner == Some(other) by {
        assert(v.in_bounds(i, j));
        assert(after.cell(i, j) == v.cell_after_move(i, j, color));
    }
    lemma_count_in_rows_monotone(v.cells, after.cells, other);
    assert forall|i: int, j: int|
        0 <= i < after.cells.len() && 0 <= j < after.cells[i].len() && (
        #[trigger] after.cells[i][j]).owner == Some(other) implies v.cells[i][j].owner == Some(
        other,
    ) by {
        assert(v.in_bounds(i, j));
        assert(after.cell(i, j) == v.cell_after_move(i, j, color));
    }
    lemma_count_in_rows_monotone(after.cells, v.cells, other);
}

/// The two players together own every cell of a row exactly when every
/// cell of the row has an owner.
pub proof fn lemma_row_full(row: Seq<Cell>)
    ensures
        (count_in_row(row, Player::One) + count_in_row(row, Player::Two) == row.len()) <==> (forall|
            j: int,
        |
            0 <= j < row.len() ==> (#[trigger] row[j]).owner is Some),
    decreases row.len(),
{
    let full = forall|j: int| 0 <= j < row.len() ==> (#[trigger] row[j]).owner is Some;
    if row.len() > 0 {
        let rest = row.drop_last();
        lemma_row_full(rest);
        lemma_count_in_row_bound(rest);
        assert(row.last() == row[row.len() - 1]);
        if full {
            assert forall|j: int| 0 <= j < rest.len() implies (#[trigger] rest[j]).owner is Some by {
                assert(rest[j] == row[j]);
            }
            assert(row[row.len() - 1].owner is Some);
            match row.last().owner {
                Some(Player::One) => {},
                Some(Player::Two) => {},
                None => {},
            }
        }
        if count_in_row(row, Player::One) + count_in_row(row, Player::Two) == row.len() {
            assert forall|j: int| 0 <= j < row.len() implies (#[trigger] row[j]).owner is Some by {
                if j < rest.len() {
                    assert(rest[j] == row[j]);
                }
            }
        }
    }
}

/// The two players together own every cell of the rows exactly when every
/// cell has an owner, when every row has `cols` cells.
pub proof fn lemma_rows_full(cells: Seq<Seq<Cell>>, cols: nat)
    requires
        forall|r: int| 0 <= r < cells.len() ==> (#[trigger] cells[r]).len() == cols,
    ensures
        count_in_rows(cells, Player::One) + count_in_rows(cells, Player::Two) == cells.len() * cols
            <==> forall|r: int, c: int|
            0 <= r < cells.len() && 0 <= c < cols ==> (#[trigger] cells[r][c]).owner is Some,
    decreases cells.len(),
{
    if cells.len() > 0 {
        let rest = cells.drop_last();
        let last = cells.len() - 1;
        assert forall|r: int| 0 <= r < rest.len() implies (#[trigger] rest[r]).len() == cols by {
            assert(rest[r] == cells[r]);
        }
        lemma_rows_full(rest, cols);
        lemma_count_in_rows_bound(rest, cols);
        lemma_count_in_row_bound(cells.last());
        lemma_row_full(cells.last());
        assert(cells.last() == cells[last]);
        assert(cells.len() * cols == rest.len() * cols + cols) by (nonlinear_arith)
            requires
                cells.len() == rest.len() + 1,
        ;
        if forall|r: int, c: int|
            0 <= r < cells.len() && 0 <= c < cols ==> (#[trigger] cells[r][c]).owner is Some {
            assert forall|r: int, c: int| 0 <= r < rest.len() && 0 <= c < cols implies (
            #[trigger] rest[r][c]).owner is Some by {
                assert(rest[r] == cells[r]);
                assert(cells[r][c].owner is Some);
            }
            assert forall|j: int| 0 <= j < cells.last().len() implies (
            #[trigger] cells.last()[j]).owner is Some by {
                assert(cells[last][j].owner is Some);
            }
        }
        if count_in_rows(cells, Player::One) + count_in_rows(cells, Player::Two) == cells.len()
            * cols {
            assert forall|r: int, c: int| 0 <= r < cells.len() && 0 <= c < cols implies (
            #[trigger] cells[r][c]).owner is Some by {
                if r < rest.len() {
                    assert(rest[r] == cells[r]);
                    assert(rest[r][c].owner is Some);
                } else {
                    assert(cells.last()[c].owner is Some);
                }
            }
        }
    } else {
        assert(cells.len() * cols == 0) by (nonlinear_arith)
            requires
                cells.len() == 0,
        ;
    }
}

/// The game is over exactly when the two players together own every cell
/// of the board.
pub proof fn lemma_game_over_counts(v: GameView)
    requires
        v.wf(),
    ensures
        v.game_over() <==> v.count_owned(Player::One) + v.count_owned(Player::Two) == v.rows()
            * v.cols(),
{
    lemma_rows_full(v.cells, v.cols());
    if v.game_over() {
        assert forall|r: int, c: int| 0 <= r < v.cells.len() && 0 <= c < v.cols() implies (
        #[trigger] v.cells[r][c]).owner is Some by {
            assert(v.in_bounds(r, c));
            assert(v.cell(r, c).owner is Some);
        }
    }
    if v.count_owned(Player::One) + v.count_owned(Player::Two) == v.rows() * v.cols() {
        assert forall|r: int, c: int| v.in_bounds(r, c) implies (#[trigger] v.cell(
            r,
            c,
        )).owner is Some by {
            assert(v.cells[r][c].owner is Some);
        }
    }
}

} // verus!
