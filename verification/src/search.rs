//! The search for the computer player's move: minimax to a fixed depth over
//! the colours that may be played, with the score as the value of a leaf.
//! Player two is the maximising side.

use vstd::prelude::*;
use crate::game::{color_at, Game};
use crate::laws::{lemma_apply_move_wf, lemma_score_bounds};
use crate::model::GameView;
use crate::score::evaluate;

verus! {

/// The number of plies that the computer player looks ahead after its own
/// move.
pub const SEARCH_DEPTH: u32 = 4;

/// The better of two values for the side that chooses: the greater for the
/// maximising side, the smaller for the minimising side.
pub open spec fn better_of(maximizing: bool, a: int, b: int) -> int {
    if maximizing {
        if b > a {
            b
        } else {
            a
        }
    } else {
        if b < a {
            b
        } else {
            a
        }
    }
}

impl GameView {
    /// The minimax value of a state searched `depth` plies deep. At depth 0,
    /// when the game is over, and when no colour may be played, it is the
    /// score of the state. Otherwise it is the best, for the side that
    /// chooses, of the values that the states after each valid colour have
    /// one ply less deep with the other side choosing.
    pub open spec fn minimax(self, depth: nat, maximizing: bool) -> int
        decreases depth, 0nat,
    {
        if depth == 0 || self.game_over() {
            self.score()
        } else {
            match self.best_child_value((depth - 1) as nat, maximizing, self.palette.len()) {
                Some(value) => value,
                None => self.score(),
            }
        }
    }

    /// The value, searched `depth` plies deep with the other side choosing,
    /// of the state after `color` has been played.
    pub open spec fn child_value(self, color: char, depth: nat, maximizing: bool) -> int {
        self.apply_move(color).minimax(depth, !maximizing)
    }

    /// The value of playing `color` for the computer player: the value of
    /// the state after the move, searched `depth` plies deep with the
    /// maximising side choosing.
    pub open spec fn move_value(self, color: char, depth: nat) -> int {
        self.apply_move(color).minimax(depth, true)
    }

    /// The best, for the side that chooses, of the child values of the valid
    /// colours among the first `n` colours of the palette; `None` when none
    /// of them is valid.
    pub open spec fn best_child_value(self, depth: nat, maximizing: bool, n: nat) -> Option<int>
        decreases depth, n + 1,
    {
        if n == 0 {
            None
        } else {
            let rest = self.best_child_value(depth, maximizing, (n - 1) as nat);
            let color = self.palette[n - 1];
            if self.valid_move(color) {
                let value = self.apply_move(color).minimax(depth, !maximizing);
                match rest {
                    Some(best) => Some(better_of(maximizing, best, value)),
                    None => Some(value),
                }
            } else {
                rest
            }
        }
    }

    /// The valid colour among the first `n` colours of the palette that has
    /// the greatest move value, and that value; of several such colours the
    /// first in the palette. `None` when none of the colours is valid.
    pub open spec fn best_move_among(self, depth: nat, n: nat) -> Option<(char, int)>
        decreases n,
    {
        if n == 0 {
            None
        } else {
            let rest = self.best_move_among(depth, (n - 1) as nat);
            let color = self.palette[n - 1];
            if self.valid_move(color) {
                let value = self.move_value(color, depth);
                match rest {
                    Some((_, best)) => if value > best {
                        Some((color, value))
                    } else {
                        rest
                    },
                    None => Some((color, value)),
                }
            } else {
                rest
            }
        }
    }

    /// The colour that the computer player plays: the best move among all
    /// colours of the palette, or the first colour of the palette when no
    /// colour is valid.
    pub open spec fn best_move(self, depth: nat) -> char {
        match self.best_move_among(depth, self.palette.len()) {
            Some((color, _)) => color,
            None => self.palette[0],
        }
    }
}

/// The minimax value of `game`, searched `depth` plies deep, with the
/// maximising side choosing if `maximizing_player` is set and the minimising
/// side otherwise. A state in which no colour may be played has its score
/// as its value, like a state at depth 0 or a finished game.
pub fn minimax(game: &Game, depth: u32, maximizing_player: bool) -> (value: i64)
    ensures
        value == game@.minimax(depth as nat, maximizing_player),
        depth == 0 ==> value == game@.score(),
    decreases depth,
{
    if depth == 0 || game.is_game_over() {
        return evaluate(game);
    }
    let palette = game.palette();
    let n = palette.len();
    let mut best: Option<i64> = None;
    let mut i: usize = 0;
    while i < n
        invariant
            i <= n,
            depth > 0,
            palette@ == game@.palette,
            n == palette@.len(),
            match best {
                Some(b) => game@.best_child_value((depth - 1) as nat, maximizing_player, i as nat)
                    == Some(b as int),
                None => game@.best_child_value((depth - 1) as nat, maximizing_player, i as nat)
                    is None,
            },
        decreases n - i,
    {
        let color = color_at(palette, i);
        if game.is_valid_move(color) {
            let child = game.after_move(color);
            let value = minimax(&child, depth - 1, !maximizing_player);
            best =
            Some(
                match best {
                    Some(b) => if maximizing_player {
                        if value > b {
                            value
                        } else {
                            b
                        }
                    } else {
                        if value < b {
                            value
                        } else {
                            b
                        }
                    },
                    None => value,
                },
            );
        }
        i += 1;
    }
    match best {
        Some(b) => b,
        None => evaluate(game),
    }
}

/// The colour for the computer player to play. Every valid colour of the
/// palette is tried: the move is made on a copy of the game and the copy is
/// searched `depth` plies deep with the maximising side choosing. The
/// colour with the strictly greatest value wins, the first in the palette
/// among equals. When no colour is valid the first colour of the palette is
/// returned.
pub fn choose_ai_move(game: &Game, depth: u32) -> (color: char)
    ensures
        color == game@.best_move(depth as nat),
{
    let palette = game.palette();
    let n = palette.len();
    let mut best: Option<(char, i64)> = None;
    let mut i: usize = 0;
    while i < n
        invariant
            i <= n,
            palette@ == game@.palette,
            n == palette@.len(),
            match best {
                Some((c, b)) => game@.best_move_among(depth as nat, i as nat) == Some(
                    (c, b as int),
                ),
                None => game@.best_move_among(depth as nat, i as nat) is None,
            },
        decreases n - i,
    {
        let color = color_at(palette, i);
        if game.is_valid_move(color) {
            let child = game.after_move(color);
            let value = minimax(&child, depth, true);
            let better = match best {
                Some((_, b)) => value > b,
                None => true,
            };
            if better {
                best = Some((color, value));
            }
        }
        i += 1;
    }
    match best {
        Some((color, _)) => color,
        None => color_at(palette, 0),
    }
}

/// What the best child value is: there is none exactly when none of the
/// first `n` colours is valid; otherwise it is the child value of one of the
/// valid colours among them, and no valid colour among them has a better one.
pub proof fn lemma_best_child_value(v: GameView, depth: nat, maximizing: bool, n: nat)
    requires
        n <= v.palette.len(),
    ensures
        v.best_child_value(depth, maximizing, n) is None <==> forall|i: int|
            0 <= i < n ==> !v.valid_move(#[trigger] v.palette[i]),
        v.best_child_value(depth, maximizing, n) matches Some(best) ==> {
            &&& exists|i: int|
                0 <= i < n && v.valid_move(#[trigger] v.palette[i]) && v.child_value(
                    v.palette[i],
                    depth,
                    maximizing,
                ) == best
            &&& forall|i: int|
                0 <= i < n && v.valid_move(#[trigger] v.palette[i]) ==> better_of(
                    maximizing,
                    best,
                    v.child_value(v.palette[i], depth, maximizing),
                ) == best
        },
    decreases n,
{
    if n > 0 {
        lemma_best_child_value(v, depth, maximizing, (n - 1) as nat);
        let rest = v.best_child_value(depth, maximizing, (n - 1) as nat);
        let color = v.palette[n - 1];
        if v.valid_move(color) {
            let value = v.child_value(color, depth, maximizing);
            let best = v.best_child_value(depth, maximizing, n)->Some_0;
            match rest {
                Some(b) => {
                    let k = choose|i: int|
                        0 <= i < n - 1 && v.valid_move(#[trigger] v.palette[i]) && v.child_value(
                            v.palette[i],
                            depth,
                            maximizing,
                        ) == b;
                    if best == b {
                        assert(v.valid_move(v.palette[k]));
                    } else {
                        assert(v.valid_move(v.palette[n - 1]));
                    }
                },
                None => {
                    assert(v.valid_move(v.palette[n - 1]));
                },
            }
        }
    }
}

/// At depth 0 the minimax value is the score, whichever side chooses; so it
/// is when the game is over and when no colour may be played, at any depth.
pub proof fn lemma_minimax_leaf(v: GameView, depth: nat, maximizing: bool)
    ensures
        v.minimax(0, maximizing) == v.score(),
        v.game_over() ==> v.minimax(depth, maximizing) == v.score(),
        !v.has_valid_move() ==> v.minimax(depth, maximizing) == v.score(),
{
    if depth > 0 && !v.has_valid_move() {
        lemma_best_child_value(v, (depth - 1) as nat, maximizing, v.palette.len());
    }
}

/// Where the search goes on, the minimax value is the value of the child of
/// some valid colour, and no valid colour has a child with a better value
/// for the side that chooses: none greater for the maximising side, none
/// smaller for the minimising side.
pub proof fn lemma_minimax_is_best(v: GameView, depth: nat, maximizing: bool)
    requires
        depth > 0,
        !v.game_over(),
        v.has_valid_move(),
    ensures
        exists|i: int|
            0 <= i < v.palette.len() && v.valid_move(#[trigger] v.palette[i]) && v.child_value(
                v.palette[i],
                (depth - 1) as nat,
                maximizing,
            ) == v.minimax(depth, maximizing),
        forall|i: int|
            0 <= i < v.palette.len() && v.valid_move(#[trigger] v.palette[i]) ==> if maximizing {
                v.child_value(v.palette[i], (depth - 1) as nat, maximizing) <= v.minimax(
                    depth,
                    maximizing,
                )
            } else {
                v.child_value(v.palette[i], (depth - 1) as nat, maximizing) >= v.minimax(
                    depth,
                    maximizing,
                )
            },
{
    lemma_best_child_value(v, (depth - 1) as nat, maximizing, v.palette.len());
}

/// The minimax value lies between minus and plus the number of cells, as
/// every score does.
pub proof fn lemma_minimax_bounds(v: GameView, depth: nat, maximizing: bool)
    requires
        v.wf(),
    ensures
        -(v.rows() * v.cols()) <= v.minimax(depth, maximizing) <= v.rows() * v.cols(),
    decreases depth,
{
    lemma_score_bounds(v);
    if depth > 0 && !v.game_over() {
        let n = v.palette.len();
        lemma_best_child_value(v, (depth - 1) as nat, maximizing, n);
        if let Some(best) = v.best_child_value((depth - 1) as nat, maximizing, n) {
            let k = choose|i: int|
                0 <= i < n && v.valid_move(#[trigger] v.palette[i]) && v.child_value(
                    v.palette[i],
                    (depth - 1) as nat,
                    maximizing,
                ) == best;
            lemma_apply_move_wf(v, v.palette[k]);
            lemma_minimax_bounds(v.apply_move(v.palette[k]), (depth - 1) as nat, !maximizing);
        }
    }
}

/// What the best move among the first `n` colours is: there is none exactly
/// when none of them is valid; otherwise it is a valid colour at some index
/// below `n`, with its move value, no valid colour among the first `n` has
/// a greater move value, and every valid colour before that index has a
/// smaller one.
pub proof fn lemma_best_move_among(v: GameView, depth: nat, n: nat)
    requires
        n <= v.palette.len(),
    ensures
        v.best_move_among(depth, n) is None <==> forall|i: int|
            0 <= i < n ==> !v.valid_move(#[trigger] v.palette[i]),
        v.best_move_among(depth, n) matches Some((color, best)) ==> {
            &&& v.valid_move(color)
            &&& best == v.move_value(color, depth)
            &&& forall|i: int|
                0 <= i < n && v.valid_move(#[trigger] v.palette[i])
                        ==> v.move_value(v.palette[i], depth) <= best
            &&& exists|k: int|
                0 <= k < n && #[trigger] v.palette[k] == color && forall|i: int|
                    0 <= i < k && v.valid_move(#[trigger] v.palette[i])
                        ==> v.move_value(v.palette[i], depth) < best
        },
    decreases n,
{
    if n > 0 {
        lemma_best_move_among(v, depth, (n - 1) as nat);
        let rest = v.best_move_among(depth, (n - 1) as nat);
        let color = v.palette[n - 1];
        if v.valid_move(color) {
            let value = v.move_value(color, depth);
            match rest {
                Some((c, b)) => {
                    if value > b {
                        assert(v.palette[n - 1] == color);
                    } else {
                        let k = choose|k: int|
                            0 <= k < n - 1 && #[trigger] v.palette[k] == c && forall|i: int|
                                0 <= i < k && v.valid_move(#[trigger] v.palette[i])
                        ==> v.move_value(v.palette[i], depth) < b;
                        assert(v.palette[k] == c);
                    }
                },
                None => {
                    assert(v.palette[n - 1] == color);
                },
            }
        } else {
            if let Some((c, b)) = rest {
                let k = choose|k: int|
                    0 <= k < n - 1 && #[trigger] v.palette[k] == c && forall|i: int|
                        0 <= i < k && v.valid_move(#[trigger] v.palette[i])
                        ==> v.move_value(v.palette[i], depth) < b;
                assert(v.palette[k] == c);
            }
        }
    }
}

/// The colour that the computer player plays. Where some colour is valid,
/// it is a valid colour with the greatest move value of all, and the first
/// such colour in the palette. Where none is valid, it is the first colour
/// of the palette.
pub proof fn lemma_best_move(v: GameView, depth: nat)
    ensures
        !v.has_valid_move() ==> v.best_move(depth) == v.palette[0],
        v.has_valid_move() ==> {
            &&& v.valid_move(v.best_move(depth))
            &&& forall|i: int|
                0 <= i < v.palette.len() && v.valid_move(#[trigger] v.palette[i]) ==> v.move_value(v.palette[i], depth)
                    <= v.move_value(v.best_move(depth), depth)
            &&& exists|k: int|
                0 <= k < v.palette.len() && #[trigger] v.palette[k] == v.best_move(depth) && forall|
                    i: int,
                |
                    0 <= i < k && v.valid_move(#[trigger] v.palette[i]) ==> v.move_value(v.palette[i], depth)
                        < v.move_value(v.best_move(depth), depth)
        },
{
    lemma_best_move_among(v, depth, v.palette.len());
}

/// A valid colour with a strictly greater move value than every other
/// valid colour is the colour that the computer player plays.
pub proof fn lemma_unique_best_move(v: GameView, depth: nat, color: char)
    requires
        v.valid_move(color),
        forall|i: int|
            0 <= i < v.palette.len() && v.valid_move(#[trigger] v.palette[i]) && v.palette[i]
                != color ==> v.move_value(v.palette[i], depth) < v.move_value(color, depth),
    ensures
        v.best_move(depth) == color,
{
    lemma_best_move(v, depth);
    let k = choose|k: int| 0 <= k < v.palette.len() && v.palette[k] == color;
    assert(v.valid_move(v.palette[k]));
}

} // verus!
