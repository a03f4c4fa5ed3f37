//! Reading a colour from a line of text.

use vstd::prelude::*;
use vstd::string::StrSliceExecFns;
use crate::game::palette_contains;

verus! {

/// Why a line of text gives no colour.
#[derive(Clone, Copy, Debug, PartialEq, Eq, Structural)]
pub enum InputError {
    /// The line is empty or all white space.
    NoInput,
    /// The first character of the line is not a colour of the palette.
    UnknownColor,
}

/// How the board of a new game is to be made.
#[derive(Clone, Copy, Debug, PartialEq, Eq, Structural)]
pub enum BoardChoice {
    /// The colours are entered cell by cell.
    Manual,
    /// The colours are drawn at random.
    Random,
}

/// Whether `c` is white space in the sense of `char::is_whitespace`.
pub uninterp spec fn is_white_space(c: char) -> bool;

/// `char::is_whitespace` says whether a character has the Unicode property
/// White_Space. The answer depends on the character alone, and that is all
/// that is claimed here: the answer is given the name `is_white_space`.
pub assume_specification[ char::is_whitespace ](c: char) -> (b: bool)
    ensures
        b == is_white_space(c),
;

/// Whether `i` is the index of the first character of `line` that is not
/// white space.
pub open spec fn is_first_symbol(line: Seq<char>, i: int) -> bool {
    &&& 0 <= i < line.len()
    &&& !is_white_space(line[i])
    &&& forall|j: int| 0 <= j < i ==> is_white_space(#[trigger] line[j])
}

/// The first character of `line` that is not white space, which is the
/// character that the line starts with once white space is trimmed from
/// both ends; `None` when the line is empty or all white space.
pub open spec fn first_symbol_of(line: Seq<char>) -> Option<char> {
    if exists|i: int| is_first_symbol(line, i) {
        Some(line[choose|i: int| is_first_symbol(line, i)])
    } else {
        None
    }
}

/// The colour that a line of text names for a given palette: its first
/// symbol, if that is a colour of the palette.
pub open spec fn color_of(line: Seq<char>, palette: Seq<char>) -> Result<char, InputError> {
    match first_symbol_of(line) {
        Some(c) => if palette.contains(c) {
            Ok(c)
        } else {
            Err(InputError::UnknownColor)
        },
        None => Err(InputError::NoInput),
    }
}

/// A line has at most one first symbol.
pub proof fn lemma_first_symbol_unique(line: Seq<char>, i: int, k: int)
    requires
        is_first_symbol(line, i),
        is_first_symbol(line, k),
    ensures
        i == k,
{
    if i < k {
        assert(is_white_space(line[i]));
    }
    if k < i {
        assert(is_white_space(line[k]));
    }
}

/// The first character of `line` that is not white space, or `None` when
/// the line is empty or all white space.
pub fn first_symbol(line: &str) -> (symbol: Option<char>)
    ensures
        symbol == first_symbol_of(line@),
{
    match first_symbol_index(line) {
        Some(i) => {
            proof {
                let k = choose|k: int| is_first_symbol(line@, k);
                lemma_first_symbol_unique(line@, i as int, k);
            }
            Some(line.get_char(i))
        },
        None => {
            proof {
                assert forall|k: int| !is_first_symbol(line@, k) by {
                    if 0 <= k < line@.len() {
                        assert(is_white_space(line@[k]));
                    }
                }
            }
            None
        },
    }
}

/// Reads a colour from a line of text: the first symbol of the line, which
/// must be a colour of `palette`.
pub fn parse_color(line: &str, palette: &Vec<char>) -> (res: Result<char, InputError>)
    ensures
        res == color_of(line@, palette@),
{
    match first_symbol(line) {
        Some(c) => if palette_contains(palette, c) {
            Ok(c)
        } else {
            Err(InputError::UnknownColor)
        },
        None => Err(InputError::NoInput),
    }
}

/// Whether `i` is the index of the last character of `line` that is not
/// white space.
pub open spec fn is_last_symbol(line: Seq<char>, i: int) -> bool {
    &&& 0 <= i < line.len()
    &&& !is_white_space(line[i])
    &&& forall|j: int| i < j < line.len() ==> is_white_space(#[trigger] line[j])
}

/// What is left of `line` once white space is trimmed from both ends: the
/// characters from its first symbol to its last, or nothing when the line is
/// empty or all white space.
pub open spec fn trimmed(line: Seq<char>) -> Seq<char> {
    if exists|i: int| is_first_symbol(line, i) {
        line.subrange(
            choose|i: int| is_first_symbol(line, i),
            (choose|i: int| is_last_symbol(line, i)) + 1,
        )
    } else {
        Seq::empty()
    }
}

/// The choice that a line of text makes: `M` or `m` alone on the line, with
/// white space around it at most, asks for manual entry, `R` or `r` for a
/// random board; anything else makes no choice.
pub open spec fn choice_of(line: Seq<char>) -> Option<BoardChoice> {
    let word = trimmed(line);
    if word.len() != 1 {
        None
    } else if word[0] == 'M' || word[0] == 'm' {
        Some(BoardChoice::Manual)
    } else if word[0] == 'R' || word[0] == 'r' {
        Some(BoardChoice::Random)
    } else {
        None
    }
}

/// A line has at most one last symbol.
pub proof fn lemma_last_symbol_unique(line: Seq<char>, i: int, k: int)
    requires
        is_last_symbol(line, i),
        is_last_symbol(line, k),
    ensures
        i == k,
{
    if i < k {
        assert(is_white_space(line[k]));
    }
    if k < i {
        assert(is_white_space(line[i]));
    }
}

/// The index of the last character of `line` that is not white space, if
/// there is one.
fn last_symbol_index(line: &str) -> (index: Option<usize>)
    ensures
        match index {
            Some(i) => is_last_symbol(line@, i as int),
            None => forall|j: int| 0 <= j < line@.len() ==> is_white_space(#[trigger] line@[j]),
        },
{
    let n = line.unicode_len();
    let mut i: usize = n;
    while i > 0
        invariant
            i <= n,
            n == line@.len(),
            forall|j: int| i <= j < n ==> is_white_space(#[trigger] line@[j]),
        decreases i,
    {
        i -= 1;
        let c = line.get_char(i);
        if !c.is_whitespace() {
            return Some(i);
        }
    }
    None
}

/// The index of the first character of `line` that is not white space, if
/// there is one.
fn first_symbol_index(line: &str) -> (index: Option<usize>)
    ensures
        match index {
            Some(i) => is_first_symbol(line@, i as int),
            None => forall|j: int| 0 <= j < line@.len() ==> is_white_space(#[trigger] line@[j]),
        },
{
    let n = line.unicode_len();
    let mut i: usize = 0;
    while i < n
        invariant
            i <= n,
            n == line@.len(),
            forall|j: int| 0 <= j < i ==> is_white_space(#[trigger] line@[j]),
        decreases n - i,
    {
        let c = line.get_char(i);
        if !c.is_whitespace() {
            return Some(i);
        }
        i += 1;
    }
    None
}

/// Reads from a line of text how the board is to be made; `None` when the
/// line makes no choice.
pub fn parse_choice(line: &str) -> (choice: Option<BoardChoice>)
    ensures
        choice == choice_of(line@),
{
    let first = first_symbol_index(line);
    let last = last_symbol_index(line);
    match (first, last) {
        (Some(i), Some(k)) => {
            proof {
                let ci = choose|i: int| is_first_symbol(line@, i);
                let ck = choose|i: int| is_last_symbol(line@, i);
                lemma_first_symbol_unique(line@, i as int, ci);
                lemma_last_symbol_unique(line@, k as int, ck);
                assert(trimmed(line@) == line@.subrange(i as int, k + 1));
                assert(i <= k) by {
                    if k < i {
                        assert(is_white_space(line@[k as int]));
                    }
                }
            }
            if i != k {
                return None;
            }
            let c = line.get_char(i);
            if c == 'M' || c == 'm' {
                Some(BoardChoice::Manual)
            } else if c == 'R' || c == 'r' {
                Some(BoardChoice::Random)
            } else {
                None
            }
        },
        _ => {
            proof {
                assert forall|k: int| !is_first_symbol(line@, k) by {
                    if 0 <= k < line@.len() {
                        assert(is_white_space(line@[k]));
                    }
                }
            }
            None
        },
    }
}

} // verus!
