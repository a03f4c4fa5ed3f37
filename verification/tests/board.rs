use filler::game::{check_config, palette_contains, palette_index, Game};
use filler::model::{BoardError, Cell, Player};

fn neutral(color: char) -> Cell {
    Cell { color, owner: None }
}

fn owned(color: char, owner: Player) -> Cell {
    Cell { color, owner: Some(owner) }
}

fn two_by_two() -> Game {
    Game::from_colors(vec!['r', 'g'], vec![vec!['r', 'g'], vec!['r', 'g']]).unwrap()
}

#[test]
fn fresh_game_owns_only_the_two_corners() {
    let colors = vec![
        vec!['r', 'g', 'b', 'y'],
        vec!['k', 'r', 'g', 'b'],
        vec!['y', 'k', 'r', 'g'],
    ];
    let game = Game::from_colors(vec!['r', 'g', 'b', 'y', 'k'], colors.clone()).unwrap();
    assert_eq!(game.rows(), 3);
    assert_eq!(game.cols(), 4);
    assert_eq!(game.current_player(), Player::One);
    for r in 0..3 {
        for c in 0..4 {
            let cell = game.cell(r, c).unwrap();
            assert_eq!(cell.color, colors[r][c]);
            let expected = if (r, c) == (2, 0) {
                Some(Player::One)
            } else if (r, c) == (0, 3) {
                Some(Player::Two)
            } else {
                None
            };
            assert_eq!(cell.owner, expected);
        }
    }
}

#[test]
fn fresh_corners_keep_their_colours() {
    let game = two_by_two();
    assert_eq!(game.cell(1, 0), Some(owned('r', Player::One)));
    assert_eq!(game.cell(0, 1), Some(owned('g', Player::Two)));
    assert_eq!(game.cell(0, 0), Some(neutral('r')));
    assert_eq!(game.cell(1, 1), Some(neutral('g')));
}

#[test]
fn cell_outside_the_board_is_none() {
    let game = two_by_two();
    assert_eq!(game.cell(2, 0), None);
    assert_eq!(game.cell(0, 2), None);
    assert_eq!(game.cell(usize::MAX, usize::MAX), None);
}

#[test]
fn cells_snapshot_matches_cell() {
    let game = two_by_two();
    let cells = game.cells();
    assert_eq!(
        cells,
        vec![
            vec![neutral('r'), owned('g', Player::Two)],
            vec![owned('r', Player::One), neutral('g')],
        ]
    );
}

#[test]
fn palette_is_kept_in_order() {
    let game = Game::from_colors(vec!['g', 'r'], vec![vec!['r', 'g']]).unwrap();
    assert_eq!(game.palette(), &vec!['g', 'r']);
}

#[test]
fn single_row_board_has_corners_at_both_ends() {
    let game = Game::from_colors(vec!['r', 'g'], vec![vec!['r', 'g', 'r']]).unwrap();
    assert_eq!(game.cell(0, 0), Some(owned('r', Player::One)));
    assert_eq!(game.cell(0, 1), Some(neutral('g')));
    assert_eq!(game.cell(0, 2), Some(owned('r', Player::Two)));
}

#[test]
fn single_column_board_has_corners_at_both_ends() {
    let game = Game::from_colors(vec!['r', 'g'], vec![vec!['r'], vec!['g'], vec!['r']]).unwrap();
    assert_eq!(game.cell(0, 0), Some(owned('r', Player::Two)));
    assert_eq!(game.cell(1, 0), Some(neutral('g')));
    assert_eq!(game.cell(2, 0), Some(owned('r', Player::One)));
}

#[test]
fn single_cell_board_goes_to_player_two_and_is_over() {
    let game = Game::from_colors(vec!['r'], vec![vec!['r']]).unwrap();
    assert_eq!(game.cell(0, 0), Some(owned('r', Player::Two)));
    assert!(game.is_game_over());
}

#[test]
fn fresh_two_by_two_is_not_over() {
    assert!(!two_by_two().is_game_over());
}

#[test]
fn fully_owned_board_is_over() {
    let cells = vec![
        vec![owned('r', Player::One), owned('g', Player::Two)],
        vec![owned('r', Player::One), owned('g', Player::Two)],
    ];
    let game = Game::from_cells(vec!['r', 'g', 'b'], cells, Player::One).unwrap();
    assert!(game.is_game_over());
}

#[test]
fn board_with_one_neutral_cell_is_not_over() {
    let cells = vec![
        vec![owned('r', Player::One), owned('g', Player::Two)],
        vec![owned('r', Player::One), neutral('b')],
    ];
    let game = Game::from_cells(vec!['r', 'g', 'b'], cells, Player::Two).unwrap();
    assert!(!game.is_game_over());
    assert_eq!(game.current_player(), Player::Two);
}

#[test]
fn from_cells_keeps_cells_and_player() {
    let cells = vec![vec![neutral('b'), owned('g', Player::One), owned('r', Player::Two)]];
    let game = Game::from_cells(vec!['r', 'g', 'b'], cells.clone(), Player::Two).unwrap();
    assert_eq!(game.cells(), cells);
    assert_eq!(game.current_player(), Player::Two);
    assert_eq!(game.rows(), 1);
    assert_eq!(game.cols(), 3);
}

#[test]
fn empty_board_is_refused() {
    assert_eq!(Game::from_colors(vec!['r'], vec![]).err(), Some(BoardError::EmptyBoard));
    assert_eq!(Game::from_colors(vec!['r'], vec![vec![]]).err(), Some(BoardError::EmptyBoard));
    let cells: Vec<Vec<Cell>> = vec![vec![], vec![neutral('r')]];
    assert_eq!(Game::from_cells(vec!['r'], cells, Player::One).err(), Some(BoardError::EmptyBoard));
}

#[test]
fn ragged_rows_are_refused() {
    let colors = vec![vec!['r', 'g'], vec!['r']];
    assert_eq!(Game::from_colors(vec!['r', 'g'], colors).err(), Some(BoardError::RaggedRows));
    let longer = vec![vec!['r'], vec!['r', 'g']];
    assert_eq!(Game::from_colors(vec!['r', 'g'], longer).err(), Some(BoardError::RaggedRows));
}

#[test]
fn empty_palette_is_refused() {
    assert_eq!(Game::from_colors(vec![], vec![vec!['r']]).err(), Some(BoardError::EmptyPalette));
}

#[test]
fn colour_outside_the_palette_is_refused() {
    let colors = vec![vec!['r', 'g'], vec!['g', 'z']];
    assert_eq!(Game::from_colors(vec!['r', 'g'], colors).err(), Some(BoardError::UnknownColor));
    let cells = vec![vec![owned('q', Player::One), neutral('r')]];
    assert_eq!(
        Game::from_cells(vec!['r', 'g'], cells, Player::One).err(),
        Some(BoardError::UnknownColor)
    );
}

#[test]
fn ragged_rows_are_reported_before_palette_errors() {
    let colors = vec![vec!['r', 'g'], vec!['z']];
    assert_eq!(Game::from_colors(vec![], colors).err(), Some(BoardError::RaggedRows));
}

#[test]
fn empty_palette_is_reported_before_unknown_colour() {
    assert_eq!(Game::from_colors(vec![], vec![vec!['z']]).err(), Some(BoardError::EmptyPalette));
}

#[test]
fn check_config_reports_the_first_error() {
    let palette = vec!['r'];
    let empty: Vec<char> = vec![];
    assert_eq!(check_config(0, 3, &palette), Some(BoardError::EmptyBoard));
    assert_eq!(check_config(3, 0, &palette), Some(BoardError::EmptyBoard));
    assert_eq!(check_config(0, 0, &empty), Some(BoardError::EmptyBoard));
    assert_eq!(check_config(usize::MAX, 2, &palette), Some(BoardError::TooLarge));
    assert_eq!(check_config(usize::MAX, 2, &empty), Some(BoardError::TooLarge));
    assert_eq!(check_config(usize::MAX, 1, &palette), Some(BoardError::TooLarge));
    assert_eq!(check_config(2, 2, &empty), Some(BoardError::EmptyPalette));
    assert_eq!(check_config(7, 8, &palette), None);
    assert_eq!(check_config(1, 1, &palette), None);
}

#[test]
fn palette_index_finds_the_first_occurrence() {
    let palette = vec!['r', 'g', 'b', 'g'];
    assert_eq!(palette_index(&palette, 'r'), Some(0));
    assert_eq!(palette_index(&palette, 'g'), Some(1));
    assert_eq!(palette_index(&palette, 'b'), Some(2));
    assert_eq!(palette_index(&palette, 'k'), None);
    assert!(palette_contains(&palette, 'b'));
    assert!(!palette_contains(&palette, 'k'));
    assert!(!palette_contains(&vec![], 'r'));
}

#[test]
fn symbols_stand_for_owners() {
    assert_eq!(Player::One.symbol(), 'X');
    assert_eq!(Player::Two.symbol(), 'O');
    assert_eq!(owned('r', Player::One).symbol(), 'X');
    assert_eq!(owned('r', Player::Two).symbol(), 'O');
    assert_eq!(neutral('r').symbol(), 'N');
}

#[test]
fn opponent_is_the_other_player() {
    assert_eq!(Player::One.opponent(), Player::Two);
    assert_eq!(Player::Two.opponent(), Player::One);
}
