use filler::game::Game;
use filler::model::{Cell, Player};

fn neutral(color: char) -> Cell {
    Cell { color, owner: None }
}

fn owned(color: char, owner: Player) -> Cell {
    Cell { color, owner: Some(owner) }
}

fn two_by_two() -> Game {
    Game::from_colors(vec!['r', 'g'], vec![vec!['r', 'g'], vec!['r', 'g']]).unwrap()
}

fn three_by_three() -> Game {
    let colors = vec![vec!['r', 'g', 'b'], vec!['g', 'b', 'r'], vec!['b', 'r', 'g']];
    Game::from_colors(vec!['r', 'g', 'b'], colors).unwrap()
}

#[test]
fn two_colour_board_has_no_valid_move() {
    let mut game = two_by_two();
    assert!(!game.is_valid_move('g'));
    assert!(!game.is_valid_move('r'));
    let before = game.cells();
    assert!(!game.try_move('g'));
    assert!(!game.try_move('r'));
    assert_eq!(game.cells(), before);
    assert_eq!(game.current_player(), Player::One);
    assert!(!game.is_game_over());
}

#[test]
fn identity_colours_are_invalid_for_both_players() {
    let mut game = three_by_three();
    // Both corners are 'b' at the start.
    assert!(!game.is_valid_move('b'));
    assert!(game.is_valid_move('r'));
    assert!(game.is_valid_move('g'));
    game.switch_player();
    assert!(!game.is_valid_move('b'));
    assert!(game.is_valid_move('r'));
    assert!(game.is_valid_move('g'));
}

#[test]
fn colour_outside_the_palette_is_invalid() {
    let game = three_by_three();
    assert!(!game.is_valid_move('k'));
    assert!(!game.is_valid_move('\0'));
}

#[test]
fn every_other_palette_colour_is_valid_in_a_fresh_game() {
    let colors = vec![vec!['r', 'r', 'g'], vec!['y', 'r', 'r']];
    let palette = vec!['r', 'g', 'b', 'y', 'k'];
    let game = Game::from_colors(palette, colors).unwrap();
    assert!(!game.is_valid_move('g'));
    assert!(!game.is_valid_move('y'));
    assert!(game.is_valid_move('r'));
    assert!(game.is_valid_move('b'));
    assert!(game.is_valid_move('k'));
}

#[test]
fn identity_colours_follow_the_corners() {
    let mut game = three_by_three();
    game.make_move('r');
    // Player one's corner is now 'r', player two's is still 'b'.
    assert!(!game.is_valid_move('r'));
    assert!(!game.is_valid_move('b'));
    assert!(game.is_valid_move('g'));
}

#[test]
fn move_recolours_and_captures_matching_neighbours() {
    let mut game = three_by_three();
    game.make_move('r');
    assert_eq!(
        game.cells(),
        vec![
            vec![neutral('r'), neutral('g'), owned('b', Player::Two)],
            vec![neutral('g'), neutral('b'), neutral('r')],
            vec![owned('r', Player::One), owned('r', Player::One), neutral('g')],
        ]
    );
    assert_eq!(game.current_player(), Player::Two);
}

#[test]
fn three_moves_on_three_by_three() {
    let mut game = three_by_three();
    assert!(game.try_move('r'));
    assert!(game.try_move('g'));
    assert_eq!(
        game.cells(),
        vec![
            vec![neutral('r'), owned('g', Player::Two), owned('g', Player::Two)],
            vec![neutral('g'), neutral('b'), neutral('r')],
            vec![owned('r', Player::One), owned('r', Player::One), neutral('g')],
        ]
    );
    assert_eq!(game.current_player(), Player::One);
    assert!(game.try_move('b'));
    assert_eq!(
        game.cells(),
        vec![
            vec![neutral('r'), owned('g', Player::Two), owned('g', Player::Two)],
            vec![neutral('g'), owned('b', Player::One), neutral('r')],
            vec![owned('b', Player::One), owned('b', Player::One), neutral('g')],
        ]
    );
    assert_eq!(game.current_player(), Player::Two);
}

#[test]
fn capture_reaches_one_layer_only() {
    let colors = vec![vec!['g', 'r', 'r', 'b']];
    let mut game = Game::from_colors(vec!['r', 'g', 'b'], colors).unwrap();
    game.make_move('r');
    assert_eq!(
        game.cells(),
        vec![vec![
            owned('r', Player::One),
            owned('r', Player::One),
            neutral('r'),
            owned('b', Player::Two),
        ]]
    );
}

#[test]
fn capture_ignores_diagonal_neighbours() {
    let colors = vec![vec!['g', 'r', 'b'], vec!['g', 'r', 'g'], vec!['b', 'g', 'g']];
    let mut game = Game::from_colors(vec!['r', 'g', 'b'], colors).unwrap();
    // Player one owns (2, 0); (1, 1) is 'r' and touches it only by a corner.
    game.make_move('r');
    assert_eq!(game.cell(1, 1), Some(neutral('r')));
    assert_eq!(game.cell(2, 0), Some(owned('r', Player::One)));
    assert_eq!(game.cell(1, 0), Some(neutral('g')));
    assert_eq!(game.cell(2, 1), Some(neutral('g')));
}

#[test]
fn capture_takes_all_four_neighbours() {
    let cells = vec![
        vec![neutral('g'), neutral('r'), owned('b', Player::Two)],
        vec![neutral('r'), owned('g', Player::One), neutral('r')],
        vec![owned('g', Player::One), neutral('r'), neutral('b')],
    ];
    let mut game = Game::from_cells(vec!['r', 'g', 'b'], cells, Player::One).unwrap();
    game.make_move('r');
    assert_eq!(
        game.cells(),
        vec![
            vec![neutral('g'), owned('r', Player::One), owned('b', Player::Two)],
            vec![owned('r', Player::One), owned('r', Player::One), owned('r', Player::One)],
            vec![owned('r', Player::One), owned('r', Player::One), neutral('b')],
        ]
    );
}

#[test]
fn capture_does_not_wrap_around_the_edges() {
    let cells = vec![
        vec![owned('g', Player::One), neutral('b'), neutral('r')],
        vec![neutral('b'), neutral('b'), owned('b', Player::Two)],
        vec![neutral('r'), neutral('b'), neutral('b')],
    ];
    let mut game = Game::from_cells(vec!['r', 'g', 'b'], cells, Player::One).unwrap();
    // (0, 2) and (2, 0) are 'r' and lie across the edges from (0, 0).
    game.make_move('r');
    assert_eq!(game.cell(0, 0), Some(owned('r', Player::One)));
    assert_eq!(game.cell(0, 2), Some(neutral('r')));
    assert_eq!(game.cell(2, 0), Some(neutral('r')));
}

#[test]
fn move_never_takes_a_cell_from_the_other_player() {
    let cells = vec![vec![owned('g', Player::One), owned('r', Player::Two), neutral('r')]];
    let mut game = Game::from_cells(vec!['r', 'g', 'b'], cells, Player::One).unwrap();
    game.make_move('r');
    assert_eq!(
        game.cells(),
        vec![vec![owned('r', Player::One), owned('r', Player::Two), neutral('r')]]
    );
}

#[test]
fn owners_stay_through_later_moves() {
    let mut game = three_by_three();
    let moves = ['r', 'g', 'b', 'r', 'g', 'b', 'r', 'g'];
    let mut seen = game.cells();
    for color in moves {
        game.make_move(color);
        let now = game.cells();
        for r in 0..3 {
            for c in 0..3 {
                if seen[r][c].owner.is_some() {
                    assert_eq!(now[r][c].owner, seen[r][c].owner);
                }
            }
        }
        seen = now;
    }
}

#[test]
fn playing_the_own_identity_colour_still_recolours_and_flips() {
    let cells = vec![
        vec![neutral('r'), owned('g', Player::Two)],
        vec![owned('r', Player::One), neutral('b')],
    ];
    let mut game = Game::from_cells(vec!['r', 'g', 'b'], cells, Player::One).unwrap();
    assert!(!game.is_valid_move('r'));
    game.make_move('r');
    assert_eq!(
        game.cells(),
        vec![
            vec![owned('r', Player::One), owned('g', Player::Two)],
            vec![owned('r', Player::One), neutral('b')],
        ]
    );
    assert_eq!(game.current_player(), Player::Two);
}

#[test]
fn move_with_a_colour_outside_the_palette_only_recolours() {
    let mut game = two_by_two();
    game.make_move('z');
    assert_eq!(
        game.cells(),
        vec![
            vec![neutral('r'), owned('g', Player::Two)],
            vec![owned('z', Player::One), neutral('g')],
        ]
    );
    assert_eq!(game.current_player(), Player::Two);
}

#[test]
fn player_two_moves_from_the_top_right() {
    let mut game = three_by_three();
    game.switch_player();
    game.make_move('g');
    assert_eq!(
        game.cells(),
        vec![
            vec![neutral('r'), owned('g', Player::Two), owned('g', Player::Two)],
            vec![neutral('g'), neutral('b'), neutral('r')],
            vec![owned('b', Player::One), neutral('r'), neutral('g')],
        ]
    );
    assert_eq!(game.current_player(), Player::One);
}

#[test]
fn switch_player_alternates_and_keeps_the_board() {
    let mut game = two_by_two();
    let before = game.cells();
    game.switch_player();
    assert_eq!(game.current_player(), Player::Two);
    assert_eq!(game.cells(), before);
    game.switch_player();
    assert_eq!(game.current_player(), Player::One);
    assert_eq!(game.cells(), before);
}

#[test]
fn adjacency_looks_at_the_four_neighbours_of_the_mover() {
    let game = two_by_two();
    assert!(game.is_adjacent_to_owned_cell(0, 0));
    assert!(game.is_adjacent_to_owned_cell(1, 1));
    assert!(!game.is_adjacent_to_owned_cell(0, 1));
    assert!(!game.is_adjacent_to_owned_cell(1, 0));
}

#[test]
fn adjacency_follows_the_player_to_move() {
    let mut game = three_by_three();
    assert!(game.is_adjacent_to_owned_cell(1, 0));
    assert!(game.is_adjacent_to_owned_cell(2, 1));
    assert!(!game.is_adjacent_to_owned_cell(0, 1));
    assert!(!game.is_adjacent_to_owned_cell(1, 2));
    assert!(!game.is_adjacent_to_owned_cell(1, 1));
    game.switch_player();
    assert!(!game.is_adjacent_to_owned_cell(1, 0));
    assert!(!game.is_adjacent_to_owned_cell(2, 1));
    assert!(game.is_adjacent_to_owned_cell(0, 1));
    assert!(game.is_adjacent_to_owned_cell(1, 2));
    assert!(!game.is_adjacent_to_owned_cell(1, 1));
}

#[test]
fn adjacency_does_not_wrap_around() {
    let game = three_by_three();
    // Player one owns (2, 0) only.
    assert!(!game.is_adjacent_to_owned_cell(2, 2));
    assert!(!game.is_adjacent_to_owned_cell(0, 0));
    assert!(!game.is_adjacent_to_owned_cell(usize::MAX, 0));
    assert!(!game.is_adjacent_to_owned_cell(2, usize::MAX));
    assert!(!game.is_adjacent_to_owned_cell(usize::MAX, usize::MAX));
}

#[test]
fn adjacency_of_a_position_just_outside_the_board() {
    let game = three_by_three();
    // (3, 0) is no cell, but the cell above it is player one's corner.
    assert!(game.is_adjacent_to_owned_cell(3, 0));
    assert!(!game.is_adjacent_to_owned_cell(3, 1));
    assert!(!game.is_adjacent_to_owned_cell(4, 0));
}

#[test]
fn clone_is_independent_of_the_game_it_came_from() {
    let game = three_by_three();
    let before = game.cells();
    let mut copy = game.clone();
    copy.make_move('r');
    assert_eq!(game.cells(), before);
    assert_eq!(game.current_player(), Player::One);
    assert_eq!(copy.current_player(), Player::Two);
    assert_eq!(copy.cell(2, 1), Some(owned('r', Player::One)));
    assert_eq!(game.cell(2, 1), Some(neutral('r')));
    assert_eq!(game.palette(), copy.palette());
}

#[test]
fn clone_equals_the_game_it_came_from() {
    let mut game = three_by_three();
    game.make_move('g');
    let copy = game.clone();
    assert_eq!(copy.cells(), game.cells());
    assert_eq!(copy.current_player(), game.current_player());
    assert_eq!(copy.palette(), game.palette());
    assert_eq!(copy.rows(), 3);
    assert_eq!(copy.cols(), 3);
}

#[test]
fn after_move_leaves_the_game_as_it_is() {
    let game = three_by_three();
    let before = game.cells();
    let next = game.after_move('r');
    assert_eq!(game.cells(), before);
    assert_eq!(game.current_player(), Player::One);
    let mut played = game.clone();
    played.make_move('r');
    assert_eq!(next.cells(), played.cells());
    assert_eq!(next.current_player(), Player::Two);
}

#[test]
fn try_move_plays_a_valid_colour() {
    let mut game = three_by_three();
    let expected = game.after_move('g');
    assert!(game.try_move('g'));
    assert_eq!(game.cells(), expected.cells());
    assert_eq!(game.current_player(), Player::Two);
}

#[test]
fn try_move_refuses_an_identity_colour() {
    let mut game = three_by_three();
    let before = game.cells();
    assert!(!game.try_move('b'));
    assert!(!game.try_move('k'));
    assert_eq!(game.cells(), before);
    assert_eq!(game.current_player(), Player::One);
}
