use knucklebones_ai::grid::Grid;
use knucklebones_ai::state::ColumnIndex;
use knucklebones_ai::state::DieValue;
use knucklebones_ai::state::GamePhase;
use knucklebones_ai::state::GameState;
use knucklebones_ai::state::Player;
use knucklebones_ai::state::apply_move;
use knucklebones_ai::state::legal_columns;
use knucklebones_ai::state::roll_die;

fn grid_from(cols: [[u8; 3]; 3]) -> Grid {
    let mut g = Grid::new();
    for c in 0..3 {
        for r in 0..3 {
            if cols[c][r] != 0 {
                assert!(g.place_die(c, cols[c][r]));
            }
        }
    }
    g
}

#[test]
fn place_fills_lowest_empty_row() {
    let mut g = Grid::new();
    assert!(g.place_die(1, 4));
    assert_eq!(g.get(1, 0), 4);
    assert_eq!(g.get(1, 1), 0);
    assert!(g.place_die(1, 2));
    assert_eq!(g.get(1, 1), 2);
    assert!(g.place_die(1, 6));
    assert_eq!(g.get(1, 2), 6);
    assert!(!g.place_die(1, 5));
    assert_eq!(g.get(1, 0), 4);
    assert_eq!(g.get(1, 1), 2);
    assert_eq!(g.get(1, 2), 6);
}

#[test]
fn remove_matching_compacts_downward() {
    let mut g = grid_from([[3, 5, 3], [0; 3], [0; 3]]);
    let removed = g.remove_matching(0, 3);
    assert_eq!(removed, 2);
    assert_eq!(g.get(0, 0), 5);
    assert_eq!(g.get(0, 1), 0);
    assert_eq!(g.get(0, 2), 0);
}

#[test]
fn remove_matching_keeps_survivor_order() {
    let mut g = grid_from([[2, 4, 6], [0; 3], [0; 3]]);
    let removed = g.remove_matching(0, 4);
    assert_eq!(removed, 1);
    assert_eq!(g.get(0, 0), 2);
    assert_eq!(g.get(0, 1), 6);
    assert_eq!(g.get(0, 2), 0);
}

#[test]
fn remove_matching_without_match_changes_nothing() {
    let mut g = grid_from([[1, 2, 0], [0; 3], [0; 3]]);
    let removed = g.remove_matching(0, 6);
    assert_eq!(removed, 0);
    assert_eq!(g.get(0, 0), 1);
    assert_eq!(g.get(0, 1), 2);
    assert_eq!(g.get(0, 2), 0);
}

#[test]
fn no_gap_after_many_places_and_removals() {
    let mut g = Grid::new();
    assert!(g.place_die(2, 5));
    assert!(g.place_die(2, 1));
    assert!(g.place_die(2, 5));
    assert_eq!(g.remove_matching(2, 5), 2);
    // the survivor sits at the bottom; the cells above are empty
    assert_eq!(g.get(2, 0), 1);
    assert_eq!(g.get(2, 1), 0);
    assert_eq!(g.get(2, 2), 0);
    assert!(g.place_die(2, 3));
    assert_eq!(g.get(2, 1), 3);
}

#[test]
fn is_full_only_when_all_nine_cells_occupied() {
    let mut g = grid_from([[1, 1, 1], [2, 2, 2], [3, 3, 0]]);
    assert!(!g.is_full());
    assert!(g.place_die(2, 3));
    assert!(g.is_full());
}

fn state_with(grid1: Grid, grid2: Grid, die: u8) -> GameState {
    GameState {
        grid1,
        grid2,
        current_player: Player::Player1,
        current_die: Some(die),
        phase: GamePhase::Placing,
        turn_number: 1,
    }
}

#[test]
fn apply_move_attacks_and_passes_turn() {
    let g1 = Grid::new();
    let g2 = grid_from([[4, 4, 0], [0; 3], [0; 3]]);
    let s = state_with(g1, g2, 4);
    let s2 = apply_move(&s, 0).expect("legal move");
    // the die landed in the mover's column
    assert_eq!(s2.grid1.get(0, 0), 4);
    // both matching dice left the opponent's column
    assert_eq!(s2.grid2.get(0, 0), 0);
    assert_eq!(s2.grid2.get(0, 1), 0);
    assert_eq!(s2.phase, GamePhase::Rolling);
    assert_eq!(s2.current_player, Player::Player2);
    assert_eq!(s2.current_die, None);
    assert_eq!(s2.turn_number, 2);
}

#[test]
fn apply_move_on_full_column_is_refused() {
    let g1 = grid_from([[1, 2, 3], [0; 3], [0; 3]]);
    let s = state_with(g1, Grid::new(), 5);
    assert!(apply_move(&s, 0).is_none());
}

#[test]
fn filling_own_grid_ends_the_game_at_once() {
    // the mover's grid lacks one die; the opponent grid is nearly empty
    let g1 = grid_from([[1, 1, 1], [2, 2, 2], [3, 3, 0]]);
    let g2 = grid_from([[5, 0, 0], [0; 3], [0; 3]]);
    let s = state_with(g1, g2, 4);
    let s2 = apply_move(&s, 2).expect("legal move");
    assert_eq!(s2.phase, GamePhase::Ended);
    // the game stops immediately: no turn hand-over
    assert_eq!(s2.current_player, Player::Player1);
    assert_eq!(s2.turn_number, 1);
}

#[test]
fn terminal_placement_still_attacks() {
    let g1 = grid_from([[1, 1, 1], [2, 2, 2], [3, 3, 0]]);
    let g2 = grid_from([[0; 3], [0; 3], [4, 4, 0]]);
    let s = state_with(g1, g2, 4);
    let s2 = apply_move(&s, 2).expect("legal move");
    assert_eq!(s2.phase, GamePhase::Ended);
    assert_eq!(s2.grid2.get(2, 0), 0);
    assert_eq!(s2.grid2.get(2, 1), 0);
}

#[test]
fn roll_die_sets_face_and_phase() {
    let s = GameState {
        grid1: Grid::new(),
        grid2: Grid::new(),
        current_player: Player::Player2,
        current_die: None,
        phase: GamePhase::Rolling,
        turn_number: 7,
    };
    let s2 = roll_die(&s, 3);
    assert_eq!(s2.current_die, Some(3));
    assert_eq!(s2.phase, GamePhase::Placing);
    assert_eq!(s2.current_player, Player::Player2);
    assert_eq!(s2.turn_number, 7);
}

#[test]
fn legal_columns_lists_open_columns_ascending() {
    let g1 = grid_from([[1, 2, 3], [0; 3], [4, 0, 0]]);
    let s = state_with(g1, Grid::new(), 1);
    let legal = legal_columns(&s);
    assert_eq!(legal, vec![1, 2]);
}

#[test]
fn enum_accessors_report_their_values() {
    assert_eq!(DieValue::One.face(), 1);
    assert_eq!(DieValue::Six.face(), 6);
    assert_eq!(ColumnIndex::Zero.index(), 0);
    assert_eq!(ColumnIndex::Two.index(), 2);
    assert_eq!(Player::Player1.other(), Player::Player2);
    assert_eq!(Player::Player2.other(), Player::Player1);
}
