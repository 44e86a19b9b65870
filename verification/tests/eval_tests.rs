use knucklebones_ai::eval::DifficultyConfig;
use knucklebones_ai::eval::calculate_column_score;
use knucklebones_ai::eval::calculate_grid_score;
use knucklebones_ai::eval::calculate_move_score_gain;
use knucklebones_ai::eval::calculate_opponent_score_loss;
use knucklebones_ai::eval::evaluate_advanced;
use knucklebones_ai::eval::evaluate_basic;
use knucklebones_ai::eval::evaluate_move_quick;
use knucklebones_ai::grid::Grid;
use knucklebones_ai::state::GamePhase;
use knucklebones_ai::state::GameState;
use knucklebones_ai::state::Player;

fn grid_from(cols: [[u8; 3]; 3]) -> Grid {
    let mut g = Grid::new();
    for c in 0..3 {
        for r in 0..3 {
            if cols[c][r] != 0 {
                assert!(g.place_die(c, cols[c][r]));
            }
        }
    }
    g
}

fn cfg(offense: u32, defense: u32, advanced: bool) -> DifficultyConfig {
    DifficultyConfig {
        depth: 1,
        randomness: 0,
        offense_weight: offense,
        defense_weight: defense,
        advanced_eval: advanced,
        adversarial: false,
        time_budget_ms: 0,
    }
}

#[test]
fn column_score_rewards_stacks_quadratically() {
    // a single six: 6 * 1^2
    let g = grid_from([[6, 0, 0], [0; 3], [0; 3]]);
    assert_eq!(calculate_column_score(&g, 0), 6);
    // a pair of sixes: 6 * 2^2
    let g = grid_from([[6, 6, 0], [0; 3], [0; 3]]);
    assert_eq!(calculate_column_score(&g, 0), 24);
    // a triple of sixes: 6 * 3^2
    let g = grid_from([[6, 6, 6], [0; 3], [0; 3]]);
    assert_eq!(calculate_column_score(&g, 0), 54);
    // three distinct faces add up plainly
    let g = grid_from([[1, 2, 3], [0; 3], [0; 3]]);
    assert_eq!(calculate_column_score(&g, 0), 6);
}

#[test]
fn grid_score_sums_columns() {
    let g = grid_from([[6, 6, 0], [5, 0, 0], [1, 1, 1]]);
    assert_eq!(calculate_grid_score(&g), 24 + 5 + 9);
}

#[test]
fn move_gain_counts_the_new_stack() {
    // placing a 6 onto [6, 6, _]: 54 - 24 = 30
    let g = grid_from([[6, 6, 0], [0; 3], [0; 3]]);
    assert_eq!(calculate_move_score_gain(&g, 0, 6), 30);
    // placing a 6 into an empty column: 6
    assert_eq!(calculate_move_score_gain(&g, 1, 6), 6);
    // a full column gains nothing
    let g = grid_from([[1, 2, 3], [0; 3], [0; 3]]);
    assert_eq!(calculate_move_score_gain(&g, 0, 6), 0);
}

#[test]
fn opponent_loss_counts_matching_dice() {
    let g = grid_from([[4, 4, 0], [0; 3], [0; 3]]);
    // both fours leave: 4 * 2^2
    assert_eq!(calculate_opponent_score_loss(&g, 0, 4), 16);
    assert_eq!(calculate_opponent_score_loss(&g, 0, 5), 0);
}

#[test]
fn basic_evaluation_is_the_millipoint_score_difference() {
    let g1 = grid_from([[6, 0, 0], [0; 3], [0; 3]]);
    let g2 = grid_from([[1, 1, 0], [0; 3], [0; 3]]);
    let s = GameState {
        grid1: g1,
        grid2: g2,
        current_player: Player::Player1,
        current_die: None,
        phase: GamePhase::Rolling,
        turn_number: 1,
    };
    assert_eq!(evaluate_basic(&s, Player::Player1), (6 - 4) * 1000);
    assert_eq!(evaluate_basic(&s, Player::Player2), (4 - 6) * 1000);
}

#[test]
fn basic_evaluation_is_zero_sum() {
    let g1 = grid_from([[2, 3, 0], [5, 0, 0], [0; 3]]);
    let g2 = grid_from([[6, 6, 0], [0; 3], [1, 0, 0]]);
    let s = GameState {
        grid1: g1,
        grid2: g2,
        current_player: Player::Player2,
        current_die: Some(3),
        phase: GamePhase::Placing,
        turn_number: 4,
    };
    assert_eq!(
        evaluate_basic(&s, Player::Player1),
        -evaluate_basic(&s, Player::Player2)
    );
}

#[test]
fn advanced_evaluation_dominated_by_terminal_outcome() {
    let g1 = grid_from([[6, 6, 6], [5, 5, 5], [4, 4, 4]]);
    let g2 = grid_from([[1, 0, 0], [0; 3], [0; 3]]);
    let s = GameState {
        grid1: g1,
        grid2: g2,
        current_player: Player::Player1,
        current_die: Some(4),
        phase: GamePhase::Ended,
        turn_number: 9,
    };
    let c = cfg(500, 500, true);
    assert_eq!(evaluate_advanced(&s, Player::Player1, &c), 10_000_000);
    assert_eq!(evaluate_advanced(&s, Player::Player2, &c), -10_000_000);
}

#[test]
fn advanced_evaluation_terminal_tie_is_zero() {
    let g1 = grid_from([[6, 6, 6], [5, 5, 5], [4, 4, 4]]);
    let g2 = grid_from([[6, 6, 6], [5, 5, 5], [4, 4, 4]]);
    let s = GameState {
        grid1: g1,
        grid2: g2,
        current_player: Player::Player1,
        current_die: Some(4),
        phase: GamePhase::Ended,
        turn_number: 9,
    };
    let c = cfg(700, 300, true);
    assert_eq!(evaluate_advanced(&s, Player::Player1, &c), 0);
}

#[test]
fn advanced_evaluation_exact_on_a_small_position() {
    // grid1: one six in column 0; grid2 empty; player 1's view.
    let g1 = grid_from([[6, 0, 0], [0; 3], [0; 3]]);
    let g2 = Grid::new();
    let s = GameState {
        grid1: g1,
        grid2: g2,
        current_player: Player::Player1,
        current_die: None,
        phase: GamePhase::Rolling,
        turn_number: 1,
    };
    let c = cfg(500, 500, true);
    // base = 6 points weighted by 0.5 -> 3000 mp; no attack damage is
    // available on an empty opponent grid, and each of the three columns
    // exposes the six: defense 6 * 1 * 500 / 18 = 166 mp for column 0 only.
    let expected = 6 * 500 - 166;
    assert_eq!(evaluate_advanced(&s, Player::Player1, &c), expected);
}

#[test]
fn quick_heuristic_adds_gain_and_removal() {
    let g1 = grid_from([[6, 6, 0], [0; 3], [0; 3]]);
    let g2 = grid_from([[6, 0, 0], [0; 3], [0; 3]]);
    let s = GameState {
        grid1: g1,
        grid2: g2,
        current_player: Player::Player1,
        current_die: Some(6),
        phase: GamePhase::Placing,
        turn_number: 1,
    };
    // gain 30 in the own column plus the opponent's six (6 points) removed
    assert_eq!(evaluate_move_quick(&s, 0, 6, Player::Player1), 36);
}

#[test]
fn advanced_evaluation_mirrors_under_grid_exchange() {
    // evaluating for one player equals evaluating the exchanged grids for
    // the other player, with the same configuration
    let g1 = grid_from([[2, 3, 0], [5, 0, 0], [0; 3]]);
    let g2 = grid_from([[6, 6, 0], [0; 3], [1, 0, 0]]);
    let c = cfg(600, 400, true);
    let s = GameState {
        grid1: g1,
        grid2: g2,
        current_player: Player::Player1,
        current_die: None,
        phase: GamePhase::Rolling,
        turn_number: 1,
    };
    let mirrored = GameState {
        grid1: g2,
        grid2: g1,
        current_player: Player::Player2,
        current_die: None,
        phase: GamePhase::Rolling,
        turn_number: 1,
    };
    assert_eq!(
        evaluate_advanced(&s, Player::Player1, &c),
        evaluate_advanced(&mirrored, Player::Player2, &c)
    );
    assert_eq!(
        evaluate_advanced(&s, Player::Player2, &c),
        evaluate_advanced(&mirrored, Player::Player1, &c)
    );
}
