use knucklebones_ai::engine::AIEngine;
use knucklebones_ai::net::NET_WEIGHT_COUNT;

#[test]
fn weight_count_matches_the_topology() {
    // 128*43 + 128 + 3*128 + 3 + 128 + 1
    assert_eq!(NET_WEIGHT_COUNT, 6148);
}

#[test]
fn short_weight_vector_is_rejected_without_initializing() {
    let mut eng = AIEngine::new();
    assert!(!eng.is_initialized());
    let w = vec![0i64; NET_WEIGHT_COUNT - 1];
    assert!(!eng.load_weights(&w));
    assert!(!eng.is_initialized());
}

#[test]
fn long_weight_vector_is_rejected_too() {
    let mut eng = AIEngine::new();
    let w = vec![0i64; NET_WEIGHT_COUNT + 1];
    assert!(!eng.load_weights(&w));
    assert!(!eng.is_initialized());
}

#[test]
fn exact_weight_vector_initializes() {
    let mut eng = AIEngine::new();
    let w = vec![1i64; NET_WEIGHT_COUNT];
    assert!(eng.load_weights(&w));
    assert!(eng.is_initialized());
}

#[test]
fn predict_returns_a_permille_distribution() {
    let mut eng = AIEngine::new();
    let w = vec![5i64; NET_WEIGHT_COUNT];
    assert!(eng.load_weights(&w));
    let grid1 = [6u8, 2, 0, 3, 0, 0, 5, 5, 0];
    let grid2 = [1u8, 0, 0, 4, 4, 0, 2, 0, 0];
    let (policy, value) = eng.predict(&grid1, &grid2, 0, 4);
    assert_eq!(policy.len(), 3);
    assert_eq!(policy[0] + policy[1] + policy[2], 1000);
    for p in &policy {
        assert!(*p >= 0 && *p <= 1000);
    }
    assert!(value >= -1000 && value <= 1000);
}

#[test]
fn mcts_single_open_column_comes_straight_back() {
    // with one open column the engine answers before any simulation can
    // influence the choice; a zero budget would otherwise run the fixed
    // simulation count
    let mut eng = AIEngine::new();
    let grid1 = [1u8, 2, 3, 4, 5, 6, 2, 2, 0];
    let empty = [0u8; 9];
    assert_eq!(eng.get_mcts_move(&grid1, &empty, 0, 4, 0, false), 2);
    assert_eq!(eng.get_mcts_move(&grid1, &empty, 0, 4, 0, true), 2);
}

#[test]
fn mcts_returns_a_legal_column() {
    let mut eng = AIEngine::new();
    let grid1 = [6u8, 2, 0, 3, 0, 0, 5, 5, 0];
    let grid2 = [1u8, 0, 0, 4, 4, 0, 2, 0, 0];
    let r = eng.get_mcts_move(&grid1, &grid2, 0, 5, 0, false);
    assert!(r == 0 || r == 1 || r == 2);
}

#[test]
fn mcts_with_network_returns_a_legal_column() {
    let mut eng = AIEngine::new();
    let w = vec![3i64; NET_WEIGHT_COUNT];
    assert!(eng.load_weights(&w));
    let grid1 = [6u8, 2, 0, 3, 0, 0, 5, 5, 0];
    let grid2 = [1u8, 0, 0, 4, 4, 0, 2, 0, 0];
    let r = eng.get_mcts_move(&grid1, &grid2, 1, 3, 0, true);
    assert!(r == 0 || r == 1 || r == 2);
}

#[test]
fn mcts_sentinels_match_the_other_engines() {
    let mut eng = AIEngine::new();
    let empty = [0u8; 9];
    let full = [1u8, 2, 3, 4, 5, 6, 1, 2, 3];
    assert_eq!(eng.get_mcts_move(&empty, &empty, 0, 0, 0, false), -1);
    assert_eq!(eng.get_mcts_move(&full, &empty, 0, 4, 0, false), -1);
}

#[test]
fn mcts_prefers_the_big_removal() {
    // the opponent stacks a pair of sixes in column 0; dropping the six
    // there wipes 24 points and turns the evaluation around, while any
    // other column leaves the mover far behind — the visit counts should
    // concentrate on column 0
    let mut eng = AIEngine::new();
    let grid1 = [0u8; 9];
    let grid2 = [6u8, 6, 0, 0, 0, 0, 0, 0, 0];
    let r = eng.get_mcts_move(&grid1, &grid2, 0, 6, 0, false);
    assert_eq!(r, 0);
}
