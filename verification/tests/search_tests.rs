use knucklebones_ai::engine::AIEngine;
use knucklebones_ai::engine::decode_state;
use knucklebones_ai::eval::DifficultyConfig;
use knucklebones_ai::rng::Rng;
use knucklebones_ai::search::SearchContext;
use knucklebones_ai::search::chance_node;
use knucklebones_ai::search::max_node;
use knucklebones_ai::state::Player;

fn cfg(depth: u32, randomness: u32) -> DifficultyConfig {
    DifficultyConfig {
        depth,
        randomness,
        offense_weight: 500,
        defense_weight: 500,
        advanced_eval: true,
        adversarial: false,
        time_budget_ms: 0,
    }
}

#[test]
fn greedy_on_empty_boards_picks_first_column() {
    // all columns tie at a gain of 6, so the earliest column wins
    let mut eng = AIEngine::new();
    let empty = [0u8; 9];
    let r = eng.get_best_move(&empty, &empty, 0, 6, &cfg(0, 0), &cfg(0, 0));
    assert_eq!(r, 0);
}

#[test]
fn greedy_prefers_completing_the_stack() {
    // column 0 holds two sixes: placing the third six there gains 30
    // against 6 anywhere else
    let mut eng = AIEngine::new();
    let grid1 = [6, 6, 0, 0, 0, 0, 0, 0, 0];
    let empty = [0u8; 9];
    let r = eng.get_best_move(&grid1, &empty, 0, 6, &cfg(0, 0), &cfg(0, 0));
    assert_eq!(r, 0);
}

#[test]
fn no_die_gives_the_sentinel() {
    let mut eng = AIEngine::new();
    let empty = [0u8; 9];
    assert_eq!(eng.get_best_move(&empty, &empty, 0, 0, &cfg(2, 0), &cfg(0, 0)), -1);
    assert_eq!(eng.get_best_move(&empty, &empty, 0, 9, &cfg(2, 0), &cfg(0, 0)), -1);
}

#[test]
fn full_grid_gives_the_sentinel() {
    let mut eng = AIEngine::new();
    let full = [1u8, 2, 3, 4, 5, 6, 1, 2, 3];
    let empty = [0u8; 9];
    assert_eq!(eng.get_best_move(&full, &empty, 0, 4, &cfg(2, 0), &cfg(0, 0)), -1);
}

#[test]
fn single_open_column_comes_straight_back() {
    let mut eng = AIEngine::new();
    let grid1 = [1u8, 2, 3, 4, 5, 6, 2, 2, 0];
    let empty = [0u8; 9];
    assert_eq!(eng.get_best_move(&grid1, &empty, 0, 4, &cfg(3, 0), &cfg(0, 0)), 2);
}

#[test]
fn search_is_deterministic_without_randomness() {
    // two engines, same position and configuration, no time budget:
    // the chosen column must agree call for call
    let grid1 = [6, 2, 0, 3, 0, 0, 5, 5, 0];
    let grid2 = [1, 0, 0, 4, 4, 0, 2, 0, 0];
    let pc = cfg(3, 0);
    let oc = cfg(2, 0);
    let mut a = AIEngine::new();
    let mut b = AIEngine::new();
    let ra = a.get_best_move(&grid1, &grid2, 0, 5, &pc, &oc);
    let rb = b.get_best_move(&grid1, &grid2, 0, 5, &pc, &oc);
    assert_eq!(ra, rb);
    let ra2 = a.get_best_move(&grid1, &grid2, 1, 3, &pc, &oc);
    let rb2 = b.get_best_move(&grid1, &grid2, 1, 3, &pc, &oc);
    assert_eq!(ra2, rb2);
}

#[test]
fn clearing_the_cache_does_not_change_the_choice() {
    // a fresh search and a search after an explicit clear agree: the
    // transposition table only speeds things up
    let grid1 = [6, 2, 0, 3, 0, 0, 5, 5, 0];
    let grid2 = [1, 0, 0, 4, 4, 0, 2, 0, 0];
    let pc = cfg(3, 0);
    let oc = cfg(2, 0);
    let mut eng = AIEngine::new();
    let first = eng.get_best_move(&grid1, &grid2, 0, 5, &pc, &oc);
    eng.clear_cache();
    let second = eng.get_best_move(&grid1, &grid2, 0, 5, &pc, &oc);
    eng.clear_cache();
    let third = eng.get_best_move(&grid1, &grid2, 0, 5, &pc, &oc);
    assert_eq!(first, second);
    assert_eq!(second, third);
}

#[test]
fn adversarial_mode_returns_a_legal_column() {
    let grid1 = [6, 2, 0, 3, 0, 0, 5, 5, 0];
    let grid2 = [1, 0, 0, 4, 4, 0, 2, 0, 0];
    let mut pc = cfg(3, 0);
    pc.adversarial = true;
    let oc = cfg(2, 0);
    let mut eng = AIEngine::new();
    let r = eng.get_best_move(&grid1, &grid2, 0, 5, &pc, &oc);
    assert!(r == 0 || r == 1 || r == 2);
}

#[test]
fn time_bounded_search_returns_a_legal_column() {
    let grid1 = [6, 2, 0, 3, 0, 0, 5, 5, 0];
    let grid2 = [1, 0, 0, 4, 4, 0, 2, 0, 0];
    let mut pc = cfg(6, 0);
    pc.time_budget_ms = 50;
    let oc = cfg(2, 0);
    let mut eng = AIEngine::new();
    let r = eng.get_best_move(&grid1, &grid2, 0, 5, &pc, &oc);
    assert!(r == 0 || r == 1 || r == 2);
}

#[test]
fn oversized_and_short_host_arrays_are_tolerated() {
    let mut eng = AIEngine::new();
    // short array: missing cells count as empty
    let short = [6u8, 6];
    let long = [1u8, 2, 3, 4, 5, 6, 1, 2, 3, 9, 9, 9];
    let r = eng.get_best_move(&short, &long, 0, 6, &cfg(0, 0), &cfg(0, 0));
    assert_eq!(r, 0);
    // out-of-range cell values are treated as empty
    let junk = [200u8, 0, 0, 0, 0, 0, 0, 0, 0];
    let empty = [0u8; 9];
    let r2 = eng.get_best_move(&junk, &empty, 0, 6, &cfg(0, 0), &cfg(0, 0));
    assert_eq!(r2, 0);
}

#[test]
fn full_randomness_still_plays_a_legal_column() {
    let mut eng = AIEngine::new();
    let grid1 = [6u8, 2, 0, 3, 0, 0, 5, 5, 0];
    let grid2 = [0u8; 9];
    let mut pc = cfg(2, 1000);
    pc.randomness = 1000;
    let r = eng.get_best_move(&grid1, &grid2, 0, 4, &pc, &cfg(0, 0));
    assert!(r == 0 || r == 1 || r == 2);
}

#[test]
fn seeded_engines_replay_identically() {
    let grid1 = [6u8, 2, 0, 3, 0, 0, 5, 5, 0];
    let grid2 = [1u8, 0, 0, 4, 4, 0, 2, 0, 0];
    let pc = cfg(1, 800);
    let oc = cfg(1, 500);
    let mut a = AIEngine::new_with_seed(42);
    let mut b = AIEngine::new_with_seed(42);
    for die in 1..=6u8 {
        assert_eq!(
            a.get_best_move(&grid1, &grid2, 0, die, &pc, &oc),
            b.get_best_move(&grid1, &grid2, 0, die, &pc, &oc)
        );
    }
}

#[test]
fn depth_one_max_node_backs_up_the_best_child() {
    // basic evaluation, no randomness: completing the six-stack is worth
    // 54 points; the other columns reach 30. The depth-1 value is the
    // six-fold truncated sixth of the child evaluation: 54000 millipoints.
    let grid1 = [6u8, 6, 0, 0, 0, 0, 0, 0, 0];
    let grid2 = [0u8; 9];
    let state = decode_state(&grid1, &grid2, 0, 6);
    let mut pc = cfg(1, 0);
    pc.advanced_eval = false;
    let oc = cfg(0, 0);
    let mut ctx = SearchContext::new();
    let mut rng = Rng::new(7);
    let v = max_node(
        &state,
        1,
        Player::Player1,
        &pc,
        &oc,
        &mut ctx,
        &mut rng,
    );
    assert_eq!(v, 54_000);
}

#[test]
fn depth_zero_chance_node_averages_the_six_rolls() {
    // a rolling-phase state: every roll evaluates alike, so the chance
    // node returns six times the truncated sixth of the evaluation.
    // grid1 holds one five: basic evaluation 5000 millipoints, and
    // 6 * (5000 / 6) = 4998.
    let grid1 = [5u8, 0, 0, 0, 0, 0, 0, 0, 0];
    let grid2 = [0u8; 9];
    let state = decode_state(&grid1, &grid2, 0, 0);
    let mut pc = cfg(1, 0);
    pc.advanced_eval = false;
    let oc = cfg(0, 0);
    let mut ctx = SearchContext::new();
    let mut rng = Rng::new(7);
    let v = chance_node(
        &state,
        0,
        Player::Player1,
        &pc,
        &oc,
        &mut ctx,
        &mut rng,
    );
    assert_eq!(v, 4_998);
}
