use knucklebones_ai::engine::AIEngine;
use knucklebones_ai::profile::OpponentProfile;

#[test]
fn counters_accumulate_per_move() {
    let mut p = OpponentProfile::new();
    p.record_move(0, 6, 1, 24);
    p.record_move(0, 2, 0, 0);
    p.record_move(2, 5, 2, 10);
    assert_eq!(p.get_total_moves(), 3);
    assert_eq!(p.get_games_completed(), 0);
    p.end_game();
    assert_eq!(p.get_games_completed(), 1);
}

#[test]
fn out_of_range_moves_are_ignored() {
    let mut p = OpponentProfile::new();
    p.record_move(3, 4, 0, 0);
    p.record_move(0, 0, 0, 0);
    p.record_move(0, 7, 0, 0);
    assert_eq!(p.get_total_moves(), 0);
    assert_eq!(p.get_attack_rate(), 0);
}

#[test]
fn attack_rate_is_permille_of_attacking_moves() {
    let mut p = OpponentProfile::new();
    p.record_move(0, 3, 1, 3);
    p.record_move(1, 3, 0, 0);
    p.record_move(2, 3, 0, 0);
    p.record_move(0, 3, 0, 0);
    // 1 of 4 moves attacked
    assert_eq!(p.get_attack_rate(), 250);
}

#[test]
fn column_frequency_defaults_to_uniform() {
    let p = OpponentProfile::new();
    assert_eq!(p.get_column_frequency(0), 333);
    assert_eq!(p.get_column_frequency(3), 0);
    let mut q = OpponentProfile::new();
    q.record_move(1, 4, 0, 0);
    q.record_move(1, 4, 0, 0);
    q.record_move(2, 4, 0, 0);
    assert_eq!(q.get_column_frequency(1), 666);
    assert_eq!(q.get_column_frequency(2), 333);
    assert_eq!(q.get_column_frequency(0), 0);
}

#[test]
fn adaptation_needs_enough_data() {
    let mut p = OpponentProfile::new();
    for _ in 0..9 {
        p.record_move(0, 6, 1, 6);
    }
    p.end_game();
    p.end_game();
    p.end_game();
    // only 9 moves: the balanced default stands
    let c = p.get_adaptive_config();
    assert_eq!(c.offense_weight, 500);
    assert_eq!(c.defense_weight, 500);
}

#[test]
fn always_attacking_opponent_raises_defense() {
    // at least 10 moves over at least 3 games, every one an attack
    let mut p = OpponentProfile::new();
    for game in 0..3 {
        for m in 0..4 {
            p.record_move(((game + m) % 3) as u8, 6, 1, 6);
        }
        p.end_game();
    }
    assert_eq!(p.get_total_moves(), 12);
    assert!(p.get_attack_rate() > 400);
    let c = p.get_adaptive_config();
    assert!(c.defense_weight > 500);
    assert_eq!(c.offense_weight + c.defense_weight, 1000);
    // a full 1000 permille attack rate lands at 900 defense
    assert_eq!(c.defense_weight, 900);
}

#[test]
fn passive_opponent_tilts_offense() {
    let mut p = OpponentProfile::new();
    for i in 0..12 {
        p.record_move((i % 3) as u8, 3, 0, 0);
    }
    p.end_game();
    p.end_game();
    p.end_game();
    let c = p.get_adaptive_config();
    assert_eq!(c.offense_weight, 700);
    assert_eq!(c.defense_weight, 300);
}

#[test]
fn reset_forgets_everything() {
    let mut p = OpponentProfile::new();
    p.record_move(0, 6, 1, 24);
    p.end_game();
    p.reset();
    assert_eq!(p.get_total_moves(), 0);
    assert_eq!(p.get_games_completed(), 0);
    assert_eq!(p.get_column_frequency(0), 333);
}

#[test]
fn attack_bonus_favors_frequented_high_dice_columns() {
    let mut p = OpponentProfile::new();
    for _ in 0..10 {
        p.record_move(1, 6, 0, 0);
    }
    // all use and all high dice in column 1: frequency 1000, ratio 1000
    let b1 = p.get_column_attack_bonus(1);
    let b0 = p.get_column_attack_bonus(0);
    assert_eq!(b1, (1000 - 333) * 3 + (1000 - 333) * 5);
    assert_eq!(b0, (0 - 333) * 3 + (0 - 333) * 5);
    assert!(b1 > b0);
}

#[test]
fn master_move_returns_a_legal_column() {
    let mut p = OpponentProfile::new();
    for game in 0..3 {
        for m in 0..4 {
            p.record_move(((game + m) % 3) as u8, 6, 1, 6);
        }
        p.end_game();
    }
    let mut eng = AIEngine::new();
    let grid1 = [6u8, 2, 0, 3, 0, 0, 5, 5, 0];
    let grid2 = [1u8, 0, 0, 4, 4, 0, 2, 0, 0];
    let r = eng.get_master_move(&grid1, &grid2, 0, 5, &p);
    assert!(r == 0 || r == 1 || r == 2);
    let full = [1u8, 2, 3, 4, 5, 6, 1, 2, 3];
    assert_eq!(eng.get_master_move(&full, &grid2, 0, 5, &p), -1);
    assert_eq!(eng.get_master_move(&grid1, &grid2, 0, 0, &p), -1);
}
