use vstd::prelude::*;

use crate::grid::Grid;
use crate::grid::col_full;
use crate::grid::col_seq;
use crate::state::GamePhase;
use crate::state::GameState;
use crate::state::Player;

verus! {

/// Evaluation of a won (lost) terminal position, in millipoints.
pub const WIN_MP: i64 = 10_000_000;

/// Every evaluation lies within this bound (millipoints).
pub const MAX_EVAL_MP: i64 = 10_000_000;

/// Per-side search parameters. Weights and the randomness probability are
/// permille values: 0..=1000 standing for 0.0..=1.0.
#[derive(Clone, Copy, Debug)]
pub struct DifficultyConfig {
    /// Search depth in plies; 0 selects the greedy move.
    pub depth: u32,
    /// Probability (permille) of playing a uniformly random legal column.
    pub randomness: u32,
    /// Weight (permille) of offensive terms in advanced evaluation.
    pub offense_weight: u32,
    /// Weight (permille) of defensive terms in advanced evaluation.
    pub defense_weight: u32,
    /// Use the advanced positional evaluation instead of the basic one.
    pub advanced_eval: bool,
    /// Model the opponent as a true minimizer instead of predicting their
    /// move from their own configuration.
    pub adversarial: bool,
    /// Wall-clock budget for iterative deepening; 0 means a single
    /// fixed-depth search.
    pub time_budget_ms: u64,
}

impl DifficultyConfig {
    /// All permille parameters are within 0..=1000.
    pub open spec fn valid(self) -> bool {
        &&& self.randomness <= 1000
        &&& self.offense_weight <= 1000
        &&& self.defense_weight <= 1000
    }
}

/// How many cells of a three-cell column hold face `f`.
pub open spec fn face_count(col: Seq<u8>, f: u8) -> int
    recommends
        col.len() == 3,
{
    (if col[0] == f {
        1int
    } else {
        0int
    }) + (if col[1] == f {
        1int
    } else {
        0int
    }) + (if col[2] == f {
        1int
    } else {
        0int
    })
}

/// Score of one column, in points: each face present `v` times contributes
/// `face * v^2`, so stacking a face is rewarded quadratically.
pub open spec fn col_score(col: Seq<u8>) -> int
    recommends
        col.len() == 3,
{
    1 * face_count(col, 1) * face_count(col, 1) + 2 * face_count(col, 2) * face_count(col, 2) + 3
        * face_count(col, 3) * face_count(col, 3) + 4 * face_count(col, 4) * face_count(col, 4) + 5
        * face_count(col, 5) * face_count(col, 5) + 6 * face_count(col, 6) * face_count(col, 6)
}

/// Score of a whole grid, in points: the sum of its three column scores.
pub open spec fn grid_score(s: Seq<u8>) -> int
    recommends
        s.len() == 9,
{
    col_score(col_seq(s, 0)) + col_score(col_seq(s, 1)) + col_score(col_seq(s, 2))
}

/// A column holds at most three dice, so its score is at most `6 * 3^2`.
pub proof fn lemma_col_score_bound(col: Seq<u8>)
    requires
        col.len() == 3,
    ensures
        0 <= col_score(col) <= 54,
{
    let c1 = face_count(col, 1);
    let c2 = face_count(col, 2);
    let c3 = face_count(col, 3);
    let c4 = face_count(col, 4);
    let c5 = face_count(col, 5);
    let c6 = face_count(col, 6);
    assert(c1 + c2 + c3 + c4 + c5 + c6 <= 3);
    assert(0 <= c1 && 0 <= c2 && 0 <= c3 && 0 <= c4 && 0 <= c5 && 0 <= c6);
    assert(1 * c1 * c1 + 2 * c2 * c2 + 3 * c3 * c3 + 4 * c4 * c4 + 5 * c5 * c5 + 6 * c6 * c6
        <= 54) by (nonlinear_arith)
        requires
            0 <= c1 && 0 <= c2 && 0 <= c3 && 0 <= c4 && 0 <= c5 && 0 <= c6,
            c1 + c2 + c3 + c4 + c5 + c6 <= 3,
    ;
    assert(0 <= 1 * c1 * c1 + 2 * c2 * c2 + 3 * c3 * c3 + 4 * c4 * c4 + 5 * c5 * c5 + 6 * c6 * c6)
        by (nonlinear_arith)
        requires
            0 <= c1 && 0 <= c2 && 0 <= c3 && 0 <= c4 && 0 <= c5 && 0 <= c6,
    ;
}

/// How many cells of a three-cell column hold face `f`.
fn count_face3(v0: u8, v1: u8, v2: u8, f: u8) -> (r: u32)
    ensures
        r as int == face_count(seq![v0, v1, v2], f),
        r <= 3,
{
    let mut r: u32 = 0;
    if v0 == f {
        r = r + 1;
    }
    if v1 == f {
        r = r + 1;
    }
    if v2 == f {
        r = r + 1;
    }
    proof {
        assert(seq![v0, v1, v2][0] == v0);
        assert(seq![v0, v1, v2][1] == v1);
        assert(seq![v0, v1, v2][2] == v2);
    }
    r
}

/// Score of the column made of the three given cells, in points.
fn score3(v0: u8, v1: u8, v2: u8) -> (r: i32)
    ensures
        r as int == col_score(seq![v0, v1, v2]),
        0 <= r <= 54,
{
    proof {
        lemma_col_score_bound(seq![v0, v1, v2]);
    }
    let c1 = count_face3(v0, v1, v2, 1) as i32;
    let c2 = count_face3(v0, v1, v2, 2) as i32;
    let c3 = count_face3(v0, v1, v2, 3) as i32;
    let c4 = count_face3(v0, v1, v2, 4) as i32;
    let c5 = count_face3(v0, v1, v2, 5) as i32;
    let c6 = count_face3(v0, v1, v2, 6) as i32;
    1 * c1 * c1 + 2 * c2 * c2 + 3 * c3 * c3 + 4 * c4 * c4 + 5 * c5 * c5 + 6 * c6 * c6
}

/// Score of one column of a grid, in points.
pub fn calculate_column_score(grid: &Grid, col: usize) -> (r: i32)
    requires
        col < 3,
        grid@.len() == 9,
    ensures
        r as int == col_score(col_seq(grid@, col as int)),
        0 <= r <= 54,
{
    let v0 = grid.get(col, 0);
    let v1 = grid.get(col, 1);
    let v2 = grid.get(col, 2);
    proof {
        assert(col_seq(grid@, col as int) =~= seq![v0, v1, v2]);
    }
    score3(v0, v1, v2)
}

/// Score of a whole grid, in points.
pub fn calculate_grid_score(grid: &Grid) -> (r: i32)
    requires
        grid@.len() == 9,
    ensures
        r as int == grid_score(grid@),
        0 <= r <= 162,
{
    let s0 = calculate_column_score(grid, 0);
    let s1 = calculate_column_score(grid, 1);
    let s2 = calculate_column_score(grid, 2);
    s0 + s1 + s2
}

/// One column after dropping face `v` onto its lowest empty cell (unchanged
/// when the column is full).
pub open spec fn place_col3(col: Seq<u8>, v: u8) -> Seq<u8>
    recommends
        col.len() == 3,
{
    if col[0] == 0 {
        col.update(0, v)
    } else if col[1] == 0 {
        col.update(1, v)
    } else if col[2] == 0 {
        col.update(2, v)
    } else {
        col
    }
}

/// Points gained by dropping face `v` into the column: the score of the
/// column with the die placed, minus its score now.
pub open spec fn move_gain(col: Seq<u8>, v: u8) -> int
    recommends
        col.len() == 3,
{
    col_score(place_col3(col, v)) - col_score(col)
}

/// One column with every cell of face `v` blanked out. Scores ignore cell
/// positions, so this has the same score as the compacted column.
pub open spec fn masked_col(col: Seq<u8>, v: u8) -> Seq<u8>
    recommends
        col.len() == 3,
{
    seq![
        if col[0] == v {
            0u8
        } else {
            col[0]
        },
        if col[1] == v {
            0u8
        } else {
            col[1]
        },
        if col[2] == v {
            0u8
        } else {
            col[2]
        },
    ]
}

/// Points the column's owner loses when every die of face `v` is removed
/// from it: its score now minus its score without the matching dice.
pub open spec fn opp_loss(col: Seq<u8>, v: u8) -> int
    recommends
        col.len() == 3,
        1 <= v <= 6,
{
    col_score(col) - col_score(masked_col(col, v))
}

/// A quadratic score term grows with its count.
proof fn lemma_square_term_le(f: int, b: int, a: int)
    requires
        0 <= f,
        0 <= b <= a,
    ensures
        f * b * b <= f * a * a,
{
    assert(f * b * b <= f * a * a) by (nonlinear_arith)
        requires
            0 <= f,
            0 <= b <= a,
    ;
}

/// Removing dice from a column never raises its score.
pub proof fn lemma_opp_loss_bound(col: Seq<u8>, v: u8)
    requires
        col.len() == 3,
        1 <= v <= 6,
    ensures
        0 <= opp_loss(col, v) <= 54,
{
    let m = masked_col(col, v);
    let a1 = face_count(col, 1);
    let a2 = face_count(col, 2);
    let a3 = face_count(col, 3);
    let a4 = face_count(col, 4);
    let a5 = face_count(col, 5);
    let a6 = face_count(col, 6);
    let b1 = face_count(m, 1);
    let b2 = face_count(m, 2);
    let b3 = face_count(m, 3);
    let b4 = face_count(m, 4);
    let b5 = face_count(m, 5);
    let b6 = face_count(m, 6);
    assert(0 <= b1 <= a1);
    assert(0 <= b2 <= a2);
    assert(0 <= b3 <= a3);
    assert(0 <= b4 <= a4);
    assert(0 <= b5 <= a5);
    assert(0 <= b6 <= a6);
    lemma_square_term_le(1, b1, a1);
    lemma_square_term_le(2, b2, a2);
    lemma_square_term_le(3, b3, a3);
    lemma_square_term_le(4, b4, a4);
    lemma_square_term_le(5, b5, a5);
    lemma_square_term_le(6, b6, a6);
    lemma_col_score_bound(col);
    lemma_col_score_bound(m);
}

/// Points gained in the mover's own column by dropping `die_value` there.
pub fn calculate_move_score_gain(grid: &Grid, col: usize, die_value: u8) -> (r: i32)
    requires
        col < 3,
        grid@.len() == 9,
    ensures
        r as int == move_gain(col_seq(grid@, col as int), die_value),
        -54 <= r <= 54,
{
    let v0 = grid.get(col, 0);
    let v1 = grid.get(col, 1);
    let v2 = grid.get(col, 2);
    proof {
        assert(col_seq(grid@, col as int) =~= seq![v0, v1, v2]);
    }
    let before = score3(v0, v1, v2);
    let after = if v0 == 0 {
        proof {
            assert(place_col3(seq![v0, v1, v2], die_value) =~= seq![die_value, v1, v2]);
        }
        score3(die_value, v1, v2)
    } else if v1 == 0 {
        proof {
            assert(place_col3(seq![v0, v1, v2], die_value) =~= seq![v0, die_value, v2]);
        }
        score3(v0, die_value, v2)
    } else if v2 == 0 {
        proof {
            assert(place_col3(seq![v0, v1, v2], die_value) =~= seq![v0, v1, die_value]);
        }
        score3(v0, v1, die_value)
    } else {
        score3(v0, v1, v2)
    };
    after - before
}

/// Points the opponent would lose if every die of face `die_value` left
/// their column `col`.
#[verifier::rlimit(100)]
pub fn calculate_opponent_score_loss(opponent_grid: &Grid, col: usize, die_value: u8) -> (r: i32)
    requires
        col < 3,
        1 <= die_value <= 6,
        opponent_grid@.len() == 9,
    ensures
        r as int == opp_loss(col_seq(opponent_grid@, col as int), die_value),
        0 <= r <= 54,
{
    let v0 = opponent_grid.get(col, 0);
    let v1 = opponent_grid.get(col, 1);
    let v2 = opponent_grid.get(col, 2);
    proof {
        assert(col_seq(opponent_grid@, col as int) =~= seq![v0, v1, v2]);
    }
    let m0 = if v0 == die_value {
        0
    } else {
        v0
    };
    let m1 = if v1 == die_value {
        0
    } else {
        v1
    };
    let m2 = if v2 == die_value {
        0
    } else {
        v2
    };
    let before = score3(v0, v1, v2);
    let after = score3(m0, m1, m2);
    proof {
        let s = seq![v0, v1, v2];
        assert(masked_col(s, die_value) =~= seq![m0, m1, m2]);
        lemma_opp_loss_bound(s, die_value);
    }
    before - after
}

/// Basic evaluation over grid views, in millipoints: own grid score minus
/// the opponent's.
pub open spec fn eval_basic_views(my: Seq<u8>, opp: Seq<u8>) -> int {
    (grid_score(my) - grid_score(opp)) * 1000
}

/// Basic evaluation for `player`, in millipoints: own grid score minus the
/// opponent's.
pub open spec fn spec_eval_basic(s: GameState, p: Player) -> int {
    eval_basic_views(s.spec_grid_of(p)@, s.spec_grid_of(p.spec_other())@)
}

/// How many cells of the grid are occupied (0..=9).
pub open spec fn total_dice(s: Seq<u8>) -> int
    recommends
        s.len() == 9,
{
    (if s[0] != 0 {
        1int
    } else {
        0int
    }) + (if s[1] != 0 {
        1int
    } else {
        0int
    }) + (if s[2] != 0 {
        1int
    } else {
        0int
    }) + (if s[3] != 0 {
        1int
    } else {
        0int
    }) + (if s[4] != 0 {
        1int
    } else {
        0int
    }) + (if s[5] != 0 {
        1int
    } else {
        0int
    }) + (if s[6] != 0 {
        1int
    } else {
        0int
    }) + (if s[7] != 0 {
        1int
    } else {
        0int
    }) + (if s[8] != 0 {
        1int
    } else {
        0int
    })
}

/// Sum of the die faces in a column (empty cells add nothing).
pub open spec fn col_sum(col: Seq<u8>) -> int
    recommends
        col.len() == 3,
{
    col[0] + col[1] + col[2]
}

/// Offensive positional term for one column, in millipoints: the damage a
/// face-6 drop would do to the opponent's column, faded as the mover's grid
/// fills (`dice / 9` progress, 30% fade), weighted by the offense weight.
/// Zero when the opponent's column is full.
pub open spec fn attack_term(my: Seq<u8>, opp: Seq<u8>, c: int, ow: int) -> int {
    if col_full(opp, c) {
        0
    } else {
        opp_loss(col_seq(opp, c), 6) * (30 - total_dice(my)) * ow / 180
    }
}

/// Defensive positional term for one column, in millipoints: half the value
/// of the mover's dice exposed in a column the opponent can still play
/// into, scaled by game progress and the defense weight.
pub open spec fn defense_term(my: Seq<u8>, opp: Seq<u8>, c: int, dw: int) -> int {
    if col_full(opp, c) {
        0
    } else {
        col_sum(col_seq(my, c)) * total_dice(my) * dw / 18
    }
}

/// Advanced evaluation over grid views, in millipoints. A terminal
/// position is worth `WIN_MP`, `-WIN_MP` or 0 by the sign of the score
/// difference alone; otherwise the weighted score difference plus the
/// positional terms.
pub open spec fn eval_adv_views(my: Seq<u8>, opp: Seq<u8>, ended: bool, cfg: DifficultyConfig) -> int {
    let base = grid_score(my) - grid_score(opp);
    if ended {
        if base > 0 {
            WIN_MP as int
        } else if base < 0 {
            -(WIN_MP as int)
        } else {
            0
        }
    } else {
        let ow = cfg.offense_weight as int;
        let dw = cfg.defense_weight as int;
        base * ow + attack_term(my, opp, 0, ow) + attack_term(my, opp, 1, ow) + attack_term(
            my,
            opp,
            2,
            ow,
        ) - defense_term(my, opp, 0, dw) - defense_term(my, opp, 1, dw) - defense_term(
            my,
            opp,
            2,
            dw,
        )
    }
}

/// Advanced evaluation for `p`, in millipoints.
pub open spec fn spec_eval_advanced(s: GameState, p: Player, cfg: DifficultyConfig) -> int {
    eval_adv_views(s.spec_grid_of(p)@, s.spec_grid_of(p.spec_other())@, s.phase == GamePhase::Ended, cfg)
}

/// The evaluation the search backs up, over grid views: advanced when the
/// configuration asks for it, basic otherwise.
pub open spec fn eval_views(my: Seq<u8>, opp: Seq<u8>, ended: bool, cfg: DifficultyConfig) -> int {
    if cfg.advanced_eval {
        eval_adv_views(my, opp, ended, cfg)
    } else {
        eval_basic_views(my, opp)
    }
}

/// The evaluation the search backs up: advanced when the configuration asks
/// for it, basic otherwise.
pub open spec fn spec_evaluate(s: GameState, p: Player, cfg: DifficultyConfig) -> int {
    eval_views(
        s.spec_grid_of(p)@,
        s.spec_grid_of(p.spec_other())@,
        s.phase == GamePhase::Ended,
        cfg,
    )
}

/// How many cells of the grid are occupied.
fn count_dice(grid: &Grid) -> (r: u32)
    requires
        grid@.len() == 9,
    ensures
        r as int == total_dice(grid@),
        r <= 9,
{
    let mut r: u32 = 0;
    if grid.get(0, 0) != 0 {
        r = r + 1;
    }
    if grid.get(0, 1) != 0 {
        r = r + 1;
    }
    if grid.get(0, 2) != 0 {
        r = r + 1;
    }
    if grid.get(1, 0) != 0 {
        r = r + 1;
    }
    if grid.get(1, 1) != 0 {
        r = r + 1;
    }
    if grid.get(1, 2) != 0 {
        r = r + 1;
    }
    if grid.get(2, 0) != 0 {
        r = r + 1;
    }
    if grid.get(2, 1) != 0 {
        r = r + 1;
    }
    if grid.get(2, 2) != 0 {
        r = r + 1;
    }
    r
}

/// Sum of the die faces in column `col`.
fn column_sum(grid: &Grid, col: usize) -> (r: u32)
    requires
        col < 3,
        grid@.len() == 9,
    ensures
        r as int == col_sum(col_seq(grid@, col as int)),
        r <= 765,
{
    let v0 = grid.get(col, 0);
    let v1 = grid.get(col, 1);
    let v2 = grid.get(col, 2);
    proof {
        assert(col_seq(grid@, col as int) =~= seq![v0, v1, v2]);
    }
    v0 as u32 + v1 as u32 + v2 as u32
}

/// Basic evaluation for `player`, in millipoints.
pub fn evaluate_basic(state: &GameState, player: Player) -> (r: i64)
    requires
        state.wf(),
    ensures
        r as int == spec_eval_basic(*state, player),
        -162_000 <= r <= 162_000,
{
    let score1 = calculate_grid_score(&state.grid1) as i64;
    let score2 = calculate_grid_score(&state.grid2) as i64;
    match player {
        Player::Player1 => (score1 - score2) * 1000,
        Player::Player2 => (score2 - score1) * 1000,
    }
}

/// Advanced evaluation for `player`, in millipoints.
pub fn evaluate_advanced(state: &GameState, player: Player, config: &DifficultyConfig) -> (r: i64)
    requires
        state.wf(),
        config.valid(),
    ensures
        r as int == spec_eval_advanced(*state, player, *config),
        -MAX_EVAL_MP <= r <= MAX_EVAL_MP,
{
    let my_grid = state.grid_of(player);
    let opp_grid = state.grid_of(player.other());
    let my_score = calculate_grid_score(my_grid) as i64;
    let opp_score = calculate_grid_score(opp_grid) as i64;
    let base = my_score - opp_score;
    if matches!(state.phase, GamePhase::Ended) {
        return if base > 0 {
            WIN_MP
        } else if base < 0 {
            -WIN_MP
        } else {
            0
        };
    }
    let ow = config.offense_weight as u64;
    let dw = config.defense_weight as u64;
    let dice = count_dice(my_grid) as u64;
    let mut positional: i64 = 0;
    let mut c: usize = 0;
    while c < 3
        invariant
            c <= 3,
            state.wf(),
            config.valid(),
            my_grid@ == state.spec_grid_of(player)@,
            opp_grid@ == state.spec_grid_of(player.spec_other())@,
            ow == config.offense_weight as u64,
            dw == config.defense_weight as u64,
            dice == total_dice(my_grid@),
            dice <= 9,
            positional as int == attack_sum(my_grid@, opp_grid@, c as int, ow as int)
                - defense_sum(my_grid@, opp_grid@, c as int, dw as int),
            -(c as int) * 382_500 <= positional <= (c as int) * 9_000,
        decreases 3 - c,
    {
        if !opp_grid.is_column_full(c) {
            let damage = calculate_opponent_score_loss(opp_grid, c, 6) as u64;
            let fade = 30 - dice;
            proof {
                assert(damage * fade <= 1620) by (nonlinear_arith)
                    requires
                        damage <= 54,
                        fade <= 30,
                ;
                assert(damage * fade * ow <= 1_620_000) by (nonlinear_arith)
                    requires
                        damage * fade <= 1620,
                        ow <= 1000,
                ;
            }
            let attack = (damage * fade * ow / 180) as i64;
            let vul = column_sum(my_grid, c) as u64;
            proof {
                assert(vul * dice <= 6885) by (nonlinear_arith)
                    requires
                        vul <= 765,
                        dice <= 9,
                ;
                assert(vul * dice * dw <= 6_885_000) by (nonlinear_arith)
                    requires
                        vul * dice <= 6885,
                        dw <= 1000,
                ;
            }
            let defense = (vul * dice * dw / 18) as i64;
            positional = positional + attack - defense;
        }
        c = c + 1;
    }
    proof {
        lemma_sums_unfold3(my_grid@, opp_grid@, ow as int, dw as int);
        let owi = config.offense_weight as i64;
        assert(-162_000 <= base * owi <= 162_000) by (nonlinear_arith)
            requires
                -162 <= base <= 162,
                0 <= owi <= 1000,
        ;
    }
    base * (config.offense_weight as i64) + positional
}

/// Attack terms of the columns before `c`, in millipoints.
pub open spec fn attack_sum(my: Seq<u8>, opp: Seq<u8>, c: int, ow: int) -> int
    decreases c,
{
    if c <= 0 {
        0
    } else {
        attack_sum(my, opp, c - 1, ow) + attack_term(my, opp, c - 1, ow)
    }
}

/// The three-column attack and defense sums, written out.
proof fn lemma_sums_unfold3(my: Seq<u8>, opp: Seq<u8>, ow: int, dw: int)
    ensures
        attack_sum(my, opp, 3, ow) == attack_term(my, opp, 0, ow) + attack_term(my, opp, 1, ow)
            + attack_term(my, opp, 2, ow),
        defense_sum(my, opp, 3, dw) == defense_term(my, opp, 0, dw) + defense_term(my, opp, 1, dw)
            + defense_term(my, opp, 2, dw),
{
    assert(attack_sum(my, opp, 0, ow) == 0);
    assert(attack_sum(my, opp, 1, ow) == attack_sum(my, opp, 0, ow) + attack_term(my, opp, 0, ow));
    assert(attack_sum(my, opp, 2, ow) == attack_sum(my, opp, 1, ow) + attack_term(my, opp, 1, ow));
    assert(attack_sum(my, opp, 3, ow) == attack_sum(my, opp, 2, ow) + attack_term(my, opp, 2, ow));
    assert(defense_sum(my, opp, 0, dw) == 0);
    assert(defense_sum(my, opp, 1, dw) == defense_sum(my, opp, 0, dw) + defense_term(
        my,
        opp,
        0,
        dw,
    ));
    assert(defense_sum(my, opp, 2, dw) == defense_sum(my, opp, 1, dw) + defense_term(
        my,
        opp,
        1,
        dw,
    ));
    assert(defense_sum(my, opp, 3, dw) == defense_sum(my, opp, 2, dw) + defense_term(
        my,
        opp,
        2,
        dw,
    ));
}

/// Defense terms of the columns before `c`, in millipoints.
pub open spec fn defense_sum(my: Seq<u8>, opp: Seq<u8>, c: int, dw: int) -> int
    decreases c,
{
    if c <= 0 {
        0
    } else {
        defense_sum(my, opp, c - 1, dw) + defense_term(my, opp, c - 1, dw)
    }
}

/// The evaluation the search backs up, in millipoints.
pub fn evaluate(state: &GameState, player: Player, config: &DifficultyConfig) -> (r: i64)
    requires
        state.wf(),
        config.valid(),
    ensures
        r as int == spec_evaluate(*state, player, *config),
        -MAX_EVAL_MP <= r <= MAX_EVAL_MP,
{
    if config.advanced_eval {
        evaluate_advanced(state, player, config)
    } else {
        evaluate_basic(state, player)
    }
}

/// Quick move-ordering heuristic, in points: points gained in the mover's
/// column plus points the opponent would lose to the matching removal.
#[verifier::opaque]
pub open spec fn spec_move_quick(s: GameState, col: int, die: u8, p: Player) -> int {
    move_gain(col_seq(s.spec_grid_of(p)@, col), die) + opp_loss(
        col_seq(s.spec_grid_of(p.spec_other())@, col),
        die,
    )
}

/// Quick move-ordering heuristic, in points. An approximation used only to
/// order candidate moves, never as a backed-up search value.
pub fn evaluate_move_quick(state: &GameState, col: usize, die_value: u8, player: Player) -> (r: i64)
    requires
        state.wf(),
        col < 3,
        1 <= die_value <= 6,
    ensures
        r as int == spec_move_quick(*state, col as int, die_value, player),
        -108 <= r <= 108,
{
    proof {
        reveal(spec_move_quick);
    }
    let my_grid = state.grid_of(player);
    let opp_grid = state.grid_of(player.other());
    let score_gain = calculate_move_score_gain(my_grid, col, die_value) as i64;
    let opponent_loss = calculate_opponent_score_loss(opp_grid, col, die_value) as i64;
    score_gain + opponent_loss
}

/// The same position with the two grids exchanged and the turn handed to
/// the other player.
pub open spec fn mirrored(s: GameState) -> GameState {
    GameState {
        grid1: s.grid2,
        grid2: s.grid1,
        current_player: s.current_player.spec_other(),
        ..s
    }
}

/// Zero-sum law of the basic evaluation: the basic evaluation for one
/// player is exactly the negation of the basic evaluation for the other,
/// in every state.
pub proof fn lemma_evaluate_basic_antisymmetric(s: GameState)
    ensures
        spec_eval_basic(s, Player::Player1) == -spec_eval_basic(s, Player::Player2),
{
}

/// Zero-sum law of the advanced evaluation on terminal states: once the
/// game has ended, the advanced evaluation for one player is exactly the
/// negation of the advanced evaluation for the other, whatever the
/// configuration.
pub proof fn lemma_evaluate_advanced_terminal_antisymmetric(s: GameState, cfg: DifficultyConfig)
    requires
        s.phase == GamePhase::Ended,
    ensures
        spec_eval_advanced(s, Player::Player1, cfg) == -spec_eval_advanced(s, Player::Player2, cfg),
{
}

/// Mirror law of the advanced evaluation: evaluating a state for one player
/// equals evaluating the mirrored state (grids exchanged) for the other
/// player, with the same configuration.
pub proof fn lemma_evaluate_advanced_mirror(s: GameState, cfg: DifficultyConfig)
    ensures
        spec_eval_advanced(s, Player::Player1, cfg) == spec_eval_advanced(
            mirrored(s),
            Player::Player2,
            cfg,
        ),
        spec_eval_advanced(s, Player::Player2, cfg) == spec_eval_advanced(
            mirrored(s),
            Player::Player1,
            cfg,
        ),
{
}

} // verus!
