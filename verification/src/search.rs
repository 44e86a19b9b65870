use vstd::prelude::*;

use std::collections::HashMap;

use crate::clock::now_ms;
use crate::eval::DifficultyConfig;
use crate::eval::MAX_EVAL_MP;
use crate::eval::evaluate;
use crate::eval::evaluate_move_quick;
use crate::eval::spec_evaluate;
use crate::eval::spec_move_quick;
use crate::grid::col_full;
use crate::grid::grid_full;
use crate::grid::place_in_grid;
use crate::grid::remove_from_grid;
use crate::profile::OpponentProfile;
use crate::profile::PROFILE_BONUS_MULTIPLIER;
use crate::profile::spec_column_attack_bonus_mp;
use crate::rng::Rng;
use crate::rng::spec_advance;
use crate::rng::spec_draw;
use crate::state::GamePhase;
use crate::state::GameState;
use crate::state::Player;
use crate::state::apply_move;
use crate::state::legal_columns;
use crate::state::roll_die;

verus! {

broadcast use vstd::std_specs::hash::group_hash_axioms;

/// The search gives up after exploring this many nodes.
pub const MAX_SEARCH_NODES: u64 = 500_000;

/// No entry is added to the transposition table beyond this size; existing
/// entries stay until an explicit clear.
pub const TT_MAX_ENTRIES: usize = 100_000;

/// Transposition-table key marker for a maximizing node.
pub const ROLE_MAX: u64 = 0;

/// Transposition-table key marker for a minimizing node.
pub const ROLE_MIN: u64 = 1;

/// One cached search result: the depth it was explored to and the value
/// backed up then, in millipoints.
#[derive(Clone, Copy, Debug)]
pub struct TTEntry {
    pub depth: u32,
    pub value: i64,
}

/// Mutable state shared across one engine's searches: the transposition
/// table, the node counter and budget, the wall-clock budget, and the flag
/// selecting true minimization over modeled opponents. The table key does
/// not encode the configurations, so it must be cleared whenever they
/// change between searches.
pub struct SearchContext {
    pub tt: HashMap<u64, TTEntry>,
    pub nodes_explored: u64,
    pub max_nodes: u64,
    pub use_adversarial: bool,
    pub time_budget_ms: u64,
    pub start_ms: u64,
    pub aborted: bool,
}

impl SearchContext {
    /// Every cached value lies within the evaluation bound, and the table
    /// never outgrows its entry cap.
    pub open spec fn wf(self) -> bool {
        &&& forall|k: u64| #[trigger] self.tt@.contains_key(k) ==> -MAX_EVAL_MP <= self.tt@[k].value
            <= MAX_EVAL_MP
        &&& self.tt@.dom().finite()
        &&& self.tt@.len() <= TT_MAX_ENTRIES
    }

    /// A fresh context with an empty table and the default node budget.
    pub fn new() -> (r: SearchContext)
        ensures
            r.wf(),
            r.tt@ == Map::<u64, TTEntry>::empty(),
            r.nodes_explored == 0,
            r.max_nodes == MAX_SEARCH_NODES,
            !r.aborted,
            !r.use_adversarial,
            r.time_budget_ms == 0,
    {
        SearchContext {
            tt: HashMap::with_capacity(10000),
            nodes_explored: 0,
            max_nodes: MAX_SEARCH_NODES,
            use_adversarial: false,
            time_budget_ms: 0,
            start_ms: 0,
            aborted: false,
        }
    }

    /// Empties the table and resets the counters, so stale entries cannot
    /// bias an unrelated search.
    pub fn clear(&mut self)
        ensures
            final(self).wf(),
            final(self).tt@ == Map::<u64, TTEntry>::empty(),
            final(self).nodes_explored == 0,
            !final(self).aborted,
            final(self).max_nodes == old(self).max_nodes,
            final(self).use_adversarial == old(self).use_adversarial,
            final(self).time_budget_ms == old(self).time_budget_ms,
            final(self).start_ms == old(self).start_ms,
    {
        self.tt.clear();
        self.nodes_explored = 0;
        self.aborted = false;
    }

    /// Counts one explored node; at every thousandth node with a time
    /// budget set, reads the clock and raises the abort flag once the
    /// budget is spent. The flag stays raised for the whole search.
    fn bump(&mut self)
        ensures
            final(self).wf() == old(self).wf(),
            final(self).tt == old(self).tt,
            final(self).max_nodes == old(self).max_nodes,
            final(self).use_adversarial == old(self).use_adversarial,
            final(self).time_budget_ms == old(self).time_budget_ms,
            final(self).start_ms == old(self).start_ms,
            old(self).aborted ==> final(self).aborted,
            final(self).nodes_explored == old(self).nodes_explored.saturating_add(1),
            old(self).time_budget_ms == 0 ==> final(self).aborted == old(self).aborted,
    {
        self.nodes_explored = self.nodes_explored.saturating_add(1);
        if self.time_budget_ms > 0 && self.nodes_explored % 1000 == 0 {
            let now = now_ms();
            if now.saturating_sub(self.start_ms) >= self.time_budget_ms {
                self.aborted = true;
            }
        }
    }
}

/// Rank used by the termination measure: at equal depth a node in the
/// rolling phase may step to a chance node, and a chance node to a placing
/// node, before the depth must fall.
pub open spec fn phase_rank(s: GameState) -> int {
    if s.phase == GamePhase::Rolling {
        4
    } else {
        2
    }
}

/// A node entered with this context returns its direct evaluation without
/// searching: the abort flag is up, or counting this node passes the node
/// budget.
pub open spec fn spec_cut(c: SearchContext) -> bool {
    c.aborted || c.nodes_explored.saturating_add(1) > c.max_nodes
}

/// Truncating division by six, as the chance node averages child values.
pub open spec fn spec_div6(v: int) -> int {
    if v >= 0 {
        v / 6
    } else {
        -((-v) / 6)
    }
}

/// The evaluation a state would get if its phase were not terminal: the
/// die face and phase do not enter the evaluation otherwise, so every roll
/// of the same grids evaluates alike.
pub open spec fn spec_eval_nonterm(s: GameState, p: Player, cfg: DifficultyConfig) -> int {
    crate::eval::eval_views(s.spec_grid_of(p)@, s.spec_grid_of(p.spec_other())@, false, cfg)
}

/// The larger of two values.
pub open spec fn max2i(a: int, b: int) -> int {
    if a >= b {
        a
    } else {
        b
    }
}

/// The smaller of two values.
pub open spec fn min2i(a: int, b: int) -> int {
    if a <= b {
        a
    } else {
        b
    }
}

/// The value a depth-1 search backs up for `p` when the mover drops the
/// pending die into `col`: the terminal evaluation if the mover's grid
/// fills, otherwise six times the truncated sixth of the successor's
/// evaluation — the exact fixed-point average the chance node computes
/// over the six equal-valued rolls.
#[verifier::opaque]
pub open spec fn spec_child_value_d1(s: GameState, col: int, p: Player, cfg: DifficultyConfig) -> int {
    let die = s.current_die->0;
    let mg2 = place_in_grid(s.my_grid()@, col, die);
    let og2 = remove_from_grid(s.opp_grid()@, col, die);
    let mine = if p == s.current_player {
        mg2
    } else {
        og2
    };
    let theirs = if p == s.current_player {
        og2
    } else {
        mg2
    };
    if grid_full(mg2) {
        crate::eval::eval_views(mine, theirs, true, cfg)
    } else {
        6 * spec_div6(crate::eval::eval_views(mine, theirs, false, cfg))
    }
}

/// The depth-1 maximizing value: the best child value over the mover's
/// open columns (the direct evaluation if none is open).
#[verifier::opaque]
pub open spec fn spec_best_value_d1(s: GameState, p: Player, cfg: DifficultyConfig) -> int {
    let my = s.my_grid()@;
    let o0 = !col_full(my, 0);
    let o1 = !col_full(my, 1);
    let o2 = !col_full(my, 2);
    let v0 = spec_child_value_d1(s, 0, p, cfg);
    let v1 = spec_child_value_d1(s, 1, p, cfg);
    let v2 = spec_child_value_d1(s, 2, p, cfg);
    if o0 && o1 && o2 {
        max2i(v0, max2i(v1, v2))
    } else if o0 && o1 {
        max2i(v0, v1)
    } else if o0 && o2 {
        max2i(v0, v2)
    } else if o1 && o2 {
        max2i(v1, v2)
    } else if o0 {
        v0
    } else if o1 {
        v1
    } else if o2 {
        v2
    } else {
        spec_evaluate(s, p, cfg)
    }
}

/// The depth-1 minimizing value: the worst child value over the mover's
/// open columns (the direct evaluation if none is open).
#[verifier::opaque]
pub open spec fn spec_worst_value_d1(s: GameState, p: Player, cfg: DifficultyConfig) -> int {
    let my = s.my_grid()@;
    let o0 = !col_full(my, 0);
    let o1 = !col_full(my, 1);
    let o2 = !col_full(my, 2);
    let v0 = spec_child_value_d1(s, 0, p, cfg);
    let v1 = spec_child_value_d1(s, 1, p, cfg);
    let v2 = spec_child_value_d1(s, 2, p, cfg);
    if o0 && o1 && o2 {
        min2i(v0, min2i(v1, v2))
    } else if o0 && o1 {
        min2i(v0, v1)
    } else if o0 && o2 {
        min2i(v0, v2)
    } else if o1 && o2 {
        min2i(v1, v2)
    } else if o0 {
        v0
    } else if o1 {
        v1
    } else if o2 {
        v2
    } else {
        spec_evaluate(s, p, cfg)
    }
}

/// What one applied move is worth to a depth-1 search: the successor's
/// terminal evaluation when the mover's grid filled, else the chance
/// node's truncated average of the six equal-valued rolls.
proof fn lemma_child_value_d1(s: &GameState, col: int, s2: &GameState, p: Player, pc: DifficultyConfig)
    requires
        0 <= col < 3,
        s.current_die is Some,
        ({
            let die = s.current_die->0;
            let mg2 = place_in_grid(s.my_grid()@, col, die);
            let og2 = remove_from_grid(s.opp_grid()@, col, die);
            &&& s2.spec_grid_of(s.current_player)@ == mg2
            &&& s2.spec_grid_of(s.current_player.spec_other())@ == og2
            &&& (grid_full(mg2) ==> s2.phase == GamePhase::Ended)
            &&& (!grid_full(mg2) ==> s2.phase == GamePhase::Rolling)
        }),
    ensures
        s2.phase == GamePhase::Ended ==> spec_evaluate(*s2, p, pc) == spec_child_value_d1(
            *s,
            col,
            p,
            pc,
        ),
        s2.phase != GamePhase::Ended ==> 6 * spec_div6(spec_eval_nonterm(*s2, p, pc))
            == spec_child_value_d1(*s, col, p, pc),
{
    reveal(spec_child_value_d1);
    if p == s.current_player {
    } else {
        assert(s2.spec_grid_of(p)@ == remove_from_grid(s.opp_grid()@, col, s.current_die->0));
    }
}

/// A value that matches one open column's depth-1 child value and bounds
/// every other open column's from above is the depth-1 maximum.
proof fn lemma_best_from_bounds(s: &GameState, p: Player, pc: DifficultyConfig, v: int, c0: int)
    requires
        0 <= c0 < 3,
        !col_full(s.my_grid()@, c0),
        v == spec_child_value_d1(*s, c0, p, pc),
        !col_full(s.my_grid()@, 0) ==> v >= spec_child_value_d1(*s, 0, p, pc),
        !col_full(s.my_grid()@, 1) ==> v >= spec_child_value_d1(*s, 1, p, pc),
        !col_full(s.my_grid()@, 2) ==> v >= spec_child_value_d1(*s, 2, p, pc),
    ensures
        v == spec_best_value_d1(*s, p, pc),
{
    reveal(spec_best_value_d1);
}

/// A value that matches one open column's depth-1 child value and bounds
/// every other open column's from below is the depth-1 minimum.
proof fn lemma_worst_from_bounds(s: &GameState, p: Player, pc: DifficultyConfig, v: int, c0: int)
    requires
        0 <= c0 < 3,
        !col_full(s.my_grid()@, c0),
        v == spec_child_value_d1(*s, c0, p, pc),
        !col_full(s.my_grid()@, 0) ==> v <= spec_child_value_d1(*s, 0, p, pc),
        !col_full(s.my_grid()@, 1) ==> v <= spec_child_value_d1(*s, 1, p, pc),
        !col_full(s.my_grid()@, 2) ==> v <= spec_child_value_d1(*s, 2, p, pc),
    ensures
        v == spec_worst_value_d1(*s, p, pc),
{
    reveal(spec_worst_value_d1);
}

/// With every column full, the depth-1 values fall back to the direct
/// evaluation.
proof fn lemma_d1_no_open(s: &GameState, p: Player, pc: DifficultyConfig)
    requires
        col_full(s.my_grid()@, 0),
        col_full(s.my_grid()@, 1),
        col_full(s.my_grid()@, 2),
    ensures
        spec_best_value_d1(*s, p, pc) == spec_evaluate(*s, p, pc),
        spec_worst_value_d1(*s, p, pc) == spec_evaluate(*s, p, pc),
{
    reveal(spec_best_value_d1);
    reveal(spec_worst_value_d1);
}

/// The column a greedy-modeled opponent plays: the first of the mover's
/// open columns whose quick heuristic value is maximal, scanning in
/// ascending order.
#[verifier::opaque]
pub open spec fn spec_greedy_opp_col(s: GameState) -> int {
    let die = s.current_die->0;
    let mover = s.current_player;
    let my = s.my_grid()@;
    let o0 = !col_full(my, 0);
    let o1 = !col_full(my, 1);
    let o2 = !col_full(my, 2);
    let q0 = spec_move_quick(s, 0, die, mover);
    let q1 = spec_move_quick(s, 1, die, mover);
    let q2 = spec_move_quick(s, 2, die, mover);
    if o0 && o1 && o2 {
        if q1 > q0 {
            if q2 > q1 {
                2
            } else {
                1
            }
        } else {
            if q2 > q0 {
                2
            } else {
                0
            }
        }
    } else if o0 && o1 {
        if q1 > q0 {
            1
        } else {
            0
        }
    } else if o0 && o2 {
        if q2 > q0 {
            2
        } else {
            0
        }
    } else if o1 && o2 {
        if q2 > q1 {
            2
        } else {
            1
        }
    } else if o0 {
        0
    } else if o1 {
        1
    } else {
        2
    }
}

/// A column that attains the quick-heuristic maximum over the open
/// columns, with every earlier open column strictly worse, is the greedy
/// opponent's column.
proof fn lemma_greedy_col(s: &GameState, best: int)
    requires
        s.current_die is Some,
        0 <= best < 3,
        !col_full(s.my_grid()@, best),
        ({
            let die = s.current_die->0;
            let mover = s.current_player;
            let my = s.my_grid()@;
            &&& (!col_full(my, 0) ==> spec_move_quick(*s, 0, die, mover) <= spec_move_quick(
                *s,
                best,
                die,
                mover,
            ))
            &&& (!col_full(my, 1) ==> spec_move_quick(*s, 1, die, mover) <= spec_move_quick(
                *s,
                best,
                die,
                mover,
            ))
            &&& (!col_full(my, 2) ==> spec_move_quick(*s, 2, die, mover) <= spec_move_quick(
                *s,
                best,
                die,
                mover,
            ))
            &&& (!col_full(my, 0) && 0 < best ==> spec_move_quick(*s, 0, die, mover)
                < spec_move_quick(*s, best, die, mover))
            &&& (!col_full(my, 1) && 1 < best ==> spec_move_quick(*s, 1, die, mover)
                < spec_move_quick(*s, best, die, mover))
            &&& (!col_full(my, 2) && 2 < best ==> spec_move_quick(*s, 2, die, mover)
                < spec_move_quick(*s, best, die, mover))
        }),
    ensures
        best == spec_greedy_opp_col(*s),
{
    reveal(spec_greedy_opp_col);
}

/// The mover's open columns in ascending order.
pub open spec fn spec_open_cols(s: GameState) -> Seq<usize> {
    let my = s.my_grid()@;
    let o0 = !col_full(my, 0);
    let o1 = !col_full(my, 1);
    let o2 = !col_full(my, 2);
    if o0 && o1 && o2 {
        seq![0usize, 1usize, 2usize]
    } else if o0 && o1 {
        seq![0usize, 1usize]
    } else if o0 && o2 {
        seq![0usize, 2usize]
    } else if o1 && o2 {
        seq![1usize, 2usize]
    } else if o0 {
        seq![0usize]
    } else if o1 {
        seq![1usize]
    } else if o2 {
        seq![2usize]
    } else {
        Seq::empty()
    }
}

/// The legal-column list of a state is exactly its open columns in
/// ascending order.
proof fn lemma_legal_cols(s: &GameState, legal: &Vec<usize>)
    requires
        legal@.len() <= 3,
        forall|i: int| 0 <= i < legal@.len() ==> #[trigger] legal@[i] < 3 && !col_full(
            s.my_grid()@,
            legal@[i] as int,
        ),
        forall|c: int| 0 <= c < 3 && !col_full(s.my_grid()@, c) ==> legal@.contains(c as usize),
        forall|i: int, j: int| 0 <= i < j < legal@.len() ==> legal@[i] < legal@[j],
    ensures
        legal@ == spec_open_cols(*s),
{
    let my = s.my_grid()@;
    let o0 = !col_full(my, 0);
    let o1 = !col_full(my, 1);
    let o2 = !col_full(my, 2);
    if o0 {
        assert(legal@.contains(0usize));
    }
    if o1 {
        assert(legal@.contains(1usize));
    }
    if o2 {
        assert(legal@.contains(2usize));
    }
    assert forall|c: usize| legal@.contains(c) implies c < 3 && !col_full(my, c as int) by {
        let k = choose|k: int| 0 <= k < legal@.len() && legal@[k] == c;
    }
    if o0 && o1 && o2 {
        let k0 = choose|k: int| 0 <= k < legal@.len() && legal@[k] == 0usize;
        let k1 = choose|k: int| 0 <= k < legal@.len() && legal@[k] == 1usize;
        let k2 = choose|k: int| 0 <= k < legal@.len() && legal@[k] == 2usize;
        assert(legal@.len() == 3);
        assert(legal@ =~= seq![0usize, 1usize, 2usize]);
    } else if o0 && o1 {
        let k0 = choose|k: int| 0 <= k < legal@.len() && legal@[k] == 0usize;
        let k1 = choose|k: int| 0 <= k < legal@.len() && legal@[k] == 1usize;
        assert(legal@.len() >= 2);
        assert forall|k: int| 0 <= k < legal@.len() implies legal@[k] == 0usize || legal@[k]
            == 1usize by {}
        if legal@.len() == 3 {
            assert(legal@[0] < legal@[1]);
            assert(legal@[1] < legal@[2]);
            assert(false);
        }
        assert(legal@.len() == 2);
        assert(legal@ =~= seq![0usize, 1usize]);
    } else if o0 && o2 {
        let k0 = choose|k: int| 0 <= k < legal@.len() && legal@[k] == 0usize;
        let k2 = choose|k: int| 0 <= k < legal@.len() && legal@[k] == 2usize;
        assert(legal@.len() >= 2);
        assert forall|k: int| 0 <= k < legal@.len() implies legal@[k] == 0usize || legal@[k]
            == 2usize by {}
        if legal@.len() == 3 {
            assert(legal@[0] < legal@[1]);
            assert(legal@[1] < legal@[2]);
            assert(false);
        }
        assert(legal@.len() == 2);
        assert(legal@ =~= seq![0usize, 2usize]);
    } else if o1 && o2 {
        let k1 = choose|k: int| 0 <= k < legal@.len() && legal@[k] == 1usize;
        let k2 = choose|k: int| 0 <= k < legal@.len() && legal@[k] == 2usize;
        assert(legal@.len() >= 2);
        assert forall|k: int| 0 <= k < legal@.len() implies legal@[k] == 1usize || legal@[k]
            == 2usize by {}
        if legal@.len() == 3 {
            assert(legal@[0] < legal@[1]);
            assert(legal@[1] < legal@[2]);
            assert(false);
        }
        assert(legal@.len() == 2);
        assert(legal@ =~= seq![1usize, 2usize]);
    } else if o0 {
        assert forall|k: int| 0 <= k < legal@.len() implies legal@[k] == 0usize by {}
        if legal@.len() >= 2 {
            assert(legal@[0] < legal@[1]);
            assert(false);
        }
        assert(legal@.len() == 1);
        assert(legal@ =~= seq![0usize]);
    } else if o1 {
        assert forall|k: int| 0 <= k < legal@.len() implies legal@[k] == 1usize by {}
        if legal@.len() >= 2 {
            assert(legal@[0] < legal@[1]);
            assert(false);
        }
        assert(legal@.len() == 1);
        assert(legal@ =~= seq![1usize]);
    } else if o2 {
        assert forall|k: int| 0 <= k < legal@.len() implies legal@[k] == 2usize by {}
        if legal@.len() >= 2 {
            assert(legal@[0] < legal@[1]);
            assert(false);
        }
        assert(legal@.len() == 1);
        assert(legal@ =~= seq![2usize]);
    } else {
        if legal@.len() >= 1 {
            assert(!col_full(my, legal@[0] as int));
            assert(false);
        }
        assert(legal@ =~= Seq::<usize>::empty());
    }
}

/// A fresh depth-one search: placing phase, one ply of depth, no wall
/// clock, an empty table, and enough node budget for the whole ply.
pub open spec fn spec_fresh_d1(s: GameState, depth: u32, c: SearchContext) -> bool {
    &&& depth == 1
    &&& s.phase == GamePhase::Placing
    &&& c.time_budget_ms == 0
    &&& !c.aborted
    &&& c.nodes_explored + 22 <= c.max_nodes
    &&& c.tt@ == Map::<u64, TTEntry>::empty()
}

/// Fingerprint of a state for the transposition table, mixing the cells,
/// the mover, the pending die, the remaining depth and the node role.
/// Distinct states may collide, so cached values are heuristic.
fn hash_state(state: &GameState, depth: u32, role: u64) -> u64
    requires
        state.wf(),
{
    let mut hash: u64 = 0;
    let mut i: usize = 0;
    while i < 9
        invariant
            i <= 9,
            state.wf(),
        decreases 9 - i,
    {
        hash = hash.wrapping_mul(31).wrapping_add(state.grid1.get(i / 3, i % 3) as u64);
        hash = hash.wrapping_mul(31).wrapping_add(state.grid2.get(i / 3, i % 3) as u64);
        i = i + 1;
    }
    let player_tag: u64 = match state.current_player {
        Player::Player1 => 0,
        Player::Player2 => 1,
    };
    hash = hash.wrapping_mul(31).wrapping_add(player_tag);
    let die_tag: u64 = match state.current_die {
        Some(d) => d as u64,
        None => 0,
    };
    hash = hash.wrapping_mul(31).wrapping_add(die_tag);
    hash = hash.wrapping_mul(31).wrapping_add(depth as u64);
    hash.wrapping_mul(31).wrapping_add(role)
}

/// The candidate columns (distinct, ascending) ordered by the quick
/// heuristic, best first; equal keys keep their ascending column order, so
/// the output is the unique stable descending permutation. Without a
/// pending die the order is kept.
#[verifier::rlimit(100)]
pub fn order_moves(state: &GameState, columns: &Vec<usize>, player: Player) -> (r: Vec<usize>)
    requires
        state.wf(),
        columns@.len() <= 3,
        forall|i: int| 0 <= i < columns@.len() ==> #[trigger] columns@[i] < 3,
        forall|i: int, j: int| 0 <= i < j < columns@.len() ==> columns@[i] < columns@[j],
    ensures
        r@.len() == columns@.len(),
        forall|i: int| 0 <= i < r@.len() ==> columns@.contains(#[trigger] r@[i]),
        forall|c: usize| columns@.contains(c) ==> r@.contains(c),
        forall|i: int, j: int| 0 <= i < j < r@.len() ==> r@[i] != r@[j],
        match state.current_die {
            Some(die) => forall|i: int, j: int| 0 <= i < j < r@.len() ==> spec_move_quick(
                *state,
                #[trigger] r@[i] as int,
                die,
                player,
            ) > spec_move_quick(*state, #[trigger] r@[j] as int, die, player) || (spec_move_quick(
                *state,
                r@[i] as int,
                die,
                player,
            ) == spec_move_quick(*state, r@[j] as int, die, player) && r@[i] < r@[j]),
            None => r@ == columns@,
        },
{
    let die = match state.current_die {
        Some(d) => d,
        None => {
            return copy_columns(columns);
        },
    };
    if columns.len() == 0 {
        return Vec::new();
    }
    if columns.len() == 1 {
        let mut r: Vec<usize> = Vec::new();
        r.push(columns[0]);
        proof {
            assert forall|c: usize| columns@.contains(c) implies r@.contains(c) by {
                let k = choose|k: int| 0 <= k < columns@.len() && columns@[k] == c;
                assert(r@[0] == c);
            }
        }
        return r;
    }
    if columns.len() == 2 {
        let mut ca = columns[0];
        let mut cb = columns[1];
        let sa = evaluate_move_quick(state, ca, die, player);
        let sb = evaluate_move_quick(state, cb, die, player);
        let mut r: Vec<usize> = Vec::new();
        if sb > sa {
            r.push(cb);
            r.push(ca);
        } else {
            r.push(ca);
            r.push(cb);
        }
        proof {
            assert forall|c: usize| columns@.contains(c) implies r@.contains(c) by {
                let k = choose|k: int| 0 <= k < columns@.len() && columns@[k] == c;
                assert(c == ca || c == cb);
                assert(r@[0] == c || r@[1] == c);
            }
        }
        return r;
    }
    let mut ca = columns[0];
    let mut cb = columns[1];
    let mut cc = columns[2];
    let mut sa = evaluate_move_quick(state, ca, die, player);
    let mut sb = evaluate_move_quick(state, cb, die, player);
    let mut sc = evaluate_move_quick(state, cc, die, player);
    if sb > sa {
        let tc = ca;
        let ts = sa;
        ca = cb;
        sa = sb;
        cb = tc;
        sb = ts;
    }
    if sc > sb {
        let tc = cb;
        let ts = sb;
        cb = cc;
        sb = sc;
        cc = tc;
        sc = ts;
    }
    if sb > sa {
        let tc = ca;
        let ts = sa;
        ca = cb;
        sa = sb;
        cb = tc;
        sb = ts;
    }
    let mut r: Vec<usize> = Vec::new();
    r.push(ca);
    r.push(cb);
    r.push(cc);
    proof {
        assert(columns@.contains(r@[0]));
        assert(columns@.contains(r@[1]));
        assert(columns@.contains(r@[2]));
        assert forall|c: usize| columns@.contains(c) implies r@.contains(c) by {
            let k = choose|k: int| 0 <= k < columns@.len() && columns@[k] == c;
            assert(c == ca || c == cb || c == cc);
            if c == ca {
                assert(r@[0] == c);
            } else if c == cb {
                assert(r@[1] == c);
            } else {
                assert(r@[2] == c);
            }
        }
    }
    r
}

/// A copy of the candidate list.
fn copy_columns(columns: &Vec<usize>) -> (r: Vec<usize>)
    ensures
        r@ == columns@,
{
    let mut r: Vec<usize> = Vec::new();
    let mut i: usize = 0;
    while i < columns.len()
        invariant
            i <= columns@.len(),
            r@ == columns@.take(i as int),
        decreases columns@.len() - i,
    {
        r.push(columns[i]);
        i = i + 1;
    }
    proof {
        assert(columns@.take(columns@.len() as int) =~= columns@);
    }
    r
}

/// Millipoint ordering key combining the quick heuristic with the learned
/// profile bonus.
pub open spec fn spec_profile_key(
    s: GameState,
    col: int,
    die: u8,
    player: Player,
    profile: OpponentProfile,
) -> int {
    spec_move_quick(s, col, die, player) * 1000 + spec_column_attack_bonus_mp(profile, col)
        * PROFILE_BONUS_MULTIPLIER
}

/// The candidate columns (distinct, ascending) ordered by the quick
/// heuristic plus the profile's attack bonus, best first; equal keys keep
/// their ascending column order. Without a pending die the order is kept.
#[verifier::rlimit(100)]
pub fn order_moves_with_profile(
    state: &GameState,
    columns: &Vec<usize>,
    player: Player,
    profile: &OpponentProfile,
) -> (r: Vec<usize>)
    requires
        state.wf(),
        profile.wf(),
        columns@.len() <= 3,
        forall|i: int| 0 <= i < columns@.len() ==> #[trigger] columns@[i] < 3,
        forall|i: int, j: int| 0 <= i < j < columns@.len() ==> columns@[i] < columns@[j],
    ensures
        r@.len() == columns@.len(),
        forall|i: int| 0 <= i < r@.len() ==> columns@.contains(#[trigger] r@[i]),
        forall|c: usize| columns@.contains(c) ==> r@.contains(c),
        forall|i: int, j: int| 0 <= i < j < r@.len() ==> r@[i] != r@[j],
        match state.current_die {
            Some(die) => forall|i: int, j: int| 0 <= i < j < r@.len() ==> spec_profile_key(
                *state,
                #[trigger] r@[i] as int,
                die,
                player,
                *profile,
            ) > spec_profile_key(*state, #[trigger] r@[j] as int, die, player, *profile) || (
            spec_profile_key(*state, r@[i] as int, die, player, *profile) == spec_profile_key(
                *state,
                r@[j] as int,
                die,
                player,
                *profile,
            ) && r@[i] < r@[j]),
            None => r@ == columns@,
        },
{
    let die = match state.current_die {
        Some(d) => d,
        None => {
            return copy_columns(columns);
        },
    };
    if columns.len() == 0 {
        return Vec::new();
    }
    if columns.len() == 1 {
        let mut r: Vec<usize> = Vec::new();
        r.push(columns[0]);
        proof {
            assert forall|c: usize| columns@.contains(c) implies r@.contains(c) by {
                let k = choose|k: int| 0 <= k < columns@.len() && columns@[k] == c;
                assert(r@[0] == c);
            }
        }
        return r;
    }
    if columns.len() == 2 {
        let ca = columns[0];
        let cb = columns[1];
        let sa = profile_key(state, ca, die, player, profile);
        let sb = profile_key(state, cb, die, player, profile);
        let mut r: Vec<usize> = Vec::new();
        if sb > sa {
            r.push(cb);
            r.push(ca);
        } else {
            r.push(ca);
            r.push(cb);
        }
        proof {
            assert forall|c: usize| columns@.contains(c) implies r@.contains(c) by {
                let k = choose|k: int| 0 <= k < columns@.len() && columns@[k] == c;
                assert(c == ca || c == cb);
                assert(r@[0] == c || r@[1] == c);
            }
        }
        return r;
    }
    let mut ca = columns[0];
    let mut cb = columns[1];
    let mut cc = columns[2];
    let mut sa = profile_key(state, ca, die, player, profile);
    let mut sb = profile_key(state, cb, die, player, profile);
    let mut sc = profile_key(state, cc, die, player, profile);
    if sb > sa {
        let tc = ca;
        let ts = sa;
        ca = cb;
        sa = sb;
        cb = tc;
        sb = ts;
    }
    if sc > sb {
        let tc = cb;
        let ts = sb;
        cb = cc;
        sb = sc;
        cc = tc;
        sc = ts;
    }
    if sb > sa {
        let tc = ca;
        let ts = sa;
        ca = cb;
        sa = sb;
        cb = tc;
        sb = ts;
    }
    let mut r: Vec<usize> = Vec::new();
    r.push(ca);
    r.push(cb);
    r.push(cc);
    proof {
        assert(columns@.contains(r@[0]));
        assert(columns@.contains(r@[1]));
        assert(columns@.contains(r@[2]));
        assert forall|c: usize| columns@.contains(c) implies r@.contains(c) by {
            let k = choose|k: int| 0 <= k < columns@.len() && columns@[k] == c;
            assert(c == ca || c == cb || c == cc);
            if c == ca {
                assert(r@[0] == c);
            } else if c == cb {
                assert(r@[1] == c);
            } else {
                assert(r@[2] == c);
            }
        }
    }
    r
}

/// The combined ordering key for one column, in millipoints.
fn profile_key(
    state: &GameState,
    col: usize,
    die: u8,
    player: Player,
    profile: &OpponentProfile,
) -> (r: i64)
    requires
        state.wf(),
        profile.wf(),
        col < 3,
        1 <= die <= 6,
    ensures
        r as int == spec_profile_key(*state, col as int, die, player, *profile),
{
    let quick = evaluate_move_quick(state, col, die, player);
    let bonus = profile.get_column_attack_bonus(col);
    quick * 1000 + bonus * PROFILE_BONUS_MULTIPLIER
}

/// Signed truncating division by 6, as the chance node averages values.
fn div6(v: i64) -> (r: i64)
    requires
        -MAX_EVAL_MP <= v <= MAX_EVAL_MP,
    ensures
        -1_666_666 <= r <= 1_666_666,
        r as int == spec_div6(v as int),
{
    if v >= 0 {
        (v as u64 / 6) as i64
    } else {
        let q = ((-v) as u64 / 6) as i64;
        -q
    }
}

/// A maximizing node: the searching player to move. Exhausted depth, a
/// terminal or aborted position evaluates directly; a rolling phase defers
/// to the chance node; otherwise the best child value is backed up and
/// cached.
#[verifier::rlimit(100)]
pub fn max_node(
    state: &GameState,
    depth: u32,
    player: Player,
    player_config: &DifficultyConfig,
    opponent_config: &DifficultyConfig,
    ctx: &mut SearchContext,
    rng: &mut Rng,
) -> (r: i64)
    requires
        state.wf(),
        player_config.valid(),
        opponent_config.valid(),
        old(ctx).wf(),
    ensures
        final(ctx).wf(),
        final(ctx).max_nodes == old(ctx).max_nodes,
        final(ctx).use_adversarial == old(ctx).use_adversarial,
        final(ctx).time_budget_ms == old(ctx).time_budget_ms,
        final(ctx).start_ms == old(ctx).start_ms,
        -MAX_EVAL_MP <= r <= MAX_EVAL_MP,
        (state.phase == GamePhase::Ended || depth == 0 || spec_cut(*old(ctx))) ==> r as int
            == spec_evaluate(*state, player, *player_config) && final(ctx).tt == old(ctx).tt
            && final(ctx).nodes_explored == old(ctx).nodes_explored.saturating_add(1),
        final(ctx).nodes_explored >= old(ctx).nodes_explored,
        old(ctx).time_budget_ms == 0 ==> final(ctx).aborted == old(ctx).aborted,
        spec_fresh_d1(*state, depth, *old(ctx)) ==> r as int == spec_best_value_d1(
            *state,
            player,
            *player_config,
        ),
    decreases depth, phase_rank(*state), 1int,
{
    let ghost fresh = spec_fresh_d1(*state, depth, *old(ctx));
    ctx.bump();
    if ctx.aborted || ctx.nodes_explored > ctx.max_nodes || matches!(
        state.phase,
        GamePhase::Ended,
    ) || depth == 0 {
        return evaluate(state, player, player_config);
    }
    if matches!(state.phase, GamePhase::Rolling) {
        return chance_node(state, depth, player, player_config, opponent_config, ctx, rng);
    }
    let hash = hash_state(state, depth, ROLE_MAX);
    match ctx.tt.get(&hash) {
        Some(entry) => {
            if entry.depth >= depth {
                proof {
                    if fresh {
                        assert(old(ctx).tt@.contains_key(hash));
                        assert(false);
                    }
                }
                return entry.value;
            }
        },
        None => {},
    }
    let legal = legal_columns(state);
    if legal.len() == 0 {
        proof {
            if fresh {
                assert forall|c: int| 0 <= c < 3 implies col_full(state.my_grid()@, c) by {
                    if !col_full(state.my_grid()@, c) {
                        assert(legal@.contains(c as usize));
                    }
                }
                lemma_d1_no_open(state, player, *player_config);
            }
        }
        return evaluate(state, player, player_config);
    }
    let ordered = order_moves(state, &legal, player);
    let mut max_value: i64 = i64::MIN;
    let mut i: usize = 0;
    while i < ordered.len()
        invariant
            state.wf(),
            player_config.valid(),
            opponent_config.valid(),
            ctx.wf(),
            ctx.max_nodes == old(ctx).max_nodes,
            ctx.use_adversarial == old(ctx).use_adversarial,
            ctx.time_budget_ms == old(ctx).time_budget_ms,
            ctx.start_ms == old(ctx).start_ms,
            ctx.nodes_explored >= old(ctx).nodes_explored,
            old(ctx).time_budget_ms == 0 ==> ctx.aborted == old(ctx).aborted,
            matches!(state.phase, GamePhase::Placing),
            depth >= 1,
            i <= ordered@.len(),
            ordered@.len() <= 3,
            forall|k: int| 0 <= k < ordered@.len() ==> #[trigger] ordered@[k] < 3 && !col_full(
                state.my_grid()@,
                ordered@[k] as int,
            ),
            i == 0 ==> max_value == i64::MIN,
            i >= 1 ==> -MAX_EVAL_MP <= max_value <= MAX_EVAL_MP,
            fresh == spec_fresh_d1(*state, depth, *old(ctx)),
            fresh ==> !ctx.aborted && ctx.nodes_explored <= old(ctx).nodes_explored + 1 + 7 * i,
            fresh ==> forall|k: int|
                0 <= k < i ==> max_value as int >= spec_child_value_d1(
                    *state,
                    #[trigger] ordered@[k] as int,
                    player,
                    *player_config,
                ),
            fresh ==> (i >= 1 ==> exists|k: int|
                0 <= k < i && max_value as int == spec_child_value_d1(
                    *state,
                    #[trigger] ordered@[k] as int,
                    player,
                    *player_config,
                )),
        decreases ordered@.len() - i,
    {
        let col = ordered[i];
        match apply_move(state, col) {
            Some(new_state) => {
                let value = if matches!(new_state.phase, GamePhase::Ended) {
                    evaluate(&new_state, player, player_config)
                } else {
                    chance_node(
                        &new_state,
                        depth - 1,
                        player,
                        player_config,
                        opponent_config,
                        ctx,
                        rng,
                    )
                };
                proof {
                    if fresh {
                        lemma_child_value_d1(state, col as int, &new_state, player, *player_config);
                        assert(value as int == spec_child_value_d1(
                            *state,
                            col as int,
                            player,
                            *player_config,
                        ));
                    }
                }
                if value > max_value {
                    max_value = value;
                    proof {
                        if fresh {
                            assert(max_value as int == spec_child_value_d1(
                                *state,
                                ordered@[i as int] as int,
                                player,
                                *player_config,
                            ));
                        }
                    }
                } else {
                    proof {
                        if fresh {
                            let k0 = choose|k: int|
                                0 <= k < i && max_value as int == spec_child_value_d1(
                                    *state,
                                    ordered@[k] as int,
                                    player,
                                    *player_config,
                                );
                            assert(0 <= k0 < i + 1 && max_value as int == spec_child_value_d1(
                                *state,
                                ordered@[k0] as int,
                                player,
                                *player_config,
                            ));
                        }
                    }
                }
            },
            None => {},
        }
        i = i + 1;
    }
    proof {
        if fresh {
            let my = state.my_grid()@;
            if !col_full(my, 0) {
                assert(legal@.contains(0usize));
                assert(ordered@.contains(0usize));
                let k = choose|k: int| 0 <= k < ordered@.len() && ordered@[k] == 0usize;
                assert(max_value as int >= spec_child_value_d1(*state, 0, player, *player_config));
            }
            if !col_full(my, 1) {
                assert(legal@.contains(1usize));
                assert(ordered@.contains(1usize));
                let k = choose|k: int| 0 <= k < ordered@.len() && ordered@[k] == 1usize;
                assert(max_value as int >= spec_child_value_d1(*state, 1, player, *player_config));
            }
            if !col_full(my, 2) {
                assert(legal@.contains(2usize));
                assert(ordered@.contains(2usize));
                let k = choose|k: int| 0 <= k < ordered@.len() && ordered@[k] == 2usize;
                assert(max_value as int >= spec_child_value_d1(*state, 2, player, *player_config));
            }
            let k0 = choose|k: int|
                0 <= k < ordered@.len() && max_value as int == spec_child_value_d1(
                    *state,
                    ordered@[k] as int,
                    player,
                    *player_config,
                );
            let c0 = ordered@[k0];
            assert(c0 < 3 && !col_full(my, c0 as int));
            lemma_best_from_bounds(state, player, *player_config, max_value as int, c0 as int);
        }
    }
    if ctx.tt.len() < TT_MAX_ENTRIES {
        ctx.tt.insert(hash, TTEntry { depth, value: max_value });
    }
    max_value
}

/// A minimizing node with a truly adversarial opponent: the structural
/// mirror of the maximizing node, backing up the worst child value for the
/// searching player, with its own table role.
#[verifier::rlimit(100)]
pub fn min_node_adversarial(
    state: &GameState,
    depth: u32,
    player: Player,
    player_config: &DifficultyConfig,
    opponent_config: &DifficultyConfig,
    ctx: &mut SearchContext,
    rng: &mut Rng,
) -> (r: i64)
    requires
        state.wf(),
        player_config.valid(),
        opponent_config.valid(),
        old(ctx).wf(),
    ensures
        final(ctx).wf(),
        final(ctx).max_nodes == old(ctx).max_nodes,
        final(ctx).use_adversarial == old(ctx).use_adversarial,
        final(ctx).time_budget_ms == old(ctx).time_budget_ms,
        final(ctx).start_ms == old(ctx).start_ms,
        -MAX_EVAL_MP <= r <= MAX_EVAL_MP,
        (state.phase == GamePhase::Ended || depth == 0 || spec_cut(*old(ctx))) ==> r as int
            == spec_evaluate(*state, player, *player_config) && final(ctx).tt == old(ctx).tt
            && final(ctx).nodes_explored == old(ctx).nodes_explored.saturating_add(1),
        final(ctx).nodes_explored >= old(ctx).nodes_explored,
        old(ctx).time_budget_ms == 0 ==> final(ctx).aborted == old(ctx).aborted,
        spec_fresh_d1(*state, depth, *old(ctx)) ==> r as int == spec_worst_value_d1(
            *state,
            player,
            *player_config,
        ),
    decreases depth, phase_rank(*state), 1int,
{
    let ghost fresh = spec_fresh_d1(*state, depth, *old(ctx));
    ctx.bump();
    if ctx.aborted || ctx.nodes_explored > ctx.max_nodes || matches!(
        state.phase,
        GamePhase::Ended,
    ) || depth == 0 {
        return evaluate(state, player, player_config);
    }
    if matches!(state.phase, GamePhase::Rolling) {
        return chance_node(state, depth, player, player_config, opponent_config, ctx, rng);
    }
    let hash = hash_state(state, depth, ROLE_MIN);
    match ctx.tt.get(&hash) {
        Some(entry) => {
            if entry.depth >= depth {
                proof {
                    if fresh {
                        assert(old(ctx).tt@.contains_key(hash));
                        assert(false);
                    }
                }
                return entry.value;
            }
        },
        None => {},
    }
    let legal = legal_columns(state);
    if legal.len() == 0 {
        proof {
            if fresh {
                assert forall|c: int| 0 <= c < 3 implies col_full(state.my_grid()@, c) by {
                    if !col_full(state.my_grid()@, c) {
                        assert(legal@.contains(c as usize));
                    }
                }
                lemma_d1_no_open(state, player, *player_config);
            }
        }
        return evaluate(state, player, player_config);
    }
    let ordered = order_moves(state, &legal, state.current_player);
    let mut min_value: i64 = i64::MAX;
    let mut i: usize = 0;
    while i < ordered.len()
        invariant
            state.wf(),
            player_config.valid(),
            opponent_config.valid(),
            ctx.wf(),
            ctx.max_nodes == old(ctx).max_nodes,
            ctx.use_adversarial == old(ctx).use_adversarial,
            ctx.time_budget_ms == old(ctx).time_budget_ms,
            ctx.start_ms == old(ctx).start_ms,
            ctx.nodes_explored >= old(ctx).nodes_explored,
            old(ctx).time_budget_ms == 0 ==> ctx.aborted == old(ctx).aborted,
            matches!(state.phase, GamePhase::Placing),
            depth >= 1,
            i <= ordered@.len(),
            ordered@.len() <= 3,
            forall|k: int| 0 <= k < ordered@.len() ==> #[trigger] ordered@[k] < 3 && !col_full(
                state.my_grid()@,
                ordered@[k] as int,
            ),
            i == 0 ==> min_value == i64::MAX,
            i >= 1 ==> -MAX_EVAL_MP <= min_value <= MAX_EVAL_MP,
            fresh == spec_fresh_d1(*state, depth, *old(ctx)),
            fresh ==> !ctx.aborted && ctx.nodes_explored <= old(ctx).nodes_explored + 1 + 7 * i,
            fresh ==> forall|k: int|
                0 <= k < i ==> min_value as int <= spec_child_value_d1(
                    *state,
                    #[trigger] ordered@[k] as int,
                    player,
                    *player_config,
                ),
            fresh ==> (i >= 1 ==> exists|k: int|
                0 <= k < i && min_value as int == spec_child_value_d1(
                    *state,
                    #[trigger] ordered@[k] as int,
                    player,
                    *player_config,
                )),
        decreases ordered@.len() - i,
    {
        let col = ordered[i];
        match apply_move(state, col) {
            Some(new_state) => {
                let value = if matches!(new_state.phase, GamePhase::Ended) {
                    evaluate(&new_state, player, player_config)
                } else {
                    chance_node(
                        &new_state,
                        depth - 1,
                        player,
                        player_config,
                        opponent_config,
                        ctx,
                        rng,
                    )
                };
                proof {
                    if fresh {
                        lemma_child_value_d1(state, col as int, &new_state, player, *player_config);
                        assert(value as int == spec_child_value_d1(
                            *state,
                            col as int,
                            player,
                            *player_config,
                        ));
                    }
                }
                if value < min_value {
                    min_value = value;
                    proof {
                        if fresh {
                            assert(min_value as int == spec_child_value_d1(
                                *state,
                                ordered@[i as int] as int,
                                player,
                                *player_config,
                            ));
                        }
                    }
                } else {
                    proof {
                        if fresh {
                            let k0 = choose|k: int|
                                0 <= k < i && min_value as int == spec_child_value_d1(
                                    *state,
                                    ordered@[k] as int,
                                    player,
                                    *player_config,
                                );
                            assert(0 <= k0 < i + 1 && min_value as int == spec_child_value_d1(
                                *state,
                                ordered@[k0] as int,
                                player,
                                *player_config,
                            ));
                        }
                    }
                }
            },
            None => {},
        }
        i = i + 1;
    }
    proof {
        if fresh {
            let my = state.my_grid()@;
            if !col_full(my, 0) {
                assert(legal@.contains(0usize));
                assert(ordered@.contains(0usize));
                let k = choose|k: int| 0 <= k < ordered@.len() && ordered@[k] == 0usize;
                assert(min_value as int <= spec_child_value_d1(*state, 0, player, *player_config));
            }
            if !col_full(my, 1) {
                assert(legal@.contains(1usize));
                assert(ordered@.contains(1usize));
                let k = choose|k: int| 0 <= k < ordered@.len() && ordered@[k] == 1usize;
                assert(min_value as int <= spec_child_value_d1(*state, 1, player, *player_config));
            }
            if !col_full(my, 2) {
                assert(legal@.contains(2usize));
                assert(ordered@.contains(2usize));
                let k = choose|k: int| 0 <= k < ordered@.len() && ordered@[k] == 2usize;
                assert(min_value as int <= spec_child_value_d1(*state, 2, player, *player_config));
            }
            let k0 = choose|k: int|
                0 <= k < ordered@.len() && min_value as int == spec_child_value_d1(
                    *state,
                    ordered@[k] as int,
                    player,
                    *player_config,
                );
            let c0 = ordered@[k0];
            assert(c0 < 3 && !col_full(my, c0 as int));
            lemma_worst_from_bounds(state, player, *player_config, min_value as int, c0 as int);
        }
    }
    if ctx.tt.len() < TT_MAX_ENTRIES {
        ctx.tt.insert(hash, TTEntry { depth, value: min_value });
    }
    min_value
}

/// A minimizing node with a modeled opponent: the opponent's move is
/// predicted from their own configuration — greedy at depth 0, random with
/// their randomness probability, otherwise their own bounded expectimax —
/// and the resulting position is backed up from the searching player's
/// perspective. If no move could be predicted, all legal replies are
/// minimized over as a defensive fallback.
#[verifier::rlimit(100)]
pub fn min_node_modeled(
    state: &GameState,
    depth: u32,
    player: Player,
    player_config: &DifficultyConfig,
    opponent_config: &DifficultyConfig,
    ctx: &mut SearchContext,
    rng: &mut Rng,
) -> (r: i64)
    requires
        state.wf(),
        player_config.valid(),
        opponent_config.valid(),
        old(ctx).wf(),
    ensures
        final(ctx).wf(),
        final(ctx).max_nodes == old(ctx).max_nodes,
        final(ctx).use_adversarial == old(ctx).use_adversarial,
        final(ctx).time_budget_ms == old(ctx).time_budget_ms,
        final(ctx).start_ms == old(ctx).start_ms,
        -MAX_EVAL_MP <= r <= MAX_EVAL_MP,
        (state.phase == GamePhase::Ended || depth == 0 || spec_cut(*old(ctx))) ==> r as int
            == spec_evaluate(*state, player, *player_config) && final(ctx).tt == old(ctx).tt
            && final(ctx).nodes_explored == old(ctx).nodes_explored.saturating_add(1),
        final(ctx).nodes_explored >= old(ctx).nodes_explored,
        old(ctx).time_budget_ms == 0 ==> final(ctx).aborted == old(ctx).aborted,
        (spec_fresh_d1(*state, depth, *old(ctx)) && opponent_config.depth == 0 && !(col_full(
            state.my_grid()@,
            0,
        ) && col_full(state.my_grid()@, 1) && col_full(state.my_grid()@, 2))) ==> r as int
            == spec_child_value_d1(*state, spec_greedy_opp_col(*state), player, *player_config),
        ({
            let cols = spec_open_cols(*state);
            (spec_fresh_d1(*state, depth, *old(ctx)) && opponent_config.depth > 0
                && opponent_config.randomness > 0 && spec_draw(old(rng)@) % 1000
                < opponent_config.randomness as u64 && cols.len() > 0) ==> r as int
                == spec_child_value_d1(
                *state,
                cols[(spec_draw(spec_advance(old(rng)@)) % (cols.len() as u64)) as int] as int,
                player,
                *player_config,
            )
        }),
    decreases depth, phase_rank(*state), 1int,
{
    let ghost fresh = spec_fresh_d1(*state, depth, *old(ctx)) && opponent_config.depth == 0;
    ctx.bump();
    if ctx.aborted || ctx.nodes_explored > ctx.max_nodes || matches!(
        state.phase,
        GamePhase::Ended,
    ) || depth == 0 {
        return evaluate(state, player, player_config);
    }
    if matches!(state.phase, GamePhase::Rolling) {
        return chance_node(state, depth, player, player_config, opponent_config, ctx, rng);
    }
    let legal = legal_columns(state);
    if legal.len() == 0 {
        proof {
            if fresh {
                assert forall|c: int| 0 <= c < 3 implies col_full(state.my_grid()@, c) by {
                    if !col_full(state.my_grid()@, c) {
                        assert(legal@.contains(c as usize));
                    }
                }
            }
        }
        return evaluate(state, player, player_config);
    }
    let opponent = state.current_player;
    let opponent_move: Option<usize> = if opponent_config.depth == 0 {
        match state.current_die {
            Some(die_value) => {
                let mut best_col = legal[0];
                let mut best_score = evaluate_move_quick(state, best_col, die_value, opponent);
                proof {
                    assert(legal@.take(1)[0] == legal@[0]);
                }
                let mut i: usize = 1;
                while i < legal.len()
                    invariant
                        state.wf(),
                        matches!(state.phase, GamePhase::Placing),
                        state.current_die == Some(die_value),
                        opponent == state.current_player,
                        1 <= die_value <= 6,
                        1 <= i <= legal@.len(),
                        legal@.len() >= 1,
                        forall|k: int| 0 <= k < legal@.len() ==> #[trigger] legal@[k] < 3
                            && !col_full(state.my_grid()@, legal@[k] as int),
                        forall|a: int, b: int| 0 <= a < b < legal@.len() ==> legal@[a] < legal@[b],
                        best_col < 3,
                        !col_full(state.my_grid()@, best_col as int),
                        legal@.take(i as int).contains(best_col),
                        -108 <= best_score <= 108,
                        best_score == spec_move_quick(*state, best_col as int, die_value, opponent),
                        forall|k: int| 0 <= k < i ==> spec_move_quick(
                            *state,
                            #[trigger] legal@[k] as int,
                            die_value,
                            opponent,
                        ) <= best_score,
                        forall|k: int| 0 <= k < i && legal@[k] < best_col ==> spec_move_quick(
                            *state,
                            #[trigger] legal@[k] as int,
                            die_value,
                            opponent,
                        ) < best_score,
                    decreases legal@.len() - i,
                {
                    let col = legal[i];
                    let score = evaluate_move_quick(state, col, die_value, opponent);
                    if score > best_score {
                        best_score = score;
                        best_col = col;
                        proof {
                            assert(legal@.take(i as int + 1)[i as int] == col);
                        }
                    } else {
                        proof {
                            assert(legal@.take(i as int) =~= legal@.take(i as int + 1).take(
                                i as int,
                            ));
                            assert(legal@.take(i as int + 1).contains(best_col)) by {
                                let k = choose|k: int|
                                    0 <= k < i && legal@.take(i as int)[k] == best_col;
                                assert(legal@.take(i as int + 1)[k] == best_col);
                            }
                        }
                    }
                    i = i + 1;
                }
                proof {
                    if fresh {
                        assert(legal@.take(legal@.len() as int) =~= legal@);
                        if !col_full(state.my_grid()@, 0) {
                            assert(legal@.contains(0usize));
                            let k = choose|k: int| 0 <= k < legal@.len() && legal@[k] == 0usize;
                        }
                        if !col_full(state.my_grid()@, 1) {
                            assert(legal@.contains(1usize));
                            let k = choose|k: int| 0 <= k < legal@.len() && legal@[k] == 1usize;
                        }
                        if !col_full(state.my_grid()@, 2) {
                            assert(legal@.contains(2usize));
                            let k = choose|k: int| 0 <= k < legal@.len() && legal@[k] == 2usize;
                        }
                        lemma_greedy_col(state, best_col as int);
                    }
                }
                Some(best_col)
            },
            None => None,
        }
    } else if opponent_config.randomness > 0 && rng.next_below(1000) < opponent_config.randomness {
        let idx = rng.next_below(legal.len() as u32) as usize;
        proof {
            lemma_legal_cols(state, &legal);
        }
        Some(legal[idx])
    } else {
        let opponent_search_depth = if opponent_config.depth < depth {
            opponent_config.depth
        } else {
            depth
        };
        let limited_opponent_config = DifficultyConfig {
            depth: opponent_search_depth,
            ..*opponent_config
        };
        let ordered = order_moves(state, &legal, opponent);
        let mut best_move: Option<usize> = None;
        let mut best_value: i64 = i64::MIN;
        let mut i: usize = 0;
        while i < ordered.len()
            invariant
                state.wf(),
                player_config.valid(),
                opponent_config.valid(),
                limited_opponent_config.valid(),
                limited_opponent_config.depth == opponent_search_depth,
                1 <= opponent_search_depth <= depth,
                ctx.wf(),
                ctx.max_nodes == old(ctx).max_nodes,
                ctx.use_adversarial == old(ctx).use_adversarial,
                ctx.time_budget_ms == old(ctx).time_budget_ms,
                ctx.start_ms == old(ctx).start_ms,
                ctx.nodes_explored >= old(ctx).nodes_explored,
                old(ctx).time_budget_ms == 0 ==> ctx.aborted == old(ctx).aborted,
                matches!(state.phase, GamePhase::Placing),
                depth >= 1,
                i <= ordered@.len(),
                forall|k: int| 0 <= k < ordered@.len() ==> #[trigger] ordered@[k] < 3 && !col_full(
                    state.my_grid()@,
                    ordered@[k] as int,
                ),
                match best_move {
                    Some(c) => c < 3 && !col_full(state.my_grid()@, c as int),
                    None => true,
                },
            decreases ordered@.len() - i,
        {
            let col = ordered[i];
            match apply_move(state, col) {
                Some(new_state) => {
                    let value = if matches!(new_state.phase, GamePhase::Ended) {
                        evaluate(&new_state, opponent, &limited_opponent_config)
                    } else {
                        chance_node(
                            &new_state,
                            opponent_search_depth - 1,
                            opponent,
                            &limited_opponent_config,
                            player_config,
                            ctx,
                            rng,
                        )
                    };
                    if value > best_value {
                        best_value = value;
                        best_move = Some(col);
                    }
                },
                None => {},
            }
            i = i + 1;
        }
        best_move
    };
    match opponent_move {
        Some(opp_col) => {
            if opp_col < 3 {
                match apply_move(state, opp_col) {
                    Some(new_state) => {
                        let value = if matches!(new_state.phase, GamePhase::Ended) {
                            evaluate(&new_state, player, player_config)
                        } else {
                            chance_node(
                                &new_state,
                                depth - 1,
                                player,
                                player_config,
                                opponent_config,
                                ctx,
                                rng,
                            )
                        };
                        proof {
                            if spec_fresh_d1(*state, depth, *old(ctx)) {
                                lemma_child_value_d1(
                                    state,
                                    opp_col as int,
                                    &new_state,
                                    player,
                                    *player_config,
                                );
                            }
                        }
                        return value;
                    },
                    None => {},
                }
            }
        },
        None => {},
    }
    let mut min_value: i64 = i64::MAX;
    let mut i: usize = 0;
    while i < legal.len()
        invariant
            state.wf(),
            player_config.valid(),
            opponent_config.valid(),
            ctx.wf(),
            ctx.max_nodes == old(ctx).max_nodes,
            ctx.use_adversarial == old(ctx).use_adversarial,
            ctx.time_budget_ms == old(ctx).time_budget_ms,
            ctx.start_ms == old(ctx).start_ms,
            ctx.nodes_explored >= old(ctx).nodes_explored,
            old(ctx).time_budget_ms == 0 ==> ctx.aborted == old(ctx).aborted,
            matches!(state.phase, GamePhase::Placing),
            depth >= 1,
            i <= legal@.len(),
            legal@.len() >= 1,
            forall|k: int| 0 <= k < legal@.len() ==> #[trigger] legal@[k] < 3 && !col_full(
                state.my_grid()@,
                legal@[k] as int,
            ),
            i == 0 ==> min_value == i64::MAX,
            i >= 1 ==> -MAX_EVAL_MP <= min_value <= MAX_EVAL_MP,
        decreases legal@.len() - i,
    {
        let col = legal[i];
        match apply_move(state, col) {
            Some(new_state) => {
                let value = if matches!(new_state.phase, GamePhase::Ended) {
                    evaluate(&new_state, player, player_config)
                } else {
                    chance_node(
                        &new_state,
                        depth - 1,
                        player,
                        player_config,
                        opponent_config,
                        ctx,
                        rng,
                    )
                };
                if value < min_value {
                    min_value = value;
                }
            },
            None => {},
        }
        i = i + 1;
    }
    min_value
}

/// A chance node: in the rolling phase every die face branches with equal
/// weight and the six child values are averaged; in any other phase it
/// passes straight through to the maximizing or minimizing node of whoever
/// is to move.
pub fn chance_node(
    state: &GameState,
    depth: u32,
    player: Player,
    player_config: &DifficultyConfig,
    opponent_config: &DifficultyConfig,
    ctx: &mut SearchContext,
    rng: &mut Rng,
) -> (r: i64)
    requires
        state.wf(),
        player_config.valid(),
        opponent_config.valid(),
        old(ctx).wf(),
    ensures
        final(ctx).wf(),
        final(ctx).max_nodes == old(ctx).max_nodes,
        final(ctx).use_adversarial == old(ctx).use_adversarial,
        final(ctx).time_budget_ms == old(ctx).time_budget_ms,
        final(ctx).start_ms == old(ctx).start_ms,
        -MAX_EVAL_MP <= r <= MAX_EVAL_MP,
        (state.phase == GamePhase::Ended || spec_cut(*old(ctx))) ==> r as int == spec_evaluate(
            *state,
            player,
            *player_config,
        ),
        (state.phase != GamePhase::Rolling && depth == 0) ==> r as int == spec_evaluate(
            *state,
            player,
            *player_config,
        ),
        (state.phase == GamePhase::Rolling && depth == 0 && old(ctx).time_budget_ms == 0
            && !spec_cut(*old(ctx))) ==> r as int == 6 * spec_div6(
            spec_eval_nonterm(*state, player, *player_config),
        ) && final(ctx).tt == old(ctx).tt && final(ctx).nodes_explored <= old(
            ctx,
        ).nodes_explored + 7,
        final(ctx).nodes_explored >= old(ctx).nodes_explored,
        old(ctx).time_budget_ms == 0 ==> final(ctx).aborted == old(ctx).aborted,
    decreases depth, 3int, 0int,
{
    ctx.bump();
    if ctx.aborted || ctx.nodes_explored > ctx.max_nodes {
        return evaluate(state, player, player_config);
    }
    if !matches!(state.phase, GamePhase::Rolling) {
        let same = matches!(state.current_player, Player::Player1) == matches!(
            player,
            Player::Player1,
        );
        if same {
            return max_node(state, depth, player, player_config, opponent_config, ctx, rng);
        } else if ctx.use_adversarial {
            return min_node_adversarial(
                state,
                depth,
                player,
                player_config,
                opponent_config,
                ctx,
                rng,
            );
        } else {
            return min_node_modeled(
                state,
                depth,
                player,
                player_config,
                opponent_config,
                ctx,
                rng,
            );
        }
    }
    let mut total_value: i64 = 0;
    let mut die_value: u8 = 1;
    while die_value <= 6
        invariant
            state.wf(),
            player_config.valid(),
            opponent_config.valid(),
            ctx.wf(),
            ctx.max_nodes == old(ctx).max_nodes,
            ctx.use_adversarial == old(ctx).use_adversarial,
            ctx.time_budget_ms == old(ctx).time_budget_ms,
            ctx.start_ms == old(ctx).start_ms,
            ctx.nodes_explored >= old(ctx).nodes_explored,
            old(ctx).time_budget_ms == 0 ==> ctx.aborted == old(ctx).aborted,
            matches!(state.phase, GamePhase::Rolling),
            1 <= die_value <= 7,
            -(die_value - 1) * 1_666_666 <= total_value <= (die_value - 1) * 1_666_666,
            (depth == 0 && old(ctx).time_budget_ms == 0 && !spec_cut(*old(ctx))) ==> ctx.tt == old(
                ctx,
            ).tt && !ctx.aborted && ctx.nodes_explored <= old(ctx).nodes_explored + die_value
                && total_value as int == (die_value - 1) * spec_div6(
                spec_eval_nonterm(*state, player, *player_config),
            ),
        decreases 7 - die_value,
    {
        let rolled_state = roll_die(state, die_value);
        proof {
            if depth == 0 && old(ctx).time_budget_ms == 0 && !spec_cut(*old(ctx)) {
                assert(spec_evaluate(rolled_state, player, *player_config) == spec_eval_nonterm(
                    *state,
                    player,
                    *player_config,
                ));
            }
        }
        let same = matches!(rolled_state.current_player, Player::Player1) == matches!(
            player,
            Player::Player1,
        );
        let value = if same {
            max_node(&rolled_state, depth, player, player_config, opponent_config, ctx, rng)
        } else if ctx.use_adversarial {
            min_node_adversarial(
                &rolled_state,
                depth,
                player,
                player_config,
                opponent_config,
                ctx,
                rng,
            )
        } else {
            min_node_modeled(
                &rolled_state,
                depth,
                player,
                player_config,
                opponent_config,
                ctx,
                rng,
            )
        };
        total_value = total_value + div6(value);
        proof {
            if depth == 0 && old(ctx).time_budget_ms == 0 && !spec_cut(*old(ctx)) {
                let x = spec_div6(spec_eval_nonterm(*state, player, *player_config));
                let d = die_value as int;
                assert(d * x == (d - 1) * x + x) by (nonlinear_arith);
            }
        }
        die_value = die_value + 1;
    }
    total_value
}

} // verus!
