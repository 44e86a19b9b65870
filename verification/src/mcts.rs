use vstd::prelude::*;

use crate::clock::now_ms;
use crate::eval::DifficultyConfig;
use crate::eval::evaluate_advanced;
use crate::net::PolicyValueNetwork;
use crate::rng::Rng;
use crate::state::GamePhase;
use crate::state::GameState;
use crate::state::Player;
use crate::state::apply_move;
use crate::state::legal_columns;
use crate::state::roll_die;

verus! {

/// Exploration constant of the PUCT rule, in permille: 1.5.
pub const C_PUCT_PM: i64 = 1500;

/// Simulations run when no time budget is given.
pub const DEFAULT_SIMULATIONS: u64 = 800;

/// Hard cap on iterations of a time-bounded run.
pub const MCTS_ITER_CAP: u64 = 0x1_0000_0000;

/// Node visit counts saturate here, keeping every value sum within bounds.
pub const VISIT_CAP: u64 = 0x100_0000_0000;

/// One edge of the tree: the column played and the child node it leads to.
#[derive(Clone, Copy, Debug)]
pub struct MctsChild {
    pub col: usize,
    pub node: usize,
}

/// The search tree, nodes in one arena indexed by position: per node the
/// visit count, the accumulated value (millis, always from the root
/// player's perspective), the prior (permille), the player to move, the
/// expansion flag and the child edges keyed by column. Children always sit
/// after their parent in the arena. The tree is rebuilt from scratch for
/// every decision.
pub struct MctsTree {
    pub visits: Vec<u64>,
    pub value_sum: Vec<i64>,
    pub prior: Vec<u32>,
    pub player: Vec<Player>,
    pub expanded: Vec<bool>,
    pub children: Vec<Vec<MctsChild>>,
}

impl MctsTree {
    /// Number of nodes.
    pub open spec fn len(self) -> int {
        self.visits@.len() as int
    }

    /// One node's structural validity: edges point strictly forward into
    /// the arena at in-range columns.
    pub open spec fn node_wf(self, i: int) -> bool {
        &&& forall|k: int| 0 <= k < self.children@[i]@.len() ==> i
            < (#[trigger] self.children@[i]@[k]).node < self.len()
            && self.children@[i]@[k].col < 3
        &&& self.visits@[i] <= VISIT_CAP
        &&& -1000 * self.visits@[i] <= self.value_sum@[i] <= 1000 * self.visits@[i]
    }

    /// Validity of the whole arena.
    pub open spec fn wf(self) -> bool {
        &&& self.value_sum@.len() == self.len()
        &&& self.prior@.len() == self.len()
        &&& self.player@.len() == self.len()
        &&& self.expanded@.len() == self.len()
        &&& self.children@.len() == self.len()
        &&& forall|i: int| 0 <= i < self.len() ==> #[trigger] self.node_wf(i)
    }

    /// A tree holding only an unexpanded root for the given mover.
    pub fn new(root_player: Player) -> (t: MctsTree)
        ensures
            t.wf(),
            t.len() == 1,
    {
        let t = MctsTree {
            visits: vec![0u64],
            value_sum: vec![0i64],
            prior: vec![1000u32],
            player: vec![root_player],
            expanded: vec![false],
            children: vec![Vec::new()],
        };
        proof {
            assert(t.children@[0]@.len() == 0);
            assert forall|i: int| 0 <= i < t.len() implies #[trigger] t.node_wf(i) by {
                assert(i == 0);
            }
        }
        t
    }

    /// Adds one fresh unexpanded node and returns its index.
    fn push_node(&mut self, prior: u32, player: Player) -> (i: usize)
        requires
            old(self).wf(),
        ensures
            final(self).wf(),
            final(self).len() == old(self).len() + 1,
            i as int == old(self).len(),
            final(self).visits@ == old(self).visits@.push(0),
            final(self).value_sum@ == old(self).value_sum@.push(0),
            final(self).prior@ == old(self).prior@.push(prior),
            final(self).player@ == old(self).player@.push(player),
            final(self).expanded@ == old(self).expanded@.push(false),
            final(self).children@.len() == old(self).children@.len() + 1,
            forall|j: int| 0 <= j < old(self).len() ==> final(self).children@[j]
                == old(self).children@[j],
            final(self).children@[old(self).len()]@.len() == 0,
    {
        let i = self.visits.len();
        self.visits.push(0);
        self.value_sum.push(0);
        self.prior.push(prior);
        self.player.push(player);
        self.expanded.push(false);
        self.children.push(Vec::new());
        proof {
            assert forall|j: int| 0 <= j < self.len() implies #[trigger] self.node_wf(j) by {
                if j < old(self).len() {
                    assert(old(self).node_wf(j));
                    assert(self.children@[j] == old(self).children@[j]);
                } else {
                    assert(self.children@[j]@.len() == 0);
                }
            }
        }
        i
    }

    /// Credits one visit of node `i` with a root-perspective value; counts
    /// saturate at the visit cap so sums stay in range.
    fn record_visit(&mut self, i: usize, v: i64)
        requires
            old(self).wf(),
            i < old(self).len(),
            -1000 <= v <= 1000,
        ensures
            final(self).wf(),
            final(self).len() == old(self).len(),
            final(self).children@ == old(self).children@,
    {
        let visits = self.visits[i];
        if visits < VISIT_CAP {
            proof {
                assert(old(self).node_wf(i as int));
            }
            let sum = self.value_sum[i];
            self.visits.set(i, visits + 1);
            self.value_sum.set(i, sum + v);
        }
        proof {
            assert forall|j: int| 0 <= j < self.len() implies #[trigger] self.node_wf(j) by {
                assert(old(self).node_wf(j));
                assert(self.children@[j] == old(self).children@[j]);
            }
        }
    }
}

/// Integer square root: the greatest `r` with `r * r <= x`.
fn isqrt(x: u64) -> (r: u64)
    ensures
        r as int * r as int <= x as int,
        (r as int + 1) * (r as int + 1) > x as int,
{
    if x >= 0xFFFF_FFFE_0000_0001 {
        return 0xFFFF_FFFF;
    }
    let mut lo: u64 = 0;
    let mut hi: u64 = 0x1_0000_0000;
    while lo + 1 < hi
        invariant
            lo < hi <= 0x1_0000_0000,
            lo as int * lo as int <= x as int,
            hi as int * hi as int > x as int,
        decreases hi - lo,
    {
        let mid = lo + (hi - lo) / 2;
        proof {
            assert(mid as int * mid as int <= 0xFFFF_FFFE_0000_0001) by (nonlinear_arith)
                requires
                    mid as int <= 0xFFFF_FFFF,
            ;
        }
        if mid * mid <= x {
            lo = mid;
        } else {
            hi = mid;
        }
    }
    lo
}

/// The advanced evaluation for `player`, normalized into [-1000, 1000]
/// millis: decisive terminal values saturate to the ends of the range.
fn normalized_eval(state: &GameState, player: Player, cfg: &DifficultyConfig) -> (v: i64)
    requires
        state.wf(),
        cfg.valid(),
    ensures
        -1000 <= v <= 1000,
{
    let e = evaluate_advanced(state, player, cfg);
    if e > 1000 {
        1000
    } else if e < -1000 {
        -1000
    } else {
        e
    }
}

/// One simulation from node `idx` with the given state snapshot: terminal
/// states evaluate directly; a rolling phase samples a single die face and
/// continues in the same node (chance is sampled, not branched); an
/// unexpanded node grows one child per legal column (network priors when a
/// network is given, else uniform) and takes its rollout value from the
/// network or the evaluator; otherwise the PUCT-best child is followed.
/// The returned value is from the root player's perspective and is
/// credited to every node along the path.
#[verifier::rlimit(100)]
fn mcts_iterate(
    t: &mut MctsTree,
    idx: usize,
    state: GameState,
    root_player: Player,
    rng: &mut Rng,
    net: Option<&PolicyValueNetwork>,
    cfg: &DifficultyConfig,
) -> (v: i64)
    requires
        old(t).wf(),
        idx < old(t).len(),
        state.wf(),
        cfg.valid(),
        match net {
            Some(n) => n.wf(),
            None => true,
        },
    ensures
        final(t).wf(),
        final(t).len() >= old(t).len(),
        -1000 <= v <= 1000,
    decreases t.len() - idx, (if state.phase == GamePhase::Rolling {
        1int
    } else {
        0int
    }),
{
    if matches!(state.phase, GamePhase::Ended) {
        let v = normalized_eval(&state, root_player, cfg);
        t.record_visit(idx, v);
        return v;
    }
    if matches!(state.phase, GamePhase::Rolling) {
        let die = 1 + rng.next_below(6) as u8;
        let rolled = roll_die(&state, die);
        return mcts_iterate(t, idx, rolled, root_player, rng, net, cfg);
    }
    let expanded = self_expanded(t, idx);
    if !expanded {
        let legal = legal_columns(&state);
        if legal.len() == 0 {
            let v = normalized_eval(&state, root_player, cfg);
            t.record_visit(idx, v);
            return v;
        }
        let priors = child_priors(&state, &legal, net);
        let next_player = state.current_player.other();
        let base = t.visits.len();
        let mut edges: Vec<MctsChild> = Vec::new();
        let mut k: usize = 0;
        while k < legal.len()
            invariant
                t.wf(),
                idx < t.len(),
                t.len() == base + k,
                base > idx,
                k <= legal@.len(),
                legal@.len() <= 3,
                priors@.len() == legal@.len(),
                forall|m: int| 0 <= m < priors@.len() ==> #[trigger] priors@[m] <= 1000,
                forall|m: int| 0 <= m < legal@.len() ==> #[trigger] legal@[m] < 3,
                edges@.len() == k,
                forall|m: int| 0 <= m < k ==> idx < (#[trigger] edges@[m]).node < t.len()
                    && edges@[m].col < 3,
            decreases legal@.len() - k,
        {
            let node = t.push_node(priors[k], next_player);
            edges.push(MctsChild { col: legal[k], node });
            k = k + 1;
        }
        set_children(t, idx, edges);
        let v = match net {
            Some(n) => {
                let (_, val) = n.forward(&state);
                if matches!(state.current_player, Player::Player1) == matches!(
                    root_player,
                    Player::Player1,
                ) {
                    val
                } else {
                    -val
                }
            },
            None => normalized_eval(&state, root_player, cfg),
        };
        t.record_visit(idx, v);
        return v;
    }
    let choice = select_child(t, idx, root_player);
    match choice {
        Some(edge) => {
            match apply_move(&state, edge.col) {
                Some(new_state) => {
                    let v = mcts_iterate(t, edge.node, new_state, root_player, rng, net, cfg);
                    t.record_visit(idx, v);
                    v
                },
                None => {
                    let v = normalized_eval(&state, root_player, cfg);
                    t.record_visit(idx, v);
                    v
                },
            }
        },
        None => {
            let v = normalized_eval(&state, root_player, cfg);
            t.record_visit(idx, v);
            v
        },
    }
}

/// Number of child edges of node `i`.
fn edge_count(t: &MctsTree, i: usize) -> (n: usize)
    requires
        t.wf(),
        i < t.len(),
    ensures
        n == t.children@[i as int]@.len(),
{
    t.children[i].len()
}

/// One child edge of node `i`.
fn edge_at(t: &MctsTree, i: usize, k: usize) -> (e: MctsChild)
    requires
        t.wf(),
        i < t.len(),
        k < t.children@[i as int]@.len(),
    ensures
        e == t.children@[i as int]@[k as int],
        i < e.node < t.len(),
        e.col < 3,
{
    proof {
        assert(t.node_wf(i as int));
    }
    t.children[i][k]
}

/// Whether node `idx` has been expanded.
fn self_expanded(t: &MctsTree, idx: usize) -> (r: bool)
    requires
        t.wf(),
        idx < t.len(),
    ensures
        r == t.expanded@[idx as int],
{
    t.expanded[idx]
}

/// Replaces the child edges of node `idx`, which must point strictly
/// forward, and marks it expanded.
fn set_children(t: &mut MctsTree, idx: usize, edges: Vec<MctsChild>)
    requires
        old(t).wf(),
        idx < old(t).len(),
        forall|m: int| 0 <= m < edges@.len() ==> idx < (#[trigger] edges@[m]).node < old(t).len()
            && edges@[m].col < 3,
    ensures
        final(t).wf(),
        final(t).len() == old(t).len(),
{
    t.children.set(idx, edges);
    t.expanded.set(idx, true);
    proof {
        assert forall|j: int| 0 <= j < t.len() implies #[trigger] t.node_wf(j) by {
            assert(old(t).node_wf(j));
            if j != idx {
                assert(t.children@[j] == old(t).children@[j]);
            }
        }
    }
}

/// The PUCT-best child of an expanded node: mean backed-up value (oriented
/// to the node's mover) plus the prior-weighted, visit-decayed exploration
/// bonus; ties keep the earliest edge. `None` when the node has no edges.
fn select_child(t: &MctsTree, idx: usize, root_player: Player) -> (r: Option<MctsChild>)
    requires
        t.wf(),
        idx < t.len(),
    ensures
        match r {
            Some(edge) => idx < edge.node < t.len() && edge.col < 3,
            None => true,
        },
{
    let n = edge_count(t, idx);
    if n == 0 {
        return None;
    }
    let parent_visits = t.visits[idx];
    let pv = if parent_visits > VISIT_CAP {
        VISIT_CAP
    } else {
        parent_visits
    };
    let sq = isqrt(pv * 1_000_000);
    proof {
        assert(sq <= 0xFFFF_FFFF) by (nonlinear_arith)
            requires
                sq as int * sq as int <= 0x100_0000_0000int * 1_000_000,
        ;
    }
    let mut best: MctsChild = edge_at(t, idx, 0);
    let mut best_score: i64 = i64::MIN;
    let mut k: usize = 0;
    while k < n
        invariant
            t.wf(),
            idx < t.len(),
            n == t.children@[idx as int]@.len(),
            sq <= 0xFFFF_FFFF,
            k <= n,
            n >= 1,
            idx < best.node < t.len(),
            best.col < 3,
        decreases n - k,
    {
        let edge = edge_at(t, idx, k);
        let cn = edge.node;
        proof {
            assert(t.node_wf(cn as int));
        }
        let child_visits = t.visits[cn];
        proof {
            assert(child_visits <= VISIT_CAP);
        }
        let sum = t.value_sum[cn];
        let mean: i64 = if child_visits == 0 {
            0
        } else {
            div_signed(sum, child_visits)
        };
        let oriented = if matches!(t.player[idx], Player::Player1) == matches!(
            root_player,
            Player::Player1,
        ) {
            mean
        } else {
            -mean
        };
        let prior = t.prior[cn] as i64;
        let prior_c = if prior > 1000 {
            1000
        } else {
            prior
        };
        let cv = if child_visits > VISIT_CAP {
            VISIT_CAP
        } else {
            child_visits
        };
        proof {
            assert(C_PUCT_PM * prior_c * (sq as i64) <= 7_000_000_000_000_000int)
                by (nonlinear_arith)
                requires
                    0 <= prior_c <= 1000,
                    0 <= sq as i64 <= 0xFFFF_FFFF,
            ;
            assert(C_PUCT_PM * prior_c * (sq as i64) >= 0) by (nonlinear_arith)
                requires
                    0 <= prior_c,
                    0 <= sq as i64,
            ;
        }
        let num = C_PUCT_PM * prior_c * (sq as i64);
        let den = 1_000_000 * (1 + cv as i64);
        let explore = num / den;
        proof {
            assert(0 <= explore <= num) by (nonlinear_arith)
                requires
                    num >= 0,
                    den >= 1,
                    explore == num as int / den as int,
            ;
        }
        let score = oriented + explore;
        if score > best_score {
            best_score = score;
            best = edge;
        }
        k = k + 1;
    }
    Some(best)
}

/// Truncating division of a bounded value sum by a positive visit count;
/// the mean of values in [-1000, 1000] stays in that range.
fn div_signed(sum: i64, visits: u64) -> (r: i64)
    requires
        1 <= visits <= VISIT_CAP,
        -1000 * visits <= sum <= 1000 * visits,
    ensures
        -1000 <= r <= 1000,
{
    if sum >= 0 {
        let q = (sum as u64) / visits;
        proof {
            assert(sum as int / visits as int <= 1000) by (nonlinear_arith)
                requires
                    visits >= 1,
                    0 <= sum <= 1000 * visits,
            ;
        }
        q as i64
    } else {
        let a = (-sum) as u64;
        let q = a / visits;
        proof {
            assert((-sum) as int / visits as int <= 1000) by (nonlinear_arith)
                requires
                    visits >= 1,
                    0 <= -sum <= 1000 * visits,
            ;
        }
        -(q as i64)
    }
}

/// Priors for the legal columns in permille: renormalized network policy
/// when a network is given (each legal column's share softened by one so
/// none is impossible), else uniform with the remainder on the first.
fn child_priors(state: &GameState, legal: &Vec<usize>, net: Option<&PolicyValueNetwork>) -> (r:
    Vec<u32>)
    requires
        state.wf(),
        legal@.len() >= 1,
        legal@.len() <= 3,
        forall|m: int| 0 <= m < legal@.len() ==> #[trigger] legal@[m] < 3,
        match net {
            Some(n) => n.wf(),
            None => true,
        },
    ensures
        r@.len() == legal@.len(),
        forall|m: int| 0 <= m < r@.len() ==> #[trigger] r@[m] <= 1000,
{
    match net {
        Some(n) => {
            let (policy, _) = n.forward(state);
            let mut shares: Vec<i64> = Vec::new();
            let mut total: i64 = 0;
            let mut k: usize = 0;
            while k < legal.len()
                invariant
                    legal@.len() <= 3,
                    forall|m: int| 0 <= m < legal@.len() ==> #[trigger] legal@[m] < 3,
                    policy@.len() == 3,
                    forall|j: int| 0 <= j < 3 ==> 0 <= #[trigger] policy@[j] <= 1000,
                    k <= legal@.len(),
                    shares@.len() == k,
                    forall|m: int| 0 <= m < k ==> 1 <= #[trigger] shares@[m] && shares@[m]
                        <= total,
                    k <= total <= 1001 * k,
                decreases legal@.len() - k,
            {
                let s = policy[legal[k]] + 1;
                shares.push(s);
                total = total + s;
                k = k + 1;
            }
            let mut r: Vec<u32> = Vec::new();
            let mut k2: usize = 0;
            while k2 < legal.len()
                invariant
                    legal@.len() <= 3,
                    shares@.len() == legal@.len(),
                    forall|m: int| 0 <= m < shares@.len() ==> 1 <= #[trigger] shares@[m]
                        && shares@[m] <= total,
                    1 <= total <= 3003,
                    k2 <= legal@.len(),
                    r@.len() == k2,
                    forall|m: int| 0 <= m < k2 ==> #[trigger] r@[m] <= 1000,
                decreases legal@.len() - k2,
            {
                let share = shares[k2];
                let p = share * 1000 / total;
                proof {
                    assert(share as int * 1000 / total as int <= 1000) by (nonlinear_arith)
                        requires
                            total as int >= 1,
                            1 <= share as int,
                            share as int <= total as int,
                    ;
                }
                let pc = if p > 1000 {
                    1000
                } else if p < 0 {
                    0
                } else {
                    p
                };
                r.push(pc as u32);
                k2 = k2 + 1;
            }
            r
        },
        None => {
            let n = legal.len() as u32;
            let each = 1000 / n;
            let rem = 1000 % n;
            let mut r: Vec<u32> = Vec::new();
            let mut k: usize = 0;
            while k < legal.len()
                invariant
                    n == legal@.len() as u32,
                    1 <= n <= 3,
                    each == 1000u32 / n,
                    rem == 1000u32 % n,
                    k <= legal@.len(),
                    r@.len() == k,
                    forall|m: int| 0 <= m < k ==> #[trigger] r@[m] <= 1000,
                decreases legal@.len() - k,
            {
                proof {
                    assert(each as int + rem as int <= 1000) by (nonlinear_arith)
                        requires
                            1 <= n as int <= 3,
                            each as int == 1000int / n as int,
                            rem as int == 1000int % n as int,
                    ;
                }
                if k == 0 {
                    r.push(each + rem);
                } else {
                    r.push(each);
                }
                k = k + 1;
            }
            r
        },
    }
}

/// Runs the Monte Carlo tree search from a placing-phase state and returns
/// the column of the root child with the most visits (earliest on ties).
/// With a zero time budget a fixed number of simulations runs; otherwise
/// iterations continue until the wall clock passes the budget. The
/// returned column is always one of the mover's open columns.
/// Visit count of the node behind root edge `k`.
pub open spec fn spec_root_edge_visits(t: MctsTree, k: int) -> u64 {
    t.visits@[t.children@[0]@[k].node as int]
}

/// Runs the Monte Carlo search loop from a placing-phase state and returns
/// the finished tree: with a zero time budget a fixed number of
/// simulations runs, otherwise iterations continue until the wall clock
/// passes the budget (with a hard iteration cap).
pub fn mcts_run(
    state: &GameState,
    time_budget_ms: u64,
    rng: &mut Rng,
    net: Option<&PolicyValueNetwork>,
) -> (t: MctsTree)
    requires
        state.wf(),
        state.phase == GamePhase::Placing,
        match net {
            Some(n) => n.wf(),
            None => true,
        },
    ensures
        t.wf(),
        t.len() >= 1,
{
    let cfg = DifficultyConfig {
        depth: 0,
        randomness: 0,
        offense_weight: 500,
        defense_weight: 500,
        advanced_eval: true,
        adversarial: false,
        time_budget_ms: 0,
    };
    let mut t = MctsTree::new(state.current_player);
    let start = now_ms();
    let mut iter: u64 = 0;
    while iter < MCTS_ITER_CAP
        invariant
            t.wf(),
            t.len() >= 1,
            state.wf(),
            cfg.valid(),
            match net {
                Some(n) => n.wf(),
                None => true,
            },
        decreases MCTS_ITER_CAP - iter,
    {
        if time_budget_ms == 0 {
            if iter >= DEFAULT_SIMULATIONS {
                break ;
            }
        } else {
            let elapsed = now_ms().saturating_sub(start);
            if elapsed >= time_budget_ms {
                break ;
            }
        }
        let _ = mcts_iterate(&mut t, 0, *state, state.current_player, rng, net, &cfg);
        iter = iter + 1;
    }
    t
}

/// The search's selection rule: the column of the root child with the most
/// visits, the earliest edge winning ties; `None` on an unexpanded root.
pub fn select_most_visited(t: &MctsTree) -> (r: Option<usize>)
    requires
        t.wf(),
        t.len() >= 1,
    ensures
        ({
            let edges = t.children@[0]@;
            match r {
                Some(col) => exists|kb: int|
                    0 <= kb < edges.len() && (#[trigger] edges[kb]).col == col && (forall|k: int|
                        0 <= k < edges.len() ==> spec_root_edge_visits(*t, k)
                            <= spec_root_edge_visits(*t, kb)) && (forall|k: int|
                        0 <= k < kb ==> spec_root_edge_visits(*t, k) < spec_root_edge_visits(
                            *t,
                            kb,
                        )),
                None => edges.len() == 0,
            }
        }),
        match r {
            Some(col) => col < 3,
            None => true,
        },
{
    let n_edges = edge_count(t, 0);
    if n_edges == 0 {
        return None;
    }
    let first = edge_at(t, 0, 0);
    proof {
        assert(t.node_wf(first.node as int));
    }
    let mut best_col = first.col;
    let mut best_visits: u64 = t.visits[first.node];
    let ghost mut best_k: int = 0;
    let mut k: usize = 1;
    while k < n_edges
        invariant
            t.wf(),
            t.len() >= 1,
            n_edges == t.children@[0]@.len(),
            1 <= k <= n_edges,
            0 <= best_k < k,
            best_col == t.children@[0]@[best_k].col,
            best_col < 3,
            best_visits == spec_root_edge_visits(*t, best_k),
            forall|m: int| 0 <= m < k ==> spec_root_edge_visits(*t, m) <= spec_root_edge_visits(
                *t,
                best_k,
            ),
            forall|m: int| 0 <= m < best_k ==> spec_root_edge_visits(*t, m)
                < spec_root_edge_visits(*t, best_k),
        decreases n_edges - k,
    {
        let edge = edge_at(t, 0, k);
        proof {
            assert(t.node_wf(edge.node as int));
        }
        let v = t.visits[edge.node];
        if v > best_visits {
            best_visits = v;
            best_col = edge.col;
            proof {
                best_k = k as int;
            }
        }
        k = k + 1;
    }
    Some(best_col)
}

/// Runs the Monte Carlo tree search from a placing-phase state and returns
/// the column `select_most_visited` picks on the finished tree, checked
/// against the board (the first open column stands in if the tree gave
/// nothing usable). The returned column is always one of the mover's open
/// columns.
pub fn mcts_best_column(
    state: &GameState,
    time_budget_ms: u64,
    rng: &mut Rng,
    net: Option<&PolicyValueNetwork>,
) -> (r: Option<usize>)
    requires
        state.wf(),
        state.phase == GamePhase::Placing,
        match net {
            Some(n) => n.wf(),
            None => true,
        },
    ensures
        match r {
            Some(col) => col < 3 && !crate::grid::col_full(state.my_grid()@, col as int),
            None => forall|c: int| 0 <= c < 3 ==> crate::grid::col_full(state.my_grid()@, c),
        },
{
    let legal = legal_columns(state);
    if legal.len() == 0 {
        proof {
            assert forall|c: int| 0 <= c < 3 implies crate::grid::col_full(state.my_grid()@, c) by {
                if !crate::grid::col_full(state.my_grid()@, c) {
                    assert(legal@.contains(c as usize));
                }
            }
        }
        return None;
    }
    if legal.len() == 1 {
        return Some(legal[0]);
    }
    let t = mcts_run(state, time_budget_ms, rng, net);
    let chosen = select_most_visited(&t);
    let best_col = match chosen {
        Some(col) => col,
        None => legal[0],
    };
    let my_grid = state.grid_of(state.current_player);
    if !my_grid.is_column_full(best_col) {
        Some(best_col)
    } else {
        Some(legal[0])
    }
}

} // verus!
