use vstd::prelude::*;

use crate::clock::now_ms;
use crate::eval::DifficultyConfig;
use crate::eval::evaluate;
use crate::eval::evaluate_move_quick;
use crate::eval::move_gain;
use crate::eval::opp_loss;
use crate::eval::spec_move_quick;
use crate::grid::Grid;
use crate::grid::col_full;
use crate::grid::col_seq;
use crate::grid::compact_col;
use crate::grid::gcell;
use crate::grid::grid_wf;
use crate::grid::lemma_keep_cells3;
use crate::mcts::mcts_best_column;
use crate::net::NET_WEIGHT_COUNT;
use crate::net::PolicyValueNetwork;
use crate::profile::OpponentProfile;
use crate::rng::Rng;
use crate::search::SearchContext;
use crate::search::chance_node;
use crate::search::order_moves;
use crate::search::order_moves_with_profile;
use crate::state::GamePhase;
use crate::state::GameState;
use crate::state::Player;
use crate::state::apply_move;
use crate::state::legal_columns;

verus! {

/// The cell a host-supplied flat array holds at index `i`, defensively
/// read: a short array is padded with empty cells and a value above 6 is
/// treated as empty.
pub open spec fn san_cell(raw: Seq<u8>, i: int) -> u8 {
    if 0 <= i < raw.len() && raw[i] <= 6 {
        raw[i]
    } else {
        0
    }
}

/// Column `c` of a decoded grid: the sanitized cells compacted downward, so
/// the grid invariant holds whatever the host sent.
pub open spec fn spec_decode_col(raw: Seq<u8>, c: int) -> Seq<u8> {
    compact_col(seq![san_cell(raw, c * 3), san_cell(raw, c * 3 + 1), san_cell(raw, c * 3 + 2)], 0)
}

/// Whether column `c` of a decoded grid still has room.
pub open spec fn decoded_col_open(raw: Seq<u8>, c: int) -> bool {
    spec_decode_col(raw, c)[2] == 0
}

/// The quick ordering heuristic over raw host arrays: points gained in the
/// mover's decoded column plus points the opponent's decoded column would
/// lose.
pub open spec fn spec_quick_raw(my_raw: Seq<u8>, opp_raw: Seq<u8>, die: u8, col: int) -> int {
    move_gain(spec_decode_col(my_raw, col), die) + opp_loss(spec_decode_col(opp_raw, col), die)
}

/// Reads one cell of a host array defensively.
fn read_cell(raw: &[u8], i: usize) -> (v: u8)
    ensures
        v == san_cell(raw@, i as int),
        v <= 6,
{
    if i < raw.len() {
        let x = raw[i];
        if x <= 6 {
            x
        } else {
            0
        }
    } else {
        0
    }
}

/// Drops the surviving cells of one host column into an empty column of the
/// grid, bottom row first.
fn fill_col(g: &mut Grid, col: usize, v0: u8, v1: u8, v2: u8)
    requires
        col < 3,
        grid_wf(old(g)@),
        v0 <= 6,
        v1 <= 6,
        v2 <= 6,
        gcell(old(g)@, col as int, 0) == 0,
        gcell(old(g)@, col as int, 1) == 0,
        gcell(old(g)@, col as int, 2) == 0,
    ensures
        grid_wf(final(g)@),
        final(g)@.len() == 9,
        col_seq(final(g)@, col as int) == compact_col(seq![v0, v1, v2], 0),
        forall|c: int, r: int| 0 <= c < 3 && 0 <= r < 3 && c != col ==> gcell(final(g)@, c, r)
            == gcell(old(g)@, c, r),
{
    proof {
        lemma_keep_cells3(v0, v1, v2, 0);
    }
    if v0 != 0 {
        let _ = g.place_die(col, v0);
    }
    if v1 != 0 {
        let _ = g.place_die(col, v1);
    }
    if v2 != 0 {
        let _ = g.place_die(col, v2);
    }
    proof {
        assert(col_seq(g@, col as int) =~= compact_col(seq![v0, v1, v2], 0));
    }
}

/// Decodes one host-supplied flat 9-cell array into a well-formed grid:
/// short or long arrays are padded or truncated to 9 cells, out-of-range
/// cell values become empty, and each column is compacted downward.
pub fn decode_grid(raw: &[u8]) -> (g: Grid)
    ensures
        grid_wf(g@),
        g@.len() == 9,
        col_seq(g@, 0) == spec_decode_col(raw@, 0),
        col_seq(g@, 1) == spec_decode_col(raw@, 1),
        col_seq(g@, 2) == spec_decode_col(raw@, 2),
{
    let mut g = Grid::new();
    let a0 = read_cell(raw, 0);
    let a1 = read_cell(raw, 1);
    let a2 = read_cell(raw, 2);
    fill_col(&mut g, 0, a0, a1, a2);
    let b0 = read_cell(raw, 3);
    let b1 = read_cell(raw, 4);
    let b2 = read_cell(raw, 5);
    fill_col(&mut g, 1, b0, b1, b2);
    let c0 = read_cell(raw, 6);
    let c1 = read_cell(raw, 7);
    let c2 = read_cell(raw, 8);
    fill_col(&mut g, 2, c0, c1, c2);
    proof {
        assert(col_seq(g@, 0) =~= spec_decode_col(raw@, 0));
        assert(col_seq(g@, 1) =~= spec_decode_col(raw@, 1));
        assert(col_seq(g@, 2) =~= spec_decode_col(raw@, 2));
    }
    g
}

/// Rebuilds a game state from the host's flat arrays: player 0 is the
/// first player, die face 0 (or any face above 6) means no die is pending
/// and the state is in the rolling phase.
pub fn decode_state(grid1: &[u8], grid2: &[u8], current_player: u8, current_die: u8) -> (s:
    GameState)
    ensures
        s.wf(),
        s.grid1@.len() == 9,
        s.grid2@.len() == 9,
        col_seq(s.grid1@, 0) == spec_decode_col(grid1@, 0),
        col_seq(s.grid1@, 1) == spec_decode_col(grid1@, 1),
        col_seq(s.grid1@, 2) == spec_decode_col(grid1@, 2),
        col_seq(s.grid2@, 0) == spec_decode_col(grid2@, 0),
        col_seq(s.grid2@, 1) == spec_decode_col(grid2@, 1),
        col_seq(s.grid2@, 2) == spec_decode_col(grid2@, 2),
        s.current_player == (if current_player == 0 {
            Player::Player1
        } else {
            Player::Player2
        }),
        (1 <= current_die <= 6) ==> s.phase == GamePhase::Placing && s.current_die == Some(
            current_die,
        ),
        !(1 <= current_die <= 6) ==> s.phase == GamePhase::Rolling && s.current_die is None,
        s.turn_number == 1,
{
    let g1 = decode_grid(grid1);
    let g2 = decode_grid(grid2);
    let player = if current_player == 0 {
        Player::Player1
    } else {
        Player::Player2
    };
    let valid_die = 1 <= current_die && current_die <= 6;
    let die = if valid_die {
        Some(current_die)
    } else {
        None
    };
    let phase = if valid_die {
        GamePhase::Placing
    } else {
        GamePhase::Rolling
    };
    GameState {
        grid1: g1,
        grid2: g2,
        current_player: player,
        current_die: die,
        phase,
        turn_number: 1,
    }
}

/// The greedy choice: the first legal column whose quick heuristic value is
/// maximal, scanning the legal columns in ascending order.
fn greedy_best_column(state: &GameState, legal: &Vec<usize>, die: u8, player: Player) -> (r: usize)
    requires
        state.wf(),
        1 <= die <= 6,
        legal@.len() >= 1,
        forall|i: int| 0 <= i < legal@.len() ==> #[trigger] legal@[i] < 3,
        forall|i: int, j: int| 0 <= i < j < legal@.len() ==> legal@[i] < legal@[j],
    ensures
        legal@.contains(r),
        forall|i: int| 0 <= i < legal@.len() ==> spec_move_quick(
            *state,
            #[trigger] legal@[i] as int,
            die,
            player,
        ) <= spec_move_quick(*state, r as int, die, player),
        forall|i: int| 0 <= i < legal@.len() && legal@[i] < r ==> spec_move_quick(
            *state,
            #[trigger] legal@[i] as int,
            die,
            player,
        ) < spec_move_quick(*state, r as int, die, player),
{
    let mut best_col = legal[0];
    let mut best_score = evaluate_move_quick(state, best_col, die, player);
    proof {
        assert(legal@.take(1)[0] == legal@[0]);
    }
    let mut i: usize = 1;
    while i < legal.len()
        invariant
            state.wf(),
            1 <= die <= 6,
            1 <= i <= legal@.len(),
            forall|k: int| 0 <= k < legal@.len() ==> #[trigger] legal@[k] < 3,
            forall|k: int, j: int| 0 <= k < j < legal@.len() ==> legal@[k] < legal@[j],
            legal@.take(i as int).contains(best_col),
            best_score == spec_move_quick(*state, best_col as int, die, player),
            forall|k: int| 0 <= k < i ==> spec_move_quick(
                *state,
                #[trigger] legal@[k] as int,
                die,
                player,
            ) <= best_score,
            forall|k: int| 0 <= k < i && legal@[k] < best_col ==> spec_move_quick(
                *state,
                #[trigger] legal@[k] as int,
                die,
                player,
            ) < best_score,
        decreases legal@.len() - i,
    {
        let col = legal[i];
        let score = evaluate_move_quick(state, col, die, player);
        if score > best_score {
            best_score = score;
            best_col = col;
            proof {
                assert(legal@.take(i as int + 1)[i as int] == col);
            }
        } else {
            proof {
                assert(legal@.take(i as int) =~= legal@.take(i as int + 1).take(i as int));
                assert(legal@.take(i as int + 1).contains(best_col)) by {
                    let k = choose|k: int|
                        0 <= k < i && legal@.take(i as int)[k] == best_col;
                    assert(legal@.take(i as int + 1)[k] == best_col);
                }
            }
        }
        i = i + 1;
    }
    proof {
        assert(legal@.take(legal@.len() as int) =~= legal@);
    }
    best_col
}

/// The best root move found by one fixed-depth expectimax search: every
/// legal column is tried, children are explored through the chance node,
/// and the column with the best backed-up value is kept (first legal column
/// as a defensive fallback).
fn expectimax_root(
    state: &GameState,
    legal: &Vec<usize>,
    player_config: &DifficultyConfig,
    opponent_config: &DifficultyConfig,
    depth: u32,
    ctx: &mut SearchContext,
    rng: &mut Rng,
) -> (r: usize)
    requires
        state.wf(),
        state.phase == GamePhase::Placing,
        player_config.valid(),
        opponent_config.valid(),
        old(ctx).wf(),
        depth >= 1,
        legal@.len() >= 1,
        legal@.len() <= 3,
        forall|i: int| 0 <= i < legal@.len() ==> #[trigger] legal@[i] < 3 && !col_full(
            state.my_grid()@,
            legal@[i] as int,
        ),
        forall|i: int, j: int| 0 <= i < j < legal@.len() ==> legal@[i] < legal@[j],
    ensures
        final(ctx).wf(),
        final(ctx).max_nodes == old(ctx).max_nodes,
        final(ctx).use_adversarial == old(ctx).use_adversarial,
        final(ctx).time_budget_ms == old(ctx).time_budget_ms,
        final(ctx).start_ms == old(ctx).start_ms,
        legal@.contains(r),
{
    let player = state.current_player;
    let ordered = order_moves(state, legal, player);
    let mut best_move = legal[0];
    let mut best_value: i64 = i64::MIN;
    let mut i: usize = 0;
    while i < ordered.len()
        invariant
            state.wf(),
            state.phase == GamePhase::Placing,
            player == state.current_player,
            player_config.valid(),
            opponent_config.valid(),
            ctx.wf(),
            ctx.max_nodes == old(ctx).max_nodes,
            ctx.use_adversarial == old(ctx).use_adversarial,
            ctx.time_budget_ms == old(ctx).time_budget_ms,
            ctx.start_ms == old(ctx).start_ms,
            depth >= 1,
            i <= ordered@.len(),
            legal@.contains(best_move),
            forall|k: int| 0 <= k < ordered@.len() ==> legal@.contains(#[trigger] ordered@[k]),
            forall|k: int| 0 <= k < legal@.len() ==> #[trigger] legal@[k] < 3 && !col_full(
                state.my_grid()@,
                legal@[k] as int,
            ),
        decreases ordered@.len() - i,
    {
        let col = ordered[i];
        proof {
            let k = choose|k: int| 0 <= k < legal@.len() && legal@[k] == col;
        }
        match apply_move(state, col) {
            Some(new_state) => {
                let value = if matches!(new_state.phase, GamePhase::Ended) {
                    evaluate(&new_state, player, player_config)
                } else {
                    chance_node(
                        &new_state,
                        depth - 1,
                        player,
                        player_config,
                        opponent_config,
                        ctx,
                        rng,
                    )
                };
                if value > best_value {
                    best_value = value;
                    best_move = col;
                }
            },
            None => {},
        }
        i = i + 1;
    }
    best_move
}

/// The decision engine: owns the search context (with its transposition
/// table), the injected random source, and the policy/value network. One
/// instance must not be shared across overlapping searches.
pub struct AIEngine {
    pub ctx: SearchContext,
    pub rng: Rng,
    pub net: PolicyValueNetwork,
}

impl AIEngine {
    /// The engine's context and network keep their invariants.
    pub open spec fn wf(self) -> bool {
        &&& self.ctx.wf()
        &&& self.net.wf()
    }

    /// An engine with an empty cache and a fixed default random seed, so
    /// that identical call sequences replay identically.
    pub fn new() -> (r: AIEngine)
        ensures
            r.wf(),
            !r.net.initialized,
    {
        AIEngine::new_with_seed(0x9E3779B97F4A7C15)
    }

    /// An engine whose random draws replay the given seed.
    pub fn new_with_seed(seed: u64) -> (r: AIEngine)
        ensures
            r.wf(),
            !r.net.initialized,
    {
        let mut rng = Rng::new(seed);
        let net = PolicyValueNetwork::new(&mut rng);
        AIEngine { ctx: SearchContext::new(), rng, net }
    }

    /// Loads a flat network weight vector; exactly the expected count is
    /// accepted, and a mismatch changes nothing and reports failure.
    pub fn load_weights(&mut self, w: &[i64]) -> (r: bool)
        requires
            old(self).wf(),
        ensures
            final(self).wf(),
            r == (w@.len() == NET_WEIGHT_COUNT),
            !r ==> final(self).net == old(self).net,
            r ==> final(self).net.initialized,
    {
        self.net.load_weights(w)
    }

    /// Whether a trained network weight vector has been loaded.
    pub fn is_initialized(&self) -> (r: bool)
        ensures
            r == self.net.initialized,
    {
        self.net.is_initialized()
    }

    /// Diagnostic query of the raw network outputs on a decoded state: the
    /// policy as a permille distribution over the three columns and the
    /// value estimate in millis for the player to move.
    pub fn predict(
        &self,
        grid1: &[u8],
        grid2: &[u8],
        current_player: u8,
        current_die: u8,
    ) -> (r: (Vec<i64>, i64))
        requires
            self.wf(),
        ensures
            r.0@.len() == 3,
            forall|j: int| 0 <= j < 3 ==> 0 <= #[trigger] r.0@[j] <= 1000,
            r.0@[0] + r.0@[1] + r.0@[2] == 1000,
            -1000 <= r.1 <= 1000,
    {
        let state = decode_state(grid1, grid2, current_player, current_die);
        self.net.forward(&state)
    }

    /// Chooses the column for the pending die by Monte Carlo tree search:
    /// uniform priors and evaluator rollouts, or network priors and value
    /// estimates when `use_network` is set. A zero time budget runs the
    /// fixed default number of simulations. Returns -1 when no move
    /// exists; with a single open column that column comes straight back.
    pub fn get_mcts_move(
        &mut self,
        grid1: &[u8],
        grid2: &[u8],
        current_player: u8,
        current_die: u8,
        time_budget_ms: u64,
        use_network: bool,
    ) -> (r: i32)
        requires
            old(self).wf(),
        ensures
            final(self).wf(),
            ({
                let my_raw = if current_player == 0 {
                    grid1@
                } else {
                    grid2@
                };
                &&& (r == -1 <==> (!(1 <= current_die <= 6) || (!decoded_col_open(my_raw, 0)
                    && !decoded_col_open(my_raw, 1) && !decoded_col_open(my_raw, 2))))
                &&& (r != -1 ==> 0 <= r < 3 && decoded_col_open(my_raw, r as int))
            }),
    {
        let state = decode_state(grid1, grid2, current_player, current_die);
        match state.current_die {
            Some(_) => {},
            None => {
                return -1;
            },
        }
        proof {
            let g_my = if current_player == 0 {
                grid1@
            } else {
                grid2@
            };
            lemma_decoded_open(&state, grid1@, grid2@, current_player, g_my);
        }
        let choice = if use_network {
            mcts_best_column(&state, time_budget_ms, &mut self.rng, Some(&self.net))
        } else {
            mcts_best_column(&state, time_budget_ms, &mut self.rng, None)
        };
        match choice {
            Some(col) => {
                proof {
                    assert(col < 3);
                    assert(!col_full(state.my_grid()@, col as int));
                }
                col as i32
            },
            None => {
                proof {
                    assert(forall|c: int| 0 <= c < 3 ==> col_full(state.my_grid()@, c));
                }
                -1
            },
        }
    }

    /// Wipes the transposition table and counters. Callers must do this
    /// whenever the difficulty configurations change between searches, as
    /// the table key does not encode them.
    pub fn clear_cache(&mut self)
        requires
            old(self).wf(),
        ensures
            final(self).wf(),
            final(self).ctx.tt@ == Map::<u64, crate::search::TTEntry>::empty(),
            final(self).ctx.nodes_explored == 0,
            !final(self).ctx.aborted,
    {
        self.ctx.clear();
    }

    /// Chooses the column for the pending die, under the caller's own
    /// configuration and an opponent model configuration. Returns -1 when
    /// no move exists: no pending die (face 0 or out of range) or every
    /// column of the mover's grid full. With zero randomness and depth 0
    /// the choice is exactly the greedy quick-heuristic maximum, earliest
    /// column on ties.
    #[verifier::rlimit(100)]
    pub fn get_best_move(
        &mut self,
        grid1: &[u8],
        grid2: &[u8],
        current_player: u8,
        current_die: u8,
        config: &DifficultyConfig,
        opponent_config: &DifficultyConfig,
    ) -> (r: i32)
        requires
            old(self).wf(),
            config.valid(),
            opponent_config.valid(),
        ensures
            final(self).wf(),
            ({
                let my_raw = if current_player == 0 {
                    grid1@
                } else {
                    grid2@
                };
                let opp_raw = if current_player == 0 {
                    grid2@
                } else {
                    grid1@
                };
                &&& (r == -1 <==> (!(1 <= current_die <= 6) || (!decoded_col_open(my_raw, 0)
                    && !decoded_col_open(my_raw, 1) && !decoded_col_open(my_raw, 2))))
                &&& (r != -1 ==> 0 <= r < 3 && decoded_col_open(my_raw, r as int))
                &&& (((1 <= current_die <= 6) && !(decoded_col_open(my_raw, 0)
                    && decoded_col_open(my_raw, 1)) && !(decoded_col_open(my_raw, 0)
                    && decoded_col_open(my_raw, 2)) && !(decoded_col_open(my_raw, 1)
                    && decoded_col_open(my_raw, 2))) ==> final(self).ctx == old(self).ctx
                    && final(self).rng == old(self).rng)
                &&& ((r != -1 && config.randomness == 0 && config.depth == 0) ==> {
                    &&& forall|c: int|
                        0 <= c < 3 && decoded_col_open(my_raw, c) ==> spec_quick_raw(
                            my_raw,
                            opp_raw,
                            current_die,
                            c,
                        ) <= spec_quick_raw(my_raw, opp_raw, current_die, r as int)
                    &&& forall|c: int|
                        0 <= c < 3 && decoded_col_open(my_raw, c) && c < r ==> spec_quick_raw(
                            my_raw,
                            opp_raw,
                            current_die,
                            c,
                        ) < spec_quick_raw(my_raw, opp_raw, current_die, r as int)
                })
            }),
    {
        let state = decode_state(grid1, grid2, current_player, current_die);
        let die = match state.current_die {
            Some(d) => d,
            None => {
                return -1;
            },
        };
        let player = state.current_player;
        let legal = legal_columns(&state);
        proof {
            lemma_open_columns(&state, &legal, grid1@, grid2@, current_player);
        }
        if legal.len() == 0 {
            return -1;
        }
        if legal.len() == 1 {
            let col = legal[0];
            proof {
                lemma_single_legal(&state, &legal);
                let my_raw = if current_player == 0 {
                    grid1@
                } else {
                    grid2@
                };
                let opp_raw = if current_player == 0 {
                    grid2@
                } else {
                    grid1@
                };
                assert forall|c: int| 0 <= c < 3 && decoded_col_open(my_raw, c) implies
                    spec_quick_raw(my_raw, opp_raw, current_die, c) <= spec_quick_raw(
                    my_raw,
                    opp_raw,
                    current_die,
                    col as int,
                ) by {
                    assert(!col_full(state.my_grid()@, c));
                    assert(c == legal@[0]);
                    assert(c == col as int);
                }
                assert forall|c: int| 0 <= c < 3 && decoded_col_open(my_raw, c) && c < col
                    implies spec_quick_raw(my_raw, opp_raw, current_die, c) < spec_quick_raw(
                    my_raw,
                    opp_raw,
                    current_die,
                    col as int,
                ) by {
                    assert(!col_full(state.my_grid()@, c));
                    assert(c == legal@[0]);
                    assert(c == col as int);
                }
            }
            return col as i32;
        }
        proof {
            let my_raw = if current_player == 0 {
                grid1@
            } else {
                grid2@
            };
            assert(legal@[0] != legal@[1]);
            assert(decoded_col_open(my_raw, legal@[0] as int));
            assert(decoded_col_open(my_raw, legal@[1] as int));
        }
        if config.randomness > 0 && self.rng.next_below(1000) < config.randomness {
            let idx = self.rng.next_below(legal.len() as u32) as usize;
            return legal[idx] as i32;
        }
        if config.depth == 0 {
            let col = greedy_best_column(&state, &legal, die, player);
            proof {
                let k = choose|k: int| 0 <= k < legal@.len() && legal@[k] == col;
                let g_my = if current_player == 0 {
                    grid1@
                } else {
                    grid2@
                };
                let g_opp = if current_player == 0 {
                    grid2@
                } else {
                    grid1@
                };
                lemma_greedy_raw(
                    &state,
                    &legal,
                    grid1@,
                    grid2@,
                    current_player,
                    die,
                    col,
                    g_my,
                    g_opp,
                );
                let my_raw = if current_player == 0 {
                    grid1@
                } else {
                    grid2@
                };
                let opp_raw = if current_player == 0 {
                    grid2@
                } else {
                    grid1@
                };
                assert(die == current_die);
                assert forall|c: int| 0 <= c < 3 && decoded_col_open(my_raw, c) implies
                    spec_quick_raw(my_raw, opp_raw, current_die, c) <= spec_quick_raw(
                    my_raw,
                    opp_raw,
                    current_die,
                    col as int,
                ) by {
                    assert(spec_quick_raw(my_raw, opp_raw, die, c) <= spec_quick_raw(
                        my_raw,
                        opp_raw,
                        die,
                        col as int,
                    ));
                }
                assert forall|c: int| 0 <= c < 3 && decoded_col_open(my_raw, c) && c < col
                    implies spec_quick_raw(my_raw, opp_raw, current_die, c) < spec_quick_raw(
                    my_raw,
                    opp_raw,
                    current_die,
                    col as int,
                ) by {
                    assert(spec_quick_raw(my_raw, opp_raw, die, c) < spec_quick_raw(
                        my_raw,
                        opp_raw,
                        die,
                        col as int,
                    ));
                }
            }
            return col as i32;
        }
        self.ctx.use_adversarial = config.adversarial;
        if config.time_budget_ms == 0 {
            let col = expectimax_root(
                &state,
                &legal,
                config,
                opponent_config,
                config.depth,
                &mut self.ctx,
                &mut self.rng,
            );
            proof {
                let k = choose|k: int| 0 <= k < legal@.len() && legal@[k] == col;
            }
            return col as i32;
        }
        self.ctx.start_ms = now_ms();
        self.ctx.time_budget_ms = config.time_budget_ms;
        self.ctx.aborted = false;
        let mut best = legal[0];
        let mut d: u32 = 1;
        while d <= config.depth
            invariant
                state.wf(),
                state.phase == GamePhase::Placing,
                config.valid(),
                opponent_config.valid(),
                self.ctx.wf(),
                self.net.wf(),
                legal@.contains(best),
                legal@.len() >= 1,
                legal@.len() <= 3,
                forall|k: int| 0 <= k < legal@.len() ==> #[trigger] legal@[k] < 3 && !col_full(
                    state.my_grid()@,
                    legal@[k] as int,
                ),
                forall|a: int, b: int| 0 <= a < b < legal@.len() ==> legal@[a] < legal@[b],
                d >= 1,
            decreases config.depth - d,
        {
            let elapsed = now_ms().saturating_sub(self.ctx.start_ms);
            if elapsed as u128 * 5 >= config.time_budget_ms as u128 * 4 {
                break ;
            }
            let cand = expectimax_root(
                &state,
                &legal,
                config,
                opponent_config,
                d,
                &mut self.ctx,
                &mut self.rng,
            );
            if self.ctx.aborted {
                break ;
            }
            best = cand;
            if d == config.depth {
                break ;
            }
            d = d + 1;
        }
        self.ctx.time_budget_ms = 0;
        self.ctx.aborted = false;
        proof {
            let k = choose|k: int| 0 <= k < legal@.len() && legal@[k] == best;
        }
        best as i32
    }

    /// Chooses the column for the pending die with the adaptive
    /// configuration derived from the opponent profile, searching the
    /// opponent as a true minimizer and biasing each candidate column by
    /// the profile's attack bonus. Returns -1 when no move exists.
    pub fn get_master_move(
        &mut self,
        grid1: &[u8],
        grid2: &[u8],
        current_player: u8,
        current_die: u8,
        profile: &OpponentProfile,
    ) -> (r: i32)
        requires
            old(self).wf(),
            profile.wf(),
        ensures
            final(self).wf(),
            ({
                let my_raw = if current_player == 0 {
                    grid1@
                } else {
                    grid2@
                };
                &&& (r == -1 <==> (!(1 <= current_die <= 6) || (!decoded_col_open(my_raw, 0)
                    && !decoded_col_open(my_raw, 1) && !decoded_col_open(my_raw, 2))))
                &&& (r != -1 ==> 0 <= r < 3 && decoded_col_open(my_raw, r as int))
            }),
    {
        let state = decode_state(grid1, grid2, current_player, current_die);
        match state.current_die {
            Some(_) => {},
            None => {
                return -1;
            },
        }
        let player = state.current_player;
        let legal = legal_columns(&state);
        proof {
            lemma_open_columns(&state, &legal, grid1@, grid2@, current_player);
        }
        if legal.len() == 0 {
            return -1;
        }
        if legal.len() == 1 {
            return legal[0] as i32;
        }
        let adaptive_config = profile.get_adaptive_config();
        let opponent_config = DifficultyConfig {
            depth: 3,
            randomness: 0,
            offense_weight: 500,
            defense_weight: 500,
            advanced_eval: true,
            adversarial: true,
            time_budget_ms: 0,
        };
        self.ctx.use_adversarial = adaptive_config.adversarial;
        self.ctx.start_ms = now_ms();
        self.ctx.time_budget_ms = adaptive_config.time_budget_ms;
        self.ctx.aborted = false;
        let ordered = order_moves_with_profile(&state, &legal, player, profile);
        let mut best_move = legal[0];
        let mut best_value: i64 = i64::MIN;
        let mut i: usize = 0;
        while i < ordered.len()
            invariant
                state.wf(),
                state.phase == GamePhase::Placing,
                player == state.current_player,
                profile.wf(),
                adaptive_config.valid(),
                opponent_config.valid(),
                adaptive_config.depth >= 1,
                self.ctx.wf(),
                self.net.wf(),
                i <= ordered@.len(),
                legal@.contains(best_move),
                forall|k: int| 0 <= k < ordered@.len() ==> legal@.contains(#[trigger] ordered@[k]),
                forall|k: int| 0 <= k < legal@.len() ==> #[trigger] legal@[k] < 3 && !col_full(
                    state.my_grid()@,
                    legal@[k] as int,
                ),
            decreases ordered@.len() - i,
        {
            let col = ordered[i];
            proof {
                let k = choose|k: int| 0 <= k < legal@.len() && legal@[k] == col;
            }
            match apply_move(&state, col) {
                Some(new_state) => {
                    let base_value = if matches!(new_state.phase, GamePhase::Ended) {
                        evaluate(&new_state, player, &adaptive_config)
                    } else {
                        chance_node(
                            &new_state,
                            adaptive_config.depth - 1,
                            player,
                            &adaptive_config,
                            &opponent_config,
                            &mut self.ctx,
                            &mut self.rng,
                        )
                    };
                    let column_bias = profile.get_column_attack_bonus(col);
                    let value = base_value + column_bias;
                    if value > best_value {
                        best_value = value;
                        best_move = col;
                    }
                },
                None => {},
            }
            i = i + 1;
        }
        self.ctx.time_budget_ms = 0;
        self.ctx.aborted = false;
        proof {
            let k = choose|k: int| 0 <= k < legal@.len() && legal@[k] == best_move;
        }
        best_move as i32
    }
}

/// Openness of the decoded raw columns matches fullness in the decoded
/// grid.
proof fn lemma_decoded_open(
    state: &GameState,
    g1: Seq<u8>,
    g2: Seq<u8>,
    current_player: u8,
    my_raw: Seq<u8>,
)
    requires
        my_raw == (if current_player == 0 {
            g1
        } else {
            g2
        }),
        state.wf(),
        state.grid1@.len() == 9,
        state.grid2@.len() == 9,
        col_seq(state.grid1@, 0) == spec_decode_col(g1, 0),
        col_seq(state.grid1@, 1) == spec_decode_col(g1, 1),
        col_seq(state.grid1@, 2) == spec_decode_col(g1, 2),
        col_seq(state.grid2@, 0) == spec_decode_col(g2, 0),
        col_seq(state.grid2@, 1) == spec_decode_col(g2, 1),
        col_seq(state.grid2@, 2) == spec_decode_col(g2, 2),
        state.current_player == (if current_player == 0 {
            Player::Player1
        } else {
            Player::Player2
        }),
    ensures
        forall|c: int| 0 <= c < 3 ==> (decoded_col_open(my_raw, c) <==> !col_full(
            state.my_grid()@,
            c,
        )),
{
    let my = state.my_grid()@;
    assert forall|c: int| 0 <= c < 3 implies (decoded_col_open(my_raw, c) <==> !col_full(my, c)) by {
        assert(col_seq(my, c)[2] == gcell(my, c, 2));
        assert(decoded_col_open(my_raw, c) <==> gcell(my, c, 2) == 0);
        if gcell(my, c, 2) == 0 {
            assert(!col_full(my, c));
        } else {
            assert(crate::grid::col_wf(my, c));
        }
    }
}

/// Links the legal-column list of a decoded state to the openness of the
/// decoded raw columns.
proof fn lemma_open_columns(
    state: &GameState,
    legal: &Vec<usize>,
    g1: Seq<u8>,
    g2: Seq<u8>,
    current_player: u8,
)
    requires
        state.wf(),
        state.grid1@.len() == 9,
        state.grid2@.len() == 9,
        col_seq(state.grid1@, 0) == spec_decode_col(g1, 0),
        col_seq(state.grid1@, 1) == spec_decode_col(g1, 1),
        col_seq(state.grid1@, 2) == spec_decode_col(g1, 2),
        col_seq(state.grid2@, 0) == spec_decode_col(g2, 0),
        col_seq(state.grid2@, 1) == spec_decode_col(g2, 1),
        col_seq(state.grid2@, 2) == spec_decode_col(g2, 2),
        state.current_player == (if current_player == 0 {
            Player::Player1
        } else {
            Player::Player2
        }),
        legal@.len() <= 3,
        forall|i: int| 0 <= i < legal@.len() ==> #[trigger] legal@[i] < 3 && !col_full(
            state.my_grid()@,
            legal@[i] as int,
        ),
        forall|c: int| 0 <= c < 3 && !col_full(state.my_grid()@, c) ==> legal@.contains(c as usize),
    ensures
        ({
            let my_raw = if current_player == 0 {
                g1
            } else {
                g2
            };
            &&& forall|c: int| 0 <= c < 3 ==> (decoded_col_open(my_raw, c) <==> !col_full(
                state.my_grid()@,
                c,
            ))
            &&& (legal@.len() == 0 <==> (!decoded_col_open(my_raw, 0) && !decoded_col_open(
                my_raw,
                1,
            ) && !decoded_col_open(my_raw, 2)))
            &&& forall|i: int| 0 <= i < legal@.len() ==> decoded_col_open(
                my_raw,
                #[trigger] legal@[i] as int,
            )
        }),
{
    let my_raw = if current_player == 0 {
        g1
    } else {
        g2
    };
    let my = state.my_grid()@;
    assert forall|c: int| 0 <= c < 3 implies (decoded_col_open(my_raw, c) <==> !col_full(my, c)) by {
        assert(col_seq(my, c)[2] == gcell(my, c, 2));
        assert(decoded_col_open(my_raw, c) <==> gcell(my, c, 2) == 0);
        if gcell(my, c, 2) == 0 {
            assert(!col_full(my, c));
        } else {
            assert(crate::grid::col_wf(my, c));
        }
    }
    if legal@.len() == 0 {
        assert forall|c: int| 0 <= c < 3 implies col_full(my, c) by {
            if !col_full(my, c) {
                assert(legal@.contains(c as usize));
            }
        }
        assert(col_full(my, 0) && col_full(my, 1) && col_full(my, 2));
        assert(!decoded_col_open(my_raw, 0));
        assert(!decoded_col_open(my_raw, 1));
        assert(!decoded_col_open(my_raw, 2));
    } else {
        assert(legal@.contains(legal@[0]));
        assert(decoded_col_open(my_raw, legal@[0] as int));
    }
}

/// With a single legal column, every open column is that column.
proof fn lemma_single_legal(state: &GameState, legal: &Vec<usize>)
    requires
        state.wf(),
        legal@.len() == 1,
        forall|i: int| 0 <= i < legal@.len() ==> #[trigger] legal@[i] < 3 && !col_full(
            state.my_grid()@,
            legal@[i] as int,
        ),
        forall|c: int| 0 <= c < 3 && !col_full(state.my_grid()@, c) ==> legal@.contains(c as usize),
    ensures
        forall|c: int| 0 <= c < 3 && !col_full(state.my_grid()@, c) ==> c == legal@[0],
{
    assert forall|c: int| 0 <= c < 3 && !col_full(state.my_grid()@, c) implies c == legal@[0] by {
        assert(legal@.contains(c as usize));
        let k = choose|k: int| 0 <= k < legal@.len() && legal@[k] == c as usize;
    }
}

/// The quick heuristic of a decoded state equals the raw-array heuristic.
proof fn lemma_quick_raw_link(state: &GameState, g1: Seq<u8>, g2: Seq<u8>, cp: u8, die: u8, c: int)
    requires
        state.wf(),
        0 <= c < 3,
        col_seq(state.grid1@, 0) == spec_decode_col(g1, 0),
        col_seq(state.grid1@, 1) == spec_decode_col(g1, 1),
        col_seq(state.grid1@, 2) == spec_decode_col(g1, 2),
        col_seq(state.grid2@, 0) == spec_decode_col(g2, 0),
        col_seq(state.grid2@, 1) == spec_decode_col(g2, 1),
        col_seq(state.grid2@, 2) == spec_decode_col(g2, 2),
        state.current_player == (if cp == 0 {
            Player::Player1
        } else {
            Player::Player2
        }),
    ensures
        ({
            let my_raw = if cp == 0 {
                g1
            } else {
                g2
            };
            let opp_raw = if cp == 0 {
                g2
            } else {
                g1
            };
            spec_quick_raw(my_raw, opp_raw, die, c) == spec_move_quick(
                *state,
                c,
                die,
                state.current_player,
            )
        }),
{
    reveal(spec_move_quick);
    if cp == 0 {
        assert(state.current_player == Player::Player1);
        assert(state.spec_grid_of(Player::Player1) == state.grid1);
        assert(state.spec_grid_of(Player::Player1.spec_other()) == state.grid2);
    } else {
        assert(state.current_player == Player::Player2);
        assert(state.spec_grid_of(Player::Player2) == state.grid2);
        assert(state.spec_grid_of(Player::Player2.spec_other()) == state.grid1);
    }
}

/// Bridges the greedy choice over the legal-column list to the maximality
/// contract over the open decoded columns.
proof fn lemma_greedy_raw(
    state: &GameState,
    legal: &Vec<usize>,
    g1: Seq<u8>,
    g2: Seq<u8>,
    cp: u8,
    die: u8,
    col: usize,
    my_raw: Seq<u8>,
    opp_raw: Seq<u8>,
)
    requires
        state.wf(),
        state.grid1@.len() == 9,
        state.grid2@.len() == 9,
        col_seq(state.grid1@, 0) == spec_decode_col(g1, 0),
        col_seq(state.grid1@, 1) == spec_decode_col(g1, 1),
        col_seq(state.grid1@, 2) == spec_decode_col(g1, 2),
        col_seq(state.grid2@, 0) == spec_decode_col(g2, 0),
        col_seq(state.grid2@, 1) == spec_decode_col(g2, 1),
        col_seq(state.grid2@, 2) == spec_decode_col(g2, 2),
        state.current_player == (if cp == 0 {
            Player::Player1
        } else {
            Player::Player2
        }),
        legal@.len() <= 3,
        forall|i: int| 0 <= i < legal@.len() ==> #[trigger] legal@[i] < 3 && !col_full(
            state.my_grid()@,
            legal@[i] as int,
        ),
        forall|c: int| 0 <= c < 3 && !col_full(state.my_grid()@, c) ==> legal@.contains(c as usize),
        legal@.contains(col),
        forall|i: int| 0 <= i < legal@.len() ==> spec_move_quick(
            *state,
            #[trigger] legal@[i] as int,
            die,
            state.current_player,
        ) <= spec_move_quick(*state, col as int, die, state.current_player),
        forall|i: int| 0 <= i < legal@.len() && legal@[i] < col ==> spec_move_quick(
            *state,
            #[trigger] legal@[i] as int,
            die,
            state.current_player,
        ) < spec_move_quick(*state, col as int, die, state.current_player),
        my_raw == (if cp == 0 {
            g1
        } else {
            g2
        }),
        opp_raw == (if cp == 0 {
            g2
        } else {
            g1
        }),
    ensures
        forall|c: int|
            0 <= c < 3 && decoded_col_open(my_raw, c) ==> spec_quick_raw(
                my_raw,
                opp_raw,
                die,
                c,
            ) <= spec_quick_raw(my_raw, opp_raw, die, col as int),
        forall|c: int|
            0 <= c < 3 && decoded_col_open(my_raw, c) && c < col ==> spec_quick_raw(
                my_raw,
                opp_raw,
                die,
                c,
            ) < spec_quick_raw(my_raw, opp_raw, die, col as int),
{
    lemma_open_columns(state, legal, g1, g2, cp);
    assert forall|c: int| 0 <= c < 3 && decoded_col_open(my_raw, c) implies spec_quick_raw(
        my_raw,
        opp_raw,
        die,
        c,
    ) <= spec_quick_raw(my_raw, opp_raw, die, col as int) by {
        assert(!col_full(state.my_grid()@, c));
        assert(legal@.contains(c as usize));
        let k = choose|k: int| 0 <= k < legal@.len() && legal@[k] == c as usize;
        assert(legal@[k] as int == c);
        lemma_quick_raw_link(state, g1, g2, cp, die, c);
        lemma_quick_raw_link(state, g1, g2, cp, die, col as int);
        assert(spec_move_quick(*state, legal@[k] as int, die, state.current_player)
            <= spec_move_quick(*state, col as int, die, state.current_player));
    }
    assert forall|c: int| 0 <= c < 3 && decoded_col_open(my_raw, c) && c < col implies
        spec_quick_raw(my_raw, opp_raw, die, c) < spec_quick_raw(my_raw, opp_raw, die, col as int)
    by {
        assert(!col_full(state.my_grid()@, c));
        assert(legal@.contains(c as usize));
        let k = choose|k: int| 0 <= k < legal@.len() && legal@[k] == c as usize;
        assert(legal@[k] as int == c);
        lemma_quick_raw_link(state, g1, g2, cp, die, c);
        lemma_quick_raw_link(state, g1, g2, cp, die, col as int);
        assert(spec_move_quick(*state, legal@[k] as int, die, state.current_player)
            < spec_move_quick(*state, col as int, die, state.current_player));
    }
}

} // verus!
