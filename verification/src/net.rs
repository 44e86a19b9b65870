use vstd::prelude::*;

use crate::eval::face_count;
use crate::grid::col_seq;
use crate::rng::Rng;
use crate::state::GameState;
use crate::state::Player;

verus! {

/// Number of input features: 6 face-count features for each of the 3
/// columns of both grids, one active-player feature, and a 6-way one-hot
/// encoding of the pending die.
pub const NET_INPUT: usize = 43;

/// Hidden layer width.
pub const NET_HIDDEN: usize = 128;

/// Policy head width: one output per column.
pub const NET_POLICY: usize = 3;

/// Total weight count of the fixed topology, in layout order: hidden
/// weights (row-major, one row of 43 per hidden unit), hidden biases,
/// policy weights (one row of 128 per output), policy biases, value
/// weights, value bias.
pub const NET_WEIGHT_COUNT: usize = NET_HIDDEN * NET_INPUT + NET_HIDDEN + NET_POLICY * NET_HIDDEN
    + NET_POLICY + NET_HIDDEN + 1;

/// Weights are clamped into this range (millis) when loaded.
pub const WEIGHT_CLAMP: i64 = 1_000_000_000;

/// Hidden activations are clamped to this range (millis).
pub const ACT_CLAMP: i64 = 1_000_000;

/// Head logits are clamped to this range (millis) before normalization.
pub const LOGIT_CLAMP: i64 = 100_000;

/// Offset of the hidden biases in the flat weight vector.
pub const OFF_B1: usize = NET_HIDDEN * NET_INPUT;

/// Offset of the policy weights in the flat weight vector.
pub const OFF_WP: usize = OFF_B1 + NET_HIDDEN;

/// Offset of the policy biases in the flat weight vector.
pub const OFF_BP: usize = OFF_WP + NET_POLICY * NET_HIDDEN;

/// Offset of the value weights in the flat weight vector.
pub const OFF_WV: usize = OFF_BP + NET_POLICY;

/// Offset of the value bias in the flat weight vector.
pub const OFF_BV: usize = OFF_WV + NET_HIDDEN;

/// Truncating signed division, the rounding used throughout the fixed-point
/// forward pass.
pub open spec fn trunc_div(v: int, d: int) -> int
    recommends
        d >= 1,
{
    if v >= 0 {
        v / d
    } else {
        -((-v) / d)
    }
}

/// One input feature of the encoded state, in millis. Features 0..18 are
/// the face counts of the first grid's columns over three (column-major,
/// faces 1..6 within a column), 18..36 the same for the second grid, 36 the
/// active player, and 37..43 the one-hot pending die.
pub open spec fn spec_feature(s: GameState, i: int) -> i64
    recommends
        0 <= i < 43,
{
    if i < 18 {
        (face_count(col_seq(s.grid1@, i / 6), ((i % 6) + 1) as u8) * 1000 / 3) as i64
    } else if i < 36 {
        (face_count(col_seq(s.grid2@, (i - 18) / 6), (((i - 18) % 6) + 1) as u8) * 1000 / 3) as i64
    } else if i == 36 {
        if s.current_player == Player::Player1 {
            0
        } else {
            1000
        }
    } else {
        if s.current_die == Some((i - 36) as u8) {
            1000
        } else {
            0
        }
    }
}

/// Dot product of `n` weights starting at `off` with the first `n` inputs.
pub open spec fn spec_dot(ws: Seq<i64>, off: int, x: Seq<i64>, n: int) -> int
    decreases n,
{
    if n <= 0 {
        0
    } else {
        spec_dot(ws, off, x, n - 1) + ws[off + n - 1] * x[n - 1]
    }
}

/// The absolute value of a product is bounded by the product of bounds.
proof fn lemma_abs_mul_le(a: int, b: int, ca: int, cb: int)
    requires
        -ca <= a <= ca,
        -cb <= b <= cb,
        0 <= ca,
        0 <= cb,
    ensures
        -(ca * cb) <= a * b <= ca * cb,
{
    assert(-(ca * cb) <= a * b <= ca * cb) by (nonlinear_arith)
        requires
            -ca <= a <= ca,
            -cb <= b <= cb,
            0 <= ca,
            0 <= cb,
    ;
}

/// Truncating division by a positive constant, with its magnitude bound.
fn sdiv(v: i64, d: i64) -> (r: i64)
    requires
        1 <= d,
        -0x4000_0000_0000_0000 <= v <= 0x4000_0000_0000_0000,
    ensures
        r as int == trunc_div(v as int, d as int),
        -0x4000_0000_0000_0000 <= r <= 0x4000_0000_0000_0000,
        v >= 0 ==> 0 <= r <= v,
        v < 0 ==> v <= r <= 0,
{
    if v >= 0 {
        v / d
    } else {
        let q = (-v) / d;
        -q
    }
}

/// Dot product of one weight row with the input vector, with a bound
/// carried for overflow-freedom: `|weights[k]| <= wb` and `|x[k]| <= xb`.
fn dot_row(weights: &Vec<i64>, off: usize, x: &Vec<i64>, n: usize, wb: i64, xb: i64) -> (r: i64)
    requires
        off + n <= weights@.len(),
        n <= x@.len(),
        0 <= wb,
        0 <= xb,
        n * wb * xb <= 0x4000_0000_0000_0000,
        forall|k: int| off <= k < off + n ==> -wb <= #[trigger] weights@[k] <= wb,
        forall|k: int| 0 <= k < n ==> -xb <= #[trigger] x@[k] <= xb,
    ensures
        r as int == spec_dot(weights@, off as int, x@, n as int),
        -(n * wb * xb) <= r as int <= n * wb * xb,
{
    let mut acc: i64 = 0;
    let mut j: usize = 0;
    while j < n
        invariant
            off + n <= weights@.len(),
            n <= x@.len(),
            0 <= wb,
            0 <= xb,
            n * wb * xb <= 0x4000_0000_0000_0000,
            forall|k: int| off <= k < off + n ==> -wb <= #[trigger] weights@[k] <= wb,
            forall|k: int| 0 <= k < n ==> -xb <= #[trigger] x@[k] <= xb,
            j <= n,
            acc as int == spec_dot(weights@, off as int, x@, j as int),
            -(j * wb * xb) <= acc as int <= j * wb * xb,
        decreases n - j,
    {
        let wlen = weights.len();
        proof {
            assert(off + j < wlen);
        }
        let w = weights[off + j];
        let v = x[j];
        proof {
            lemma_abs_mul_le(w as int, v as int, wb as int, xb as int);
            assert((j + 1) * wb * xb == j * wb * xb + wb * xb) by (nonlinear_arith);
            assert(j * wb * xb <= n * wb * xb && (j + 1) * wb * xb <= n * wb * xb)
                by (nonlinear_arith)
                requires
                    0 <= wb,
                    0 <= xb,
                    0 <= j,
                    j + 1 <= n,
            ;
        }
        acc = acc + w * v;
        j = j + 1;
    }
    acc
}

/// The 43 input features of a state, in order.
pub open spec fn spec_features(s: GameState) -> Seq<i64> {
    Seq::new(43, |i: int| spec_feature(s, i))
}

/// A value clamped into `[lo, hi]`.
pub open spec fn spec_clamp(v: int, lo: int, hi: int) -> int {
    if v < lo {
        lo
    } else if v > hi {
        hi
    } else {
        v
    }
}

/// One hidden unit: the scaled dot product of its weight row with the
/// features, plus its bias, rectified and clamped.
pub open spec fn spec_hidden_unit(ws: Seq<i64>, x: Seq<i64>, i: int) -> int {
    spec_clamp(
        trunc_div(spec_dot(ws, i * 43, x, 43), 1000) + ws[OFF_B1 as int + i],
        0,
        ACT_CLAMP as int,
    )
}

/// The whole hidden layer.
pub open spec fn spec_hidden_seq(ws: Seq<i64>, x: Seq<i64>) -> Seq<i64> {
    Seq::new(128, |i: int| spec_hidden_unit(ws, x, i) as i64)
}

/// One policy-head logit over the hidden layer, clamped.
pub open spec fn spec_logit(ws: Seq<i64>, h: Seq<i64>, j: int) -> int {
    spec_clamp(
        trunc_div(spec_dot(ws, OFF_WP as int + j * 128, h, 128), 1000) + ws[OFF_BP as int + j],
        -(LOGIT_CLAMP as int),
        LOGIT_CLAMP as int,
    )
}

/// The largest of the three policy logits.
pub open spec fn spec_max_logit(ws: Seq<i64>, h: Seq<i64>) -> int {
    let l0 = spec_logit(ws, h, 0);
    let l1 = spec_logit(ws, h, 1);
    let l2 = spec_logit(ws, h, 2);
    if l0 >= l1 && l0 >= l2 {
        l0
    } else if l1 >= l2 {
        l1
    } else {
        l2
    }
}

/// One raw policy share: the reciprocal of the softened gap to the best
/// logit, the fixed-point stand-in for the exponential of the softmax.
pub open spec fn spec_share(ws: Seq<i64>, h: Seq<i64>, j: int) -> int {
    1_000_000int / (1000 + (spec_max_logit(ws, h) - spec_logit(ws, h, j)))
}

/// The policy entry for column `j` in permille: the first two shares are
/// floor-normalized and the last takes the remainder.
pub open spec fn spec_policy(ws: Seq<i64>, x: Seq<i64>, j: int) -> int {
    let h = spec_hidden_seq(ws, x);
    let e0 = spec_share(ws, h, 0);
    let e1 = spec_share(ws, h, 1);
    let e2 = spec_share(ws, h, 2);
    let total = e0 + e1 + e2;
    if j == 0 {
        e0 * 1000 / total
    } else if j == 1 {
        e1 * 1000 / total
    } else {
        1000 - e0 * 1000 / total - e1 * 1000 / total
    }
}

/// The rational squashing map on the raw value estimate.
pub open spec fn spec_squash(v: int) -> int {
    if v >= 0 {
        if v <= 0x1_0000_0000_0000 {
            v * 1000 / (1000 + v)
        } else {
            1000
        }
    } else {
        if -v <= 0x1_0000_0000_0000 {
            -((-v) * 1000 / (1000 + (-v)))
        } else {
            -1000
        }
    }
}

/// The value estimate of the network on the given features, in millis.
pub open spec fn spec_value_est(ws: Seq<i64>, x: Seq<i64>) -> int {
    let h = spec_hidden_seq(ws, x);
    spec_squash(trunc_div(spec_dot(ws, OFF_WV as int, h, 128), 1000) + ws[OFF_BV as int])
}

/// Fixed-topology policy/value network over an encoded state, computed in
/// integer fixed-point arithmetic: one rectified hidden layer, a 3-way
/// policy head normalized to a probability distribution in permille, and a
/// value head squashed into (-1, 1). Weights live in a flat vector in the
/// documented layout; the network is meaningful only once a trained vector
/// has been loaded.
pub struct PolicyValueNetwork {
    pub weights: Vec<i64>,
    pub initialized: bool,
}

impl PolicyValueNetwork {
    /// Shape and range validity of the stored weights.
    pub open spec fn wf(self) -> bool {
        &&& self.weights@.len() == NET_WEIGHT_COUNT
        &&& forall|k: int| 0 <= k < self.weights@.len() ==> -WEIGHT_CLAMP
            <= #[trigger] self.weights@[k] <= WEIGHT_CLAMP
    }

    /// A network with small random weights drawn from the given source
    /// (a scaled uniform init); not yet initialized, so predictions are
    /// defined but carry no trained knowledge.
    pub fn new(rng: &mut Rng) -> (r: PolicyValueNetwork)
        ensures
            r.wf(),
            !r.initialized,
    {
        let mut weights: Vec<i64> = Vec::new();
        let mut k: usize = 0;
        while k < NET_WEIGHT_COUNT
            invariant
                k <= NET_WEIGHT_COUNT,
                weights@.len() == k,
                forall|i: int| 0 <= i < k ==> -WEIGHT_CLAMP <= #[trigger] weights@[i]
                    <= WEIGHT_CLAMP,
            decreases NET_WEIGHT_COUNT - k,
        {
            let draw = rng.next_below(375) as i64;
            weights.push(draw - 187);
            k = k + 1;
        }
        PolicyValueNetwork { weights, initialized: false }
    }

    /// Whether a trained weight vector has been loaded.
    pub fn is_initialized(&self) -> (r: bool)
        ensures
            r == self.initialized,
    {
        self.initialized
    }

    /// Loads a flat weight vector. Exactly `NET_WEIGHT_COUNT` values are
    /// accepted: on a length mismatch nothing changes and false comes
    /// back; on success every value is clamped into the weight range, the
    /// vector replaces the old one whole, and the network counts as
    /// initialized.
    pub fn load_weights(&mut self, w: &[i64]) -> (r: bool)
        requires
            old(self).wf(),
        ensures
            final(self).wf(),
            r == (w@.len() == NET_WEIGHT_COUNT),
            !r ==> *final(self) == *old(self),
            r ==> final(self).initialized && final(self).weights@.len() == NET_WEIGHT_COUNT
                && forall|k: int|
                0 <= k < NET_WEIGHT_COUNT ==> #[trigger] final(self).weights@[k] as int
                    == clamp_weight(w@[k] as int),
    {
        if w.len() != NET_WEIGHT_COUNT {
            return false;
        }
        let mut fresh: Vec<i64> = Vec::new();
        let mut k: usize = 0;
        while k < NET_WEIGHT_COUNT
            invariant
                w@.len() == NET_WEIGHT_COUNT,
                k <= NET_WEIGHT_COUNT,
                fresh@.len() == k,
                forall|i: int| 0 <= i < k ==> #[trigger] fresh@[i] as int == clamp_weight(
                    w@[i] as int,
                ),
                forall|i: int| 0 <= i < k ==> -WEIGHT_CLAMP <= #[trigger] fresh@[i]
                    <= WEIGHT_CLAMP,
            decreases NET_WEIGHT_COUNT - k,
        {
            let v = w[k];
            let c = if v > WEIGHT_CLAMP {
                WEIGHT_CLAMP
            } else if v < -WEIGHT_CLAMP {
                -WEIGHT_CLAMP
            } else {
                v
            };
            fresh.push(c);
            k = k + 1;
        }
        self.weights = fresh;
        self.initialized = true;
        true
    }

    /// One forward pass over the encoded state: returns the policy as a
    /// permille distribution over the three columns (entries nonnegative,
    /// summing to exactly 1000) and the value estimate in millis, strictly
    /// inside (-1000, 1000), oriented to the player to move.
    pub fn forward(&self, state: &GameState) -> (r: (Vec<i64>, i64))
        requires
            self.wf(),
            state.wf(),
        ensures
            r.0@.len() == 3,
            forall|j: int| 0 <= j < 3 ==> #[trigger] r.0@[j] as int == spec_policy(
                self.weights@,
                spec_features(*state),
                j,
            ),
            forall|j: int| 0 <= j < 3 ==> 0 <= #[trigger] r.0@[j] <= 1000,
            r.0@[0] + r.0@[1] + r.0@[2] == 1000,
            r.1 as int == spec_value_est(self.weights@, spec_features(*state)),
            -1000 <= r.1 <= 1000,
    {
        let x = encode_state(state);
        proof {
            assert(x@ =~= spec_features(*state));
        }
        let mut hidden: Vec<i64> = Vec::new();
        let mut i: usize = 0;
        while i < NET_HIDDEN
            invariant
                self.wf(),
                x@.len() == 43,
                forall|k: int| 0 <= k < 43 ==> -1000 <= #[trigger] x@[k] <= 1000,
                i <= NET_HIDDEN,
                hidden@.len() == i,
                forall|k: int| 0 <= k < i ==> 0 <= #[trigger] hidden@[k] <= ACT_CLAMP,
                forall|k: int| 0 <= k < i ==> #[trigger] hidden@[k] as int == spec_hidden_unit(
                    self.weights@,
                    x@,
                    k,
                ),
            decreases NET_HIDDEN - i,
        {
            let pre = dot_row(&self.weights, i * NET_INPUT, &x, NET_INPUT, WEIGHT_CLAMP, 1000);
            let scaled = sdiv(pre, 1000);
            let b = self.weights[OFF_B1 + i];
            let a = scaled + b;
            let h = if a < 0 {
                0
            } else if a > ACT_CLAMP {
                ACT_CLAMP
            } else {
                a
            };
            hidden.push(h);
            i = i + 1;
        }
        proof {
            assert(hidden@ =~= spec_hidden_seq(self.weights@, x@));
        }
        let l0 = self.head_logit(&hidden, 0);
        let l1 = self.head_logit(&hidden, 1);
        let l2 = self.head_logit(&hidden, 2);
        let m = if l0 >= l1 && l0 >= l2 {
            l0
        } else if l1 >= l2 {
            l1
        } else {
            l2
        };
        proof {
            assert(m as int == spec_max_logit(self.weights@, hidden@));
        }
        let d0 = 1000 + (m - l0);
        let d1 = 1000 + (m - l1);
        let d2 = 1000 + (m - l2);
        let e0 = 1_000_000i64 / d0;
        let e1 = 1_000_000i64 / d1;
        let e2 = 1_000_000i64 / d2;
        proof {
            lemma_share_bounds(d0 as int, e0 as int);
            lemma_share_bounds(d1 as int, e1 as int);
            lemma_share_bounds(d2 as int, e2 as int);
        }
        let total = e0 + e1 + e2;
        let p0 = e0 * 1000 / total;
        let p1 = e1 * 1000 / total;
        proof {
            lemma_norm3(e0 as int, e1 as int, e2 as int, total as int);
        }
        let p2 = 1000 - p0 - p1;
        let mut policy: Vec<i64> = Vec::new();
        policy.push(p0);
        policy.push(p1);
        policy.push(p2);
        let vd = dot_row(&self.weights, OFF_WV, &hidden, NET_HIDDEN, WEIGHT_CLAMP, ACT_CLAMP);
        let vraw = sdiv(vd, 1000) + self.weights[OFF_BV];
        let value = squash(vraw);
        (policy, value)
    }

    /// One policy-head logit, clamped into the logit range.
    fn head_logit(&self, hidden: &Vec<i64>, j: usize) -> (r: i64)
        requires
            self.wf(),
            j < 3,
            hidden@.len() == 128,
            forall|k: int| 0 <= k < 128 ==> 0 <= #[trigger] hidden@[k] <= ACT_CLAMP,
        ensures
            -LOGIT_CLAMP <= r <= LOGIT_CLAMP,
            r as int == spec_logit(self.weights@, hidden@, j as int),
    {
        let d = dot_row(
            &self.weights,
            OFF_WP + j * NET_HIDDEN,
            hidden,
            NET_HIDDEN,
            WEIGHT_CLAMP,
            ACT_CLAMP,
        );
        let l = sdiv(d, 1000) + self.weights[OFF_BP + j];
        if l > LOGIT_CLAMP {
            LOGIT_CLAMP
        } else if l < -LOGIT_CLAMP {
            -LOGIT_CLAMP
        } else {
            l
        }
    }
}

/// A loaded weight value, confined to the weight range.
pub open spec fn clamp_weight(v: int) -> int {
    if v > WEIGHT_CLAMP {
        WEIGHT_CLAMP as int
    } else if v < -WEIGHT_CLAMP {
        -(WEIGHT_CLAMP as int)
    } else {
        v
    }
}

/// A reciprocal share of the softened logit gap lies in 1..=1000.
proof fn lemma_share_bounds(d: int, e: int)
    requires
        1000 <= d <= 201_000,
        e == 1_000_000int / d,
    ensures
        1 <= e <= 1000,
{
    assert(1 <= e <= 1000) by (nonlinear_arith)
        requires
            1000 <= d <= 201_000,
            e == 1_000_000int / d,
    ;
}

/// Floor-normalizing three positive shares to permille leaves a
/// nonnegative remainder for the last.
proof fn lemma_norm3(e0: int, e1: int, e2: int, total: int)
    requires
        e0 >= 1,
        e1 >= 1,
        e2 >= 1,
        total == e0 + e1 + e2,
    ensures
        0 <= e0 * 1000 / total <= 1000,
        0 <= e1 * 1000 / total <= 1000,
        e0 * 1000 / total + e1 * 1000 / total <= 1000,
{
    let p0 = e0 * 1000 / total;
    let p1 = e1 * 1000 / total;
    assert(0 <= p0 && p0 * total <= e0 * 1000) by (nonlinear_arith)
        requires
            e0 >= 1,
            total >= 3,
            p0 == e0 * 1000 / total,
    ;
    assert(0 <= p1 && p1 * total <= e1 * 1000) by (nonlinear_arith)
        requires
            e1 >= 1,
            total >= 3,
            p1 == e1 * 1000 / total,
    ;
    assert(p0 + p1 <= 1000) by (nonlinear_arith)
        requires
            p0 * total <= e0 * 1000,
            p1 * total <= e1 * 1000,
            e0 + e1 + e2 == total,
            e2 >= 1,
            total >= 3,
            p0 >= 0,
            p1 >= 0,
    ;
    assert(p0 <= 1000 && p1 <= 1000);
}

/// The rational squashing map never reaches one.
proof fn lemma_squash_bound(a: int)
    requires
        0 <= a,
    ensures
        0 <= a * 1000 / (1000 + a) <= 1000,
{
    assert(0 <= a * 1000 / (1000 + a) <= 1000) by (nonlinear_arith)
        requires
            0 <= a,
    ;
}

/// Squashes an unbounded value estimate into (-1000, 1000) millis with the
/// rational map `1000 * v / (1000 + |v|)`.
fn squash(v: i64) -> (r: i64)
    requires
        -0x4100_0000_0000_0000 <= v <= 0x4100_0000_0000_0000,
    ensures
        -1000 <= r <= 1000,
        r as int == spec_squash(v as int),
{
    if v >= 0 {
        let a = v as u64;
        if a <= 0x1_0000_0000_0000 {
            proof {
                lemma_squash_bound(a as int);
            }
            (a * 1000 / (1000 + a)) as i64
        } else {
            1000
        }
    } else {
        let a = (-v) as u64;
        if a <= 0x1_0000_0000_0000 {
            proof {
                lemma_squash_bound(a as int);
            }
            -((a * 1000 / (1000 + a)) as i64)
        } else {
            -1000
        }
    }
}

/// Encodes a state into the 43 input features, each within ±1000 millis.
pub fn encode_state(state: &GameState) -> (x: Vec<i64>)
    requires
        state.wf(),
    ensures
        x@.len() == 43,
        forall|i: int| 0 <= i < 43 ==> #[trigger] x@[i] as int == spec_feature(*state, i),
        forall|i: int| 0 <= i < 43 ==> -1000 <= #[trigger] x@[i] <= 1000,
{
    let mut x: Vec<i64> = Vec::new();
    let mut g: usize = 0;
    while g < 2
        invariant
            state.wf(),
            g <= 2,
            x@.len() == 18 * g,
            forall|i: int| 0 <= i < x@.len() ==> #[trigger] x@[i] as int == spec_feature(
                *state,
                i,
            ),
            forall|i: int| 0 <= i < x@.len() ==> -1000 <= #[trigger] x@[i] <= 1000,
        decreases 2 - g,
    {
        let grid = if g == 0 {
            &state.grid1
        } else {
            &state.grid2
        };
        let mut c: usize = 0;
        while c < 3
            invariant
                state.wf(),
                g < 2,
                grid@ == (if g == 0 {
                    state.grid1@
                } else {
                    state.grid2@
                }),
                c <= 3,
                x@.len() == 18 * g + 6 * c,
                forall|i: int| 0 <= i < x@.len() ==> #[trigger] x@[i] as int == spec_feature(
                    *state,
                    i,
                ),
                forall|i: int| 0 <= i < x@.len() ==> -1000 <= #[trigger] x@[i] <= 1000,
            decreases 3 - c,
        {
            let v0 = grid.get(c, 0);
            let v1 = grid.get(c, 1);
            let v2 = grid.get(c, 2);
            proof {
                assert(col_seq(grid@, c as int) =~= seq![v0, v1, v2]);
            }
            let mut f: u8 = 1;
            while f <= 6
                invariant
                    state.wf(),
                    g < 2,
                    c < 3,
                    grid@ == (if g == 0 {
                        state.grid1@
                    } else {
                        state.grid2@
                    }),
                    col_seq(grid@, c as int) == seq![v0, v1, v2],
                    1 <= f <= 7,
                    x@.len() == 18 * g + 6 * c + (f - 1),
                    forall|i: int| 0 <= i < x@.len() ==> #[trigger] x@[i] as int == spec_feature(
                        *state,
                        i,
                    ),
                    forall|i: int| 0 <= i < x@.len() ==> -1000 <= #[trigger] x@[i] <= 1000,
                decreases 7 - f,
            {
                let mut count: i64 = 0;
                if v0 == f {
                    count = count + 1;
                }
                if v1 == f {
                    count = count + 1;
                }
                if v2 == f {
                    count = count + 1;
                }
                let feat = count * 1000 / 3;
                proof {
                    let idx = x@.len() as int;
                    assert(count as int == face_count(seq![v0, v1, v2], f));
                    assert(idx == 18 * g + 6 * c + (f - 1));
                    if g == 0 {
                        assert(idx / 6 == c as int && idx % 6 == f - 1) by (nonlinear_arith)
                            requires
                                idx == 6 * c + (f - 1),
                                0 <= c < 3,
                                1 <= f <= 6,
                                g == 0,
                        ;
                    } else {
                        assert((idx - 18) / 6 == c as int && (idx - 18) % 6 == f - 1)
                            by (nonlinear_arith)
                            requires
                                idx - 18 == 6 * c + (f - 1),
                                0 <= c < 3,
                                1 <= f <= 6,
                        ;
                    }
                }
                x.push(feat);
                f = f + 1;
            }
            c = c + 1;
        }
        g = g + 1;
    }
    let active: i64 = match state.current_player {
        Player::Player1 => 0,
        Player::Player2 => 1000,
    };
    x.push(active);
    let mut f: u8 = 1;
    while f <= 6
        invariant
            state.wf(),
            1 <= f <= 7,
            x@.len() == 36 + f,
            forall|i: int| 0 <= i < x@.len() ==> #[trigger] x@[i] as int == spec_feature(
                *state,
                i,
            ),
            forall|i: int| 0 <= i < x@.len() ==> -1000 <= #[trigger] x@[i] <= 1000,
        decreases 7 - f,
    {
        let hot: i64 = match state.current_die {
            Some(d) => {
                if d == f {
                    1000
                } else {
                    0
                }
            },
            None => 0,
        };
        x.push(hot);
        f = f + 1;
    }
    x
}

} // verus!
