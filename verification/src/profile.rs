use vstd::prelude::*;

use crate::eval::DifficultyConfig;

verus! {

/// Default column frequency (permille) when no data is available: about one
/// third for each of the three columns.
pub const UNIFORM_COLUMN_FREQUENCY_PM: u32 = 333;

/// Scaling factor for the column-preference part of the attack bonus.
pub const COLUMN_PREFERENCE_SCALE: i64 = 3;

/// Scaling factor for the high-dice part of the attack bonus.
pub const HIGH_DICE_BONUS_SCALE: i64 = 5;

/// Multiplier for the profile bonus when it biases move ordering.
pub const PROFILE_BONUS_MULTIPLIER: i64 = 2;

/// Attack rate (permille) above which an opponent counts as aggressive.
pub const AGGRESSIVE_ATTACK_THRESHOLD_PM: u32 = 400;

/// Attack rate (permille) below which an opponent counts as passive.
pub const PASSIVE_ATTACK_THRESHOLD_PM: u32 = 200;

/// Cumulative statistics over an opponent's observed moves, kept across
/// games. Counters only grow (saturating, never wrapping) until `reset`.
#[derive(Clone, Copy, Debug)]
pub struct OpponentProfile {
    /// How often each column was played.
    pub column_usage: [u32; 3],
    /// Total recorded moves.
    pub total_moves: u32,
    /// Moves that removed at least one of our dice.
    pub attack_moves: u32,
    /// Placements of a high die (5 or 6) per column.
    pub high_dice_placements: [u32; 3],
    /// Placements of a low die (1 or 2) per column.
    pub low_dice_placements: [u32; 3],
    /// Points lost to the opponent's attacks in total.
    pub score_lost_to_attacks: u32,
    /// Completed games seen so far.
    pub games_completed: u32,
}

/// Attack rate in permille: attacking moves per recorded move.
pub open spec fn spec_attack_rate_pm(p: OpponentProfile) -> int {
    if p.total_moves == 0 {
        0
    } else {
        p.attack_moves as int * 1000 / p.total_moves as int
    }
}

/// Frequency (permille) with which column `col` was played; the uniform
/// default when nothing is recorded, 0 for an invalid column.
pub open spec fn spec_column_frequency_pm(p: OpponentProfile, col: int) -> int {
    if col > 2 || col < 0 {
        0
    } else if p.total_moves == 0 {
        UNIFORM_COLUMN_FREQUENCY_PM as int
    } else {
        p.column_usage@[col] as int * 1000 / p.total_moves as int
    }
}

/// The configuration the adaptive engine derives from the profile: expert
/// depth with the offense/defense balance tilted by the observed attack
/// rate, once at least 3 games and 10 moves are recorded.
pub open spec fn spec_adaptive_config(p: OpponentProfile) -> DifficultyConfig {
    let base = DifficultyConfig {
        depth: 5,
        randomness: 0,
        offense_weight: 500,
        defense_weight: 500,
        advanced_eval: true,
        adversarial: true,
        time_budget_ms: 150,
    };
    if p.games_completed < 3 || p.total_moves < 10 {
        base
    } else {
        let rate = spec_attack_rate_pm(p);
        if rate > AGGRESSIVE_ATTACK_THRESHOLD_PM as int {
            let defense = 600 + (rate - AGGRESSIVE_ATTACK_THRESHOLD_PM as int) / 2;
            DifficultyConfig {
                offense_weight: (1000 - defense) as u32,
                defense_weight: defense as u32,
                ..base
            }
        } else if rate < PASSIVE_ATTACK_THRESHOLD_PM as int {
            DifficultyConfig { offense_weight: 700, defense_weight: 300, ..base }
        } else {
            base
        }
    }
}

/// Millipoint bonus for attacking column `col`: columns the opponent plays
/// more than uniformly, and columns where they stack high dice, are worth
/// disrupting. Zero until 10 moves are recorded.
#[verifier::opaque]
pub open spec fn spec_column_attack_bonus_mp(p: OpponentProfile, col: int) -> int {
    if p.total_moves < 10 || col > 2 || col < 0 {
        0
    } else {
        let freq_pm = p.column_usage@[col] as int * 1000 / p.total_moves as int;
        let total_high = p.high_dice_placements@[0] as int + p.high_dice_placements@[1] as int
            + p.high_dice_placements@[2] as int;
        let high_ratio_pm = if total_high > 0 {
            p.high_dice_placements@[col] as int * 1000 / total_high
        } else {
            UNIFORM_COLUMN_FREQUENCY_PM as int
        };
        (freq_pm - UNIFORM_COLUMN_FREQUENCY_PM as int) * COLUMN_PREFERENCE_SCALE + (high_ratio_pm
            - UNIFORM_COLUMN_FREQUENCY_PM as int) * HIGH_DICE_BONUS_SCALE
    }
}

impl OpponentProfile {
    /// Validity: no per-column or attack counter outruns the move total.
    pub open spec fn wf(self) -> bool {
        &&& self.attack_moves <= self.total_moves
        &&& forall|i: int| 0 <= i < 3 ==> #[trigger] self.column_usage@[i] <= self.total_moves
        &&& forall|i: int| 0 <= i < 3 ==> #[trigger] self.high_dice_placements@[i]
            <= self.column_usage@[i]
        &&& forall|i: int| 0 <= i < 3 ==> #[trigger] self.low_dice_placements@[i]
            <= self.column_usage@[i]
    }

    /// A fresh profile with every counter at zero.
    pub fn new() -> (p: OpponentProfile)
        ensures
            p.wf(),
            p.total_moves == 0,
            p.attack_moves == 0,
            p.games_completed == 0,
            p.score_lost_to_attacks == 0,
            forall|i: int| 0 <= i < 3 ==> #[trigger] p.column_usage@[i] == 0,
            forall|i: int| 0 <= i < 3 ==> #[trigger] p.high_dice_placements@[i] == 0,
            forall|i: int| 0 <= i < 3 ==> #[trigger] p.low_dice_placements@[i] == 0,
    {
        OpponentProfile {
            column_usage: [0u32; 3],
            total_moves: 0,
            attack_moves: 0,
            high_dice_placements: [0u32; 3],
            low_dice_placements: [0u32; 3],
            score_lost_to_attacks: 0,
            games_completed: 0,
        }
    }

    /// Records one observed opponent move: the column and die face played,
    /// how many of our dice it removed and how many points that cost us.
    /// Out-of-range arguments are ignored without any change. Counters
    /// saturate instead of overflowing.
    pub fn record_move(&mut self, col: u8, die_value: u8, removed_count: u8, score_lost: u32)
        requires
            old(self).wf(),
        ensures
            final(self).wf(),
            (col > 2 || die_value == 0 || die_value > 6) ==> *final(self) == *old(self),
            (col <= 2 && 1 <= die_value <= 6) ==> {
                &&& final(self).total_moves == old(self).total_moves.saturating_add(1)
                &&& final(self).column_usage@ == old(self).column_usage@.update(
                    col as int,
                    old(self).column_usage@[col as int].saturating_add(1),
                )
                &&& (removed_count > 0 ==> final(self).attack_moves == old(
                    self,
                ).attack_moves.saturating_add(1) && final(self).score_lost_to_attacks == old(
                    self,
                ).score_lost_to_attacks.saturating_add(score_lost))
                &&& (removed_count == 0 ==> final(self).attack_moves == old(self).attack_moves
                    && final(self).score_lost_to_attacks == old(self).score_lost_to_attacks)
                &&& (die_value >= 5 ==> final(self).high_dice_placements@ == old(
                    self,
                ).high_dice_placements@.update(
                    col as int,
                    old(self).high_dice_placements@[col as int].saturating_add(1),
                ) && final(self).low_dice_placements@ == old(self).low_dice_placements@)
                &&& (die_value <= 2 ==> final(self).low_dice_placements@ == old(
                    self,
                ).low_dice_placements@.update(
                    col as int,
                    old(self).low_dice_placements@[col as int].saturating_add(1),
                ) && final(self).high_dice_placements@ == old(self).high_dice_placements@)
                &&& (3 <= die_value <= 4 ==> final(self).high_dice_placements@ == old(
                    self,
                ).high_dice_placements@ && final(self).low_dice_placements@ == old(
                    self,
                ).low_dice_placements@)
                &&& final(self).games_completed == old(self).games_completed
            },
    {
        if col > 2 || die_value == 0 || die_value > 6 {
            return ;
        }
        let col_idx = col as usize;
        self.column_usage[col_idx] = self.column_usage[col_idx].saturating_add(1);
        self.total_moves = self.total_moves.saturating_add(1);
        if removed_count > 0 {
            self.attack_moves = self.attack_moves.saturating_add(1);
            self.score_lost_to_attacks = self.score_lost_to_attacks.saturating_add(score_lost);
        }
        if die_value >= 5 {
            self.high_dice_placements[col_idx] = self.high_dice_placements[
                col_idx
            ].saturating_add(1);
        } else if die_value <= 2 {
            self.low_dice_placements[col_idx] = self.low_dice_placements[col_idx].saturating_add(
                1,
            );
        }
    }

    /// Marks the end of one game.
    pub fn end_game(&mut self)
        requires
            old(self).wf(),
        ensures
            final(self).wf(),
            final(self).games_completed == old(self).games_completed.saturating_add(1),
            final(self).total_moves == old(self).total_moves,
            final(self).attack_moves == old(self).attack_moves,
            final(self).column_usage@ == old(self).column_usage@,
            final(self).high_dice_placements@ == old(self).high_dice_placements@,
            final(self).low_dice_placements@ == old(self).low_dice_placements@,
            final(self).score_lost_to_attacks == old(self).score_lost_to_attacks,
    {
        self.games_completed = self.games_completed.saturating_add(1);
    }

    /// Forgets everything that was learned.
    pub fn reset(&mut self)
        ensures
            final(self).wf(),
            final(self).total_moves == 0,
            final(self).attack_moves == 0,
            final(self).games_completed == 0,
            final(self).score_lost_to_attacks == 0,
            forall|i: int| 0 <= i < 3 ==> #[trigger] final(self).column_usage@[i] == 0,
            forall|i: int| 0 <= i < 3 ==> #[trigger] final(self).high_dice_placements@[i] == 0,
            forall|i: int| 0 <= i < 3 ==> #[trigger] final(self).low_dice_placements@[i] == 0,
    {
        self.column_usage = [0u32; 3];
        self.total_moves = 0;
        self.attack_moves = 0;
        self.high_dice_placements = [0u32; 3];
        self.low_dice_placements = [0u32; 3];
        self.score_lost_to_attacks = 0;
        self.games_completed = 0;
    }

    /// How many games have been completed.
    pub fn get_games_completed(&self) -> (r: u32)
        ensures
            r == self.games_completed,
    {
        self.games_completed
    }

    /// How many moves have been recorded.
    pub fn get_total_moves(&self) -> (r: u32)
        ensures
            r == self.total_moves,
    {
        self.total_moves
    }

    /// The observed attack rate in permille (0..=1000).
    pub fn get_attack_rate(&self) -> (r: u32)
        requires
            self.wf(),
        ensures
            r as int == spec_attack_rate_pm(*self),
            r <= 1000,
    {
        if self.total_moves == 0 {
            return 0;
        }
        let r = (self.attack_moves as u64 * 1000 / self.total_moves as u64) as u32;
        proof {
            assert(self.attack_moves as int * 1000 / self.total_moves as int <= 1000)
                by (nonlinear_arith)
                requires
                    0 < self.total_moves as int,
                    self.attack_moves as int <= self.total_moves as int,
            ;
        }
        r
    }

    /// How often column `col` was played, in permille (0..=1000); the
    /// uniform default without data, 0 for an invalid column.
    pub fn get_column_frequency(&self, col: u8) -> (r: u32)
        requires
            self.wf(),
        ensures
            r as int == spec_column_frequency_pm(*self, col as int),
            r <= 1000,
    {
        if col > 2 {
            return 0;
        }
        if self.total_moves == 0 {
            return UNIFORM_COLUMN_FREQUENCY_PM;
        }
        let usage = self.column_usage[col as usize];
        let r = (usage as u64 * 1000 / self.total_moves as u64) as u32;
        proof {
            assert(usage as int * 1000 / self.total_moves as int <= 1000) by (nonlinear_arith)
                requires
                    0 < self.total_moves as int,
                    usage as int <= self.total_moves as int,
            ;
        }
        r
    }

    /// The adaptive search configuration derived from the learned profile.
    pub fn get_adaptive_config(&self) -> (r: DifficultyConfig)
        requires
            self.wf(),
        ensures
            r == spec_adaptive_config(*self),
            r.valid(),
    {
        let mut config = DifficultyConfig {
            depth: 5,
            randomness: 0,
            offense_weight: 500,
            defense_weight: 500,
            advanced_eval: true,
            adversarial: true,
            time_budget_ms: 150,
        };
        if self.games_completed < 3 || self.total_moves < 10 {
            return config;
        }
        let attack_rate = self.get_attack_rate();
        if attack_rate > AGGRESSIVE_ATTACK_THRESHOLD_PM {
            let defense = 600 + (attack_rate - AGGRESSIVE_ATTACK_THRESHOLD_PM) / 2;
            config.defense_weight = defense;
            config.offense_weight = 1000 - defense;
        } else if attack_rate < PASSIVE_ATTACK_THRESHOLD_PM {
            config.offense_weight = 700;
            config.defense_weight = 300;
        }
        config
    }

    /// Millipoint bonus for attacking column `col`, from the learned
    /// patterns.
    pub fn get_column_attack_bonus(&self, col: usize) -> (r: i64)
        requires
            self.wf(),
        ensures
            r as int == spec_column_attack_bonus_mp(*self, col as int),
            -2664 <= r <= 5336,
    {
        proof {
            reveal(spec_column_attack_bonus_mp);
        }
        if self.total_moves < 10 || col > 2 {
            return 0;
        }
        let usage = self.column_usage[col];
        let freq_pm = (usage as u64 * 1000 / self.total_moves as u64) as i64;
        proof {
            assert(usage as int * 1000 / self.total_moves as int <= 1000) by (nonlinear_arith)
                requires
                    0 < self.total_moves as int,
                    usage as int <= self.total_moves as int,
            ;
        }
        let total_high: u64 = self.high_dice_placements[0] as u64
            + self.high_dice_placements[1] as u64 + self.high_dice_placements[2] as u64;
        let high_ratio_pm: i64 = if total_high > 0 {
            let h = self.high_dice_placements[col] as u64;
            proof {
                assert(self.high_dice_placements@[col as int] as int * 1000 / total_high as int
                    <= 1000) by (nonlinear_arith)
                    requires
                        0 < total_high as int,
                        self.high_dice_placements@[col as int] as int <= total_high as int,
                ;
            }
            (h * 1000 / total_high) as i64
        } else {
            UNIFORM_COLUMN_FREQUENCY_PM as i64
        };
        (freq_pm - UNIFORM_COLUMN_FREQUENCY_PM as i64) * COLUMN_PREFERENCE_SCALE + (high_ratio_pm
            - UNIFORM_COLUMN_FREQUENCY_PM as i64) * HIGH_DICE_BONUS_SCALE
    }
}

/// Adaptation law: after at least 3 finished games and 10 recorded moves of
/// an opponent whose every move attacked, the observed attack rate exceeds
/// the aggressive threshold and the derived configuration weighs defense
/// above one half.
pub proof fn lemma_always_attacking_raises_defense(p: OpponentProfile)
    requires
        p.wf(),
        p.attack_moves == p.total_moves,
        p.total_moves >= 10,
        p.games_completed >= 3,
    ensures
        spec_attack_rate_pm(p) > AGGRESSIVE_ATTACK_THRESHOLD_PM as int,
        spec_adaptive_config(p).defense_weight > 500,
{
    assert(p.total_moves as int * 1000 / p.total_moves as int == 1000) by (nonlinear_arith)
        requires
            p.total_moves as int > 0,
    ;
}

} // verus!
