//! Decision engine for a two-player dice-placement grid game.
//!
//! Each player owns a 3x3 grid of die faces. On a turn the active player
//! rolls a die and drops it into one of their three columns; every die of the
//! same face in the opponent's matching column is removed. The game ends the
//! moment the mover's own grid becomes full.
//!
//! The crate provides the rules engine (`grid`, `state`), fixed-point
//! heuristic evaluation (`eval`), an expectimax search with transposition
//! caching and iterative deepening (`search`), an adaptive opponent profile
//! (`profile`), a Monte Carlo tree search (`mcts`), a small fixed-topology
//! policy/value network in integer arithmetic (`net`), and the engine facade
//! tying them together (`engine`).
//!
//! All scores and probabilities are integers: evaluation values are measured
//! in millipoints (1/1000 of a point) and weights in permille (1/1000).

pub mod clock;
pub mod engine;
pub mod eval;
pub mod grid;
pub mod mcts;
pub mod net;
pub mod profile;
pub mod rng;
pub mod search;
pub mod state;

pub use engine::AIEngine;
pub use eval::DifficultyConfig;
pub use grid::Grid;
pub use profile::OpponentProfile;
pub use state::ColumnIndex;
pub use state::DieValue;
pub use state::GamePhase;
pub use state::GameState;
pub use state::Player;
