//! The two knobs of an evaluation.

use vstd::prelude::*;

verus! {

/// Playouts run for each candidate move unless configured otherwise.
pub const DEFAULT_TRIALS_PER_MOVE: u32 = 50_000;

/// Moves after which an unfinished playout is cut off unless configured
/// otherwise.
pub const DEFAULT_MAX_ROLLOUT_STEPS: u32 = 50;

/// How much work an evaluation does. Every candidate move gets the same
/// number of playouts, and every playout the same move budget.
#[derive(Clone, Copy, Debug, PartialEq, Eq, Structural)]
pub struct Config {
    /// Playouts per candidate move.
    pub trials_per_move: u32,
    /// Moves after which an unfinished playout counts as a draw.
    pub max_rollout_steps: u32,
}

impl Default for Config {
    fn default() -> (r: Config)
        ensures
            r.trials_per_move == DEFAULT_TRIALS_PER_MOVE,
            r.max_rollout_steps == DEFAULT_MAX_ROLLOUT_STEPS,
    {
        Config {
            trials_per_move: DEFAULT_TRIALS_PER_MOVE,
            max_rollout_steps: DEFAULT_MAX_ROLLOUT_STEPS,
        }
    }
}

} // verus!
