//! Why an evaluation did not produce a recommendation.

use vstd::prelude::*;

verus! {

/// The ways an evaluation fails. None is retried and none yields a partial
/// result.
#[derive(Clone, Copy, Debug, PartialEq, Eq, Structural)]
pub enum EvalError {
    /// The text given for the starting position is not a position.
    InvalidPosition,
    /// The root position has no legal move: the game is already over.
    NoLegalMoves,
    /// The rules engine reported a position as ongoing and gave it no
    /// legal move.
    InvariantViolation,
}

impl EvalError {
    /// A line that says which of the failures this is.
    pub fn message(&self) -> (r: &'static str)
        ensures
            r@ == match *self {
                EvalError::InvalidPosition => "the text does not describe a position"@,
                EvalError::NoLegalMoves => "the position has no legal moves"@,
                EvalError::InvariantViolation => "the rules engine gave an ongoing position no legal move"@,
            },
    {
        match self {
            EvalError::InvalidPosition => "the text does not describe a position",
            EvalError::NoLegalMoves => "the position has no legal moves",
            EvalError::InvariantViolation => "the rules engine gave an ongoing position no legal move",
        }
    }
}

} // verus!
