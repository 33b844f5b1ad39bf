//! Sides, game status and the classification of a finished playout.

use vstd::prelude::*;

verus! {

/// One of the two players. The first player moves first from the standard
/// initial position.
#[derive(Clone, Copy, Debug, PartialEq, Eq, Structural)]
pub enum Side {
    First,
    Second,
}

/// What the rules engine reports of a position.
#[derive(Clone, Copy, Debug, PartialEq, Eq, Structural)]
pub enum GameStatus {
    /// The side to move has at least one continuation.
    Ongoing,
    /// The game is over and the side to move has lost.
    Decisive,
    /// The game is over without a winner.
    Drawn,
}

/// The result of one playout.
#[derive(Clone, Copy, Debug, PartialEq, Eq, Structural)]
pub enum Outcome {
    FirstPlayerWin,
    SecondPlayerWin,
    Draw,
}

impl Side {
    /// The other player.
    pub open spec fn opponent_spec(self) -> Side {
        match self {
            Side::First => Side::Second,
            Side::Second => Side::First,
        }
    }

    /// The other player.
    pub fn opponent(self) -> (r: Side)
        ensures
            r == self.opponent_spec(),
    {
        match self {
            Side::First => Side::Second,
            Side::Second => Side::First,
        }
    }
}

/// The outcome read off a position at which a playout stopped: a decisive
/// position is won by the side that is not to move, anything else (a drawn
/// position, or one still ongoing at the cutoff) is a draw.
pub open spec fn classify_spec(status: GameStatus, to_move: Side) -> Outcome {
    match (status, to_move) {
        (GameStatus::Decisive, Side::Second) => Outcome::FirstPlayerWin,
        (GameStatus::Decisive, Side::First) => Outcome::SecondPlayerWin,
        _ => Outcome::Draw,
    }
}

/// Classifies the position at which a playout stopped.
pub fn classify(status: GameStatus, to_move: Side) -> (r: Outcome)
    ensures
        r == classify_spec(status, to_move),
{
    match status {
        GameStatus::Decisive => match to_move {
            Side::Second => Outcome::FirstPlayerWin,
            Side::First => Outcome::SecondPlayerWin,
        },
        _ => Outcome::Draw,
    }
}

/// What one outcome adds to the running score of `evaluating`: +1 for a
/// win, -1 for a loss, 0 for a draw.
pub open spec fn contribution_spec(outcome: Outcome, evaluating: Side) -> int {
    match (outcome, evaluating) {
        (Outcome::FirstPlayerWin, Side::First) => 1,
        (Outcome::FirstPlayerWin, Side::Second) => -1,
        (Outcome::SecondPlayerWin, Side::First) => -1,
        (Outcome::SecondPlayerWin, Side::Second) => 1,
        (Outcome::Draw, _) => 0,
    }
}

/// The signed contribution of one outcome, seen from `evaluating`.
pub fn contribution(outcome: Outcome, evaluating: Side) -> (r: i8)
    ensures
        r == contribution_spec(outcome, evaluating),
        -1 <= r <= 1,
{
    match outcome {
        Outcome::Draw => 0,
        Outcome::FirstPlayerWin => match evaluating {
            Side::First => 1,
            Side::Second => -1,
        },
        Outcome::SecondPlayerWin => match evaluating {
            Side::First => -1,
            Side::Second => 1,
        },
    }
}

/// Classification is total and its three cases exclude one another: each
/// outcome arises from exactly the stopping positions named for it.
pub proof fn lemma_classification_partitions(status: GameStatus, to_move: Side)
    ensures
        classify_spec(status, to_move) == Outcome::FirstPlayerWin <==> (status == GameStatus::Decisive
            && to_move == Side::Second),
        classify_spec(status, to_move) == Outcome::SecondPlayerWin <==> (status
            == GameStatus::Decisive && to_move == Side::First),
        classify_spec(status, to_move) == Outcome::Draw <==> status != GameStatus::Decisive,
{
}

} // verus!
