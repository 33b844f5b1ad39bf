//! Ranking the candidate moves of a root position by their scores.

use crate::config::Config;
use crate::engine::{
    engine_apply, engine_moves, engine_side, engine_status, is_legal, is_playable, Move, Position,
};
use crate::error::EvalError;
use crate::outcome::GameStatus;
use crate::rollout::may_fail;
use crate::score::{is_possible_score, score, Score};
use vstd::prelude::*;

verus! {

/// Entry `i` is the best of `scores` under the first-wins rule: no entry
/// nets more, and every earlier entry nets strictly less. Scores are
/// compared by their net result, all candidates having had the same
/// number of playouts.
pub open spec fn is_first_best(scores: Seq<Score>, i: int) -> bool {
    &&& 0 <= i < scores.len()
    &&& forall|j: int| 0 <= j < scores.len() ==> (#[trigger] scores[j]).net <= scores[i].net
    &&& forall|j: int| 0 <= j < i ==> (#[trigger] scores[j]).net < scores[i].net
}

/// At most one entry is the first best.
pub proof fn lemma_first_best_unique(scores: Seq<Score>, i: int, j: int)
    requires
        is_first_best(scores, i),
        is_first_best(scores, j),
    ensures
        i == j,
{
    if i < j {
        assert(scores[i].net < scores[j].net);
    } else if j < i {
        assert(scores[j].net < scores[i].net);
    }
}

/// Of two candidates with the same score the later one is never chosen.
pub proof fn lemma_tie_keeps_earlier(scores: Seq<Score>, earlier: int, later: int, best: int)
    requires
        0 <= earlier < later < scores.len(),
        scores[earlier].net == scores[later].net,
        is_first_best(scores, best),
    ensures
        best != later,
{
    if best == later {
        assert(scores[earlier].net < scores[best].net);
    }
}

/// The index of the best score: a later entry replaces the best so far
/// only where it nets strictly more, so that among equals the earliest
/// stays. `None` for an empty list.
pub fn best_index(scores: &Vec<Score>) -> (r: Option<usize>)
    ensures
        match r {
            Some(i) => is_first_best(scores@, i as int),
            None => scores@.len() == 0,
        },
{
    if scores.len() == 0 {
        return None;
    }
    let mut best: usize = 0;
    let mut i: usize = 1;
    while i < scores.len()
        invariant
            1 <= i <= scores.len(),
            is_first_best(scores@.take(i as int), best as int),
        decreases scores.len() - i,
    {
        let ghost seen = scores@.take(i as int);
        let ghost grown = scores@.take(i + 1);
        assert(forall|j: int| 0 <= j < i ==> grown[j] == seen[j]);
        if scores[i].net > scores[best].net {
            assert forall|j: int| 0 <= j < i implies (#[trigger] grown[j]).net < grown[i as int].net by {
                assert(seen[j].net <= seen[best as int].net);
            }
            best = i;
        } else {
            assert forall|j: int| 0 <= j < best implies (#[trigger] grown[j]).net
                < grown[best as int].net by {
                assert(seen[j].net < seen[best as int].net);
            }
            assert forall|j: int| 0 <= j < grown.len() implies (#[trigger] grown[j]).net
                <= grown[best as int].net by {
                if j < i {
                    assert(seen[j].net <= seen[best as int].net);
                }
            }
        }
        i += 1;
    }
    assert(scores@.take(i as int) =~= scores@);
    Some(best)
}

/// The recommendation for a root position.
#[derive(Clone, Copy, Debug, PartialEq, Eq, Structural)]
pub struct Evaluation {
    /// The best-scoring move.
    pub best: Move,
    /// Its score, for the side to move at the root.
    pub score: Score,
    /// How many playouts were run over all candidates.
    pub rollouts: u128,
}

/// `scores` may be the scores of the candidate moves of `root`, taken in
/// the order of enumeration: entry `i` is a possible score, for the side to
/// move at `root`, of the position after the `i`-th legal move.
pub open spec fn are_candidate_scores(
    root: Seq<char>,
    max_steps: nat,
    trials: nat,
    scores: Seq<Score>,
) -> bool {
    &&& scores.len() == engine_moves(root).len()
    &&& forall|i: int|
        0 <= i < scores.len() ==> is_possible_score(
            engine_apply(root, engine_moves(root)[i]),
            max_steps,
            trials,
            engine_side(root),
            #[trigger] scores[i],
        )
}

/// `evaluation` recommends the first best among some possible scores of
/// the candidates of `root`.
pub open spec fn is_possible_evaluation(
    root: Seq<char>,
    max_steps: nat,
    trials: nat,
    evaluation: Evaluation,
) -> bool {
    exists|scores: Seq<Score>, i: int|
        {
            &&& #[trigger] are_candidate_scores(root, max_steps, trials, scores)
            &&& #[trigger] is_first_best(scores, i)
            &&& evaluation.best == engine_moves(root)[i]
            &&& evaluation.score == scores[i]
            &&& evaluation.rollouts == engine_moves(root).len() * trials
        }
}

/// Some candidate of `root` leads to a board that is not playable, or its
/// playouts may fail.
pub open spec fn candidate_may_fail(root: Seq<char>, max_steps: nat) -> bool {
    exists|mv: Move| #[trigger]
        is_legal(root, mv) && (!is_playable(engine_apply(root, mv)) || may_fail(
            engine_apply(root, mv),
            max_steps,
        ))
}

/// Some legal move at `root` ends the game in favour of the side that
/// plays it.
pub open spec fn has_winning_move(root: Seq<char>) -> bool {
    exists|mv: Move| #[trigger]
        is_legal(root, mv) && engine_status(engine_apply(root, mv)) == GameStatus::Decisive
}

/// Picks the move to play at `root`. Each legal move, in the order of
/// enumeration, is played on a copy of `root` and the resulting position
/// scored for the side to move at `root` with the full budget of playouts,
/// also where it is the only move. The first best score wins. A root
/// without legal moves is refused before any playout is run; a candidate
/// that leads to a board which is not playable, or a failed playout, fails
/// the evaluation. Where a move wins on the spot, every
/// playout after it is a win, so the best score is a full one.
pub fn select_best(root: &Position, config: &Config) -> (r: Result<Evaluation, EvalError>)
    ensures
        match r {
            Ok(evaluation) => evaluation.score.wf() && is_possible_evaluation(
                root@,
                config.max_rollout_steps as nat,
                config.trials_per_move as nat,
                evaluation,
            ),
            Err(EvalError::NoLegalMoves) => engine_moves(root@).len() == 0,
            Err(EvalError::InvariantViolation) => candidate_may_fail(
                root@,
                config.max_rollout_steps as nat,
            ),
            Err(EvalError::InvalidPosition) => false,
        },
        engine_moves(root@).len() == 0 ==> r == Err::<Evaluation, EvalError>(
            EvalError::NoLegalMoves,
        ),
        engine_moves(root@).len() == 1 ==> (r matches Ok(evaluation) ==> evaluation.best
            == engine_moves(root@)[0]),
        has_winning_move(root@) ==> (r matches Ok(evaluation) ==> evaluation.score.net
            == config.trials_per_move),
{
    let moves = root.legal_moves();
    if moves.len() == 0 {
        return Err(EvalError::NoLegalMoves);
    }
    let evaluating = root.side_to_move();
    let ghost max_steps = config.max_rollout_steps as nat;
    let ghost trials = config.trials_per_move as nat;
    let mut scores: Vec<Score> = Vec::new();
    let mut i: usize = 0;
    while i < moves.len()
        invariant
            i <= moves.len(),
            scores.len() == i,
            moves@ == engine_moves(root@),
            evaluating == engine_side(root@),
            max_steps == config.max_rollout_steps as nat,
            trials == config.trials_per_move as nat,
            forall|j: int|
                0 <= j < i ==> (#[trigger] scores@[j]).wf() && is_possible_score(
                    engine_apply(root@, moves@[j]),
                    max_steps,
                    trials,
                    evaluating,
                    scores@[j],
                ),
            forall|j: int|
                0 <= j < i && engine_status(engine_apply(root@, moves@[j])) == GameStatus::Decisive
                    ==> (#[trigger] scores@[j]).net == trials,
        decreases moves.len() - i,
    {
        assert(is_legal(root@, moves@[i as int]));
        let next = match root.apply(moves[i]) {
            Ok(next) => next,
            Err(e) => {
                return Err(e);
            },
        };
        match score(&next, evaluating, config) {
            Ok(s) => {
                scores.push(s);
            },
            Err(e) => {
                return Err(e);
            },
        }
        i += 1;
    }
    assert(are_candidate_scores(root@, max_steps, trials, scores@));
    match best_index(&scores) {
        Some(best) => {
            assert(moves.len() * config.trials_per_move <= 0xffff_ffff_ffff_ffff * 0xffff_ffff)
                by (nonlinear_arith)
                requires
                    moves.len() <= 0xffff_ffff_ffff_ffff,
                    config.trials_per_move <= 0xffff_ffff,
            ;
            let evaluation = Evaluation {
                best: moves[best],
                score: scores[best],
                rollouts: moves.len() as u128 * config.trials_per_move as u128,
            };
            assert(is_first_best(scores@, best as int));
            proof {
                if has_winning_move(root@) {
                    let mv = choose|mv: Move| #[trigger]
                        is_legal(root@, mv) && engine_status(engine_apply(root@, mv))
                            == GameStatus::Decisive;
                    let j = moves@.index_of(mv);
                    assert(scores@[j].net == trials);
                    assert(scores@[j].net <= scores@[best as int].net);
                }
            }
            Ok(evaluation)
        },
        None => Err(EvalError::NoLegalMoves),
    }
}

} // verus!
