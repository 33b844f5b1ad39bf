//! The score of a position: many independent playouts, each adding +1, -1
//! or 0 from the evaluating side's point of view.

use crate::config::Config;
use crate::engine::{engine_status, Position};
use crate::error::EvalError;
use crate::outcome::{contribution, contribution_spec, GameStatus, Outcome, Side};
use crate::rollout::{
    is_possible_outcome, lemma_finished_game_outcome, may_fail, outcome_at, simulate,
};
use rayon::iter::{IntoParallelIterator, ParallelIterator};
use vstd::prelude::*;

verus! {

/// The most playouts one score can stand for.
pub const MAX_TRIALS: u64 = 0x7fff_ffff_ffff_ffff;

/// The most playouts that are run, and their outcomes held, at one time.
pub const TRIALS_PER_BATCH: u32 = 65_536;

/// Wins minus losses over a number of playouts. As a fraction `net /
/// trials` it lies between -1 and 1.
#[derive(Clone, Copy, Debug, PartialEq, Eq, Structural)]
pub struct Score {
    /// Wins minus losses of the evaluating side.
    pub net: i64,
    /// How many playouts were counted.
    pub trials: u64,
}

impl Score {
    /// The net result cannot exceed the number of playouts either way.
    pub open spec fn wf(&self) -> bool {
        -(self.trials as int) <= self.net <= self.trials
    }

    /// The score of no playouts at all.
    pub fn empty() -> (r: Score)
        ensures
            r.net == 0,
            r.trials == 0,
            r.wf(),
    {
        Score { net: 0, trials: 0 }
    }

    /// The score of two batches of playouts taken together.
    pub fn combine(self, other: Score) -> (r: Score)
        requires
            self.wf(),
            other.wf(),
            self.trials + other.trials <= MAX_TRIALS,
        ensures
            r.net == self.net + other.net,
            r.trials == self.trials + other.trials,
            r.wf(),
    {
        Score { net: self.net + other.net, trials: self.trials + other.trials }
    }
}

/// The sum of what each outcome contributes, seen from `evaluating`.
pub open spec fn net_of(outcomes: Seq<Outcome>, evaluating: Side) -> int
    decreases outcomes.len(),
{
    if outcomes.len() == 0 {
        0
    } else {
        net_of(outcomes.drop_last(), evaluating) + contribution_spec(outcomes.last(), evaluating)
    }
}

/// `score` is what a batch of `outcomes` adds up to for `evaluating`.
pub open spec fn is_score_of(score: Score, outcomes: Seq<Outcome>, evaluating: Side) -> bool {
    score.net == net_of(outcomes, evaluating) && score.trials == outcomes.len()
}

/// The net result of a batch lies within its size.
pub proof fn lemma_net_bounded(outcomes: Seq<Outcome>, evaluating: Side)
    ensures
        -outcomes.len() <= net_of(outcomes, evaluating) <= outcomes.len(),
    decreases outcomes.len(),
{
    if outcomes.len() > 0 {
        lemma_net_bounded(outcomes.drop_last(), evaluating);
    }
}

/// However a batch of playouts is split in two, the parts' net results add
/// up to that of the whole.
pub proof fn lemma_net_of_concat(first: Seq<Outcome>, second: Seq<Outcome>, evaluating: Side)
    ensures
        net_of(first + second, evaluating) == net_of(first, evaluating) + net_of(
            second,
            evaluating,
        ),
    decreases second.len(),
{
    if second.len() == 0 {
        assert(first + second =~= first);
    } else {
        assert((first + second).drop_last() =~= first + second.drop_last());
        assert((first + second).last() == second.last());
        lemma_net_of_concat(first, second.drop_last(), evaluating);
    }
}

/// Scoring two batches apart and combining the scores gives the score of
/// the batches run as one.
pub proof fn lemma_partition_invariance(
    whole: Score,
    part_a: Score,
    part_b: Score,
    a: Seq<Outcome>,
    b: Seq<Outcome>,
    evaluating: Side,
)
    requires
        is_score_of(part_a, a, evaluating),
        is_score_of(part_b, b, evaluating),
        is_score_of(whole, a + b, evaluating),
    ensures
        whole.net == part_a.net + part_b.net,
        whole.trials == part_a.trials + part_b.trials,
{
    lemma_net_of_concat(a, b, evaluating);
}

/// Seen from the other side, a batch nets the opposite.
pub proof fn lemma_net_of_opponent(outcomes: Seq<Outcome>, evaluating: Side)
    ensures
        net_of(outcomes, evaluating.opponent_spec()) == -net_of(outcomes, evaluating),
    decreases outcomes.len(),
{
    if outcomes.len() > 0 {
        lemma_net_of_opponent(outcomes.drop_last(), evaluating);
    }
}

/// A batch in which every playout ended alike nets that outcome's
/// contribution once per playout.
pub proof fn lemma_net_of_uniform(outcomes: Seq<Outcome>, outcome: Outcome, evaluating: Side)
    requires
        forall|i: int| 0 <= i < outcomes.len() ==> outcomes[i] == outcome,
    ensures
        net_of(outcomes, evaluating) == outcomes.len() * contribution_spec(outcome, evaluating),
    decreases outcomes.len(),
{
    if outcomes.len() > 0 {
        lemma_net_of_uniform(outcomes.drop_last(), outcome, evaluating);
        assert(outcomes.len() * contribution_spec(outcome, evaluating) == (outcomes.len() - 1)
            * contribution_spec(outcome, evaluating) + contribution_spec(outcome, evaluating))
            by (nonlinear_arith);
    }
}

/// Adds up a batch of outcomes from the point of view of `evaluating`.
pub fn tally(outcomes: &Vec<Outcome>, evaluating: Side) -> (r: Score)
    requires
        outcomes.len() <= MAX_TRIALS,
    ensures
        is_score_of(r, outcomes@, evaluating),
        r.wf(),
{
    let mut net: i64 = 0;
    let mut i: usize = 0;
    while i < outcomes.len()
        invariant
            i <= outcomes.len(),
            outcomes.len() <= MAX_TRIALS,
            net == net_of(outcomes@.take(i as int), evaluating),
            -(i as int) <= net <= i,
        decreases outcomes.len() - i,
    {
        assert(outcomes@.take(i + 1).drop_last() =~= outcomes@.take(i as int));
        net = net + contribution(outcomes[i], evaluating) as i64;
        i += 1;
    }
    assert(outcomes@.take(i as int) =~= outcomes@);
    Score { net, trials: outcomes.len() as u64 }
}

/// `trials` playouts from `position` under the budget may end with
/// `outcomes`, one entry per playout.
pub open spec fn are_possible_outcomes(
    position: Seq<char>,
    max_steps: nat,
    trials: nat,
    outcomes: Seq<Outcome>,
) -> bool {
    &&& outcomes.len() == trials
    &&& forall|i: int|
        0 <= i < outcomes.len() ==> is_possible_outcome(position, max_steps, #[trigger] outcomes[i])
}

/// `score` is what some run of `trials` playouts from `position` adds up
/// to for `evaluating`.
pub open spec fn is_possible_score(
    position: Seq<char>,
    max_steps: nat,
    trials: nat,
    evaluating: Side,
    score: Score,
) -> bool {
    exists|outcomes: Seq<Outcome>| #[trigger]
        are_possible_outcomes(position, max_steps, trials, outcomes) && is_score_of(
            score,
            outcomes,
            evaluating,
        )
}

/// Two runs of playouts from one position, taken together, are a run of
/// as many playouts as both: their combined score is one that a single run
/// of that size may give.
pub proof fn lemma_scores_combine(
    position: Seq<char>,
    max_steps: nat,
    evaluating: Side,
    first: Score,
    second: Score,
    combined: Score,
)
    requires
        is_possible_score(position, max_steps, first.trials as nat, evaluating, first),
        is_possible_score(position, max_steps, second.trials as nat, evaluating, second),
        combined.net == first.net + second.net,
        combined.trials == first.trials + second.trials,
    ensures
        is_possible_score(position, max_steps, combined.trials as nat, evaluating, combined),
{
    let a = choose|outcomes: Seq<Outcome>| #[trigger]
        are_possible_outcomes(position, max_steps, first.trials as nat, outcomes) && is_score_of(
            first,
            outcomes,
            evaluating,
        );
    let b = choose|outcomes: Seq<Outcome>| #[trigger]
        are_possible_outcomes(position, max_steps, second.trials as nat, outcomes) && is_score_of(
            second,
            outcomes,
            evaluating,
        );
    lemma_net_of_concat(a, b, evaluating);
    assert(are_possible_outcomes(position, max_steps, combined.trials as nat, a + b));
}

/// A run of playouts splits, at any point, into two runs whose scores add
/// up to its own.
pub proof fn lemma_score_splits(
    position: Seq<char>,
    max_steps: nat,
    evaluating: Side,
    whole: Score,
    first_trials: nat,
) -> (parts: (Score, Score))
    requires
        whole.trials <= MAX_TRIALS,
        first_trials <= whole.trials,
        is_possible_score(position, max_steps, whole.trials as nat, evaluating, whole),
    ensures
        parts.0.trials == first_trials,
        parts.0.trials + parts.1.trials == whole.trials,
        parts.0.net + parts.1.net == whole.net,
        is_possible_score(position, max_steps, parts.0.trials as nat, evaluating, parts.0),
        is_possible_score(position, max_steps, parts.1.trials as nat, evaluating, parts.1),
{
    let outcomes = choose|outcomes: Seq<Outcome>| #[trigger]
        are_possible_outcomes(position, max_steps, whole.trials as nat, outcomes) && is_score_of(
            whole,
            outcomes,
            evaluating,
        );
    let a = outcomes.take(first_trials as int);
    let b = outcomes.skip(first_trials as int);
    assert(a + b =~= outcomes);
    lemma_net_of_concat(a, b, evaluating);
    lemma_net_bounded(a, evaluating);
    lemma_net_bounded(b, evaluating);
    let first = Score { net: net_of(a, evaluating) as i64, trials: a.len() as u64 };
    let second = Score { net: net_of(b, evaluating) as i64, trials: b.len() as u64 };
    assert(are_possible_outcomes(position, max_steps, first.trials as nat, a));
    assert(are_possible_outcomes(position, max_steps, second.trials as nat, b));
    assert(is_score_of(first, a, evaluating));
    assert(is_score_of(second, b, evaluating));
    (first, second)
}

/// One independent playout, kept as its outcome alone.
pub fn trial(position: &Position, max_steps: u32) -> (r: Result<Outcome, EvalError>)
    ensures
        match r {
            Ok(outcome) => is_possible_outcome(position@, max_steps as nat, outcome),
            Err(e) => e == EvalError::InvariantViolation && may_fail(
                position@,
                max_steps as nat,
            ),
        },
{
    match simulate(position, max_steps) {
        Ok(rollout) => Ok(rollout.outcome),
        Err(e) => Err(e),
    }
}

/// rayon's `into_par_iter` over `0..trials`, `map` and `collect`: runs
/// `trial` once per index on the worker pool. Collecting into a `Result`
/// gives the outcomes of all trials, one per index, or the error of one
/// trial that failed.
#[verifier::external_body]
fn run_trials(position: &Position, max_steps: u32, trials: u32) -> (r: Result<
    Vec<Outcome>,
    EvalError,
>)
    ensures
        match r {
            Ok(outcomes) => are_possible_outcomes(
                position@,
                max_steps as nat,
                trials as nat,
                outcomes@,
            ),
            Err(e) => e == EvalError::InvariantViolation && may_fail(
                position@,
                max_steps as nat,
            ),
        },
{
    (0..trials).into_par_iter().map(|_| trial(position, max_steps)).collect()
}

/// The empty batch is a run of no playouts.
pub proof fn lemma_empty_score(position: Seq<char>, max_steps: nat, evaluating: Side)
    ensures
        is_possible_score(position, max_steps, 0, evaluating, Score { net: 0, trials: 0 }),
{
    let none = Seq::<Outcome>::empty();
    assert(are_possible_outcomes(position, max_steps, 0, none));
    assert(is_score_of(Score { net: 0, trials: 0 }, none, evaluating));
}

/// Scores `position` for `evaluating`: runs `config.trials_per_move`
/// independent playouts and adds up their contributions. The budget is
/// worked off in batches of at most `TRIALS_PER_BATCH`, each run in
/// parallel and scored on its own; the batch scores are combined by
/// addition. One failed playout fails the whole score. Where the game is
/// already over at `position`, chance plays no part and the score is
/// exact.
pub fn score(position: &Position, evaluating: Side, config: &Config) -> (r: Result<
    Score,
    EvalError,
>)
    ensures
        match r {
            Ok(s) => s.wf() && is_possible_score(
                position@,
                config.max_rollout_steps as nat,
                config.trials_per_move as nat,
                evaluating,
                s,
            ),
            Err(e) => e == EvalError::InvariantViolation && may_fail(
                position@,
                config.max_rollout_steps as nat,
            ),
        },
        engine_status(position@) != GameStatus::Ongoing ==> (r matches Ok(s) && s.trials
            == config.trials_per_move && s.net == config.trials_per_move * contribution_spec(
            outcome_at(position@),
            evaluating,
        )),
{
    let ghost max_steps = config.max_rollout_steps as nat;
    let ghost each = contribution_spec(outcome_at(position@), evaluating);
    let mut total = Score::empty();
    let mut done: u32 = 0;
    proof {
        lemma_empty_score(position@, max_steps, evaluating);
        if engine_status(position@) != GameStatus::Ongoing {
            lemma_finished_game_outcome(position@, max_steps);
        }
    }
    while done < config.trials_per_move
        invariant
            done <= config.trials_per_move,
            max_steps == config.max_rollout_steps as nat,
            each == contribution_spec(outcome_at(position@), evaluating),
            total.trials == done,
            total.wf(),
            is_possible_score(position@, max_steps, done as nat, evaluating, total),
            engine_status(position@) != GameStatus::Ongoing ==> total.net == done * each,
            engine_status(position@) != GameStatus::Ongoing ==> !may_fail(
                position@,
                max_steps,
            ),
            engine_status(position@) != GameStatus::Ongoing ==> forall|outcome: Outcome|
                is_possible_outcome(position@, max_steps, outcome) ==> outcome == outcome_at(
                    position@,
                ),
        decreases config.trials_per_move - done,
    {
        let left = config.trials_per_move - done;
        let batch = if left < TRIALS_PER_BATCH {
            left
        } else {
            TRIALS_PER_BATCH
        };
        match run_trials(position, config.max_rollout_steps, batch) {
            Err(e) => {
                return Err(e);
            },
            Ok(outcomes) => {
                let part = tally(&outcomes, evaluating);
                let sum = total.combine(part);
                proof {
                    assert(are_possible_outcomes(position@, max_steps, part.trials as nat, outcomes@));
                    lemma_scores_combine(position@, max_steps, evaluating, total, part, sum);
                    if engine_status(position@) != GameStatus::Ongoing {
                        lemma_net_of_uniform(outcomes@, outcome_at(position@), evaluating);
                        assert((done + batch) * each == done * each + batch * each)
                            by (nonlinear_arith);
                    }
                }
                total = sum;
                done = done + batch;
            },
        }
    }
    Ok(total)
}

} // verus!
