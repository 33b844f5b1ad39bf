//! One randomized playout: uniformly random legal moves from a starting
//! position until the game ends or a move budget runs out.

use crate::engine::{
    engine_apply, engine_moves, engine_side, engine_status, is_legal, is_playable, Move, Position,
};
use crate::error::EvalError;
use crate::outcome::{classify, classify_spec, GameStatus, Outcome};
use rand::distributions::{IndependentSample, Range};
use vstd::prelude::*;

verus! {

/// `rand::ThreadRng`, a handle on the calling thread's generator.
#[verifier::external_type_specification]
#[verifier::external_body]
pub struct ExThreadRng(rand::ThreadRng);

/// `rand::thread_rng`: the calling thread's generator, seeded by the
/// system. Nothing is known of the numbers it will give.
#[verifier::external_body]
fn entropy_source() -> rand::ThreadRng {
    rand::thread_rng()
}

/// `Range::new(0, count)` sampled once with `ind_sample`: an index below
/// `count`. `Range::new` panics on an empty range.
#[verifier::external_body]
fn pick_index(rng: &mut rand::ThreadRng, count: usize) -> (r: usize)
    requires
        count > 0,
    ensures
        r < count,
{
    Range::new(0, count).ind_sample(rng)
}

/// One move of play: `from` is ongoing, `to` results from one of its
/// legal moves, and `to` is playable.
pub open spec fn is_step(from: Seq<char>, to: Seq<char>) -> bool {
    &&& engine_status(from) == GameStatus::Ongoing
    &&& exists|mv: Move| #[trigger] is_legal(from, mv) && to == engine_apply(from, mv)
    &&& is_playable(to)
}

/// `to` is reached from `from` by `steps` moves of play.
pub open spec fn reaches(from: Seq<char>, to: Seq<char>, steps: nat) -> bool
    decreases steps,
{
    if steps == 0 {
        to == from
    } else {
        exists|mid: Seq<char>| reaches(from, mid, (steps - 1) as nat) && #[trigger] is_step(mid, to)
    }
}

/// The engine gives the position a move that leads to a board which is
/// not playable.
pub open spec fn has_bad_move(position: Seq<char>) -> bool {
    exists|mv: Move| #[trigger] is_legal(position, mv) && !is_playable(engine_apply(position, mv))
}

/// The engine breaks its word at `position`: it calls the position ongoing
/// and gives it no move, or gives it a move that leads out of the boards
/// it can itself be asked about.
pub open spec fn is_breach(position: Seq<char>) -> bool {
    &&& engine_status(position) == GameStatus::Ongoing
    &&& (engine_moves(position).len() == 0 || has_bad_move(position))
}

/// A playout from `start` under a budget of `max_steps` may stop at `end`
/// after `steps` moves: the game is over there, or the budget is spent.
pub open spec fn stops_at(start: Seq<char>, max_steps: nat, end: Seq<char>, steps: nat) -> bool {
    &&& reaches(start, end, steps)
    &&& steps <= max_steps
    &&& (engine_status(end) != GameStatus::Ongoing || steps == max_steps)
}

/// Some playout from `start` comes, with budget left, to a position at
/// which the engine breaks its word.
pub open spec fn may_fail(start: Seq<char>, max_steps: nat) -> bool {
    exists|at: Seq<char>, steps: nat|
        steps < max_steps && #[trigger] reaches(start, at, steps) && is_breach(at)
}

/// The outcome read off the position at which a playout stopped.
pub open spec fn outcome_at(position: Seq<char>) -> Outcome {
    classify_spec(engine_status(position), engine_side(position))
}

/// Some playout from `start` under the budget ends with `outcome`.
pub open spec fn is_possible_outcome(start: Seq<char>, max_steps: nat, outcome: Outcome) -> bool {
    exists|end: Seq<char>, steps: nat| #[trigger]
        stops_at(start, max_steps, end, steps) && outcome == outcome_at(end)
}

/// A finished playout: where it stopped, after how many moves, and how
/// that position is classified.
#[derive(Clone, Copy, Debug)]
pub struct Rollout {
    pub end: Position,
    pub steps: u32,
    pub outcome: Outcome,
}

/// No play leaves a position at which the game is not ongoing.
pub proof fn lemma_finished_game_stays(start: Seq<char>, end: Seq<char>, steps: nat)
    requires
        engine_status(start) != GameStatus::Ongoing,
        reaches(start, end, steps),
    ensures
        steps == 0,
        end == start,
    decreases steps,
{
    if steps > 0 {
        let mid = choose|mid: Seq<char>|
            reaches(start, mid, (steps - 1) as nat) && #[trigger] is_step(mid, end);
        lemma_finished_game_stays(start, mid, (steps - 1) as nat);
    }
}

/// From a position at which the game is over, every playout has the
/// outcome of that position itself, and none fails.
pub proof fn lemma_finished_game_outcome(start: Seq<char>, max_steps: nat)
    requires
        engine_status(start) != GameStatus::Ongoing,
    ensures
        is_possible_outcome(start, max_steps, outcome_at(start)),
        forall|outcome: Outcome|
            is_possible_outcome(start, max_steps, outcome) ==> outcome == outcome_at(start),
        !may_fail(start, max_steps),
{
    assert(reaches(start, start, 0));
    assert(stops_at(start, max_steps, start, 0));
    assert forall|outcome: Outcome|
        is_possible_outcome(start, max_steps, outcome) implies outcome == outcome_at(start) by {
        let (end, steps) = choose|end: Seq<char>, steps: nat| #[trigger]
            stops_at(start, max_steps, end, steps) && outcome == outcome_at(end);
        lemma_finished_game_stays(start, end, steps);
    }
    if may_fail(start, max_steps) {
        let (at, steps) = choose|at: Seq<char>, steps: nat|
            steps < max_steps && #[trigger] reaches(start, at, steps) && is_breach(at);
        lemma_finished_game_stays(start, at, steps);
    }
}

/// Plays one random game from `start`: while the game is ongoing and fewer
/// than `max_steps` moves were made, one of the legal moves is drawn
/// uniformly and played. The position reached is then classified. Fails
/// only where the engine breaks its word: it gives an ongoing position no
/// move, or the move drawn leads to a board that is not playable.
pub fn simulate(start: &Position, max_steps: u32) -> (r: Result<Rollout, EvalError>)
    ensures
        match r {
            Ok(rollout) => {
                &&& stops_at(start@, max_steps as nat, rollout.end@, rollout.steps as nat)
                &&& rollout.outcome == outcome_at(rollout.end@)
            },
            Err(e) => e == EvalError::InvariantViolation && may_fail(start@, max_steps as nat),
        },
{
    let mut rng = entropy_source();
    let mut current = *start;
    let mut status = current.status();
    let mut steps: u32 = 0;
    while steps < max_steps && status == GameStatus::Ongoing
        invariant
            steps <= max_steps,
            reaches(start@, current@, steps as nat),
            status == engine_status(current@),
        decreases max_steps - steps,
    {
        let moves = current.legal_moves();
        if moves.len() == 0 {
            assert(is_breach(current@));
            return Err(EvalError::InvariantViolation);
        }
        let chosen = moves[pick_index(&mut rng, moves.len())];
        assert(is_legal(current@, chosen));
        match current.apply(chosen) {
            Ok(next) => {
                assert(is_step(current@, next@));
                current = next;
            },
            Err(e) => {
                assert(is_breach(current@));
                return Err(e);
            },
        }
        status = current.status();
        steps = steps + 1;
    }
    Ok(Rollout { end: current, steps, outcome: classify(status, current.side_to_move()) })
}

} // verus!
