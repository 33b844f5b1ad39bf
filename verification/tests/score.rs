use rollout_engine::config::{Config, DEFAULT_MAX_ROLLOUT_STEPS, DEFAULT_TRIALS_PER_MOVE};
use rollout_engine::engine::Position;
use rollout_engine::outcome::{Outcome, Side};
use rollout_engine::score::{score, tally, trial, Score, MAX_TRIALS, TRIALS_PER_BATCH};

const INITIAL: &str = "rnbqkbnr/pppppppp/8/8/8/8/PPPPPPPP/RNBQKBNR w KQkq - 0 1";
const CHECKMATED: &str = "rnb1kbnr/pppp1ppp/8/4p3/6Pq/5P2/PPPPP2P/RNBQKBNR w KQkq - 1 3";
const STALEMATED: &str = "k7/2Q5/1K6/8/8/8/8/8 b - - 0 1";
const ENDGAME: &str = "1r2k3/8/8/8/6P1/8/7r/K7 w - - 0 1";

fn fraction(s: Score) -> f64 {
    s.net as f64 / s.trials as f64
}

#[test]
fn default_config_has_the_documented_values() {
    let c = Config::default();
    assert_eq!(c.trials_per_move, 50_000);
    assert_eq!(c.max_rollout_steps, 50);
    assert_eq!(DEFAULT_TRIALS_PER_MOVE, 50_000);
    assert_eq!(DEFAULT_MAX_ROLLOUT_STEPS, 50);
}

#[test]
fn tally_adds_signed_contributions() {
    let outcomes = vec![
        Outcome::FirstPlayerWin,
        Outcome::FirstPlayerWin,
        Outcome::Draw,
        Outcome::SecondPlayerWin,
        Outcome::FirstPlayerWin,
    ];
    assert_eq!(tally(&outcomes, Side::First), Score { net: 2, trials: 5 });
    assert_eq!(tally(&outcomes, Side::Second), Score { net: -2, trials: 5 });
    assert_eq!(fraction(tally(&outcomes, Side::First)), 0.4);
}

#[test]
fn tally_of_nothing_is_the_empty_score() {
    assert_eq!(tally(&Vec::new(), Side::First), Score { net: 0, trials: 0 });
    assert_eq!(Score::empty(), Score { net: 0, trials: 0 });
}

#[test]
fn combine_adds_both_fields() {
    let a = Score { net: 3, trials: 10 };
    let b = Score { net: -7, trials: 8 };
    assert_eq!(a.combine(b), Score { net: -4, trials: 18 });
    assert_eq!(b.combine(a), Score { net: -4, trials: 18 });
    assert_eq!(a.combine(Score::empty()), a);
}

#[test]
fn splitting_a_batch_does_not_change_its_score() {
    let all = vec![
        Outcome::SecondPlayerWin,
        Outcome::Draw,
        Outcome::FirstPlayerWin,
        Outcome::SecondPlayerWin,
        Outcome::SecondPlayerWin,
        Outcome::Draw,
        Outcome::FirstPlayerWin,
    ];
    for side in [Side::First, Side::Second] {
        let whole = tally(&all, side);
        for cut in 0..=all.len() {
            let a = tally(&all[..cut].to_vec(), side);
            let b = tally(&all[cut..].to_vec(), side);
            assert_eq!(a.combine(b), whole);
        }
    }
}

#[test]
fn trial_gives_the_outcome_of_a_finished_game() {
    let mated = Position::from_fen(CHECKMATED).unwrap();
    assert_eq!(trial(&mated, 50), Ok(Outcome::SecondPlayerWin));
    let stale = Position::from_fen(STALEMATED).unwrap();
    assert_eq!(trial(&stale, 50), Ok(Outcome::Draw));
}

#[test]
fn score_counts_every_trial() {
    let p = Position::from_fen(INITIAL).unwrap();
    let config = Config { trials_per_move: 300, max_rollout_steps: 10 };
    let s = score(&p, Side::First, &config).unwrap();
    assert_eq!(s.trials, 300);
    assert!(-300 <= s.net && s.net <= 300);
    assert!(-1.0 <= fraction(s) && fraction(s) <= 1.0);
}

#[test]
fn score_of_no_trials_is_empty() {
    let p = Position::from_fen(INITIAL).unwrap();
    let config = Config { trials_per_move: 0, max_rollout_steps: 10 };
    assert_eq!(score(&p, Side::First, &config), Ok(Score { net: 0, trials: 0 }));
}

#[test]
fn score_of_a_won_position_is_exactly_one() {
    let mated = Position::from_fen(CHECKMATED).unwrap();
    let config = Config { trials_per_move: 1_000, max_rollout_steps: 20 };
    let for_winner = score(&mated, Side::Second, &config).unwrap();
    assert_eq!(for_winner, Score { net: 1_000, trials: 1_000 });
    assert_eq!(fraction(for_winner), 1.0);
    let for_loser = score(&mated, Side::First, &config).unwrap();
    assert_eq!(for_loser, Score { net: -1_000, trials: 1_000 });
    assert_eq!(fraction(for_loser), -1.0);
}

#[test]
fn score_of_a_drawn_position_is_exactly_zero() {
    let stale = Position::from_fen(STALEMATED).unwrap();
    let config = Config { trials_per_move: 500, max_rollout_steps: 20 };
    assert_eq!(score(&stale, Side::First, &config), Ok(Score { net: 0, trials: 500 }));
    assert_eq!(score(&stale, Side::Second, &config), Ok(Score { net: 0, trials: 500 }));
}

#[test]
fn two_batches_of_a_finished_game_combine_to_the_whole() {
    let mated = Position::from_fen(CHECKMATED).unwrap();
    let a = score(&mated, Side::Second, &Config { trials_per_move: 300, max_rollout_steps: 20 });
    let b = score(&mated, Side::Second, &Config { trials_per_move: 700, max_rollout_steps: 20 });
    let n = score(&mated, Side::Second, &Config { trials_per_move: 1_000, max_rollout_steps: 20 });
    assert_eq!(a.unwrap().combine(b.unwrap()), n.unwrap());
}

#[test]
fn repeated_scores_agree_within_tolerance() {
    let p = Position::from_fen(ENDGAME).unwrap();
    let config = Config { trials_per_move: 20_000, max_rollout_steps: 12 };
    let first = fraction(score(&p, Side::First, &config).unwrap());
    let second = fraction(score(&p, Side::First, &config).unwrap());
    assert!((first - second).abs() <= 0.05);
}

#[test]
fn budgets_beyond_one_batch_are_counted_in_full() {
    assert_eq!(TRIALS_PER_BATCH, 65_536);
    let mated = Position::from_fen(CHECKMATED).unwrap();
    for trials in [65_535, 65_536, 65_537, 200_000] {
        let config = Config { trials_per_move: trials, max_rollout_steps: 20 };
        let s = score(&mated, Side::Second, &config).unwrap();
        assert_eq!(s, Score { net: trials as i64, trials: trials as u64 });
    }
    let p = Position::from_fen(INITIAL).unwrap();
    let config = Config { trials_per_move: 70_000, max_rollout_steps: 2 };
    let s = score(&p, Side::First, &config).unwrap();
    assert_eq!(s, Score { net: 0, trials: 70_000 });
}

#[test]
fn scores_up_to_the_limit_combine() {
    assert_eq!(MAX_TRIALS, i64::MAX as u64);
    let a = Score { net: -(i64::MAX - 1), trials: MAX_TRIALS - 1 };
    let b = Score { net: -1, trials: 1 };
    assert_eq!(a.combine(b), Score { net: -i64::MAX, trials: MAX_TRIALS });
}
