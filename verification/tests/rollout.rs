use rollout_engine::engine::Position;
use rollout_engine::error::EvalError;
use rollout_engine::outcome::{classify, GameStatus, Outcome};
use rollout_engine::rollout::simulate;

const INITIAL: &str = "rnbqkbnr/pppppppp/8/8/8/8/PPPPPPPP/RNBQKBNR w KQkq - 0 1";
const CHECKMATED: &str = "rnb1kbnr/pppp1ppp/8/4p3/6Pq/5P2/PPPPP2P/RNBQKBNR w KQkq - 1 3";
const STALEMATED: &str = "k7/2Q5/1K6/8/8/8/8/8 b - - 0 1";

#[test]
fn playout_stops_at_the_end_of_the_game_or_at_the_cutoff() {
    let start = Position::from_fen(INITIAL).unwrap();
    for _ in 0..200 {
        let rollout = simulate(&start, 20).unwrap();
        assert!(rollout.steps <= 20);
        let status = rollout.end.status();
        assert!(status != GameStatus::Ongoing || rollout.steps == 20);
        assert_eq!(rollout.outcome, classify(status, rollout.end.side_to_move()));
    }
}

#[test]
fn playout_makes_moves_and_leaves_the_start_alone() {
    let start = Position::from_fen(INITIAL).unwrap();
    let rollout = simulate(&start, 4).unwrap();
    assert_eq!(rollout.steps, 4);
    assert_eq!(rollout.outcome, Outcome::Draw);
    assert_ne!(rollout.end.to_fen(), INITIAL);
    assert_eq!(start.to_fen(), INITIAL);
}

#[test]
fn playout_choices_vary() {
    let start = Position::from_fen(INITIAL).unwrap();
    let first = simulate(&start, 6).unwrap().end.to_fen();
    let mut differs = false;
    for _ in 0..50 {
        if simulate(&start, 6).unwrap().end.to_fen() != first {
            differs = true;
        }
    }
    assert!(differs);
}

#[test]
fn playout_without_budget_stays_at_the_start() {
    let start = Position::from_fen(INITIAL).unwrap();
    let rollout = simulate(&start, 0).unwrap();
    assert_eq!(rollout.steps, 0);
    assert_eq!(rollout.end.to_fen(), INITIAL);
    assert_eq!(rollout.outcome, Outcome::Draw);
}

#[test]
fn playout_from_checkmate_is_won_by_the_side_that_mated() {
    let start = Position::from_fen(CHECKMATED).unwrap();
    let rollout = simulate(&start, 50).unwrap();
    assert_eq!(rollout.steps, 0);
    assert_eq!(rollout.outcome, Outcome::SecondPlayerWin);
    assert_eq!(rollout.end.to_fen(), start.to_fen());
}

#[test]
fn playout_from_stalemate_is_a_draw() {
    let start = Position::from_fen(STALEMATED).unwrap();
    let rollout = simulate(&start, 50).unwrap();
    assert_eq!(rollout.steps, 0);
    assert_eq!(rollout.outcome, Outcome::Draw);
}

#[test]
fn long_playouts_never_fail() {
    let start = Position::from_fen(INITIAL).unwrap();
    for _ in 0..20 {
        assert!(simulate(&start, 400).is_ok());
    }
}

#[test]
fn playout_fails_where_the_engine_lists_a_move_it_cannot_stand_by() {
    let start = Position::from_fen("4k3/8/8/3Pp3/8/5n2/8/4K3 w - e6 0 1").unwrap();
    let mut finished = 0;
    let mut failed = 0;
    for _ in 0..400 {
        match simulate(&start, 40) {
            Ok(rollout) => {
                assert!(rollout.steps >= 1);
                finished += 1;
            }
            Err(e) => {
                assert_eq!(e, EvalError::InvariantViolation);
                failed += 1;
            }
        }
    }
    assert!(finished > 0);
    assert!(failed > 0);
    assert!(simulate(&start, 0).is_ok());
}

#[test]
fn playouts_through_en_passant_positions_finish() {
    for text in [
        "4k3/8/8/3Pp3/8/8/8/4K3 w - e6 0 1",
        "4k3/8/8/8/3pP3/8/8/4K3 b - e3 0 1",
        "6rb/6pk/7p/6pP/8/8/8/K7 w - g6 0 1",
        "rnbqkbnr/ppp1pppp/8/8/3pP3/8/PPPP1PPP/RNBQKBNR b KQkq e3 0 3",
    ] {
        let start = Position::from_fen(text).unwrap();
        for _ in 0..200 {
            let rollout = simulate(&start, 40).unwrap();
            assert!(rollout.steps <= 40);
            let status = rollout.end.status();
            assert!(status != GameStatus::Ongoing || rollout.steps == 40);
            assert_eq!(rollout.outcome, classify(status, rollout.end.side_to_move()));
        }
    }
}
