use rollout_engine::outcome::{classify, contribution, GameStatus, Outcome, Side};

#[test]
fn decisive_with_second_to_move_is_a_first_player_win() {
    assert_eq!(classify(GameStatus::Decisive, Side::Second), Outcome::FirstPlayerWin);
}

#[test]
fn decisive_with_first_to_move_is_a_second_player_win() {
    assert_eq!(classify(GameStatus::Decisive, Side::First), Outcome::SecondPlayerWin);
}

#[test]
fn drawn_positions_are_draws_for_either_side() {
    assert_eq!(classify(GameStatus::Drawn, Side::First), Outcome::Draw);
    assert_eq!(classify(GameStatus::Drawn, Side::Second), Outcome::Draw);
}

#[test]
fn cutoff_in_an_ongoing_game_is_a_draw() {
    assert_eq!(classify(GameStatus::Ongoing, Side::First), Outcome::Draw);
    assert_eq!(classify(GameStatus::Ongoing, Side::Second), Outcome::Draw);
}

#[test]
fn every_stopping_position_has_exactly_one_outcome() {
    let statuses = [GameStatus::Ongoing, GameStatus::Decisive, GameStatus::Drawn];
    let sides = [Side::First, Side::Second];
    let outcomes = [Outcome::FirstPlayerWin, Outcome::SecondPlayerWin, Outcome::Draw];
    for status in statuses {
        for side in sides {
            let got = classify(status, side);
            let hits = outcomes.iter().filter(|o| **o == got).count();
            assert_eq!(hits, 1);
        }
    }
}

#[test]
fn contributions_are_signed_from_the_evaluating_side() {
    assert_eq!(contribution(Outcome::FirstPlayerWin, Side::First), 1);
    assert_eq!(contribution(Outcome::FirstPlayerWin, Side::Second), -1);
    assert_eq!(contribution(Outcome::SecondPlayerWin, Side::First), -1);
    assert_eq!(contribution(Outcome::SecondPlayerWin, Side::Second), 1);
    assert_eq!(contribution(Outcome::Draw, Side::First), 0);
    assert_eq!(contribution(Outcome::Draw, Side::Second), 0);
}

#[test]
fn opponent_swaps_the_sides() {
    assert_eq!(Side::First.opponent(), Side::Second);
    assert_eq!(Side::Second.opponent(), Side::First);
}
