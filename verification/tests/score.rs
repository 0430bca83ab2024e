use tetrus::score::Score;

#[test]
fn a_new_score_is_zero() {
    assert_eq!(Score::new(), Score { points: 0, lines: 0 });
}

#[test]
fn points_are_a_hundred_times_the_square_of_the_lines() {
    let rewards: [(u32, u32); 5] = [(0, 0), (1, 100), (2, 400), (3, 900), (4, 1600)];
    for (cleared, points) in rewards {
        let mut score = Score { points: 50, lines: 7 };
        score.award(cleared);
        assert_eq!(score, Score { points: 50 + points, lines: 7 + cleared });
    }
}

#[test]
fn clearing_nothing_adds_nothing() {
    let mut score = Score { points: 1234, lines: 56 };
    score.award(0);
    assert_eq!(score, Score { points: 1234, lines: 56 });
}

#[test]
fn awards_add_up() {
    let mut score = Score::new();
    score.award(1);
    score.award(4);
    score.award(2);
    assert_eq!(score, Score { points: 2100, lines: 7 });
}

#[test]
fn twenty_lines_at_once_are_forty_thousand_points() {
    let mut score = Score::new();
    score.award(20);
    assert_eq!(score, Score { points: 40_000, lines: 20 });
}

#[test]
fn room_ends_where_twenty_lines_would_not_fit() {
    assert!(Score::new().has_room());
    assert!(Score { points: u32::MAX - 40_000, lines: u32::MAX - 20 }.has_room());
    assert!(!Score { points: u32::MAX - 39_999, lines: 0 }.has_room());
    assert!(!Score { points: 0, lines: u32::MAX - 19 }.has_room());
}

#[test]
fn the_last_award_that_fits_is_exact() {
    let mut score = Score { points: u32::MAX - 40_000, lines: u32::MAX - 20 };
    score.award(20);
    assert_eq!(score, Score { points: u32::MAX, lines: u32::MAX });
}
