use tetris_core::score::{
    increase_score_and_level, Level, LineCompleted, LinesCompletedEvent, Score,
};
use tetris_core::timer::Timer;

fn book(
    level: usize,
    lines: usize,
    score: usize,
    timer: Timer,
    completed: usize,
) -> (Level, LineCompleted, Score, Timer) {
    let mut level = Level { level };
    let mut lines = LineCompleted { line_completed: lines };
    let mut score = Score(score);
    let mut timer = timer;
    increase_score_and_level(
        &mut level,
        &mut lines,
        &mut score,
        &mut timer,
        &LinesCompletedEvent(completed),
    );
    (level, lines, score, timer)
}

#[test]
fn defaults() {
    assert_eq!(Level::default().level, 1);
    assert_eq!(LineCompleted::default().line_completed, 0);
    assert_eq!(Score::default().0, 0);
}

#[test]
fn down_duration_by_level() {
    assert_eq!(Level { level: 1 }.get_down_duration(), 450_000_000);
    assert_eq!(Level { level: 2 }.get_down_duration(), 400_000_000);
    assert_eq!(Level { level: 5 }.get_down_duration(), 250_000_000);
    assert_eq!(Level { level: 8 }.get_down_duration(), 100_000_000);
    assert_eq!(Level { level: 9 }.get_down_duration(), 50_000_000);
}

#[test]
fn down_duration_has_a_floor() {
    assert_eq!(Level { level: 10 }.get_down_duration(), 50_000_000);
    assert_eq!(Level { level: 11 }.get_down_duration(), 50_000_000);
    assert_eq!(Level { level: 1000 }.get_down_duration(), 50_000_000);
    assert_eq!(Level { level: usize::MAX }.get_down_duration(), 50_000_000);
}

#[test]
fn one_line_at_level_one_scores_seven() {
    let timer = Timer { elapsed: 120, duration: 450_000_000 };
    let (level, lines, score, after) = book(1, 0, 0, timer, 1);
    assert_eq!(lines.line_completed, 1);
    assert_eq!(level.level, 1);
    assert_eq!(score.0, 7);
    assert_eq!(after, timer);
}

#[test]
fn four_lines_at_level_three_score_one_hundred_and_twenty() {
    let timer = Timer { elapsed: 0, duration: 350_000_000 };
    let (level, lines, score, after) = book(3, 20, 1000, timer, 4);
    assert_eq!(lines.line_completed, 24);
    assert_eq!(level.level, 3);
    assert_eq!(score.0, 1120);
    assert_eq!(after, timer);
}

#[test]
fn smaller_clears_score_seven_a_line() {
    assert_eq!(book(1, 0, 0, Timer::new(450_000_000), 2).2 .0, 14);
    assert_eq!(book(1, 0, 0, Timer::new(450_000_000), 3).2 .0, 21);
    assert_eq!(book(1, 0, 0, Timer::new(450_000_000), 4).2 .0, 40);
    assert_eq!(book(2, 10, 5, Timer::new(400_000_000), 3).2 .0, 5 + 2 * 3 * 7);
}

#[test]
fn no_line_changes_nothing() {
    let timer = Timer { elapsed: 77, duration: 30_000_000 };
    let (level, lines, score, after) = book(2, 13, 99, timer, 0);
    assert_eq!(level.level, 2);
    assert_eq!(lines.line_completed, 13);
    assert_eq!(score.0, 99);
    assert_eq!(after, timer);
}

#[test]
fn tenth_line_raises_the_level_and_the_pace() {
    let timer = Timer { elapsed: 5, duration: 30_000_000 };
    let (level, lines, score, after) = book(1, 8, 56, timer, 2);
    assert_eq!(lines.line_completed, 10);
    assert_eq!(level.level, 2);
    assert_eq!(score.0, 56 + 2 * 2 * 7);
    assert_eq!(after, Timer { elapsed: 5, duration: 400_000_000 });
}

#[test]
fn points_are_scored_at_the_new_level() {
    let (level, _, score, _) = book(1, 9, 0, Timer::new(450_000_000), 4);
    assert_eq!(level.level, 2);
    assert_eq!(score.0, 2 * 4 * 10);
}

#[test]
fn level_follows_from_the_lines() {
    for (lines, level) in [(0, 1), (9, 1), (10, 2), (19, 2), (20, 3), (95, 10), (100, 11)] {
        assert_eq!(book(1, lines, 0, Timer::new(450_000_000), 0).0.level, level);
    }
}

#[test]
fn counters_stay_at_the_largest_value() {
    let (level, lines, score, _) = book(1, usize::MAX - 1, usize::MAX - 3, Timer::new(1), 4);
    assert_eq!(lines.line_completed, usize::MAX);
    assert_eq!(level.level, usize::MAX / 10 + 1);
    assert_eq!(score.0, usize::MAX);
}
