//! Progression: lines completed, level, score, and the pace of the fall
//! that follows from the level.

use vstd::prelude::*;

use crate::timer::Timer;

verus! {

/// Lines that count for one level.
pub const LINES_PER_LEVEL: usize = 10;

/// Time between two steps of the fall at level zero, in nanoseconds.
pub const BASE_DOWN_DURATION: u64 = 500_000_000;

/// What each level takes off the time between two steps of the fall.
pub const DOWN_DURATION_STEP: u64 = 50_000_000;

/// The fall never goes faster than this: levels from the ninth on all fall
/// at one step per 50 ms, so the period of the timer stays positive.
pub const MIN_DOWN_DURATION: u64 = 50_000_000;

/// Points for each line of a clear of four lines, at level one.
pub const POINTS_PER_LINE_OF_FOUR: usize = 10;

/// Points for each line of a smaller clear, at level one.
pub const POINTS_PER_LINE: usize = 7;

/// Lines completed by one lock of a piece.
#[derive(Clone, Copy, Debug, PartialEq, Eq, Structural)]
pub struct LinesCompletedEvent(pub usize);

/// The level, starting at one.
#[derive(Clone, Copy, Debug, PartialEq, Eq, Structural)]
pub struct Level {
    pub level: usize,
}

/// All lines completed so far.
#[derive(Clone, Copy, Debug, PartialEq, Eq, Structural)]
pub struct LineCompleted {
    pub line_completed: usize,
}

/// The score.
#[derive(Clone, Copy, Debug, PartialEq, Eq, Structural)]
pub struct Score(pub usize);

/// `n`, held at the largest `usize`.
pub open spec fn capped(n: int) -> usize {
    if n > usize::MAX {
        usize::MAX
    } else {
        n as usize
    }
}

/// The level that belongs to a number of completed lines.
pub open spec fn level_for(lines: int) -> int {
    lines / (LINES_PER_LEVEL as int) + 1
}

/// Time between two steps of the fall at a level.
pub open spec fn down_duration(level: int) -> int {
    if BASE_DOWN_DURATION - DOWN_DURATION_STEP * level > MIN_DOWN_DURATION {
        BASE_DOWN_DURATION - DOWN_DURATION_STEP * level
    } else {
        MIN_DOWN_DURATION as int
    }
}

/// Points for one clear of `completed` lines at `level`.
pub open spec fn points(level: int, completed: int) -> int {
    level * completed * (if completed == 4 {
        POINTS_PER_LINE_OF_FOUR as int
    } else {
        POINTS_PER_LINE as int
    })
}

impl Default for Level {
    fn default() -> (level: Level)
        ensures
            level.level == 1,
    {
        Level { level: 1 }
    }
}

impl Default for LineCompleted {
    fn default() -> (lines: LineCompleted)
        ensures
            lines.line_completed == 0,
    {
        LineCompleted { line_completed: 0 }
    }
}

impl Default for Score {
    fn default() -> (score: Score)
        ensures
            score.0 == 0,
    {
        Score(0)
    }
}

impl Level {
    /// Time between two steps of the fall at this level, in nanoseconds.
    pub fn get_down_duration(&self) -> (duration: u64)
        ensures
            duration == down_duration(self.level as int),
            MIN_DOWN_DURATION <= duration <= BASE_DOWN_DURATION,
    {
        if self.level >= 9 {
            MIN_DOWN_DURATION
        } else {
            BASE_DOWN_DURATION - DOWN_DURATION_STEP * (self.level as u64)
        }
    }
}

/// `a * b`, held at the largest `usize`.
fn capped_mul(a: usize, b: usize) -> (product: usize)
    ensures
        product == capped(a * b),
{
    match a.checked_mul(b) {
        Some(product) => product,
        None => usize::MAX,
    }
}

/// `a + b`, held at the largest `usize`.
fn capped_add(a: usize, b: usize) -> (sum: usize)
    ensures
        sum == capped(a + b),
{
    match a.checked_add(b) {
        Some(sum) => sum,
        None => usize::MAX,
    }
}

/// Books one clear of `completed.0` lines: the lines are added to the count,
/// the level follows from the count, the points of the clear are scored at
/// the new level, and when the level changed the fall takes the pace of the
/// new level. Counts that would not fit stay at the largest `usize`.
pub fn increase_score_and_level(
    level: &mut Level,
    lines: &mut LineCompleted,
    score: &mut Score,
    timer: &mut Timer,
    completed: &LinesCompletedEvent,
)
    ensures
        final(lines).line_completed == capped(old(lines).line_completed + completed.0),
        final(level).level == level_for(final(lines).line_completed as int),
        final(score).0 == capped(
            old(score).0 + points(final(level).level as int, completed.0 as int),
        ),
        *final(timer) == if final(level).level != old(level).level {
            old(timer).with_duration(down_duration(final(level).level as int) as u64)
        } else {
            *old(timer)
        },
{
    lines.line_completed = capped_add(lines.line_completed, completed.0);
    let old_level = level.level;
    level.level = lines.line_completed / LINES_PER_LEVEL + 1;
    if old_level != level.level {
        timer.set_duration(level.get_down_duration());
    }
    let per_line: usize = if completed.0 == 4 {
        POINTS_PER_LINE_OF_FOUR
    } else {
        POINTS_PER_LINE
    };
    let gained = capped_mul(capped_mul(level.level, completed.0), per_line);
    proof {
        let l = level.level as int;
        let c = completed.0 as int;
        let k = per_line as int;
        assert(0 <= l * c && (l * c > usize::MAX ==> l * c * k > usize::MAX && usize::MAX * k
            >= usize::MAX)) by (nonlinear_arith)
            requires
                0 <= l,
                0 <= c,
                1 <= k,
        ;
    }
    score.0 = capped_add(score.0, gained);
}

/// The level is at least one, and never falls as lines are completed.
pub proof fn lemma_level_monotonic(lines: int, more: int)
    requires
        0 <= lines <= more,
    ensures
        1 <= level_for(lines) <= level_for(more),
{
}

/// The fall never slows down as the level rises, and its period stays within
/// fixed positive bounds.
pub proof fn lemma_down_duration_monotonic(level: int, higher: int)
    requires
        level <= higher,
    ensures
        down_duration(higher) <= down_duration(level),
        MIN_DOWN_DURATION <= down_duration(higher),
        0 <= level ==> down_duration(level) <= BASE_DOWN_DURATION,
{
}

} // verus!
