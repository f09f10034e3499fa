//! Repeating countdown timers, advanced by the time that each tick brings.
//! Time is counted in nanoseconds.

use vstd::prelude::*;

verus! {

/// A repeating timer: it fires whenever the time gathered reaches its
/// period, and keeps what is left over for the next round.
#[derive(Clone, Copy, Debug, PartialEq, Eq, Structural)]
pub struct Timer {
    /// Time gathered since the timer last fired or was reset.
    pub elapsed: u64,
    /// The period. Never zero in a well-formed timer.
    pub duration: u64,
}

impl Timer {
    /// The period is positive.
    pub open spec fn wf(self) -> bool {
        self.duration > 0
    }

    /// Does the timer fire when `delta` more time has passed?
    pub open spec fn fires(self, delta: int) -> bool {
        self.elapsed + delta >= self.duration
    }

    /// The timer after `delta` more time has passed: whole periods are
    /// taken off, so a long `delta` fires the timer once and leaves the
    /// remainder.
    pub open spec fn advanced(self, delta: int) -> Timer {
        if self.fires(delta) {
            Timer { elapsed: ((self.elapsed + delta) % (self.duration as int)) as u64, ..self }
        } else {
            Timer { elapsed: (self.elapsed + delta) as u64, ..self }
        }
    }

    /// The timer with another period and the same time gathered.
    pub open spec fn with_duration(self, duration: u64) -> Timer {
        Timer { duration, ..self }
    }

    /// The timer with no time gathered.
    pub open spec fn restarted(self) -> Timer {
        Timer { elapsed: 0, ..self }
    }

    /// A timer with the given period and no time gathered.
    pub fn new(duration: u64) -> (timer: Timer)
        requires
            duration > 0,
        ensures
            timer == (Timer { elapsed: 0, duration }),
    {
        Timer { elapsed: 0, duration }
    }

    /// Lets `delta` pass and tells whether the timer fired.
    pub fn advance(&mut self, delta: u64) -> (fired: bool)
        requires
            old(self).wf(),
        ensures
            fired == old(self).fires(delta as int),
            *final(self) == old(self).advanced(delta as int),
    {
        let total: u128 = self.elapsed as u128 + delta as u128;
        if total >= self.duration as u128 {
            self.elapsed = (total % (self.duration as u128)) as u64;
            true
        } else {
            self.elapsed = total as u64;
            false
        }
    }

    /// Changes the period; the time gathered stays.
    pub fn set_duration(&mut self, duration: u64)
        requires
            duration > 0,
        ensures
            *final(self) == old(self).with_duration(duration),
    {
        self.duration = duration;
    }

    /// Forgets the time gathered.
    pub fn reset(&mut self)
        ensures
            *final(self) == old(self).restarted(),
    {
        self.elapsed = 0;
    }

    /// The period.
    pub fn duration(&self) -> (duration: u64)
        ensures
            duration == self.duration,
    {
        self.duration
    }
}

/// A well-formed timer stays well-formed, and once it has fired it holds
/// less than one period.
pub proof fn lemma_advanced_bounds(timer: Timer, delta: int)
    requires
        timer.wf(),
        0 <= delta,
    ensures
        timer.advanced(delta).wf(),
        timer.advanced(delta).duration == timer.duration,
        timer.fires(delta) ==> timer.advanced(delta).elapsed < timer.duration,
        !timer.fires(delta) ==> timer.advanced(delta).elapsed == timer.elapsed + delta,
{
}

/// Time adds up: advancing in two steps leaves the timer as advancing once
/// by the sum does, however the time is cut into ticks.
pub proof fn lemma_advanced_twice(timer: Timer, first: int, second: int)
    requires
        timer.wf(),
        0 <= first,
        0 <= second,
    ensures
        timer.advanced(first).advanced(second) == timer.advanced(first + second),
{
    let d = timer.duration as int;
    let e = timer.elapsed as int;
    if timer.fires(first) {
        let r = (e + first) % d;
        vstd::arithmetic::div_mod::lemma_add_mod_noop(e + first, second, d);
        if r + second < d {
            vstd::arithmetic::div_mod::lemma_small_mod(second as nat, d as nat);
            vstd::arithmetic::div_mod::lemma_small_mod((r + second) as nat, d as nat);
        } else if second < d {
            vstd::arithmetic::div_mod::lemma_small_mod(second as nat, d as nat);
        } else {
            vstd::arithmetic::div_mod::lemma_add_mod_noop(r, second, d);
            vstd::arithmetic::div_mod::lemma_small_mod(r as nat, d as nat);
        }
    }
}

} // verus!
