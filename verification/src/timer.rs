//! Countdown timers: one-shot timers drive powerup expiry, a repeating
//! timer drives the block descent cadence.

use vstd::prelude::*;

verus! {

/// A countdown storing elapsed versus target time, in the simulation's
/// abstract time units.
#[derive(Clone, Copy, PartialEq, Eq, Structural, Debug)]
pub struct GameTimer {
    pub elapsed: u32,
    pub duration: u32,
    pub repeating: bool,
}

impl GameTimer {
    /// A repeating timer always has a positive period and keeps its elapsed
    /// time below it; a one-shot timer caps its elapsed time at the target.
    pub open spec fn wf(self) -> bool {
        if self.repeating {
            self.duration >= 1 && self.elapsed < self.duration
        } else {
            self.elapsed <= self.duration
        }
    }

    /// The state after advancing by `dt`: a one-shot timer saturates at its
    /// target, a repeating timer wraps around it.
    pub open spec fn ticked(self, dt: u32) -> GameTimer {
        let total = self.elapsed + dt;
        if self.repeating {
            GameTimer { elapsed: (total % (self.duration as int)) as u32, ..self }
        } else if total > self.duration {
            GameTimer { elapsed: self.duration, ..self }
        } else {
            GameTimer { elapsed: total as u32, ..self }
        }
    }

    /// Whether advancing by `dt` reaches the target during that advance.
    pub open spec fn completes(self, dt: u32) -> bool {
        if self.repeating {
            self.elapsed + dt >= self.duration
        } else {
            self.elapsed < self.duration && self.elapsed + dt >= self.duration
        }
    }

    /// A one-shot timer is finished once it has reached its target.
    pub open spec fn finished_spec(self) -> bool {
        self.elapsed >= self.duration
    }

    pub fn new_once(duration: u32) -> (t: GameTimer)
        ensures
            t == (GameTimer { elapsed: 0, duration, repeating: false }),
            t.wf(),
    {
        GameTimer { elapsed: 0, duration, repeating: false }
    }

    pub fn new_repeating(duration: u32) -> (t: GameTimer)
        requires
            duration >= 1,
        ensures
            t == (GameTimer { elapsed: 0, duration, repeating: true }),
            t.wf(),
    {
        GameTimer { elapsed: 0, duration, repeating: true }
    }

    /// Advance the timer by `dt` and report whether it completed during
    /// this advance (for a repeating timer: whether it wrapped).
    pub fn tick(&mut self, dt: u32) -> (completed: bool)
        requires
            old(self).wf(),
        ensures
            *final(self) == old(self).ticked(dt),
            completed == old(self).completes(dt),
            final(self).wf(),
    {
        let total: u64 = self.elapsed as u64 + dt as u64;
        if self.repeating {
            let wrapped = total >= self.duration as u64;
            self.elapsed = (total % self.duration as u64) as u32;
            wrapped
        } else {
            let was_running = self.elapsed < self.duration;
            if total > self.duration as u64 {
                self.elapsed = self.duration;
            } else {
                self.elapsed = total as u32;
            }
            was_running && self.elapsed >= self.duration
        }
    }

    /// Whether a one-shot timer has reached its target.
    pub fn finished(&self) -> (r: bool)
        ensures
            r == self.finished_spec(),
    {
        self.elapsed >= self.duration
    }
}

} // verus!
