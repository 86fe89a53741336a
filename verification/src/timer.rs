//! Millisecond countdown timers.
//!
//! Timer advancement is an explicit step (`tick`), separate from the
//! queries `finished` and `just_finished`, so no two systems can advance
//! the same timer twice in one frame by merely reading it.

use vstd::prelude::*;

verus! {

/// Longest duration a timer may be built with, in milliseconds.
pub const MAX_DURATION_MS: u64 = 1_000_000_000_000;

/// Largest elapsed time a single tick may carry, in milliseconds.
pub const MAX_TICK_MS: u64 = 1_000_000_000;

#[derive(Clone, Copy, PartialEq, Eq, Structural, Debug)]
pub enum TimerMode {
    /// Runs to its duration once and stays finished.
    Once,
    /// Wraps around its duration and fires each time it is crossed.
    Repeating,
}

/// A countdown over integer milliseconds.
#[derive(Clone, Copy, PartialEq, Eq, Structural, Debug)]
pub struct Timer {
    pub duration_ms: u64,
    pub elapsed_ms: u64,
    pub mode: TimerMode,
    /// Whether the most recent `tick` crossed the duration.
    pub just_finished: bool,
}

/// The timer as `t` after one `tick` of `delta` milliseconds.
pub open spec fn spec_tick(t: Timer, delta: int) -> Timer {
    let total = t.elapsed_ms + delta;
    match t.mode {
        TimerMode::Once => {
            if total >= t.duration_ms {
                Timer {
                    elapsed_ms: t.duration_ms,
                    just_finished: t.elapsed_ms != t.duration_ms,
                    ..t
                }
            } else {
                Timer { elapsed_ms: total as u64, just_finished: false, ..t }
            }
        },
        TimerMode::Repeating => {
            if total >= t.duration_ms {
                Timer { elapsed_ms: (total % (t.duration_ms as int)) as u64, just_finished: true, ..t }
            } else {
                Timer { elapsed_ms: total as u64, just_finished: false, ..t }
            }
        },
    }
}

/// Ticking preserves a timer's well-formedness, whatever the delta.
pub proof fn lemma_spec_tick_wf(t: Timer, delta: int)
    requires
        t.wf(),
        delta >= 0,
    ensures
        spec_tick(t, delta).wf(),
{
    let total = t.elapsed_ms + delta;
    if total >= t.duration_ms {
        match t.mode {
            TimerMode::Once => {},
            TimerMode::Repeating => {
                vstd::arithmetic::div_mod::lemma_mod_bound(total as int, t.duration_ms as int);
            },
        }
    }
}

impl Timer {
    /// The duration is positive and bounded, and the elapsed time never
    /// runs past the duration.
    pub open spec fn wf(self) -> bool {
        0 < self.duration_ms <= MAX_DURATION_MS && self.elapsed_ms <= self.duration_ms
    }

    /// A fresh timer of `duration_ms` in `mode`, with nothing elapsed.
    pub fn from_millis(duration_ms: u64, mode: TimerMode) -> (r: Timer)
        requires
            0 < duration_ms <= MAX_DURATION_MS,
        ensures
            r == (Timer { duration_ms, elapsed_ms: 0, mode, just_finished: false }),
            r.wf(),
    {
        Timer { duration_ms, elapsed_ms: 0, mode, just_finished: false }
    }

    /// Advance the timer by `delta_ms`. In `Once` mode the elapsed time
    /// clamps at the duration and the timer fires on the tick that reaches
    /// it; in `Repeating` mode the elapsed time wraps and the timer fires
    /// on every tick that crosses the duration.
    pub fn tick(&mut self, delta_ms: u64)
        requires
            old(self).wf(),
            delta_ms <= MAX_TICK_MS,
        ensures
            *final(self) == spec_tick(*old(self), delta_ms as int),
            final(self).wf(),
    {
        let total = self.elapsed_ms + delta_ms;
        match self.mode {
            TimerMode::Once => {
                if total >= self.duration_ms {
                    self.just_finished = self.elapsed_ms != self.duration_ms;
                    self.elapsed_ms = self.duration_ms;
                } else {
                    self.elapsed_ms = total;
                    self.just_finished = false;
                }
            },
            TimerMode::Repeating => {
                if total >= self.duration_ms {
                    self.elapsed_ms = total % self.duration_ms;
                    self.just_finished = true;
                } else {
                    self.elapsed_ms = total;
                    self.just_finished = false;
                }
            },
        }
    }

    /// Whether the last `tick` crossed the duration.
    pub fn just_finished(&self) -> (r: bool)
        ensures
            r == self.just_finished,
    {
        self.just_finished
    }

    /// A `Once` timer is finished from the tick that reaches its duration
    /// on; a `Repeating` timer counts as finished only on the ticks where
    /// it fires.
    pub open spec fn spec_finished(self) -> bool {
        match self.mode {
            TimerMode::Once => self.elapsed_ms == self.duration_ms,
            TimerMode::Repeating => self.just_finished,
        }
    }

    pub fn finished(&self) -> (r: bool)
        ensures
            r == self.spec_finished(),
    {
        match self.mode {
            TimerMode::Once => self.elapsed_ms == self.duration_ms,
            TimerMode::Repeating => self.just_finished,
        }
    }

    /// Force the elapsed time, leaving the rest of the state alone.
    pub fn set_elapsed(&mut self, elapsed_ms: u64)
        requires
            old(self).wf(),
            elapsed_ms <= old(self).duration_ms,
        ensures
            *final(self) == (Timer { elapsed_ms, ..*old(self) }),
            final(self).wf(),
    {
        self.elapsed_ms = elapsed_ms;
    }

    /// Start the countdown over.
    pub fn reset(&mut self)
        requires
            old(self).wf(),
        ensures
            *final(self) == (Timer { elapsed_ms: 0, just_finished: false, ..*old(self) }),
            final(self).wf(),
    {
        self.elapsed_ms = 0;
        self.just_finished = false;
    }
}

} // verus!
