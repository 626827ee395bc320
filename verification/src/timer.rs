//! A frame timer over caller-supplied clock readings in milliseconds: the
//! decision logic is pure, the clock itself stays outside the library.

use vstd::prelude::*;

verus! {

/// A one-shot or looping interval timer.
#[derive(Debug, Clone, Copy, PartialEq, Eq, Structural)]
pub struct Timer {
    pub last_run_ms: u64,
    pub interval_ms: u64,
    pub looping: bool,
    pub running: bool,
}

/// Whether a running timer fires at clock reading `now_ms`: its interval
/// has elapsed since it last ran.
pub open spec fn spec_timer_fires(t: Timer, now_ms: u64) -> bool {
    &&& t.running
    &&& now_ms >= t.last_run_ms
    &&& now_ms - t.last_run_ms >= t.interval_ms
}

impl Timer {
    /// A stopped timer with the given interval, anchored at `now_ms`.
    pub fn new(interval_ms: u64, looping: bool, now_ms: u64) -> (t: Timer)
        ensures
            t == (Timer { last_run_ms: now_ms, interval_ms, looping, running: false }),
    {
        Timer { last_run_ms: now_ms, interval_ms, looping, running: false }
    }

    /// Starts (or restarts) the timer from clock reading `now_ms`.
    pub fn start(&mut self, now_ms: u64)
        ensures
            *final(self) == (Timer {
                last_run_ms: now_ms,
                running: true,
                ..*old(self)
            }),
    {
        self.last_run_ms = now_ms;
        self.running = true;
    }

    /// Stops the timer; `run` then never fires.
    pub fn stop(&mut self)
        ensures
            *final(self) == (Timer { running: false, ..*old(self) }),
    {
        self.running = false;
    }

    /// Polls the timer at clock reading `now_ms`: fires when the interval
    /// has elapsed, re-anchoring itself and staying running only when it
    /// loops.
    pub fn run(&mut self, now_ms: u64) -> (fired: bool)
        ensures
            fired == spec_timer_fires(*old(self), now_ms),
            *final(self) == (if spec_timer_fires(*old(self), now_ms) {
                Timer { last_run_ms: now_ms, running: old(self).looping, ..*old(self) }
            } else {
                *old(self)
            }),
    {
        if !self.running {
            return false;
        }
        if now_ms >= self.last_run_ms && now_ms - self.last_run_ms >= self.interval_ms {
            self.last_run_ms = now_ms;
            self.running = self.looping;
            true
        } else {
            false
        }
    }
}

} // verus!
