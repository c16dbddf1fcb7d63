use vstd::prelude::*;

verus! {

/// A countdown measured in milliseconds; it is ready once `elapsed_ms`
/// has reached `duration_ms`, and stops counting there.
#[derive(Clone, Copy, Debug, PartialEq, Eq)]
pub struct Timer {
    pub duration_ms: u64,
    pub elapsed_ms: u64,
}

/// `t` after `delta` more milliseconds.
pub open spec fn ticked(t: Timer, delta: u64) -> Timer {
    Timer {
        duration_ms: t.duration_ms,
        elapsed_ms: if t.elapsed_ms + delta >= t.duration_ms { t.duration_ms } else { (t.elapsed_ms + delta) as u64 },
    }
}

impl Timer {
    pub open spec fn new_spec(duration_ms: u64) -> Timer {
        Timer { duration_ms, elapsed_ms: 0 }
    }

    pub open spec fn wf(&self) -> bool {
        self.elapsed_ms <= self.duration_ms
    }

    pub open spec fn is_ready(&self) -> bool {
        self.elapsed_ms >= self.duration_ms
    }

    /// A timer of `duration_ms` that starts counting from zero.
    pub fn new(duration_ms: u64) -> (t: Timer)
        ensures
            t == Timer::new_spec(duration_ms),
    {
        Timer { duration_ms, elapsed_ms: 0 }
    }

    /// Advances the timer by `delta` milliseconds.
    pub fn tick(&mut self, delta: u64)
        requires
            old(self).wf(),
        ensures
            *final(self) == ticked(*old(self), delta),
            final(self).wf(),
    {
        if delta >= self.duration_ms - self.elapsed_ms {
            self.elapsed_ms = self.duration_ms;
        } else {
            self.elapsed_ms = self.elapsed_ms + delta;
        }
    }

    pub fn ready(&self) -> (r: bool)
        ensures
            r == self.is_ready(),
    {
        self.elapsed_ms >= self.duration_ms
    }
}

} // verus!
