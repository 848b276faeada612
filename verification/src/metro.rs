//! The rate limiter that decouples the logical rates (instructions, timers,
//! redraws) from wall-clock polling: it fires at most once per period and
//! never catches up on missed intervals.

use vstd::prelude::*;

verus! {

/// Nanoseconds in a second: the period of a 1 Hz metronome.
pub const NANOS_PER_SECOND: i64 = 1_000_000_000;

/// Relies on `time::OffsetDateTime::now_utc` and `unix_timestamp_nanos`:
/// the current wall-clock time as nanoseconds since the Unix epoch. Nothing
/// can be promised of the value.
#[verifier::external_body]
fn clock_now_ns() -> i128 {
    time::OffsetDateTime::now_utc().unix_timestamp_nanos()
}

/// A fire-if-due timer: holds a fixed period and the timestamp of the last
/// fire. Each poll independently decides fire or no-fire from the current
/// elapsed time alone.
pub struct Metronome {
    /// The period between fires, in nanoseconds.
    pub freq_ns: i64,
    /// When the metronome last fired, in nanoseconds since the Unix epoch.
    pub ticked_at_ns: i128,
}

impl Metronome {
    /// The period is a nonnegative fraction of a second.
    pub open spec fn wf(self) -> bool {
        0 <= self.freq_ns <= NANOS_PER_SECOND
    }

    /// A metronome firing `hz` times per second, with the clock read at
    /// construction as its starting point.
    pub fn new(hz: i64) -> (m: Metronome)
        requires
            1 <= hz,
        ensures
            m.wf(),
            m.freq_ns == NANOS_PER_SECOND as int / hz as int,
    {
        let freq_ns = NANOS_PER_SECOND / hz;
        let ticked_at_ns = clock_now_ns();
        Metronome { freq_ns, ticked_at_ns }
    }

    /// The firing decision on a given clock reading: fire exactly when the
    /// elapsed time since the last fire has reached the period, recording
    /// the reading on fire and changing nothing otherwise. No catch-up: one
    /// poll fires at most once, however late it is.
    pub fn fire_if_due(&mut self, now_ns: i128) -> (fired: bool)
        requires
            old(self).wf(),
        ensures
            final(self).wf(),
            fired == (now_ns - old(self).ticked_at_ns >= old(self).freq_ns),
            final(self).freq_ns == old(self).freq_ns,
            final(self).ticked_at_ns == if fired {
                now_ns
            } else {
                old(self).ticked_at_ns
            },
    {
        let due: bool = if now_ns >= self.ticked_at_ns {
            if self.ticked_at_ns > i128::MAX - self.freq_ns as i128 {
                false
            } else {
                now_ns >= self.ticked_at_ns + self.freq_ns as i128
            }
        } else {
            false
        };
        if due {
            self.ticked_at_ns = now_ns;
        }
        due
    }

    /// Poll the wall clock and fire when the period has elapsed. The clock
    /// reading is outside anyone's control, so the contract promises only
    /// what holds of every outcome: see `ticked`.
    pub fn on_tick(&mut self) -> (fired: bool)
        requires
            old(self).wf(),
        ensures
            final(self).wf(),
            ticked(*old(self), *final(self), fired),
    {
        let now = clock_now_ns();
        self.fire_if_due(now)
    }
}

/// What one clock poll does to a metronome, given whether it fired: a fire
/// moves the recorded timestamp at least one period forward, a no-fire
/// changes nothing; the period never changes.
pub open spec fn ticked(pre: Metronome, post: Metronome, fired: bool) -> bool {
    if fired {
        &&& post.freq_ns == pre.freq_ns
        &&& post.ticked_at_ns - pre.ticked_at_ns >= pre.freq_ns
    } else {
        post == pre
    }
}

} // verus!
