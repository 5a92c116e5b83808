//! When an editor is due to look at its plugin again.

use vstd::prelude::*;

verus! {

/// How long an editor waits between two ticks, in nanoseconds.
pub const TICK_NS: u64 = 33_000_000;

/// How long the editor of the relay waits between two ticks, in nanoseconds.
pub const RELAY_TICK_NS: u64 = 100_000_000;

/// Whether a tick is due: as much time has passed since the last one.
///
/// Where the clock runs backwards, no time has passed.
pub fn is_due(last_ns: u64, now_ns: u64, interval_ns: u64) -> (r: bool)
    ensures
        r == due(last_ns, now_ns, interval_ns),
{
    if now_ns < last_ns {
        interval_ns == 0
    } else {
        now_ns - last_ns >= interval_ns
    }
}

/// Whether a tick is due.
pub open spec fn due(last_ns: u64, now_ns: u64, interval_ns: u64) -> bool {
    interval_ns == 0 || now_ns - last_ns >= interval_ns
}

/// What an editor knows of its ticks.
#[derive(Clone, Copy, Debug, PartialEq, Eq, Structural)]
pub struct Ticker {
    pub last_ns: u64,
    pub interval_ns: u64,
}

impl Ticker {
    /// A ticker that starts now.
    pub fn new(now_ns: u64, interval_ns: u64) -> (r: Ticker)
        ensures
            r == (Ticker { last_ns: now_ns, interval_ns }),
    {
        Ticker { last_ns: now_ns, interval_ns }
    }

    /// Draws the ticker: true where a tick is due, and the next one is counted from now on.
    pub fn draw(&mut self, now_ns: u64) -> (r: bool)
        ensures
            r == due(old(self).last_ns, now_ns, old(self).interval_ns),
            *final(self) == (if r {
                Ticker { last_ns: now_ns, ..*old(self) }
            } else {
                *old(self)
            }),
    {
        let r: bool = is_due(self.last_ns, now_ns, self.interval_ns);
        if r {
            self.last_ns = now_ns;
        }
        r
    }
}

/// Between two ticks at least the interval passes.
pub proof fn law_ticks_keep_their_distance(first_ns: u64, second_ns: u64, interval_ns: u64)
    requires
        due(first_ns, second_ns, interval_ns),
        first_ns <= second_ns,
    ensures
        second_ns - first_ns >= interval_ns,
{
}

} // verus!
