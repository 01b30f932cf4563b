//! Counting the pulses of the flow sensor over a time window. The sensor
//! raises an interrupt flag on each rising edge; the counter polls the flag,
//! counts a pulse and has the flag cleared each time it finds it set, and
//! stops once the window has elapsed. Times are in ticks of one clock.
use vstd::prelude::*;

verus! {

/// The count after one poll: one more (wrapping at 2^32) when the flag was set.
pub open spec fn count_after_poll(count: u32, interrupt_set: bool) -> u32 {
    if interrupt_set {
        vstd::wrapping::u32_specs::wrapping_add(count, 1)
    } else {
        count
    }
}

/// The count after a series of polls, starting from `count`.
pub open spec fn count_after_polls(count: u32, polls: Seq<bool>) -> u32
    decreases polls.len(),
{
    if polls.len() == 0 {
        count
    } else {
        count_after_poll(count_after_polls(count, polls.drop_last()), polls.last())
    }
}

/// How many polls found the flag set.
pub open spec fn set_polls(polls: Seq<bool>) -> nat
    decreases polls.len(),
{
    if polls.len() == 0 {
        0
    } else {
        set_polls(polls.drop_last()) + if polls.last() {
            1nat
        } else {
            0nat
        }
    }
}

/// A measuring window: when it started, how long it lasts, and the pulses
/// counted so far.
pub struct PulseWindow {
    start: u64,
    window: u64,
    count: u32,
}

impl PulseWindow {
    /// The tick at which the window started.
    pub closed spec fn spec_start(&self) -> u64 {
        self.start
    }

    /// The length of the window in ticks.
    pub closed spec fn spec_window(&self) -> u64 {
        self.window
    }

    /// The pulses counted so far.
    pub closed spec fn spec_count(&self) -> u32 {
        self.count
    }

    /// Open a window of `window` ticks at tick `start`, with the count reset to 0.
    pub fn new(start: u64, window: u64) -> (r: Self)
        ensures
            r.spec_start() == start,
            r.spec_window() == window,
            r.spec_count() == 0,
    {
        PulseWindow { start, window, count: 0 }
    }

    /// Whether the window is still open at tick `now` (not before its start).
    pub fn is_open(&self, now: u64) -> (r: bool)
        requires
            now >= self.spec_start(),
        ensures
            r == (now - self.spec_start() < self.spec_window()),
    {
        now - self.start < self.window
    }

    /// Take in one poll of the interrupt flag; returns whether the flag is
    /// to be cleared, which is whenever a pulse was counted.
    pub fn record(&mut self, interrupt_set: bool) -> (clear: bool)
        ensures
            clear == interrupt_set,
            final(self).spec_count() == count_after_poll(old(self).spec_count(), interrupt_set),
            final(self).spec_start() == old(self).spec_start(),
            final(self).spec_window() == old(self).spec_window(),
    {
        if interrupt_set {
            self.count = self.count.wrapping_add(1);
        }
        interrupt_set
    }

    /// The pulses counted so far.
    pub fn pulses(&self) -> (r: u32)
        ensures
            r == self.spec_count(),
    {
        self.count
    }
}

/// Over any series of polls, the count is the number of polls that found
/// the flag set, modulo 2^32, added to where it started.
pub proof fn lemma_count_is_set_polls(count: u32, polls: Seq<bool>)
    ensures
        count_after_polls(count, polls) as nat == (count + set_polls(polls)) % 0x1_0000_0000,
    decreases polls.len(),
{
    if polls.len() > 0 {
        lemma_count_is_set_polls(count, polls.drop_last());
        let c = count_after_polls(count, polls.drop_last());
        let k = set_polls(polls.drop_last());
        if polls.last() {
            assert((((count + k) % 0x1_0000_0000) + 1) % 0x1_0000_0000 == (count + k + 1) % 0x1_0000_0000)
                by (nonlinear_arith);
        } else {
            assert(c as nat == (count + k) % 0x1_0000_0000);
        }
    } else {
        assert(count as nat == (count + 0) % 0x1_0000_0000);
    }
}

} // verus!
