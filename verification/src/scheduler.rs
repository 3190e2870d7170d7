use vstd::prelude::*;

verus! {

/// The number of ticks between two sync cycles, unless another is asked for.
pub const SYNC_INTERVAL: u32 = 300;

/// The cadence of the sync cycles: a count of the ticks since the last one,
/// owned by the loop that drives the tracker.
#[derive(Clone, Copy, Debug, PartialEq, Eq)]
pub struct Scheduler {
    /// The ticks counted since the last sync cycle, or since the start.
    pub tick: u32,
    /// The count at which a sync cycle is due.
    pub interval: u32,
}

impl Scheduler {
    /// A sync cycle is due at this tick: sync is enabled and the count has
    /// reached the interval.
    pub open spec fn sync_due(self, enabled: bool) -> bool {
        enabled && self.tick >= self.interval
    }

    /// The scheduler after this tick. A due sync cycle starts the count
    /// anew; the tick itself is counted either way. The count stops at the
    /// highest number it can hold.
    pub open spec fn next(self, enabled: bool) -> Scheduler {
        let counted = if self.sync_due(enabled) {
            0u32
        } else {
            self.tick
        };
        Scheduler {
            tick: if counted == u32::MAX {
                counted
            } else {
                (counted + 1) as u32
            },
            interval: self.interval,
        }
    }

    /// The scheduler after `ticks` ticks with sync enabled.
    pub open spec fn after(self, ticks: nat) -> Scheduler
        decreases ticks,
    {
        if ticks == 0 {
            self
        } else {
            self.after((ticks - 1) as nat).next(true)
        }
    }

    /// A scheduler that has counted no tick yet and lets a sync cycle fall
    /// due whenever `interval` ticks are counted.
    pub fn new(interval: u32) -> (scheduler: Scheduler)
        ensures
            scheduler == (Scheduler { tick: 0, interval }),
    {
        Scheduler { tick: 0, interval }
    }

    /// Counts one tick and says whether a sync cycle is due at it.
    pub fn advance(&mut self, enabled: bool) -> (due: bool)
        ensures
            due == old(self).sync_due(enabled),
            *final(self) == old(self).next(enabled),
    {
        let due = enabled && self.tick >= self.interval;
        if due {
            self.tick = 0;
        }
        if self.tick < u32::MAX {
            self.tick = self.tick + 1;
        }
        due
    }

    /// With sync enabled, a count that has not yet reached the interval
    /// reaches it after exactly the ticks that are missing, and no sync cycle
    /// is due before that.
    pub proof fn lemma_due_when_interval_is_reached(self, ticks: nat)
        requires
            self.tick + ticks <= self.interval,
        ensures
            self.after(ticks).tick == self.tick + ticks,
            self.after(ticks).interval == self.interval,
            self.after(ticks).sync_due(true) <==> self.tick + ticks == self.interval,
        decreases ticks,
    {
        if ticks > 0 {
            self.lemma_due_when_interval_is_reached((ticks - 1) as nat);
        }
    }

    /// With sync enabled and an interval of at least one tick, a due sync
    /// cycle is followed by the next one exactly `interval` ticks later.
    pub proof fn lemma_sync_every_interval(self, ticks: nat)
        requires
            self.sync_due(true),
            1 <= ticks <= self.interval,
        ensures
            self.after(ticks).sync_due(true) <==> ticks == self.interval,
        decreases ticks,
    {
        let restarted = self.next(true);
        assert(restarted.tick == 1);
        Self::lemma_after_first(self, ticks);
        restarted.lemma_due_when_interval_is_reached((ticks - 1) as nat);
    }

    proof fn lemma_after_first(self, ticks: nat)
        requires
            ticks >= 1,
        ensures
            self.after(ticks) == self.next(true).after((ticks - 1) as nat),
        decreases ticks,
    {
        if ticks > 1 {
            Self::lemma_after_first(self, (ticks - 1) as nat);
        } else {
            assert(self.after(1) == self.after(0).next(true));
        }
    }
}

} // verus!
