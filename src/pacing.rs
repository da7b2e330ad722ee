//! Spacing of dispatches: the earliest instant at which the next dispatch
//! may start, given the previous one. Instants are nanoseconds since an
//! origin that the caller fixes once.
use vstd::prelude::*;

verus! {

/// The slot granted at `now` to a pacer with this interval whose previous
/// slot was `last`: no earlier than `now`, and no earlier than one interval
/// after `last`; held at `u64::MAX` where that does not fit.
pub open spec fn next_slot(interval: u64, last: Option<u64>, now: u64) -> u64 {
    let earliest: int = match last {
        None => now as int,
        Some(l) => if now as int >= l + interval { now as int } else { l + interval },
    };
    if earliest > u64::MAX { u64::MAX } else { earliest as u64 }
}

/// Hands out dispatch slots at least one interval apart.
pub struct Pacer {
    interval_nanos: u64,
    last: Option<u64>,
}

impl Pacer {
    /// Minimum spacing between two slots, in nanoseconds.
    pub closed spec fn interval(&self) -> u64 {
        self.interval_nanos
    }

    /// The slot granted last, if any.
    pub closed spec fn last_slot(&self) -> Option<u64> {
        self.last
    }

    /// A pacer that has granted no slot yet.
    pub fn new(interval_nanos: u64) -> (p: Pacer)
        ensures
            p.interval() == interval_nanos,
            p.last_slot() is None,
    {
        Pacer { interval_nanos, last: None }
    }

    /// Minimum spacing between two slots, in nanoseconds.
    pub fn interval_nanos(&self) -> (r: u64)
        ensures
            r == self.interval(),
    {
        self.interval_nanos
    }

    /// Grants the next slot to a caller that asks at `now`: the caller waits
    /// until the returned instant before it dispatches.
    pub fn reserve(&mut self, now: u64) -> (slot: u64)
        ensures
            slot == next_slot(old(self).interval(), old(self).last_slot(), now),
            slot >= now,
            final(self).interval() == old(self).interval(),
            final(self).last_slot() == Some(slot),
    {
        let slot: u64 = match self.last {
            None => now,
            Some(l) => {
                if l > u64::MAX - self.interval_nanos {
                    u64::MAX
                } else if now >= l + self.interval_nanos {
                    now
                } else {
                    l + self.interval_nanos
                }
            },
        };
        self.last = Some(slot);
        slot
    }
}

/// Two slots granted one after the other by the same pacer are at least one
/// interval apart, whenever the second can be represented.
pub proof fn lemma_pacing_lower_bound(interval: u64, last: Option<u64>, now1: u64, now2: u64)
    requires
        next_slot(interval, last, now1) + interval <= u64::MAX,
    ensures
        next_slot(interval, Some(next_slot(interval, last, now1)), now2)
            >= next_slot(interval, last, now1) + interval,
{
}

/// The slot is never earlier than the request for it, and never earlier
/// than the slot before it.
pub proof fn lemma_slots_monotonic(interval: u64, last: Option<u64>, now: u64)
    ensures
        next_slot(interval, last, now) >= now,
        last matches Some(l) ==> next_slot(interval, last, now) >= l,
{
}

} // verus!
