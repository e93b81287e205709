//! Issues registration ids: monotonically increasing values derived from
//! the millisecond clock, never repeating within a process.

use vstd::prelude::*;

verus! {

/// The id issued for a clock reading of `now_ms` when `last` was the most
/// recently issued id: the clock value itself when it has moved past every
/// issued id, and the successor of the last id otherwise.
pub open spec fn spec_next_register_id(last: u64, now_ms: u64) -> int {
    if now_ms > last {
        now_ms as int
    } else {
        last as int + 1
    }
}

/// The allocator's whole state: the last id it issued (zero at start).
pub struct RegisterAllocator {
    pub last: u64,
}

impl RegisterAllocator {
    pub fn new() -> (r: RegisterAllocator)
        ensures
            r.last == 0,
    {
        RegisterAllocator { last: 0 }
    }

    /// Issues the next id for the given clock reading.  The result is
    /// strictly above every id issued before and never below the clock.
    pub fn next_register_id(&mut self, now_ms: u64) -> (r: u64)
        requires
            old(self).last < u64::MAX,
        ensures
            r == spec_next_register_id(old(self).last, now_ms),
            final(self).last == r,
            r >= now_ms,
            r > old(self).last,
    {
        let r: u64 = if now_ms > self.last {
            now_ms
        } else {
            self.last + 1
        };
        self.last = r;
        r
    }

    /// Issues the next id from the wall clock.  Whatever the clock returns,
    /// the result is strictly above every id issued before.
    pub fn get_register_id(&mut self) -> (r: u64)
        requires
            old(self).last < u64::MAX,
        ensures
            final(self).last == r,
            r > old(self).last,
    {
        let now = crate::entropy::now_millis();
        self.next_register_id(now)
    }
}

/// Two ids issued in succession are distinct, each is at least the clock
/// reading observed at its call, and they come out in increasing order.
pub proof fn lemma_register_ids_distinct(last0: u64, now1: u64, now2: u64)
    requires
        last0 < u64::MAX,
        spec_next_register_id(last0, now1) < u64::MAX,
    ensures
        spec_next_register_id(last0, now1) >= now1,
        spec_next_register_id(spec_next_register_id(last0, now1) as u64, now2) >= now2,
        spec_next_register_id(spec_next_register_id(last0, now1) as u64, now2)
            > spec_next_register_id(last0, now1),
{
}

} // verus!
