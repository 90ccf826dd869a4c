use vstd::prelude::*;

use crate::time::{Duration, Instant};

verus! {

/// A clock that stands still until it is advanced.
#[derive(Debug)]
pub struct MockClock(pub Instant);

impl MockClock {
    pub fn new() -> (r: MockClock)
        ensures
            r.0.nanos == 0,
    {
        MockClock(Instant { nanos: 0 })
    }

    pub fn now(&self) -> (r: Instant)
        ensures
            r == self.0,
    {
        self.0
    }

    /// Moves the clock forward by `diff`.
    pub fn advance(&mut self, diff: Duration)
        requires
            old(self).0.nanos + diff.nanos <= u64::MAX,
        ensures
            final(self).0.nanos == old(self).0.nanos + diff.nanos,
    {
        self.0 = Instant { nanos: self.0.nanos + diff.nanos };
    }
}

/// Runs `f` with a fresh mock clock, which starts at the origin, and returns
/// what `f` returns.
pub fn freeze<F, R>(f: F) -> (r: R)
    where
        F: FnOnce(&mut MockClock) -> R,
    requires
        forall|c: &mut MockClock| f.requires((c,)),
    ensures
        exists|c: &mut MockClock| c.0.nanos == 0 && f.ensures((c,), r),
{
    let mut clock = MockClock::new();
    f(&mut clock)
}

} // verus!
