//! Backoff schedules: restartable, endless sequences of delays.
use vstd::prelude::*;

use crate::time::Duration;

verus! {

/// How the delays of a schedule grow.
#[derive(Clone, Copy, Debug, PartialEq, Eq, Structural)]
pub enum Strategy {
    /// Always `start`.
    Constant,
    /// `start`, doubled at each step, saturating at `max`.
    Exponential,
    /// Half of the exponential value plus a uniform draw from the other half.
    EqualJittered,
    /// A uniform draw between zero and the exponential value.
    FullJittered,
    /// A uniform draw between `start` and three times the previous delay,
    /// saturating at `max`.
    DecorrelatedJittered,
}

/// A backoff schedule and its position.
#[derive(Clone, Copy, Debug)]
pub struct Backoff {
    pub strategy: Strategy,
    pub start: Duration,
    pub max: Duration,
    /// The exponential value of the current step, in nanoseconds.
    pub current: u64,
    /// The previous decorrelated delay, in nanoseconds.
    pub prev: u64,
}

pub open spec fn min_nat(a: nat, b: nat) -> nat {
    if a <= b { a } else { b }
}

pub open spec fn max_nat(a: nat, b: nat) -> nat {
    if a <= b { b } else { a }
}

/// The exponential value of step `i`: `start * 2^i`, saturated at `max`.
pub open spec fn exp_value(start: nat, max: nat, i: nat) -> nat
    decreases i,
{
    if i == 0 {
        min_nat(start, max)
    } else {
        min_nat(2 * exp_value(start, max, (i - 1) as nat), max)
    }
}

/// Relies on rand's `thread_rng().gen_range(low..=high)`: a value drawn
/// uniformly from the closed range `[low, high]`, which panics only on an empty
/// range.
#[verifier::external_body]
fn uniform(low: u64, high: u64) -> (r: u64)
    requires
        low <= high,
    ensures
        low <= r <= high,
{
    rand::Rng::gen_range(&mut rand::thread_rng(), low..=high)
}

/// The exponential value after `d`: doubled, saturating at `max`.
pub fn doubled(d: u64, max: u64) -> (r: u64)
    requires
        d <= max,
    ensures
        r == min_nat((2 * d) as nat, max as nat),
{
    if d > max / 2 {
        max
    } else {
        d * 2
    }
}

/// An equal-jittered delay: half of the exponential value `d`, plus the
/// draw `u` from the other half.
pub fn equal_jitter(d: u64, u: u64) -> (r: u64)
    requires
        u <= d - d / 2,
    ensures
        r == d / 2 + u,
        d / 2 <= r <= d,
{
    d / 2 + u
}

/// The upper end of a decorrelated draw after the delay `prev`: three times
/// `prev` (saturating at the largest `u64`), and at least `start`.
pub fn decorrelated_high(start: u64, prev: u64) -> (r: u64)
    ensures
        r == max_nat(start as nat, min_nat((3 * prev) as nat, u64::MAX as nat)),
{
    let tripled = if prev > u64::MAX / 3 { u64::MAX } else { prev * 3 };
    if tripled >= start {
        tripled
    } else {
        start
    }
}

/// The draw `u`, saturating at `max`.
pub fn saturate(u: u64, max: u64) -> (r: u64)
    ensures
        r == min_nat(u as nat, max as nat),
{
    if u <= max {
        u
    } else {
        max
    }
}

impl Backoff {
    /// The schedule is at some step `i`, with `prev` a delay it may have
    /// emitted.
    pub open spec fn wf(&self) -> bool {
        &&& exists|i: nat| self.current == exp_value(self.start.nanos as nat, self.max.nanos as nat, i)
        &&& self.prev >= min_nat(self.start.nanos as nat, self.max.nanos as nat)
    }

    /// The schedule as it stands before its first delay.
    pub open spec fn is_fresh(&self) -> bool {
        &&& self.current == min_nat(self.start.nanos as nat, self.max.nanos as nat)
        &&& self.prev == self.start.nanos
    }

    /// The same schedule, restarted.
    pub open spec fn restarted(&self) -> Backoff {
        Backoff {
            current: min_nat(self.start.nanos as nat, self.max.nanos as nat) as u64,
            prev: self.start.nanos,
            ..*self
        }
    }

    /// The exponential value that follows `current`.
    pub open spec fn next_current(&self) -> nat {
        min_nat((2 * self.current) as nat, self.max.nanos as nat)
    }

    /// What a call of `next` may emit, and where it leaves the schedule.
    pub open spec fn step(&self, r: Duration, after: Backoff) -> bool {
        let d = self.current as nat;
        let start = self.start.nanos as nat;
        let max = self.max.nanos as nat;
        &&& after.strategy == self.strategy
        &&& after.start == self.start
        &&& after.max == self.max
        &&& match self.strategy {
            Strategy::Constant => r == self.start && after == *self,
            Strategy::Exponential => {
                &&& r.nanos == d
                &&& after.current == self.next_current()
                &&& after.prev == self.prev
            },
            Strategy::EqualJittered => {
                &&& d / 2 <= r.nanos <= d
                &&& after.current == self.next_current()
                &&& after.prev == self.prev
            },
            Strategy::FullJittered => {
                &&& r.nanos <= d
                &&& after.current == self.next_current()
                &&& after.prev == self.prev
            },
            Strategy::DecorrelatedJittered => {
                &&& min_nat(start, max) <= r.nanos
                &&& r.nanos <= min_nat(max_nat(start, (3 * self.prev) as nat), max)
                &&& after.current == self.current
                &&& after.prev == r.nanos
            },
        }
    }

    fn with_strategy(strategy: Strategy, start: Duration, max: Duration) -> (r: Backoff)
        ensures
            r.strategy == strategy,
            r.start == start,
            r.max == max,
            r.is_fresh(),
            r.wf(),
    {
        let current = if start.nanos <= max.nanos { start.nanos } else { max.nanos };
        let r = Backoff { strategy, start, max, current, prev: start.nanos };
        assert(r.current == exp_value(start.nanos as nat, max.nanos as nat, 0));
        r
    }

    /// Checks that the schedule is at some step, with `prev` a delay it may
    /// have emitted.
    pub fn is_well_formed(&self) -> (r: bool)
        ensures
            r ==> self.wf(),
    {
        let start = self.start.nanos;
        let max = self.max.nanos;
        let first = if start <= max { start } else { max };
        if self.prev < first {
            return false;
        }
        let mut c = first;
        let ghost mut i: nat = 0;
        assert(c == exp_value(start as nat, max as nat, 0));
        while c != self.current && c < max && c > 0
            invariant
                c == exp_value(start as nat, max as nat, i),
                c <= max,
                start == self.start.nanos,
                max == self.max.nanos,
            decreases max - c,
        {
            c = doubled(c, max);
            proof {
                i = i + 1;
            }
        }
        c == self.current
    }

    /// Emits the delay of the current step and moves to the next one.
    pub fn next(&mut self) -> (r: Duration)
        requires
            old(self).wf(),
        ensures
            final(self).wf(),
            old(self).step(r, *final(self)),
    {
        let d = self.current;
        let max = self.max.nanos;
        let ghost i = choose|i: nat| self.current == exp_value(self.start.nanos as nat, max as nat, i);
        assert(d <= max);
        let next_current = doubled(d, max);
        assert(next_current == exp_value(self.start.nanos as nat, max as nat, i + 1));
        match self.strategy {
            Strategy::Constant => {
                assert(self.wf());
                self.start
            },
            Strategy::Exponential => {
                self.current = next_current;
                Duration { nanos: d }
            },
            Strategy::EqualJittered => {
                let u = uniform(0, d - d / 2);
                let r = equal_jitter(d, u);
                self.current = next_current;
                Duration { nanos: r }
            },
            Strategy::FullJittered => {
                let r = uniform(0, d);
                self.current = next_current;
                Duration { nanos: r }
            },
            Strategy::DecorrelatedJittered => {
                let start = self.start.nanos;
                let tripled = if self.prev > u64::MAX / 3 { u64::MAX } else { self.prev * 3 };
                let high = if tripled >= start { tripled } else { start };
                let u = uniform(start, high);
                let r = if u <= max { u } else { max };
                self.prev = r;
                Duration { nanos: r }
            },
        }
    }

    /// Moves the schedule back to its first step.
    pub fn reset(&mut self)
        requires
            old(self).wf(),
        ensures
            *final(self) == old(self).restarted(),
            final(self).is_fresh(),
            final(self).wf(),
    {
        self.current = if self.start.nanos <= self.max.nanos { self.start.nanos } else { self.max.nanos };
        self.prev = self.start.nanos;
        assert(self.current == exp_value(self.start.nanos as nat, self.max.nanos as nat, 0));
    }
}

/// The constant schedule `delay, delay, ...`.
pub fn constant(delay: Duration) -> (r: Backoff)
    ensures
        r.strategy == Strategy::Constant,
        r.start == delay,
        r.max == delay,
        r.is_fresh(),
        r.wf(),
{
    Backoff::with_strategy(Strategy::Constant, delay, delay)
}

/// The schedule `start, 2·start, 4·start, ...`, saturating at `max`.
pub fn exponential(start: Duration, max: Duration) -> (r: Backoff)
    ensures
        r.strategy == Strategy::Exponential,
        r.start == start,
        r.max == max,
        r.is_fresh(),
        r.wf(),
{
    Backoff::with_strategy(Strategy::Exponential, start, max)
}

/// The exponential schedule with equal jitter: each delay lies between half of
/// the exponential value and the whole of it.
pub fn equal_jittered(start: Duration, max: Duration) -> (r: Backoff)
    ensures
        r.strategy == Strategy::EqualJittered,
        r.start == start,
        r.max == max,
        r.is_fresh(),
        r.wf(),
{
    Backoff::with_strategy(Strategy::EqualJittered, start, max)
}

/// The exponential schedule with full jitter: each delay lies between zero and
/// the exponential value.
pub fn full_jittered(start: Duration, max: Duration) -> (r: Backoff)
    ensures
        r.strategy == Strategy::FullJittered,
        r.start == start,
        r.max == max,
        r.is_fresh(),
        r.wf(),
{
    Backoff::with_strategy(Strategy::FullJittered, start, max)
}

/// The decorrelated schedule: each delay is drawn between `start` and three
/// times the previous one, saturating at `max`.
pub fn decorrelated_jittered(start: Duration, max: Duration) -> (r: Backoff)
    ensures
        r.strategy == Strategy::DecorrelatedJittered,
        r.start == start,
        r.max == max,
        r.is_fresh(),
        r.wf(),
{
    Backoff::with_strategy(Strategy::DecorrelatedJittered, start, max)
}

/// A run of delays drawn from `bs[0]`: call `i` of `next` emits `rs[i]` and
/// leaves `bs[i + 1]`.
pub open spec fn delay_run(bs: Seq<Backoff>, rs: Seq<Duration>) -> bool {
    &&& bs.len() == rs.len() + 1
    &&& forall|i: int| 0 <= i < rs.len() ==> #[trigger] bs[i].step(rs[i], bs[i + 1])
}

proof fn lemma_run_position(bs: Seq<Backoff>, rs: Seq<Duration>, i: int)
    requires
        delay_run(bs, rs),
        bs[0].is_fresh(),
        0 <= i <= rs.len(),
    ensures
        bs[i].strategy == bs[0].strategy,
        bs[i].start == bs[0].start,
        bs[i].max == bs[0].max,
        bs[0].strategy != Strategy::Constant && bs[0].strategy != Strategy::DecorrelatedJittered
            ==> bs[i].current == exp_value(bs[0].start.nanos as nat, bs[0].max.nanos as nat, i as nat),
    decreases i,
{
    if i > 0 {
        let j = i - 1;
        lemma_run_position(bs, rs, j);
        assert(bs[j].step(rs[j], bs[j + 1]));
    }
}

/// From a fresh schedule, the `i`-th delay of an exponential schedule is the
/// exponential value of step `i`, that of an equal-jittered one lies between
/// half that value and that value, and none exceeds `max`.
pub proof fn lemma_delays_bounded(bs: Seq<Backoff>, rs: Seq<Duration>)
    requires
        delay_run(bs, rs),
        bs[0].is_fresh(),
    ensures
        forall|i: int|
            0 <= i < rs.len() ==> {
                let e = exp_value(bs[0].start.nanos as nat, bs[0].max.nanos as nat, i as nat);
                &&& bs[0].strategy == Strategy::Exponential ==> rs[i].nanos == e
                &&& bs[0].strategy == Strategy::EqualJittered ==> e / 2 <= rs[i].nanos <= e
                &&& bs[0].strategy != Strategy::Constant ==> #[trigger] rs[i].nanos <= bs[0].max.nanos
            },
{
    assert forall|i: int| 0 <= i < rs.len() implies {
        let e = exp_value(bs[0].start.nanos as nat, bs[0].max.nanos as nat, i as nat);
        &&& bs[0].strategy == Strategy::Exponential ==> rs[i].nanos == e
        &&& bs[0].strategy == Strategy::EqualJittered ==> e / 2 <= rs[i].nanos <= e
        &&& bs[0].strategy != Strategy::Constant ==> #[trigger] rs[i].nanos <= bs[0].max.nanos
    } by {
        lemma_run_position(bs, rs, i);
        assert(bs[i].step(rs[i], bs[i + 1]));
    }
}

} // verus!
