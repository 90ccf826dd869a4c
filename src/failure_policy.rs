//! Failure accrual policies: they record outcomes and decide when the breaker
//! trips, and for how long.
use vstd::prelude::*;

use crate::backoff::{self, Backoff};
use crate::time::{Duration, Instant, NANOS_PER_MILLI};
use crate::windowed_adder::{lemma_nonneg_total, lemma_sum_mono, lemma_update, sum_of, WindowedAdder};

verus! {

/// Records the outcomes of calls and decides when to trip.
pub trait FailurePolicy: Sized {
    /// The policy's internal state is consistent.
    spec fn wf(&self) -> bool;

    /// A success recorded at `now` may leave the policy as `after`.
    spec fn success_spec(&self, now: Instant, after: &Self) -> bool;

    /// Reviving the policy at `now` may leave it as `after`.
    spec fn revived_spec(&self, now: Instant, after: &Self) -> bool;

    /// A failure recorded at `now` may return `r` and leave the policy as
    /// `after`.
    spec fn failure_spec(&self, now: Instant, r: Option<Duration>, after: &Self) -> bool;

    /// Checks the policy's internal state; holds of every policy that this
    /// library's constructors and methods produce.
    fn is_well_formed(&self) -> (r: bool)
        ensures
            r ==> self.wf(),
    ;

    /// Records a successful call.
    fn record_success(&mut self, now: Instant)
        requires
            old(self).wf(),
        ensures
            final(self).wf(),
            old(self).success_spec(now, final(self)),
    ;

    /// Records a failed call; returns the delay to stay open for when the
    /// policy trips.
    fn mark_dead_on_failure(&mut self, now: Instant) -> (r: Option<Duration>)
        requires
            old(self).wf(),
        ensures
            final(self).wf(),
            old(self).failure_spec(now, r, final(self)),
    ;

    /// Resets the policy's counters and restarts its backoff, once the
    /// breaker has closed again.
    fn revived(&mut self, now: Instant)
        requires
            old(self).wf(),
        ensures
            final(self).wf(),
            old(self).revived_spec(now, final(self)),
    ;
}

/// Trips once `required` failures have come in a row.
#[derive(Clone, Copy, Debug)]
pub struct ConsecutiveFailures {
    pub required: u32,
    pub consecutive: u32,
    pub backoff: Backoff,
}

/// The number of consecutive failures that trips the default policy.
pub const DEFAULT_REQUIRED_FAILURES: u32 = 5;

/// The first delay of the default backoff, in seconds.
pub const DEFAULT_BACKOFF_START_SECS: u64 = 5;

/// The longest delay of the default backoff, in seconds.
pub const DEFAULT_BACKOFF_MAX_SECS: u64 = 300;

/// A policy that trips on `required` consecutive failures, and stays open
/// for the delays of `backoff`.
pub fn consecutive_failures(required: u32, backoff: Backoff) -> (r: ConsecutiveFailures)
    requires
        backoff.wf(),
    ensures
        r.required == required,
        r.consecutive == 0,
        r.backoff == backoff.restarted(),
        r.wf(),
{
    let mut backoff = backoff;
    backoff.reset();
    ConsecutiveFailures { required, consecutive: 0, backoff }
}

impl Default for ConsecutiveFailures {
    /// Five consecutive failures, with an equal-jittered backoff from five
    /// seconds to five minutes.
    fn default() -> (r: ConsecutiveFailures)
        ensures
            r.required == DEFAULT_REQUIRED_FAILURES,
            r.consecutive == 0,
            r.backoff.strategy == backoff::Strategy::EqualJittered,
            r.backoff.start.nanos == DEFAULT_BACKOFF_START_SECS * crate::time::NANOS_PER_SEC,
            r.backoff.max.nanos == DEFAULT_BACKOFF_MAX_SECS * crate::time::NANOS_PER_SEC,
            r.backoff.is_fresh(),
            r.wf(),
    {
        let backoff = backoff::equal_jittered(
            Duration::from_secs(DEFAULT_BACKOFF_START_SECS),
            Duration::from_secs(DEFAULT_BACKOFF_MAX_SECS),
        );
        ConsecutiveFailures { required: DEFAULT_REQUIRED_FAILURES, consecutive: 0, backoff }
    }
}

impl ConsecutiveFailures {
    /// The counter that a failure leaves: one more, up to `required`.
    pub open spec fn counted_failure(&self) -> u32 {
        if self.consecutive < self.required {
            (self.consecutive + 1) as u32
        } else {
            self.consecutive
        }
    }
}

impl FailurePolicy for ConsecutiveFailures {
    open spec fn wf(&self) -> bool {
        &&& self.backoff.wf()
        &&& self.consecutive <= self.required
    }

    open spec fn success_spec(&self, now: Instant, after: &Self) -> bool {
        *after == ConsecutiveFailures { consecutive: 0, ..*self }
    }

    open spec fn revived_spec(&self, now: Instant, after: &Self) -> bool {
        *after == ConsecutiveFailures { consecutive: 0, backoff: self.backoff.restarted(), ..*self }
    }

    open spec fn failure_spec(&self, now: Instant, r: Option<Duration>, after: &Self) -> bool {
        &&& after.required == self.required
        &&& after.consecutive == self.counted_failure()
        &&& if self.counted_failure() >= self.required {
            &&& r is Some
            &&& self.backoff.step(r->0, after.backoff)
        } else {
            &&& r is None
            &&& after.backoff == self.backoff
        }
    }

    fn is_well_formed(&self) -> (r: bool) {
        self.consecutive <= self.required && self.backoff.is_well_formed()
    }

    fn record_success(&mut self, now: Instant) {
        self.consecutive = 0;
    }

    fn mark_dead_on_failure(&mut self, now: Instant) -> (r: Option<Duration>) {
        if self.consecutive < self.required {
            self.consecutive = self.consecutive + 1;
        }
        if self.consecutive >= self.required {
            Some(self.backoff.next())
        } else {
            None
        }
    }

    fn revived(&mut self, now: Instant) {
        self.consecutive = 0;
        self.backoff.reset();
    }
}

/// Two policies together: trips when either does, the first one's delay
/// taking precedence.
#[derive(Clone, Debug)]
pub struct OrElse<A, B> {
    pub left: A,
    pub right: B,
}

/// Composes `left` and `right` into one policy.
pub fn or_else<A: FailurePolicy, B: FailurePolicy>(left: A, right: B) -> (r: OrElse<A, B>)
    ensures
        r.left == left,
        r.right == right,
{
    OrElse { left, right }
}

impl<A: FailurePolicy, B: FailurePolicy> FailurePolicy for OrElse<A, B> {
    open spec fn wf(&self) -> bool {
        self.left.wf() && self.right.wf()
    }

    open spec fn success_spec(&self, now: Instant, after: &Self) -> bool {
        self.left.success_spec(now, &after.left) && self.right.success_spec(now, &after.right)
    }

    open spec fn revived_spec(&self, now: Instant, after: &Self) -> bool {
        self.left.revived_spec(now, &after.left) && self.right.revived_spec(now, &after.right)
    }

    open spec fn failure_spec(&self, now: Instant, r: Option<Duration>, after: &Self) -> bool {
        exists|ra: Option<Duration>, rb: Option<Duration>|
            {
                &&& #[trigger] self.left.failure_spec(now, ra, &after.left)
                &&& #[trigger] self.right.failure_spec(now, rb, &after.right)
                &&& r == if ra is Some { ra } else { rb }
            }
    }

    fn is_well_formed(&self) -> (r: bool) {
        self.left.is_well_formed() && self.right.is_well_formed()
    }

    fn record_success(&mut self, now: Instant) {
        self.left.record_success(now);
        self.right.record_success(now);
    }

    fn mark_dead_on_failure(&mut self, now: Instant) -> (r: Option<Duration>) {
        let ra = self.left.mark_dead_on_failure(now);
        let rb = self.right.mark_dead_on_failure(now);
        if ra.is_some() {
            ra
        } else {
            rb
        }
    }

    fn revived(&mut self, now: Instant) {
        self.left.revived(now);
        self.right.revived(now);
    }
}

/// A run of consecutive failures recorded on `ps[0]`: failure `i` returns
/// `rs[i]` and leaves `ps[i + 1]`.
pub open spec fn failure_run(
    ps: Seq<ConsecutiveFailures>,
    times: Seq<Instant>,
    rs: Seq<Option<Duration>>,
) -> bool {
    &&& ps.len() == rs.len() + 1
    &&& times.len() == rs.len()
    &&& forall|i: int| 0 <= i < rs.len() ==> #[trigger] ps[i].failure_spec(times[i], rs[i], &ps[i + 1])
}

/// From a policy with no failures counted, a run of failures trips it on the
/// `required`-th failure of the run and not before.
pub proof fn lemma_trips_on_required_failure(
    ps: Seq<ConsecutiveFailures>,
    times: Seq<Instant>,
    rs: Seq<Option<Duration>>,
)
    requires
        failure_run(ps, times, rs),
        ps[0].consecutive == 0,
    ensures
        forall|i: int| 0 <= i < rs.len() ==> (rs[i] is Some <==> i + 1 >= ps[0].required),
{
    assert forall|i: int| 0 <= i <= rs.len() implies ps[i].required == ps[0].required && ps[i].consecutive == (
    if i <= ps[0].required { i } else { ps[0].required as int }) by {
        lemma_run_counts(ps, times, rs, i);
    }
    assert forall|i: int| 0 <= i < rs.len() implies (rs[i] is Some <==> i + 1 >= ps[0].required) by {
        lemma_run_counts(ps, times, rs, i);
        assert(ps[i].failure_spec(times[i], rs[i], &ps[i + 1]));
    }
}

proof fn lemma_run_counts(
    ps: Seq<ConsecutiveFailures>,
    times: Seq<Instant>,
    rs: Seq<Option<Duration>>,
    i: int,
)
    requires
        failure_run(ps, times, rs),
        ps[0].consecutive == 0,
        0 <= i <= rs.len(),
    ensures
        ps[i].required == ps[0].required,
        ps[i].consecutive == if i <= ps[0].required { i } else { ps[0].required as int },
    decreases i,
{
    if i > 0 {
        let j = i - 1;
        lemma_run_counts(ps, times, rs, j);
        assert(ps[j].failure_spec(times[j], rs[j], &ps[j + 1]));
    }
}

/// A time-decayed estimate of the success rate of calls, held against the
/// rate that a policy requires.
pub trait RateEstimate {
    /// Records the outcome of a call at `now`.
    fn record(&mut self, success: bool, now: Instant);

    /// The estimate has fallen below the required rate.
    fn is_below_required(&self) -> bool;

    /// Forgets every recorded outcome.
    fn reset(&mut self, now: Instant);
}

/// The number of slices of the sample counter of a rate policy.
pub const RATE_WINDOW_SLICES: u8 = 5;

/// Trips when, over a time window, at least `min_samples` outcomes were
/// seen and the estimated success rate is below the required one; stays
/// tripped, without drawing further delays, until revived.
#[derive(Debug)]
pub struct SuccessRateOverTimeWindow<R> {
    pub min_samples: u32,
    pub samples: WindowedAdder,
    pub rate: R,
    pub backoff: Backoff,
    pub tripped: bool,
}

/// The sample counter `after` is `before` with one more outcome counted at
/// `now` (a counter at the largest value stays there).
pub open spec fn counted_one(before: &WindowedAdder, now: Instant, after: &WindowedAdder) -> bool {
    let purged = before.purged_slices(now);
    let i = before.purged_index(now);
    &&& after.window == before.window
    &&& after.width == before.width
    &&& after.index == i
    &&& after.last == before.purged_last(now)
    &&& after.slices@ == if sum_of(purged) < i64::MAX {
        purged.update(i, (purged[i] + 1) as i64)
    } else {
        purged
    }
}

/// A rate policy over `window`, counting `min_samples` outcomes at least
/// before it trips, with the success rate estimated by `rate`.
pub fn success_rate_over_time_window<R: RateEstimate>(
    min_samples: u32,
    window: Duration,
    rate: R,
    backoff: Backoff,
    now: Instant,
) -> (r: SuccessRateOverTimeWindow<R>)
    requires
        window.nanos / NANOS_PER_MILLI >= RATE_WINDOW_SLICES,
        backoff.wf(),
    ensures
        r.wf(),
        r.min_samples == min_samples,
        r.samples.window == window,
        r.samples.total() == 0,
        r.samples.last == now,
        r.rate == rate,
        r.backoff == backoff.restarted(),
        !r.tripped,
{
    let mut backoff = backoff;
    backoff.reset();
    let samples = WindowedAdder::new(window, RATE_WINDOW_SLICES, now);
    SuccessRateOverTimeWindow { min_samples, samples, rate, backoff, tripped: false }
}

impl<R: RateEstimate> SuccessRateOverTimeWindow<R> {
    /// Counts one more outcome at `now`.
    fn count_sample(&mut self, now: Instant)
        requires
            old(self).wf(),
        ensures
            final(self).wf(),
            counted_one(&old(self).samples, now, &final(self).samples),
            final(self).min_samples == old(self).min_samples,
            final(self).rate == old(self).rate,
            final(self).backoff == old(self).backoff,
            final(self).tripped == old(self).tripped,
    {
        let n = self.samples.sum(now);
        proof {
            let old_samples = old(self).samples;
            assert forall|j: int| 0 <= j < self.samples.slices.len() implies self.samples.slices@[j] >= 0 by {
                if old_samples.elapsed_slices(now) != 0 {
                    assert(self.samples.slices@[j] == old_samples.expired_slices(now)[j]);
                }
            }
            lemma_nonneg_total(self.samples.slices@);
            assert(self.samples.elapsed_slices(now) == 0);
        }
        let ghost cur = self.samples.slices@;
        if n < i64::MAX {
            self.samples.add(1, now);
            assert forall|j: int| 0 <= j < self.samples.slices.len() implies self.samples.slices@[j] >= 0 by {
                assert(cur[j] >= 0);
            }
        }
    }

    /// Counts a failure at `now`, the estimate having answered `below`
    /// (whether the success rate is below the required one): trips, drawing
    /// the next delay, exactly when the policy is not tripped yet, the
    /// window holds at least `min_samples` outcomes, and `below` holds.
    pub fn failure_given(&mut self, below: bool, now: Instant) -> (r: Option<Duration>)
        requires
            old(self).wf(),
        ensures
            final(self).wf(),
            old(self).failure_spec(now, r, final(self)),
            final(self).rate == old(self).rate,
            r is Some <==> (!old(self).tripped && final(self).sample_count()
                >= old(self).min_samples && below),
    {
        self.count_sample(now);
        let n = self.samples.sum(now);
        proof {
            lemma_nonneg_total(self.samples.slices@);
        }
        if !self.tripped && n >= self.min_samples as i64 && below {
            self.tripped = true;
            Some(self.backoff.next())
        } else {
            None
        }
    }

    /// The number of outcomes counted over the window, as of the last
    /// update.
    pub open spec fn sample_count(&self) -> int {
        sum_of(self.samples.slices@)
    }
}

impl<R: RateEstimate> FailurePolicy for SuccessRateOverTimeWindow<R> {
    open spec fn wf(&self) -> bool {
        &&& self.samples.wf()
        &&& self.samples.slices.len() == RATE_WINDOW_SLICES
        &&& forall|j: int| 0 <= j < self.samples.slices.len() ==> self.samples.slices@[j] >= 0
        &&& self.backoff.wf()
    }

    open spec fn success_spec(&self, now: Instant, after: &Self) -> bool {
        &&& counted_one(&self.samples, now, &after.samples)
        &&& after.min_samples == self.min_samples
        &&& after.backoff == self.backoff
        &&& after.tripped == self.tripped
    }

    open spec fn revived_spec(&self, now: Instant, after: &Self) -> bool {
        &&& after.min_samples == self.min_samples
        &&& after.samples.window == self.samples.window
        &&& after.samples.slices.len() == self.samples.slices.len()
        &&& after.samples.total() == 0
        &&& after.backoff == self.backoff.restarted()
        &&& !after.tripped
    }

    open spec fn failure_spec(&self, now: Instant, r: Option<Duration>, after: &Self) -> bool {
        &&& counted_one(&self.samples, now, &after.samples)
        &&& after.min_samples == self.min_samples
        &&& after.sample_count() < self.min_samples ==> r is None
        &&& self.tripped ==> r is None
        &&& match r {
            Some(d) => {
                &&& after.tripped
                &&& self.backoff.step(d, after.backoff)
            },
            None => {
                &&& after.tripped == self.tripped
                &&& after.backoff == self.backoff
            },
        }
    }

    fn is_well_formed(&self) -> (r: bool) {
        if !self.samples.is_well_formed() || self.samples.slices.len() != RATE_WINDOW_SLICES as usize
            || !self.backoff.is_well_formed() {
            return false;
        }
        let len = self.samples.slices.len();
        let mut i: usize = 0;
        while i < len
            invariant
                len == self.samples.slices.len(),
                i <= len,
                forall|j: int| 0 <= j < i ==> self.samples.slices@[j] >= 0,
            decreases len - i,
        {
            if self.samples.slices[i] < 0 {
                return false;
            }
            i = i + 1;
        }
        true
    }

    fn record_success(&mut self, now: Instant) {
        self.rate.record(true, now);
        self.count_sample(now);
    }

    fn mark_dead_on_failure(&mut self, now: Instant) -> (r: Option<Duration>) {
        self.rate.record(false, now);
        let below = self.rate.is_below_required();
        self.failure_given(below, now)
    }

    fn revived(&mut self, now: Instant) {
        self.tripped = false;
        self.samples.reset(now);
        self.rate.reset(now);
        self.backoff.reset();
    }
}

/// The least number of outcomes in the window before the default rate
/// policy may trip.
pub const DEFAULT_MIN_SAMPLES: u32 = 100;

/// The window of the default rate policy, in seconds.
pub const DEFAULT_WINDOW_SECS: u64 = 30;

/// `p` is the default policy, with the rate estimate `rate` and the window
/// starting at `now`.
pub open spec fn is_default_policy<R>(
    p: OrElse<SuccessRateOverTimeWindow<R>, ConsecutiveFailures>,
    rate: R,
    now: Instant,
) -> bool {
    &&& p.left.min_samples == DEFAULT_MIN_SAMPLES
    &&& p.left.samples.window.nanos == DEFAULT_WINDOW_SECS * crate::time::NANOS_PER_SEC
    &&& p.left.samples.total() == 0
    &&& p.left.samples.last == now
    &&& p.left.rate == rate
    &&& !p.left.tripped
    &&& p.left.backoff.strategy == backoff::Strategy::EqualJittered
    &&& p.left.backoff.start.nanos == DEFAULT_BACKOFF_START_SECS * crate::time::NANOS_PER_SEC
    &&& p.left.backoff.max.nanos == DEFAULT_BACKOFF_MAX_SECS * crate::time::NANOS_PER_SEC
    &&& p.left.backoff.is_fresh()
    &&& p.right.required == DEFAULT_REQUIRED_FAILURES
    &&& p.right.consecutive == 0
    &&& p.right.backoff.strategy == backoff::Strategy::EqualJittered
    &&& p.right.backoff.start.nanos == DEFAULT_BACKOFF_START_SECS * crate::time::NANOS_PER_SEC
    &&& p.right.backoff.max.nanos == DEFAULT_BACKOFF_MAX_SECS * crate::time::NANOS_PER_SEC
    &&& p.right.backoff.is_fresh()
}

/// The default policy: the rate policy over thirty seconds, tripping once at
/// least a hundred outcomes were seen and `rate` is below its required
/// rate, or else five consecutive failures; both back off from five seconds
/// to five minutes with equal jitter.
pub fn default_policy<R: RateEstimate>(rate: R, now: Instant) -> (r: OrElse<
    SuccessRateOverTimeWindow<R>,
    ConsecutiveFailures,
>)
    ensures
        r.wf(),
        is_default_policy(r, rate, now),
{
    let backoff = backoff::equal_jittered(
        Duration::from_secs(DEFAULT_BACKOFF_START_SECS),
        Duration::from_secs(DEFAULT_BACKOFF_MAX_SECS),
    );
    let by_rate = success_rate_over_time_window(
        DEFAULT_MIN_SAMPLES,
        Duration::from_secs(DEFAULT_WINDOW_SECS),
        rate,
        backoff,
        now,
    );
    or_else(by_rate, ConsecutiveFailures::default())
}

proof fn lemma_counted_one_adds_at_most_one(before: &WindowedAdder, now: Instant, after: &WindowedAdder)
    requires
        before.wf(),
        forall|j: int| 0 <= j < before.slices.len() ==> before.slices@[j] >= 0,
        counted_one(before, now, after),
    ensures
        sum_of(after.slices@) <= sum_of(before.slices@) + 1,
{
    let purged = before.purged_slices(now);
    assert forall|j: int| 0 <= j < purged.len() implies purged[j] <= before.slices@[j] by {
        if before.elapsed_slices(now) != 0 {
            assert(purged[j] == before.expired_slices(now)[j]);
        }
    }
    lemma_sum_mono(purged, before.slices@);
    if sum_of(purged) < i64::MAX {
        let i = before.purged_index(now);
        lemma_update(purged, i, (purged[i] + 1) as i64);
    }
}

/// A run of outcomes recorded on the rate policy `ps[0]`: outcome `i` is a
/// failure when `failed[i]`, returns `rs[i]`, and leaves `ps[i + 1]`.
pub open spec fn outcome_run<R: RateEstimate>(
    ps: Seq<SuccessRateOverTimeWindow<R>>,
    times: Seq<Instant>,
    failed: Seq<bool>,
    rs: Seq<Option<Duration>>,
) -> bool {
    &&& ps.len() == failed.len() + 1
    &&& times.len() == failed.len()
    &&& rs.len() == failed.len()
    &&& forall|i: int| 0 <= i < ps.len() ==> #[trigger] ps[i].wf()
    &&& forall|i: int|
        0 <= i < failed.len() ==> if #[trigger] failed[i] {
            ps[i].failure_spec(times[i], rs[i], &ps[i + 1])
        } else {
            ps[i].success_spec(times[i], &ps[i + 1]) && rs[i] is None
        }
}

proof fn lemma_run_sample_counts<R: RateEstimate>(
    ps: Seq<SuccessRateOverTimeWindow<R>>,
    times: Seq<Instant>,
    failed: Seq<bool>,
    rs: Seq<Option<Duration>>,
    i: int,
)
    requires
        outcome_run(ps, times, failed, rs),
        ps[0].sample_count() == 0,
        0 <= i <= failed.len(),
    ensures
        ps[i].sample_count() <= i,
        ps[i].min_samples == ps[0].min_samples,
    decreases i,
{
    if i > 0 {
        let j = i - 1;
        lemma_run_sample_counts(ps, times, failed, rs, j);
        assert(ps[j].wf());
        if failed[j] {
            assert(ps[j].failure_spec(times[j], rs[j], &ps[j + 1]));
        } else {
            assert(ps[j].success_spec(times[j], &ps[j + 1]));
        }
        lemma_counted_one_adds_at_most_one(&ps[j].samples, times[j], &ps[j + 1].samples);
    }
}

/// From a rate policy with no outcomes counted, fewer than `min_samples`
/// outcomes never trip it, whatever their mix of successes and failures.
pub proof fn lemma_no_trip_below_min_samples<R: RateEstimate>(
    ps: Seq<SuccessRateOverTimeWindow<R>>,
    times: Seq<Instant>,
    failed: Seq<bool>,
    rs: Seq<Option<Duration>>,
)
    requires
        outcome_run(ps, times, failed, rs),
        ps[0].sample_count() == 0,
        failed.len() < ps[0].min_samples,
    ensures
        forall|i: int| 0 <= i < rs.len() ==> #[trigger] rs[i] is None,
{
    assert forall|i: int| 0 <= i < rs.len() implies #[trigger] rs[i] is None by {
        lemma_run_sample_counts(ps, times, failed, rs, i + 1);
        if failed[i] {
            assert(ps[i].failure_spec(times[i], rs[i], &ps[i + 1]));
        }
    }
}

} // verus!
