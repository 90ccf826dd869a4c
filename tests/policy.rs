use failsafe::backoff::{self, Strategy};
use failsafe::failure_policy::{consecutive_failures, or_else, ConsecutiveFailures};
use failsafe::{Duration, FailurePolicy, Instant};

fn secs(n: u64) -> Duration {
    Duration::from_secs(n)
}

#[test]
fn consecutive_failures_trip_on_the_required_failure() {
    let now = Instant::from_nanos(0);
    let mut policy = consecutive_failures(3, backoff::exponential(secs(5), secs(300)));
    assert_eq!(None, policy.mark_dead_on_failure(now));
    assert_eq!(None, policy.mark_dead_on_failure(now));
    assert_eq!(Some(secs(5)), policy.mark_dead_on_failure(now));
    assert_eq!(Some(secs(10)), policy.mark_dead_on_failure(now));
    assert_eq!(3, policy.consecutive);
}

#[test]
fn a_success_breaks_the_run() {
    let now = Instant::from_nanos(0);
    let mut policy = consecutive_failures(2, backoff::constant(secs(1)));
    assert_eq!(None, policy.mark_dead_on_failure(now));
    policy.record_success(now);
    assert_eq!(None, policy.mark_dead_on_failure(now));
    assert_eq!(Some(secs(1)), policy.mark_dead_on_failure(now));
}

#[test]
fn revived_restarts_the_backoff() {
    let now = Instant::from_nanos(0);
    let mut policy = consecutive_failures(1, backoff::exponential(secs(5), secs(300)));
    assert_eq!(Some(secs(5)), policy.mark_dead_on_failure(now));
    assert_eq!(Some(secs(10)), policy.mark_dead_on_failure(now));
    policy.revived(now);
    assert_eq!(0, policy.consecutive);
    assert_eq!(Some(secs(5)), policy.mark_dead_on_failure(now));
}

#[test]
fn default_consecutive_failures() {
    let policy = ConsecutiveFailures::default();
    assert_eq!(5, policy.required);
    assert_eq!(0, policy.consecutive);
    assert_eq!(Strategy::EqualJittered, policy.backoff.strategy);
    assert_eq!(secs(5), policy.backoff.start);
    assert_eq!(secs(300), policy.backoff.max);
}

#[test]
fn or_else_prefers_the_first_delay() {
    let now = Instant::from_nanos(0);
    let first = consecutive_failures(2, backoff::constant(secs(7)));
    let second = consecutive_failures(1, backoff::constant(secs(3)));
    let mut policy = or_else(first, second);
    assert_eq!(Some(secs(3)), policy.mark_dead_on_failure(now));
    assert_eq!(Some(secs(7)), policy.mark_dead_on_failure(now));
    assert_eq!(2, policy.left.consecutive);
    assert_eq!(1, policy.right.consecutive);
    policy.record_success(now);
    assert_eq!(0, policy.left.consecutive);
    assert_eq!(0, policy.right.consecutive);
    policy.mark_dead_on_failure(now);
    policy.revived(now);
    assert_eq!(0, policy.left.consecutive);
    assert_eq!(0, policy.right.consecutive);
}

#[test]
fn exponential_doubles_up_to_max() {
    let mut b = backoff::exponential(secs(5), secs(30));
    let got: Vec<u64> = (0..6).map(|_| b.next().nanos / 1_000_000_000).collect();
    assert_eq!(vec![5, 10, 20, 30, 30, 30], got);
    b.reset();
    assert_eq!(secs(5), b.next());
}

#[test]
fn exponential_start_above_max_is_clamped() {
    let mut b = backoff::exponential(secs(50), secs(30));
    assert_eq!(secs(30), b.next());
    assert_eq!(secs(30), b.next());
}

#[test]
fn constant_repeats() {
    let mut b = backoff::constant(secs(4));
    for _ in 0..5 {
        assert_eq!(secs(4), b.next());
    }
}

#[test]
fn equal_jittered_lies_in_upper_half() {
    let mut b = backoff::equal_jittered(secs(5), secs(300));
    let mut d: u64 = 5_000_000_000;
    for _ in 0..12 {
        let r = b.next().nanos;
        assert!(d / 2 <= r && r <= d, "{} not in [{}, {}]", r, d / 2, d);
        d = (d * 2).min(300_000_000_000);
    }
}

#[test]
fn full_jittered_is_drawn() {
    let mut b = backoff::full_jittered(secs(5), secs(5));
    let draws: Vec<u64> = (0..64).map(|_| b.next().nanos).collect();
    assert!(draws.iter().all(|&r| r <= 5_000_000_000));
    assert!(draws.iter().any(|&r| r != draws[0]));
}

#[test]
fn decorrelated_jittered_stays_between_start_and_max() {
    let mut b = backoff::decorrelated_jittered(secs(1), secs(20));
    let mut prev: u64 = 1_000_000_000;
    for _ in 0..32 {
        let r = b.next().nanos;
        assert!(1_000_000_000 <= r && r <= 20_000_000_000);
        assert!(r <= (prev * 3).min(20_000_000_000));
        prev = r;
    }
}

/// The plain fraction of successes, against a required rate.
#[derive(Debug)]
struct Fraction {
    successes: u32,
    total: u32,
    min_rate: f64,
}

impl failsafe::failure_policy::RateEstimate for Fraction {
    fn record(&mut self, success: bool, _now: Instant) {
        self.total += 1;
        if success {
            self.successes += 1;
        }
    }

    fn is_below_required(&self) -> bool {
        (self.successes as f64) < self.min_rate * (self.total as f64)
    }

    fn reset(&mut self, _now: Instant) {
        self.successes = 0;
        self.total = 0;
    }
}

fn rate_policy(
    now: Instant,
) -> failsafe::failure_policy::SuccessRateOverTimeWindow<Fraction> {
    let rate = Fraction { successes: 0, total: 0, min_rate: 0.5 };
    failsafe::failure_policy::success_rate_over_time_window(
        10,
        secs(10),
        rate,
        backoff::exponential(secs(5), secs(300)),
        now,
    )
}

#[test]
fn rate_policy_trips_on_failures() {
    let now = Instant::from_nanos(0);
    let mut policy = rate_policy(now);
    let mut delays = Vec::new();
    for _ in 0..10 {
        delays.extend(policy.mark_dead_on_failure(now));
    }
    delays.extend(policy.mark_dead_on_failure(now));
    assert_eq!(vec![secs(5)], delays);
    assert!(policy.tripped);
    assert_eq!(11, policy.samples.sum(now));
}

#[test]
fn rate_policy_trips_on_the_eleventh_outcome_after_mixed_ones() {
    let now = Instant::from_nanos(0);
    let mut policy = rate_policy(now);
    for _ in 0..5 {
        policy.record_success(now);
    }
    for _ in 0..5 {
        assert_eq!(None, policy.mark_dead_on_failure(now));
    }
    assert_eq!(Some(secs(5)), policy.mark_dead_on_failure(now));
}

#[test]
fn rate_policy_needs_enough_samples() {
    let now = Instant::from_nanos(0);
    let mut policy = rate_policy(now);
    for _ in 0..9 {
        assert_eq!(None, policy.mark_dead_on_failure(now));
    }
    assert!(!policy.tripped);
}

#[test]
fn rate_policy_forgets_samples_outside_the_window() {
    let mut clock = failsafe::MockClock::new();
    let mut policy = rate_policy(clock.now());
    for _ in 0..9 {
        assert_eq!(None, policy.mark_dead_on_failure(clock.now()));
    }
    clock.advance(secs(10));
    assert_eq!(None, policy.mark_dead_on_failure(clock.now()));
    assert_eq!(1, policy.samples.sum(clock.now()));
}

#[test]
fn rate_policy_revived_restarts() {
    let now = Instant::from_nanos(0);
    let mut policy = rate_policy(now);
    for _ in 0..10 {
        policy.mark_dead_on_failure(now);
    }
    assert!(policy.tripped);
    assert_eq!(None, policy.mark_dead_on_failure(now));
    policy.revived(now);
    assert!(!policy.tripped);
    assert_eq!(0, policy.samples.sum(now));
    assert_eq!(0, policy.rate.total);
    for _ in 0..9 {
        assert_eq!(None, policy.mark_dead_on_failure(now));
    }
    assert_eq!(Some(secs(5)), policy.mark_dead_on_failure(now));
}

#[test]
fn failure_given_trips_only_when_below_with_enough_samples() {
    let now = Instant::from_nanos(0);
    let mut policy = rate_policy(now);
    for _ in 0..9 {
        assert_eq!(None, policy.failure_given(true, now));
    }
    assert_eq!(None, policy.failure_given(false, now));
    assert!(!policy.tripped);
    assert_eq!(Some(secs(5)), policy.failure_given(true, now));
    assert!(policy.tripped);
    assert_eq!(None, policy.failure_given(true, now));
    assert_eq!(12, policy.samples.sum(now));
}

#[test]
fn jitter_arithmetic() {
    assert_eq!(10, backoff::doubled(5, 300));
    assert_eq!(300, backoff::doubled(160, 300));
    assert_eq!(300, backoff::doubled(300, 300));
    assert_eq!(u64::MAX, backoff::doubled(u64::MAX, u64::MAX));
    assert_eq!(2 + 3, backoff::equal_jitter(5, 3));
    assert_eq!(2, backoff::equal_jitter(5, 0));
    assert_eq!(15, backoff::decorrelated_high(2, 5));
    assert_eq!(20, backoff::decorrelated_high(20, 5));
    assert_eq!(u64::MAX, backoff::decorrelated_high(1, u64::MAX / 2));
    assert_eq!(7, backoff::saturate(7, 9));
    assert_eq!(9, backoff::saturate(70, 9));
}

#[test]
fn well_formedness_checks() {
    let now = Instant::from_nanos(0);
    let mut policy = consecutive_failures(2, backoff::exponential(secs(5), secs(300)));
    assert!(policy.is_well_formed());
    policy.mark_dead_on_failure(now);
    policy.mark_dead_on_failure(now);
    policy.mark_dead_on_failure(now);
    assert!(policy.is_well_formed());
    let mut broken = policy;
    broken.consecutive = 3;
    assert!(!broken.is_well_formed());
    let mut broken = policy;
    broken.backoff.current = 7;
    assert!(!broken.is_well_formed());

    let mut rate = rate_policy(now);
    assert!(rate.is_well_formed());
    rate.mark_dead_on_failure(now);
    assert!(rate.is_well_formed());
    rate.samples.width = 0;
    assert!(!rate.is_well_formed());
    let mut rate = rate_policy(now);
    rate.samples.slices[1] = -1;
    assert!(!rate.is_well_formed());
    let mut rate = rate_policy(now);
    rate.samples.slices[0] = i64::MAX;
    rate.samples.slices[1] = 1;
    assert!(!rate.is_well_formed());

    let both = or_else(consecutive_failures(1, backoff::constant(secs(1))), rate_policy(now));
    assert!(both.is_well_formed());
}

#[test]
fn nine_mixed_outcomes_never_trip() {
    let now = Instant::from_nanos(0);
    let mut policy = rate_policy(now);
    for i in 0..9 {
        if i % 3 == 0 {
            policy.record_success(now);
        } else {
            assert_eq!(None, policy.mark_dead_on_failure(now));
        }
    }
    assert!(!policy.tripped);
    assert_eq!(9, policy.samples.sum(now));
}
