use failsafe::failure_predicate::All;
use failsafe::{freeze, Duration, Error, FailurePredicate, Instant, MockClock, Retry};

#[test]
fn use_func_as_failure_predicate() {
    fn is_err(err: bool) -> bool {
        err
    }

    assert!(FailurePredicate::is_err(&is_err, true));
}

#[test]
fn all_is_all() {
    assert!(All.is_err(()))
}

fn new_retry() -> Retry {
    Retry { max_attempts: 3 }
}

#[test]
fn call_success() {
    let retry = new_retry();
    let closure = || -> Result<i32, ()> { Ok(0) };
    assert_eq!(0, retry.call(closure).expect("Expect success"));
}

#[test]
fn call_retry() {
    let retry = new_retry();
    let mut counter: u32 = 0;
    let closure = || {
        if counter == 2 {
            return Ok(2);
        } else {
            counter += 1;
            Err(())
        }
    };
    assert_eq!(2, retry.call(closure).expect("Expect success"));
}

#[test]
fn call_retry_exceeds_max() {
    let retry = new_retry();
    let mut counter: u32 = 0;
    let closure = || {
        if counter == 5 {
            return Ok(5);
        } else {
            counter += 1;
            Err("fail")
        }
    };
    assert_eq!(Error::Rejected, retry.call(closure).expect_err("Expected error"));
}

#[test]
fn no_attempts_is_rejected() {
    let retry = Retry { max_attempts: 0 };
    assert_eq!(Error::Rejected, retry.call(|| Ok::<i32, ()>(1)).unwrap_err());
}

#[test]
fn mock_clock_advances_on_command() {
    let mut clock = MockClock::new();
    assert_eq!(Instant::from_nanos(0), clock.now());
    clock.advance(Duration::from_millis(1500));
    assert_eq!(1_500_000_000, clock.now().nanos);
    let seen = freeze(|time| {
        time.advance(Duration::from_secs(2));
        time.now()
    });
    assert_eq!(Instant::from_nanos(2_000_000_000), seen);
}

#[test]
fn durations_and_instants() {
    assert_eq!(3_000, Duration::from_secs(3).as_millis());
    assert_eq!(1, Duration::from_nanos(1_999_999).as_millis());
    let t = Instant::from_nanos(10);
    assert_eq!(Instant::from_nanos(15), t.plus(Duration::from_nanos(5)));
    assert_eq!(Instant::from_nanos(u64::MAX), t.plus(Duration::from_nanos(u64::MAX)));
    assert_eq!(Duration::from_nanos(4), Instant::from_nanos(14).since(t));
    assert_eq!(Duration::from_nanos(0), t.since(Instant::from_nanos(14)));
}
