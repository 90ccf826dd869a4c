use failsafe::{freeze, Duration, MockClock, WindowedAdder};

fn secs(n: u64) -> Duration {
    Duration::from_secs(n)
}

fn new_windowed_adder(time: &MockClock) -> WindowedAdder {
    WindowedAdder::new(secs(3), 3, time.now())
}

#[test]
fn sum_when_time_stands_still() {
    freeze(|time| {
        let mut adder = new_windowed_adder(time);

        adder.add(1, time.now());
        assert_eq!(1, adder.sum(time.now()));
        adder.add(1, time.now());
        assert_eq!(2, adder.sum(time.now()));
        adder.add(3, time.now());
        assert_eq!(5, adder.sum(time.now()));
    });
}

#[test]
fn sliding_over_small_window() {
    freeze(|time| {
        let mut adder = new_windowed_adder(time);

        adder.add(1, time.now());
        assert_eq!(1, adder.sum(time.now()));

        time.advance(secs(1));
        assert_eq!(1, adder.sum(time.now()));

        adder.add(2, time.now());
        assert_eq!(3, adder.sum(time.now()));

        time.advance(secs(1));
        assert_eq!(3, adder.sum(time.now()));

        time.advance(secs(1));
        assert_eq!(2, adder.sum(time.now()));

        time.advance(secs(1));
        assert_eq!(0, adder.sum(time.now()));
    })
}

#[test]
fn sliding_over_large_window() {
    freeze(|time| {
        let mut adder = WindowedAdder::new(secs(20), 10, time.now());

        for i in 0..21 {
            adder.add(i % 3, time.now());
            time.advance(secs(1));
        }

        assert_eq!(20, adder.sum(time.now()));

        time.advance(secs(1));
        assert_eq!(18, adder.sum(time.now()));

        time.advance(secs(1));
        assert_eq!(18, adder.sum(time.now()));

        time.advance(secs(5));
        assert_eq!(12, adder.sum(time.now()));
        adder.add(1, time.now());

        time.advance(secs(10));
        assert_eq!(3, adder.sum(time.now()));
    })
}

#[test]
fn sliding_window_when_slices_are_skipped() {
    freeze(|time| {
        let mut adder = new_windowed_adder(time);

        adder.add(1, time.now());
        assert_eq!(1, adder.sum(time.now()));

        time.advance(secs(1));
        adder.add(2, time.now());
        assert_eq!(3, adder.sum(time.now()));

        time.advance(secs(1));
        adder.add(1, time.now());
        assert_eq!(4, adder.sum(time.now()));

        time.advance(secs(2));
        assert_eq!(1, adder.sum(time.now()));

        time.advance(secs(100));
        assert_eq!(0, adder.sum(time.now()));

        adder.add(100, time.now());
        time.advance(secs(1));
        assert_eq!(100, adder.sum(time.now()));

        adder.add(100, time.now());
        time.advance(secs(1));

        adder.add(100, time.now());
        assert_eq!(300, adder.sum(time.now()));

        time.advance(secs(100));
        assert_eq!(0, adder.sum(time.now()));
    })
}

#[test]
fn negative_sums() {
    freeze(|time| {
        let mut adder = new_windowed_adder(time);

        // net: 2
        adder.add(-2, time.now());
        assert_eq!(-2, adder.sum(time.now()));

        adder.add(4, time.now());
        assert_eq!(2, adder.sum(time.now()));

        // net: -4
        time.advance(secs(1));
        adder.add(-2, time.now());
        assert_eq!(0, adder.sum(time.now()));

        adder.add(-2, time.now());
        assert_eq!(-2, adder.sum(time.now()));

        // net: -2
        time.advance(secs(1));
        adder.add(-2, time.now());
        assert_eq!(-4, adder.sum(time.now()));

        time.advance(secs(1));
        assert_eq!(-6, adder.sum(time.now()));

        time.advance(secs(1));
        assert_eq!(-2, adder.sum(time.now()));

        time.advance(secs(1));
        assert_eq!(0, adder.sum(time.now()));

        time.advance(secs(100));
        assert_eq!(0, adder.sum(time.now()));
    });
}

#[test]
fn sum_is_zero_once_a_whole_window_has_passed() {
    freeze(|time| {
        let mut adder = WindowedAdder::new(secs(10), 5, time.now());
        adder.add(7, time.now());
        time.advance(Duration::from_millis(4_000));
        adder.add(-3, time.now());
        assert_eq!(4, adder.sum(time.now()));
        time.advance(secs(10));
        assert_eq!(0, adder.sum(time.now()));
    });
}

#[test]
fn time_below_one_slice_keeps_the_current_slice() {
    freeze(|time| {
        let mut adder = new_windowed_adder(time);
        adder.add(5, time.now());
        time.advance(Duration::from_millis(999));
        adder.add(5, time.now());
        assert_eq!(10, adder.sum(time.now()));
        assert_eq!(0, adder.index);
        time.advance(Duration::from_millis(1));
        assert_eq!(10, adder.sum(time.now()));
        assert_eq!(1, adder.index);
    });
}

#[test]
fn a_long_gap_zeros_every_slice_once() {
    freeze(|time| {
        let mut adder = new_windowed_adder(time);
        adder.add(1, time.now());
        time.advance(secs(1));
        adder.add(2, time.now());
        time.advance(secs(30));
        assert_eq!(0, adder.sum(time.now()));
        assert_eq!(vec![0, 0, 0], adder.slices);
        adder.add(9, time.now());
        assert_eq!(9, adder.sum(time.now()));
    });
}

#[test]
fn reset_clears_every_slice() {
    freeze(|time| {
        let mut adder = new_windowed_adder(time);
        adder.add(4, time.now());
        time.advance(secs(1));
        adder.add(6, time.now());
        adder.reset(time.now());
        assert_eq!(0, adder.sum(time.now()));
        adder.add(1, time.now());
        assert_eq!(1, adder.sum(time.now()));
    });
}

#[test]
fn smallest_and_largest_slice_counts() {
    freeze(|time| {
        let adder = WindowedAdder::new(Duration::from_millis(2), 2, time.now());
        assert_eq!(2, adder.slices.len());
        assert_eq!(1, adder.width);
        let adder = WindowedAdder::new(secs(1), 10, time.now());
        assert_eq!(10, adder.slices.len());
        assert_eq!(100, adder.width);
    });
}

#[test]
fn new_starts_at_the_first_slot() {
    let adder = WindowedAdder::new(secs(3), 3, failsafe::Instant::from_nanos(9));
    assert_eq!(0, adder.index);
    assert_eq!(vec![0, 0, 0], adder.slices);
    assert_eq!(failsafe::Instant::from_nanos(9), adder.last);
}
