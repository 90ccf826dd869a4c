//! A counter that forgets what was added more than a window ago.
use vstd::prelude::*;

use crate::time::{Duration, Instant, NANOS_PER_MILLI};

verus! {

/// Sum of a sequence of integers.
pub open spec fn sum_of(s: Seq<i64>) -> int
    decreases s.len(),
{
    if s.len() == 0 {
        0
    } else {
        sum_of(s.drop_last()) + s.last()
    }
}

/// Sum of the absolute values of a sequence of integers.
pub open spec fn abs_total(s: Seq<i64>) -> int
    decreases s.len(),
{
    if s.len() == 0 {
        0
    } else {
        abs_total(s.drop_last()) + abs(s.last() as int)
    }
}

pub open spec fn abs(x: int) -> int {
    if x < 0 { -x } else { x }
}

/// How many positions slot `j` lies after slot `index` on a ring of `len`
/// slots, counting `index` itself as a full turn: between 1 and `len`.
pub open spec fn ahead(index: int, len: int, j: int) -> int {
    if j > index { j - index } else { j + len - index }
}

/// The slot `k` positions after `index` on a ring of `len` slots.
pub open spec fn ring_pos(index: int, len: int, k: int) -> int {
    if index + k < len { index + k } else { index + k - len }
}

/// Time windowed counter: a ring of slices, each covering `width`
/// milliseconds, of which `index` is the current one.
#[derive(Debug)]
pub struct WindowedAdder {
    pub window: Duration,
    pub width: u64,
    pub slices: Vec<i64>,
    pub index: usize,
    pub last: Instant,
}

pub(crate) proof fn lemma_update(s: Seq<i64>, j: int, x: i64)
    requires
        0 <= j < s.len(),
    ensures
        sum_of(s.update(j, x)) == sum_of(s) - s[j] + x,
        abs_total(s.update(j, x)) == abs_total(s) - abs(s[j] as int) + abs(x as int),
    decreases s.len(),
{
    let t = s.update(j, x);
    if j == s.len() - 1 {
        assert(t.drop_last() =~= s.drop_last());
    } else {
        lemma_update(s.drop_last(), j, x);
        assert(t.drop_last() =~= s.drop_last().update(j, x));
    }
}

proof fn lemma_prefix_bounds(s: Seq<i64>, i: int)
    requires
        0 <= i <= s.len(),
    ensures
        abs(sum_of(s.subrange(0, i))) <= abs_total(s.subrange(0, i)),
        abs_total(s.subrange(0, i)) <= abs_total(s),
    decreases s.len() - i,
{
    lemma_sum_abs(s.subrange(0, i));
    if i < s.len() {
        lemma_prefix_bounds(s, i + 1);
        assert(s.subrange(0, i + 1).drop_last() =~= s.subrange(0, i));
    } else {
        assert(s.subrange(0, i) =~= s);
    }
}

proof fn lemma_sum_abs(s: Seq<i64>)
    ensures
        abs(sum_of(s)) <= abs_total(s),
        abs_total(s) >= 0,
    decreases s.len(),
{
    if s.len() > 0 {
        lemma_sum_abs(s.drop_last());
    }
}

pub(crate) proof fn lemma_sum_mono(a: Seq<i64>, b: Seq<i64>)
    requires
        a.len() == b.len(),
        forall|j: int| 0 <= j < a.len() ==> a[j] <= b[j],
    ensures
        sum_of(a) <= sum_of(b),
    decreases a.len(),
{
    if a.len() > 0 {
        lemma_sum_mono(a.drop_last(), b.drop_last());
    }
}

pub(crate) proof fn lemma_nonneg_total(s: Seq<i64>)
    requires
        forall|j: int| 0 <= j < s.len() ==> s[j] >= 0,
    ensures
        abs_total(s) == sum_of(s),
        sum_of(s) >= 0,
    decreases s.len(),
{
    if s.len() > 0 {
        lemma_nonneg_total(s.drop_last());
    }
}

proof fn lemma_all_zero(s: Seq<i64>)
    requires
        forall|j: int| 0 <= j < s.len() ==> s[j] == 0,
    ensures
        sum_of(s) == 0,
        abs_total(s) == 0,
    decreases s.len(),
{
    if s.len() > 0 {
        lemma_all_zero(s.drop_last());
    }
}

impl WindowedAdder {
    pub open spec fn wf(&self) -> bool {
        &&& 2 <= self.slices.len() <= 10
        &&& self.width > 0
        &&& self.width == self.window.nanos / NANOS_PER_MILLI / (self.slices.len() as u64)
        &&& self.index < self.slices.len()
        &&& abs_total(self.slices@) <= i64::MAX
    }

    /// The current sum of the slices.
    pub open spec fn total(&self) -> int {
        sum_of(self.slices@)
    }

    /// Whole slice widths elapsed between the last update and `now`.
    pub open spec fn elapsed_slices(&self, now: Instant) -> int {
        (now.since_spec(self.last).nanos / NANOS_PER_MILLI / self.width) as int
    }

    /// How many slots an update at `now` moves the current slot by.
    pub open spec fn advance_by(&self, now: Instant) -> int {
        let k = self.elapsed_slices(now);
        if k < self.slices.len() { k } else { self.slices.len() as int }
    }

    /// The slices once those outdated at `now` are zeroed.
    pub open spec fn expired_slices(&self, now: Instant) -> Seq<i64> {
        let m = self.advance_by(now);
        Seq::new(
            self.slices.len() as nat,
            |j: int|
                if ahead(self.index as int, self.slices.len() as int, j) <= m {
                    0
                } else {
                    self.slices@[j]
                },
        )
    }

    /// The current slot once the ring has moved on to `now`.
    pub open spec fn expired_index(&self, now: Instant) -> int {
        ring_pos(self.index as int, self.slices.len() as int, self.advance_by(now))
    }

    /// The slices after an update at `now`.
    pub open spec fn purged_slices(&self, now: Instant) -> Seq<i64> {
        if self.elapsed_slices(now) == 0 { self.slices@ } else { self.expired_slices(now) }
    }

    /// The current slot after an update at `now`.
    pub open spec fn purged_index(&self, now: Instant) -> int {
        if self.elapsed_slices(now) == 0 { self.index as int } else { self.expired_index(now) }
    }

    /// The time of the last update after an update at `now`.
    pub open spec fn purged_last(&self, now: Instant) -> Instant {
        if self.elapsed_slices(now) == 0 { self.last } else { now }
    }

    /// `after` is this counter once outdated slices have been purged at `now`.
    pub open spec fn expired_at(&self, now: Instant, after: &WindowedAdder) -> bool {
        &&& after.window == self.window
        &&& after.width == self.width
        &&& after.slices@ == self.purged_slices(now)
        &&& after.index == self.purged_index(now)
        &&& after.last == self.purged_last(now)
    }

    /// Checks the counter's invariant: between two and ten slices, a positive
    /// slice width that splits the window evenly, a current slot in range,
    /// and absolute values summing within `i64`.
    pub fn is_well_formed(&self) -> (r: bool)
        ensures
            r ==> self.wf(),
    {
        let len = self.slices.len();
        if len < 2 || len > 10 || self.width == 0 || self.index >= len {
            return false;
        }
        if self.width != self.window.as_millis() / (len as u64) {
            return false;
        }
        let mut acc: u64 = 0;
        let mut i: usize = 0;
        while i < len
            invariant
                len == self.slices.len(),
                i <= len,
                acc == abs_total(self.slices@.subrange(0, i as int)),
                acc <= i64::MAX,
            decreases len - i,
        {
            let x = self.slices[i];
            if x == i64::MIN {
                return false;
            }
            let a: u64 = if x < 0 { (-x) as u64 } else { x as u64 };
            if a > i64::MAX as u64 - acc {
                return false;
            }
            assert(self.slices@.subrange(0, i as int + 1).drop_last() =~= self.slices@.subrange(0, i as int));
            acc = acc + a;
            i = i + 1;
        }
        assert(self.slices@.subrange(0, len as int) =~= self.slices@);
        true
    }

    /// Creates a counter over `window` split into `slices` slices.
    pub fn new(window: Duration, slices: u8, now: Instant) -> (r: WindowedAdder)
        requires
            2 <= slices <= 10,
            window.nanos / NANOS_PER_MILLI >= slices,
        ensures
            r.wf(),
            r.window == window,
            r.slices.len() == slices,
            r.index == 0,
            r.total() == 0,
            abs_total(r.slices@) == 0,
            forall|j: int| 0 <= j < r.slices.len() ==> r.slices@[j] == 0,
            r.last == now,
    {
        let width = window.as_millis() / (slices as u64);
        let mut v: Vec<i64> = Vec::new();
        let mut i: u8 = 0;
        while i < slices
            invariant
                i <= slices,
                v@.len() == i,
                forall|j: int| 0 <= j < i ==> v@[j] == 0,
            decreases slices - i,
        {
            v.push(0);
            i = i + 1;
        }
        proof {
            lemma_all_zero(v@);
            assert(width > 0) by (nonlinear_arith)
                requires
                    width == window.nanos / NANOS_PER_MILLI / (slices as u64),
                    window.nanos / NANOS_PER_MILLI >= slices,
                    slices >= 2;
        }
        WindowedAdder { window, width, slices: v, index: 0, last: now }
    }

    /// Purges outdated slices: when at least one slice width has passed since
    /// the last update, moves the current slot on by the number of widths
    /// passed (at most a full turn), zeroing every slot it passes.
    pub fn expire(&mut self, now: Instant)
        requires
            old(self).wf(),
        ensures
            final(self).wf(),
            old(self).expired_at(now, final(self)),
            abs_total(final(self).slices@) <= abs_total(old(self).slices@),
    {
        let diff = now.since(self.last).as_millis();
        if diff < self.width {
            assert(diff / self.width == 0) by (nonlinear_arith)
                requires
                    diff < self.width,
                    self.width > 0,
            ;
            return;
        }
        let len = self.slices.len();
        let k = diff / self.width;
        assert(k >= 1) by (nonlinear_arith)
            requires
                diff >= self.width,
                self.width > 0,
                k == diff / self.width,
        ;
        let m: usize = if k < len as u64 { k as usize } else { len };
        let ghost old_slices = self.slices@;
        let ghost index = self.index as int;
        let mut t: usize = 1;
        while t <= m
            invariant
                self.wf(),
                1 <= t <= m + 1,
                m <= len,
                len == self.slices.len(),
                self.index == index,
                self.window == old(self).window,
                self.width == old(self).width,
                self.last == old(self).last,
                abs_total(self.slices@) <= abs_total(old_slices),
                old_slices == old(self).slices@,
                forall|j: int|
                    0 <= j < len ==> self.slices@[j] == if ahead(index, len as int, j) < t {
                        0
                    } else {
                        old_slices[j]
                    },
            decreases m + 1 - t,
        {
            let j = if self.index + t < len { self.index + t } else { self.index + t - len };
            proof {
                lemma_update(self.slices@, j as int, 0);
            }
            self.slices.set(j, 0);
            t = t + 1;
        }
        self.index = if self.index + m < len { self.index + m } else { self.index + m - len };
        self.last = now;
        assert(self.slices@ =~= old(self).expired_slices(now));
    }

    /// Zeroes every slice.
    pub fn reset(&mut self, now: Instant)
        requires
            old(self).wf(),
        ensures
            final(self).wf(),
            final(self).window == old(self).window,
            final(self).slices.len() == old(self).slices.len(),
            final(self).index == old(self).index,
            final(self).total() == 0,
            abs_total(final(self).slices@) == 0,
            forall|j: int| 0 <= j < final(self).slices.len() ==> final(self).slices@[j] == 0,
            final(self).last == now,
    {
        let len = self.slices.len();
        let mut i: usize = 0;
        while i < len
            invariant
                self.wf(),
                len == self.slices.len(),
                self.index == old(self).index,
                self.window == old(self).window,
                self.width == old(self).width,
                i <= len,
                forall|j: int| 0 <= j < i ==> self.slices@[j] == 0,
            decreases len - i,
        {
            proof {
                lemma_update(self.slices@, i as int, 0);
                lemma_sum_abs(self.slices@);
            }
            self.slices.set(i, 0);
            i = i + 1;
        }
        proof {
            lemma_all_zero(self.slices@);
        }
        self.last = now;
    }

    /// Adds `value` to the current slice, after purging outdated ones.
    pub fn add(&mut self, value: i64, now: Instant)
        requires
            old(self).wf(),
            abs_total(old(self).slices@) + abs(value as int) <= i64::MAX,
        ensures
            final(self).wf(),
            final(self).window == old(self).window,
            final(self).index == old(self).purged_index(now),
            final(self).last == old(self).purged_last(now),
            final(self).slices@ == old(self).purged_slices(now).update(
                old(self).purged_index(now),
                (old(self).purged_slices(now)[old(self).purged_index(now)] + value) as i64,
            ),
            final(self).slices@[old(self).purged_index(now)] == old(self).purged_slices(
                now,
            )[old(self).purged_index(now)] + value,
            final(self).total() == sum_of(old(self).purged_slices(now)) + value,
            abs_total(final(self).slices@) <= abs_total(old(self).slices@) + abs(value as int),
    {
        self.expire(now);
        let i = self.index;
        proof {
            lemma_update(self.slices@, i as int, 0);
            lemma_sum_abs(self.slices@.update(i as int, 0));
        }
        let x = self.slices[i] + value;
        proof {
            lemma_update(self.slices@, i as int, x);
        }
        self.slices.set(i, x);
    }

    /// Returns the sum of the slices, after purging outdated ones.
    pub fn sum(&mut self, now: Instant) -> (r: i64)
        requires
            old(self).wf(),
        ensures
            final(self).wf(),
            old(self).expired_at(now, final(self)),
            r == sum_of(old(self).purged_slices(now)),
    {
        self.expire(now);
        let len = self.slices.len();
        let mut acc: i64 = 0;
        let mut i: usize = 0;
        while i < len
            invariant
                self.wf(),
                len == self.slices.len(),
                i <= len,
                acc == sum_of(self.slices@.subrange(0, i as int)),
            decreases len - i,
        {
            proof {
                lemma_prefix_bounds(self.slices@, i as int + 1);
                assert(self.slices@.subrange(0, i as int + 1).drop_last() =~= self.slices@.subrange(0, i as int));
            }
            acc = acc + self.slices[i];
            i = i + 1;
        }
        assert(self.slices@.subrange(0, len as int) =~= self.slices@);
        acc
    }
}

/// Once a whole window has passed since a counter's last update (an update
/// that an `add` makes at the latest), its sum is zero.
pub proof fn lemma_sum_zero_after_window(a: &WindowedAdder, now: Instant)
    requires
        a.wf(),
        now.since_spec(a.last).nanos >= a.window.nanos,
    ensures
        sum_of(a.purged_slices(now)) == 0,
{
    let len = a.slices.len() as int;
    let w = (a.window.nanos / NANOS_PER_MILLI) as int;
    let d = (now.since_spec(a.last).nanos / NANOS_PER_MILLI) as int;
    let width = a.width as int;
    assert(d >= w) by (nonlinear_arith)
        requires
            now.since_spec(a.last).nanos >= a.window.nanos,
            d == now.since_spec(a.last).nanos / NANOS_PER_MILLI,
            w == a.window.nanos / NANOS_PER_MILLI,
    ;
    assert(d / width >= len) by (nonlinear_arith)
        requires
            d >= w,
            width == w / len,
            width > 0,
            len > 0,
    ;
    assert(a.elapsed_slices(now) >= len);
    let p = a.purged_slices(now);
    assert forall|j: int| 0 <= j < p.len() implies p[j] == 0 by {
        assert(ahead(a.index as int, len, j) <= len);
    }
    lemma_all_zero(p);
}

} // verus!
