//! The breaker's state machine: Closed, Open and HalfOpen, with the rules by
//! which calls are admitted and outcomes move it between them.
use vstd::prelude::*;

use crate::error::Error;
use crate::backoff::{exp_value, Strategy};
use crate::failure_policy::{ConsecutiveFailures, FailurePolicy};
use crate::failure_predicate::FailurePredicate;
use crate::instrument::Notice;
use crate::time::{Duration, Instant};

verus! {

/// States of the state machine.
#[derive(Clone, Copy, Debug, PartialEq, Eq, Structural)]
pub enum State {
    /// Operating normally: every call is admitted.
    Closed,
    /// Tripped: no call is admitted until the first instant after `until`.
    /// The delay it was opened for is kept.
    Open(Instant, Duration),
    /// Probing: calls are admitted, and the first outcome decides. The delay
    /// of the last open state is kept.
    HalfOpen(Duration),
}

/// The events that move the state machine.
#[derive(Clone, Copy, Debug, PartialEq, Eq, Structural)]
pub enum Event {
    /// An admission check.
    Admission,
    /// A success is recorded.
    Success,
    /// A failure is recorded.
    Failure,
}

impl State {
    /// Returns a string value for the state identifier.
    pub fn as_str(&self) -> (r: &'static str)
        ensures
            r@ == match self {
                State::Open(_, _) => "open"@,
                State::Closed => "closed"@,
                State::HalfOpen(_) => "half_open"@,
            },
    {
        match self {
            State::Open(_, _) => "open",
            State::Closed => "closed",
            State::HalfOpen(_) => "half_open",
        }
    }
}

/// The state at `now` after an admission check in `s`, whether the call is
/// admitted, and the notice due to the instrument.
pub open spec fn admission(s: State, now: Instant) -> (State, bool, Option<Notice>) {
    match s {
        State::Open(until, delay) => if now.nanos > until.nanos {
            (State::HalfOpen(delay), true, Some(Notice::HalfOpen))
        } else {
            (s, false, Some(Notice::CallRejected))
        },
        _ => (s, true, None),
    }
}

/// The state after a success is recorded in `s`.
pub open spec fn after_success(s: State) -> State {
    match s {
        State::HalfOpen(_) => State::Closed,
        _ => s,
    }
}

/// The state after a failure is recorded in `s` at `now`, where the policy,
/// if consulted, answers `r`.
pub open spec fn after_error(s: State, now: Instant, r: Option<Duration>) -> State {
    match s {
        State::Closed => match r {
            Some(d) => State::Open(now.plus_spec(d), d),
            None => State::Closed,
        },
        State::HalfOpen(prior) => {
            let d = match r {
                Some(d) => d,
                None => prior,
            };
            State::Open(now.plus_spec(d), d)
        },
        State::Open(_, _) => s,
    }
}

/// A success recorded in `s` at `now` may move the policy from `p` to
/// `after`: the policy is revived first when the success closes a half open
/// breaker.
pub open spec fn policy_after_success<P: FailurePolicy>(
    s: State,
    p: P,
    now: Instant,
    after: P,
) -> bool {
    match s {
        State::HalfOpen(_) => exists|revived: P|
            #[trigger] p.revived_spec(now, &revived) && revived.success_spec(now, &after),
        _ => p.success_spec(now, &after),
    }
}

/// The transition graph: `event` at `now` may move the breaker from `from`
/// to `to`.
pub open spec fn is_edge(from: State, event: Event, now: Instant, to: State) -> bool {
    match (from, event) {
        (State::Closed, Event::Failure) => to == State::Closed || exists|d: Duration|
            to == State::Open(now.plus_spec(d), d),
        (State::Closed, _) => to == State::Closed,
        (State::Open(until, delay), Event::Admission) => if now.nanos > until.nanos {
            to == State::HalfOpen(delay)
        } else {
            to == from
        },
        (State::Open(_, _), _) => to == from,
        (State::HalfOpen(_), Event::Admission) => to == from,
        (State::HalfOpen(_), Event::Success) => to == State::Closed,
        (State::HalfOpen(_), Event::Failure) => exists|d: Duration|
            to == State::Open(now.plus_spec(d), d),
    }
}

/// A circuit breaker's state together with its failure policy.
///
/// Before a call the caller asks `is_call_permitted`, and afterwards reports
/// the outcome by `on_success` or `on_error`. Each of them returns the notice
/// due to the instrument, which the caller hands on once it no longer holds
/// the state machine.
#[derive(Debug)]
pub struct StateMachine<POLICY> {
    pub state: State,
    pub failure_policy: POLICY,
}

impl<POLICY: FailurePolicy> StateMachine<POLICY> {
    pub open spec fn wf(&self) -> bool {
        self.failure_policy.wf()
    }

    /// `after` is this state machine once a success is recorded at `now`,
    /// and `notice` the notice due.
    pub open spec fn success_recorded(&self, now: Instant, after: &Self, notice: Option<Notice>) -> bool {
        &&& after.state == after_success(self.state)
        &&& policy_after_success(self.state, self.failure_policy, now, after.failure_policy)
        &&& notice == if self.state is HalfOpen { Some(Notice::Closed) } else { None::<Notice> }
    }

    /// `after` is this state machine once a failure is recorded at `now`,
    /// and `notice` the notice due: while open nothing changes; otherwise the
    /// policy is asked, and its answer decides the next state.
    pub open spec fn failure_recorded(&self, now: Instant, after: &Self, notice: Option<Notice>) -> bool {
        &&& self.state is Open ==> *after == *self
        &&& !(self.state is Open) ==> exists|answer: Option<Duration>|
            {
                &&& #[trigger] self.failure_policy.failure_spec(now, answer, &after.failure_policy)
                &&& after.state == after_error(self.state, now, answer)
            }
        &&& notice == if after.state is Open && !(self.state is Open) {
            Some(Notice::Open)
        } else {
            None::<Notice>
        }
    }

    /// Creates a closed state machine with the given failure policy; returns
    /// it with the notice due to the instrument, that the breaker is closed.
    pub fn new(failure_policy: POLICY) -> (r: (StateMachine<POLICY>, Notice))
        requires
            failure_policy.wf(),
        ensures
            r.0.wf(),
            r.0.state == State::Closed,
            r.0.failure_policy == failure_policy,
            r.1 == Notice::Closed,
    {
        (StateMachine { state: State::Closed, failure_policy }, Notice::Closed)
    }

    fn transit_to_closed(&mut self, now: Instant)
        requires
            old(self).wf(),
        ensures
            final(self).wf(),
            final(self).state == State::Closed,
            old(self).failure_policy.revived_spec(now, &final(self).failure_policy),
    {
        self.state = State::Closed;
        self.failure_policy.revived(now);
    }

    fn transit_to_half_open(&mut self, delay: Duration)
        ensures
            final(self).state == State::HalfOpen(delay),
            final(self).failure_policy == old(self).failure_policy,
    {
        self.state = State::HalfOpen(delay);
    }

    fn transit_to_open(&mut self, delay: Duration, now: Instant)
        ensures
            final(self).state == State::Open(now.plus_spec(delay), delay),
            final(self).failure_policy == old(self).failure_policy,
    {
        let until = now.plus(delay);
        self.state = State::Open(until, delay);
    }

    /// Requests permission to call at `now`: returns whether the call is
    /// admitted, and the notice due to the instrument.
    pub fn is_call_permitted(&mut self, now: Instant) -> (r: (bool, Option<Notice>))
        requires
            old(self).wf(),
        ensures
            final(self).wf(),
            (final(self).state, r.0, r.1) == admission(old(self).state, now),
            final(self).failure_policy == old(self).failure_policy,
            is_edge(old(self).state, Event::Admission, now, final(self).state),
    {
        match self.state {
            State::Closed => (true, None),
            State::HalfOpen(_) => (true, None),
            State::Open(until, delay) => {
                if now.nanos > until.nanos {
                    self.transit_to_half_open(delay);
                    (true, Some(Notice::HalfOpen))
                } else {
                    (false, Some(Notice::CallRejected))
                }
            },
        }
    }

    /// Records a successful call at `now`; returns the notice due to the
    /// instrument.
    pub fn on_success(&mut self, now: Instant) -> (r: Option<Notice>)
        requires
            old(self).wf(),
        ensures
            final(self).wf(),
            old(self).success_recorded(now, final(self), r),
            is_edge(old(self).state, Event::Success, now, final(self).state),
    {
        let ghost p0 = self.failure_policy;
        let mut notice = None;
        if let State::HalfOpen(_) = self.state {
            self.transit_to_closed(now);
            notice = Some(Notice::Closed);
        }
        let ghost p1 = self.failure_policy;
        self.failure_policy.record_success(now);
        proof {
            if old(self).state is HalfOpen {
                assert(p0.revived_spec(now, &p1) && p1.success_spec(now, &self.failure_policy));
            }
        }
        notice
    }

    /// Records a failed call at `now`; returns the notice due to the
    /// instrument.
    pub fn on_error(&mut self, now: Instant) -> (r: Option<Notice>)
        requires
            old(self).wf(),
        ensures
            final(self).wf(),
            old(self).failure_recorded(now, final(self), r),
            is_edge(old(self).state, Event::Failure, now, final(self).state),
    {
        match self.state {
            State::Closed => {
                let answer = self.failure_policy.mark_dead_on_failure(now);
                match answer {
                    Some(delay) => {
                        self.transit_to_open(delay, now);
                        Some(Notice::Open)
                    },
                    None => None,
                }
            },
            State::HalfOpen(prior) => {
                let answer = self.failure_policy.mark_dead_on_failure(now);
                let delay = match answer {
                    Some(d) => d,
                    None => prior,
                };
                self.transit_to_open(delay, now);
                Some(Notice::Open)
            },
            State::Open(_, _) => None,
        }
    }

    /// Reports the outcome of an admitted call at `now`: a success, or an
    /// error that counts as a failure when `predicate` says so and as a
    /// success otherwise. Returns what the caller gets back, the error
    /// wrapped as `Inner`, and the notice due to the instrument.
    pub fn on_result<T, E, PR>(&mut self, now: Instant, result: Result<T, E>, predicate: &PR) -> (r: (
        Result<T, Error<E>>,
        Option<Notice>,
    ))
        where
            PR: for <'a>FailurePredicate<&'a E>,
        requires
            old(self).wf(),
            forall|e: &E| #[trigger] predicate.classifies(e),
        ensures
            final(self).wf(),
            match result {
                Ok(v) => r.0 == Ok::<T, Error<E>>(v) && old(self).success_recorded(now, final(self), r.1),
                Err(e) => {
                    &&& r.0 == Err::<T, Error<E>>(Error::Inner(e))
                    &&& exists|failed: bool|
                        {
                            &&& #[trigger] predicate.judged(&e, failed)
                            &&& failed ==> old(self).failure_recorded(now, final(self), r.1)
                            &&& !failed ==> old(self).success_recorded(now, final(self), r.1)
                        }
                },
            },
    {
        match result {
            Ok(v) => {
                let notice = self.on_success(now);
                (Ok(v), notice)
            },
            Err(e) => {
                let failed = predicate.is_err(&e);
                let notice = if failed {
                    self.on_error(now)
                } else {
                    self.on_success(now)
                };
                (Err(Error::Inner(e)), notice)
            },
        }
    }
}

/// Every transition the state machine takes is an edge of the transition
/// graph, so the states it passes through form a walk on that graph.
pub proof fn lemma_transitions_are_edges(s: State, now: Instant, answer: Option<Duration>)
    ensures
        is_edge(s, Event::Admission, now, admission(s, now).0),
        is_edge(s, Event::Success, now, after_success(s)),
        is_edge(s, Event::Failure, now, after_error(s, now, answer)),
{
    match (s, answer) {
        (State::Closed, Some(d)) => {
            assert(after_error(s, now, answer) == State::Open(now.plus_spec(d), d));
        },
        (State::HalfOpen(prior), Some(d)) => {
            assert(after_error(s, now, answer) == State::Open(now.plus_spec(d), d));
        },
        (State::HalfOpen(prior), None) => {
            assert(after_error(s, now, answer) == State::Open(now.plus_spec(prior), prior));
        },
        _ => {},
    }
}

/// While open, an admission check before `until` rejects the call and asks
/// for the rejection to be reported; one after `until` admits the call and
/// moves the breaker to half open.
pub proof fn lemma_open_admission(until: Instant, delay: Duration, now: Instant)
    ensures
        now.nanos < until.nanos ==> admission(State::Open(until, delay), now) == (
        State::Open(until, delay),
        false,
        Some(Notice::CallRejected),
        ),
        now.nanos > until.nanos ==> admission(State::Open(until, delay), now) == (
        State::HalfOpen(delay),
        true,
        Some(Notice::HalfOpen),
        ),
{
}

/// From half open a success closes the breaker and revives the policy, a
/// failure opens it, and no other event moves it.
pub proof fn lemma_half_open_exits<P: FailurePolicy>(
    delay: Duration,
    now: Instant,
    answer: Option<Duration>,
    policy: P,
)
    ensures
        after_success(State::HalfOpen(delay)) == State::Closed,
        forall|after: P|
            #[trigger] policy_after_success(State::HalfOpen(delay), policy, now, after) <==> exists|
                revived: P,
            |
                #[trigger] policy.revived_spec(now, &revived) && revived.success_spec(now, &after),
        after_error(State::HalfOpen(delay), now, answer) is Open,
        admission(State::HalfOpen(delay), now).0 == State::HalfOpen(delay),
        forall|event: Event, to: State|
            #[trigger] is_edge(State::HalfOpen(delay), event, now, to) ==> {
                ||| event == Event::Admission && to == State::HalfOpen(delay)
                ||| event == Event::Success && to == State::Closed
                ||| event == Event::Failure && to is Open
            },
{
}

/// With the consecutive-failures policy on an exponential or jittered
/// schedule, a failure never opens the breaker for longer than the
/// schedule's `max`, provided the delay kept by an open or half open breaker
/// is within it too.
pub proof fn lemma_open_delay_within_max(
    m: StateMachine<ConsecutiveFailures>,
    now: Instant,
    after: StateMachine<ConsecutiveFailures>,
    notice: Option<Notice>,
)
    requires
        m.wf(),
        m.failure_recorded(now, &after, notice),
        m.failure_policy.backoff.strategy != Strategy::Constant,
        m.state is HalfOpen ==> m.state->HalfOpen_0.nanos <= m.failure_policy.backoff.max.nanos,
        m.state is Open ==> m.state->Open_1.nanos <= m.failure_policy.backoff.max.nanos,
    ensures
        after.state is Open ==> after.state->Open_1.nanos <= m.failure_policy.backoff.max.nanos,
{
    let b = m.failure_policy.backoff;
    let i = choose|i: nat| b.current == exp_value(b.start.nanos as nat, b.max.nanos as nat, i);
    assert(b.current <= b.max.nanos);
    if !(m.state is Open) {
        let answer = choose|answer: Option<Duration>|
            {
                &&& #[trigger] m.failure_policy.failure_spec(now, answer, &after.failure_policy)
                &&& after.state == after_error(m.state, now, answer)
            };
        if answer is Some {
            assert(b.step(answer->0, after.failure_policy.backoff));
        }
    }
}

} // verus!
