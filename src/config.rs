use vstd::prelude::*;

use crate::failure_policy::{
    default_policy, is_default_policy, ConsecutiveFailures, FailurePolicy, OrElse, RateEstimate,
    SuccessRateOverTimeWindow,
};
use crate::time::Instant;
use crate::instrument::{Instrument, Notice};
use crate::state_machine::{State, StateMachine};

verus! {

/// A circuit breaker's configuration: its failure policy and its instrument.
#[derive(Debug)]
pub struct Config<POLICY, INSTRUMENT> {
    pub failure_policy: POLICY,
    pub instrument: INSTRUMENT,
}

impl Config<(), ()> {
    /// Creates the default configuration: the default failure policy, whose
    /// rate policy consults `rate` and starts its window at `now`, and the
    /// instrument that ignores everything.
    pub fn new<R: RateEstimate>(rate: R, now: Instant) -> (r: Config<
        OrElse<SuccessRateOverTimeWindow<R>, ConsecutiveFailures>,
        (),
    >)
        ensures
            r.failure_policy.wf(),
            is_default_policy(r.failure_policy, rate, now),
            r.instrument == (),
    {
        Config { failure_policy: default_policy(rate, now), instrument: () }
    }
}

impl<POLICY, INSTRUMENT> Config<POLICY, INSTRUMENT> {
    /// Configures the failure policy.
    pub fn failure_policy<T: FailurePolicy>(self, failure_policy: T) -> (r: Config<T, INSTRUMENT>)
        ensures
            r.failure_policy == failure_policy,
            r.instrument == self.instrument,
    {
        Config { failure_policy, instrument: self.instrument }
    }

    /// Configures the instrument.
    pub fn instrument<T: Instrument>(self, instrument: T) -> (r: Config<POLICY, T>)
        ensures
            r.failure_policy == self.failure_policy,
            r.instrument == instrument,
    {
        Config { failure_policy: self.failure_policy, instrument }
    }
}

impl<POLICY: FailurePolicy, INSTRUMENT: Instrument> Config<POLICY, INSTRUMENT> {
    /// Builds a closed state machine with the configured policy, and hands
    /// back the instrument that its notices go to and the notice due to it
    /// at construction.
    pub fn build(self) -> (r: (StateMachine<POLICY>, INSTRUMENT, Notice))
        requires
            self.failure_policy.wf(),
        ensures
            r.0.wf(),
            r.0.state == State::Closed,
            r.0.failure_policy == self.failure_policy,
            r.1 == self.instrument,
            r.2 == Notice::Closed,
    {
        let (machine, notice) = StateMachine::new(self.failure_policy);
        (machine, self.instrument, notice)
    }
}

} // verus!
