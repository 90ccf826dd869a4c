//! A circuit breaker: it watches the outcome of calls to a dependency, stops
//! admitting calls once failures cross a policy's threshold, and probes for
//! recovery after a backoff delay.
//!
//! Time is explicit: every operation that depends on the clock takes the
//! current reading as an `Instant`. A `MockClock` provides readings that only
//! move on command.
pub mod time;
pub mod clock;
pub mod backoff;
pub mod windowed_adder;
pub mod failure_policy;
pub mod instrument;
pub mod state_machine;
pub mod error;
pub mod failure_predicate;
pub mod retry;
pub mod config;

pub use self::time::{Duration, Instant};
pub use self::clock::{freeze, MockClock};
pub use self::windowed_adder::WindowedAdder;
pub use self::failure_policy::FailurePolicy;
pub use self::instrument::{Instrument, Notice};
pub use self::state_machine::{State, StateMachine};
pub use self::config::Config;
pub use self::error::Error;
pub use self::failure_predicate::FailurePredicate;
pub use self::retry::Retry;
