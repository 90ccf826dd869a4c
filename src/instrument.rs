//! Observers of a breaker's state changes.
use vstd::prelude::*;

verus! {

/// The callback of an instrument that an operation asks for.
#[derive(Clone, Copy, Debug, PartialEq, Eq, Structural)]
pub enum Notice {
    /// `on_call_rejected`.
    CallRejected,
    /// `on_open`.
    Open,
    /// `on_half_open`.
    HalfOpen,
    /// `on_closed`.
    Closed,
}

/// Observes the state machine: told of each rejected call and each state
/// change, and gives nothing back.
pub trait Instrument {
    /// A call was rejected.
    fn on_call_rejected(&self);

    /// The breaker opened.
    fn on_open(&self);

    /// The breaker moved to half open.
    fn on_half_open(&self);

    /// The breaker closed.
    fn on_closed(&self);
}

/// The instrument that ignores everything.
impl Instrument for () {
    fn on_call_rejected(&self) {
    }

    fn on_open(&self) {
    }

    fn on_half_open(&self) {
    }

    fn on_closed(&self) {
    }
}

impl Notice {
    /// Invokes the callback of `instrument` that this notice asks for.
    pub fn notify<I: Instrument>(&self, instrument: &I) {
        match self {
            Notice::CallRejected => instrument.on_call_rejected(),
            Notice::Open => instrument.on_open(),
            Notice::HalfOpen => instrument.on_half_open(),
            Notice::Closed => instrument.on_closed(),
        }
    }
}

} // verus!
