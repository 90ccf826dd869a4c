use vstd::prelude::*;

verus! {

/// A circuit breaker's error.
#[derive(Debug, PartialEq, Eq)]
pub enum Error<E> {
    /// An error from the inner call.
    Inner(E),
    /// The call was rejected.
    Rejected,
}

} // verus!
