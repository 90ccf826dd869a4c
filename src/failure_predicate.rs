use vstd::prelude::*;

verus! {

/// Evaluates if an error should be recorded as a failure and thus increase
/// the failure rate.
pub trait FailurePredicate<E> {
    /// The predicate can be asked about `err`.
    spec fn classifies(&self, err: E) -> bool;

    /// The predicate may answer `failed` about `err`.
    spec fn judged(&self, err: E, failed: bool) -> bool;

    /// Must return `true` if the error should count as a failure, otherwise
    /// it must return `false`.
    fn is_err(&self, err: E) -> (r: bool)
        requires
            self.classifies(err),
        ensures
            self.judged(err, r),
    ;
}

impl<E, F: Fn(E) -> bool> FailurePredicate<E> for F {
    open spec fn classifies(&self, err: E) -> bool {
        self.requires((err,))
    }

    open spec fn judged(&self, err: E, failed: bool) -> bool {
        self.ensures((err,), failed)
    }

    fn is_err(&self, err: E) -> (r: bool) {
        (self)(err)
    }
}

/// Classifies all error kinds as failures.
#[derive(Clone, Copy, Debug)]
pub struct All;

impl<E> FailurePredicate<E> for All {
    open spec fn classifies(&self, err: E) -> bool {
        true
    }

    open spec fn judged(&self, err: E, failed: bool) -> bool {
        failed
    }

    fn is_err(&self, err: E) -> (r: bool) {
        true
    }
}

} // verus!
