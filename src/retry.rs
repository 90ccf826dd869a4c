use vstd::prelude::*;

use crate::error::Error;

verus! {

/// Calls a function until it succeeds, at most `max_attempts` times.
#[derive(Clone, Copy, Debug)]
pub struct Retry {
    pub max_attempts: u32,
}

/// A call of `f` may return an error.
pub open spec fn returned_error<F: FnMut() -> Result<R, E>, R, E>(f: F) -> bool {
    exists|e: E| #[trigger] call_ensures(f, (), Err::<R, E>(e))
}

/// Each of the calls `fs` returned an error.
pub open spec fn all_failed<F: FnMut() -> Result<R, E>, R, E>(fs: Seq<F>) -> bool {
    forall|i: int| 0 <= i < fs.len() ==> #[trigger] returned_error::<F, R, E>(fs[i])
}

impl Retry {
    /// Returns the first success of `f`, which came after fewer than
    /// `max_attempts` errors; or `Rejected` once `max_attempts` calls have
    /// all returned errors.
    pub fn call<F, E, R>(&self, f: F) -> (r: Result<R, Error<E>>)
        where
            F: FnMut() -> Result<R, E>,
        requires
            forall|g: F| call_requires(g, ()),
        ensures
            r is Ok ==> exists|fails: Seq<F>, g: F|
                {
                    &&& fails.len() < self.max_attempts
                    &&& #[trigger] all_failed::<F, R, E>(fails)
                    &&& #[trigger] call_ensures(g, (), Ok::<R, E>(r->Ok_0))
                },
            r is Err ==> {
                &&& r->Err_0 is Rejected
                &&& exists|fails: Seq<F>|
                    fails.len() == self.max_attempts && #[trigger] all_failed::<F, R, E>(fails)
            },
    {
        let mut f = f;
        let mut attempt: u32 = 0;
        let ghost mut fails: Seq<F> = Seq::empty();
        while attempt < self.max_attempts
            invariant
                forall|g: F| call_requires(g, ()),
                attempt <= self.max_attempts,
                fails.len() == attempt,
                all_failed::<F, R, E>(fails),
            decreases self.max_attempts - attempt,
        {
            let ghost before = f;
            let res = f();
            match res {
                Ok(ok) => {
                    assert(call_ensures(before, (), Ok::<R, E>(ok)));
                    let r: Result<R, Error<E>> = Ok(ok);
                    assert(Ok::<R, E>(r->Ok_0) == Ok::<R, E>(ok));
                    return r;
                },
                Err(e) => {
                    proof {
                        assert(call_ensures(before, (), Err::<R, E>(e)));
                        assert(returned_error::<F, R, E>(before));
                        fails = fails.push(before);
                        assert(all_failed::<F, R, E>(fails)) by {
                            assert forall|i: int| 0 <= i < fails.len() implies #[trigger] returned_error::<F, R, E>(fails[i]) by {
                                if i < fails.len() - 1 {
                                    assert(fails[i] == fails.drop_last()[i]);
                                }
                            }
                        }
                    }
                },
            }
            attempt = attempt + 1;
        }
        Err(Error::Rejected)
    }
}

} // verus!
