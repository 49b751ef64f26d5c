//! A wrapper that marks a value whose invariant other code upholds.
use vstd::prelude::*;

verus! {

/// Holds a value that may only be made by code that establishes the
/// invariant its owner relies on; reading it is always allowed.
#[derive(Clone, Copy, PartialEq, Eq, Debug)]
pub struct Unsafe<T>(T);

impl<T> Unsafe<T> {
    pub closed spec fn inner(&self) -> T {
        self.0
    }

    /// Wraps `value`; the caller vouches for the invariant.
    pub fn new(value: T) -> (r: Self)
        ensures
            r.inner() == value,
    {
        Unsafe(value)
    }

    /// The wrapped value.
    pub fn get(&self) -> (r: &T)
        ensures
            *r == self.inner(),
    {
        &self.0
    }
}

} // verus!
