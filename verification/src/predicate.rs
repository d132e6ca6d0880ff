//! A boolean capability over values.

use vstd::prelude::*;

verus! {

/// A test over values of `T`: `holds` states the property, `test`
/// decides it.
pub trait Predicate<T> {
    spec fn holds(&self, value: T) -> bool;

    fn test(&self, value: T) -> (r: bool)
        ensures
            r == self.holds(value),
    ;
}

} // verus!
