//! Small extensions to std types used by drivers of the engine.

use core::ops::RangeInclusive;
use vstd::prelude::*;
use vstd::std_specs::cmp::PartialOrdSpec;

verus! {

/// Relies on `RangeInclusive::start`: it returns a reference to the lower
/// bound the range was created with.
pub assume_specification<Idx>[ RangeInclusive::<Idx>::start ](r: &RangeInclusive<Idx>) -> (s:
    &Idx)
    ensures
        *s == r@.start,
;

/// Relies on `RangeInclusive::end`: it returns a reference to the upper
/// bound the range was created with.
pub assume_specification<Idx>[ RangeInclusive::<Idx>::end ](r: &RangeInclusive<Idx>) -> (e: &Idx)
    ensures
        *e == r@.end,
;

pub trait RangeExt<T> {
    /// What `clamp` returns.
    spec fn clamp_spec(&self, t: T) -> T;

    /// Whether `clamp_spec` really describes `clamp`.
    spec fn obeys_clamp_spec() -> bool;

    /// Constrains the value to be contained within the range.
    fn clamp(&self, t: T) -> (r: T)
        ensures
            Self::obeys_clamp_spec() ==> r == self.clamp_spec(t),
    ;
}

impl<T: Copy + Ord> RangeExt<T> for RangeInclusive<T> {
    /// The value, pulled up to the range's lower bound and down to its upper
    /// bound.
    open spec fn clamp_spec(&self, t: T) -> T {
        if t.partial_cmp_spec(&self@.start) == Some(core::cmp::Ordering::Less) {
            self@.start
        } else if t.partial_cmp_spec(&self@.end) == Some(core::cmp::Ordering::Greater) {
            self@.end
        } else {
            t
        }
    }

    /// The description holds whenever the element type's comparisons obey
    /// their own specification, as the integer types' do.
    open spec fn obeys_clamp_spec() -> bool {
        T::obeys_partial_cmp_spec()
    }

    fn clamp(&self, t: T) -> (r: T) {
        if t.lt(self.start()) {
            *self.start()
        } else if t.gt(self.end()) {
            *self.end()
        } else {
            t
        }
    }
}

} // verus!
