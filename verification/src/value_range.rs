//! Ranges of valid, suspicious and erroneous values of a reading.

use vstd::prelude::*;
use vstd::std_specs::cmp::{PartialOrdIs, PartialOrdSpec};
use std::ops::Range;

verus! {

/// The values of a reading that are valid, that deserve a warning, and
/// that indicate an error.
#[derive(Debug)]
pub struct ValueRange<T> {
    pub valid_range: Range<T>,
    pub warn_range: Range<T>,
    pub err_range: Range<T>,
}

impl<T: PartialOrd> ValueRange<T> {
    /// A value range made of the three ranges.
    pub fn new(valid: Range<T>, warn: Range<T>, err: Range<T>) -> (r: ValueRange<T>)
        ensures
            r.valid_range == valid,
            r.warn_range == warn,
            r.err_range == err,
    {
        ValueRange { valid_range: valid, warn_range: warn, err_range: err }
    }
}

/// Membership of a value in a collection of values.
pub trait Contains<T: PartialOrd> {
    /// Whether `v` belongs to `self`.
    fn contains_val(&self, v: &T) -> bool;
}

impl<T: PartialOrd> Contains<T> for Range<T> {
    /// A half-open range holds the values from its start (inclusive) to its
    /// end (exclusive).
    fn contains_val(&self, v: &T) -> (r: bool)
        ensures
            T::obeys_partial_cmp_spec() ==> r == (self.start.is_le(v) && self.end.is_gt(v)),
    {
        if self.start <= *v && self.end > *v {
            true
        } else {
            false
        }
    }
}

} // verus!
