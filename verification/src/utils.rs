//! Utilities

use vstd::prelude::*;
use vstd::std_specs::cmp::{PartialOrdIs, PartialOrdSpec};

use core::cmp::Ordering;

verus! {

/// The value that `clamp` returns, stated over the standard comparison of `T`.
pub open spec fn clamped<T: PartialOrd>(value: T, min: T, max: T) -> T {
    if value.is_lt(&min) {
        min
    } else if value.is_gt(&max) {
        max
    } else {
        value
    }
}

/// Clamp a value to the given range
pub fn clamp<T>(value: T, min: T, max: T) -> (r: T) where T: PartialOrd
    ensures
        r == min || r == max || r == value,
        T::obeys_partial_cmp_spec() ==> r == clamped(value, min, max),
{
    if value < min {
        min
    } else if value > max {
        max
    } else {
        value
    }
}

/// The comparison of `T` orders `a` and `b` as a total order does: each
/// compares equal to itself, and comparing them the other way round gives the
/// reverse ordering.
pub open spec fn totally_ordered<T: PartialOrd>(a: T, b: T) -> bool {
    &&& a.partial_cmp_spec(&a) == Some(Ordering::Equal)
    &&& b.partial_cmp_spec(&b) == Some(Ordering::Equal)
    &&& (a.partial_cmp_spec(&b) == Some(Ordering::Less)) == (b.partial_cmp_spec(&a) == Some(
        Ordering::Greater,
    ))
    &&& (a.partial_cmp_spec(&b) == Some(Ordering::Equal)) == (b.partial_cmp_spec(&a) == Some(
        Ordering::Equal,
    ))
}

/// Clamping is idempotent: clamping a clamped value to the same range gives
/// it back, for a range whose ends are ordered (`min <= max`) by a total order.
pub proof fn law_clamp_idempotent<T: PartialOrd>(value: T, min: T, max: T)
    requires
        T::obeys_partial_cmp_spec(),
        min.is_le(&max),
        totally_ordered(min, max),
    ensures
        clamped(clamped(value, min, max), min, max) == clamped(value, min, max),
{
}

} // verus!
