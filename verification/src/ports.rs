//! The bounds of a range of ports.

use core::ops::RangeInclusive;
use vstd::prelude::*;
use vstd::std_specs::cmp::{PartialOrdIs, PartialOrdSpec};

verus! {

/// `RangeInclusive::start` of std: the lower bound the range was made with,
/// as long as the range has not been iterated to its end.
pub assume_specification<Idx>[ RangeInclusive::<Idx>::start ](
    range: &RangeInclusive<Idx>,
) -> (bound: &Idx)
    ensures
        !range@.exhausted ==> *bound == range@.start,
;

/// `RangeInclusive::end` of std: the upper bound the range was made with,
/// as long as the range has not been iterated to its end.
pub assume_specification<Idx>[ RangeInclusive::<Idx>::end ](range: &RangeInclusive<Idx>) -> (bound:
    &Idx)
    ensures
        !range@.exhausted ==> *bound == range@.end,
;

/// `RangeInclusive::is_empty` of std: true exactly when the range holds no
/// item, which is when it was iterated to its end or its lower bound is not
/// below or equal to its upper bound.
pub assume_specification<Idx: PartialOrd<Idx>>[ RangeInclusive::<Idx>::is_empty ](
    range: &RangeInclusive<Idx>,
) -> (empty: bool) where Idx: PartialOrd<Idx>
    ensures
        Idx::obeys_partial_cmp_spec() ==> empty == (range@.exhausted || !range@.start.is_le(
            &range@.end,
        )),
;

/// The lowest and the highest port of a range, or `None` where the range
/// holds no port.
pub fn port_bounds(range: &RangeInclusive<u16>) -> (bounds: Option<(u16, u16)>)
    ensures
        bounds is Some <==> !range@.exhausted && range@.start <= range@.end,
        bounds matches Some((low, high)) ==> low == range@.start && high == range@.end,
{
    if range.is_empty() {
        None
    } else {
        Some((*range.start(), *range.end()))
    }
}

} // verus!
