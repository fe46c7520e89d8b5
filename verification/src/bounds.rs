//! The bounds of a range as two positions.

use std::ops::Bound;
use vstd::pervasive::unreached;
use vstd::prelude::*;

verus! {

#[verifier::external_type_specification]
#[verifier::reject_recursive_types(T)]
pub struct ExBound<T>(Bound<T>);

/// The bounds that stand for a range of positions: the start is not
/// excluded, and a position follows an included end.
pub open spec fn bounds_ok(left: Bound<&usize>, right: Bound<&usize>) -> bool {
    !(left is Excluded) && (right matches Bound::Included(y) ==> *y < usize::MAX)
}

/// The first position of a range with this start.
pub open spec fn lower_of(left: Bound<&usize>) -> int {
    match left {
        Bound::Included(x) => *x as int,
        _ => 0,
    }
}

/// The position at which a range with this end stops, or `None` where it has
/// no end.
pub open spec fn upper_of(right: Bound<&usize>) -> Option<int> {
    match right {
        Bound::Included(y) => Some(*y + 1),
        Bound::Excluded(y) => Some(*y as int),
        Bound::Unbounded => None,
    }
}

/// The first position of a range and the position at which it stops.
pub fn bounds_to_usize(left: Bound<&usize>, right: Bound<&usize>) -> (range: (usize, Option<usize>))
    requires
        bounds_ok(left, right),
    ensures
        range.0 == lower_of(left),
        match range.1 {
            Some(u) => upper_of(right) == Some(u as int),
            None => upper_of(right) is None,
        },
{
    match (left, right) {
        (Bound::Included(x), Bound::Included(y)) => (*x, Some(*y + 1)),
        (Bound::Included(x), Bound::Excluded(y)) => (*x, Some(*y)),
        (Bound::Included(x), Bound::Unbounded) => (*x, None),
        (Bound::Unbounded, Bound::Unbounded) => (0, None),
        (Bound::Unbounded, Bound::Included(y)) => (0, Some(*y + 1)),
        (Bound::Unbounded, Bound::Excluded(y)) => (0, Some(*y)),
        (Bound::Excluded(_), _) => unreached(),
    }
}

/// The two positions of a range, or `None` where the bounds stand for none.
pub fn checked_bounds(left: Bound<&usize>, right: Bound<&usize>) -> (range: Option<
    (usize, Option<usize>),
>)
    ensures
        range is Some <==> bounds_ok(left, right),
        range matches Some(r) ==> r.0 == lower_of(left) && match r.1 {
            Some(u) => upper_of(right) == Some(u as int),
            None => upper_of(right) is None,
        },
{
    let start_ok = match left {
        Bound::Excluded(_) => false,
        _ => true,
    };
    let end_ok = match right {
        Bound::Included(y) => *y < usize::MAX,
        _ => true,
    };
    if start_ok && end_ok {
        Some(bounds_to_usize(left, right))
    } else {
        None
    }
}

} // verus!
