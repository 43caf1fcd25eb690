//! Points in time, and the windows that two optional bounds leave open.
use vstd::prelude::*;

verus! {

/// Nanoseconds since the UNIX epoch.
pub type UnixNanos = u64;

/// The later of two optional bounds; a bound that is missing does not count.
pub open spec fn later(a: Option<UnixNanos>, b: Option<UnixNanos>) -> Option<UnixNanos> {
    match (a, b) {
        (Some(x), Some(y)) => Some(if x >= y { x } else { y }),
        (Some(x), None) => Some(x),
        (None, b) => b,
    }
}

/// The earlier of two optional bounds; a bound that is missing does not count.
pub open spec fn earlier(a: Option<UnixNanos>, b: Option<UnixNanos>) -> Option<UnixNanos> {
    match (a, b) {
        (Some(x), Some(y)) => Some(if x <= y { x } else { y }),
        (Some(x), None) => Some(x),
        (None, b) => b,
    }
}

/// Whether `at` lies between two optional bounds, both taken as inside.
pub open spec fn in_window(at: int, start: Option<UnixNanos>, end: Option<UnixNanos>) -> bool {
    &&& start matches Some(s) ==> s <= at
    &&& end matches Some(e) ==> at <= e
}

/// Returns the later of two optional bounds.
pub fn max_opt(a: Option<UnixNanos>, b: Option<UnixNanos>) -> (r: Option<UnixNanos>)
    ensures
        r == later(a, b),
{
    match (a, b) {
        (Some(x), Some(y)) => if x >= y {
            Some(x)
        } else {
            Some(y)
        },
        (Some(x), None) => Some(x),
        (None, Some(y)) => Some(y),
        (None, None) => None,
    }
}

/// Returns the earlier of two optional bounds.
pub fn min_opt(a: Option<UnixNanos>, b: Option<UnixNanos>) -> (r: Option<UnixNanos>)
    ensures
        r == earlier(a, b),
{
    match (a, b) {
        (Some(x), Some(y)) => if x <= y {
            Some(x)
        } else {
            Some(y)
        },
        (Some(x), None) => Some(x),
        (None, Some(y)) => Some(y),
        (None, None) => None,
    }
}

/// The later of two starts with the earlier of two ends leaves open exactly the points
/// that both windows leave open.
pub proof fn law_window_intersection(
    at: int,
    start: Option<UnixNanos>,
    end: Option<UnixNanos>,
    other_start: Option<UnixNanos>,
    other_end: Option<UnixNanos>,
)
    ensures
        in_window(at, later(start, other_start), earlier(end, other_end)) <==> in_window(
            at,
            start,
            end,
        ) && in_window(at, other_start, other_end),
{
}

} // verus!
