//! Tendency scoring: a bounded popularity score for a member, computed
//! from its unique-visitor and referrer counts normalized by the
//! network-wide average of the previous day.

use vstd::prelude::*;

verus! {

/// The tendency of a member: the sum of its unique-visitor and referrer
/// counts, divided (integer division) by the network-wide daily average,
/// clamped to the closed interval [1, 10].
pub open spec fn spec_tendency(uv: int, rv: int, rank_avg: int) -> int
    recommends
        rank_avg >= 1,
{
    let raw = (uv + rv) / rank_avg;
    if raw > 10 {
        10
    } else if raw < 1 {
        1
    } else {
        raw
    }
}

/// Computes the tendency score. Counter values are never negative and the
/// rank average is kept at 1 or above, so the division is well defined and
/// the result always lands in [1, 10], however large the counts are.
pub fn tendency(uv: i64, rv: i64, rank_avg: i64) -> (tend: i64)
    requires
        0 <= uv,
        0 <= rv,
        1 <= rank_avg,
    ensures
        tend == spec_tendency(uv as int, rv as int, rank_avg as int),
        1 <= tend <= 10,
{
    let sum: u128 = uv as u128 + rv as u128;
    let raw: u128 = sum / (rank_avg as u128);
    if raw > 10 {
        10
    } else if raw < 1 {
        1
    } else {
        raw as i64
    }
}

} // verus!
