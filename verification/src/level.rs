//! Fixed-point heights.
//!
//! A resting height, a wave's contribution and a color channel are all
//! counted in the same unit, of which [`FULL`] make up 1.0.

use vstd::prelude::*;

verus! {

/// The number of units in a height of 1.0.
pub const FULL: u32 = 1_000_000;

/// `total` brought into the range from 0 to [`FULL`].
pub open spec fn clamp(total: int) -> int {
    if total < 0 {
        0
    } else if total > FULL {
        FULL as int
    } else {
        total
    }
}

/// The sum of a sequence of contributions.
pub open spec fn sum(heights: Seq<i64>) -> int
    decreases heights.len(),
{
    if heights.len() == 0 {
        0
    } else {
        sum(heights.drop_last()) + heights.last()
    }
}

/// Brings a total of any size into the range of a level.
pub fn clamp_total(total: i128) -> (level: u32)
    ensures
        level == clamp(total as int),
        level <= FULL,
{
    if total < 0 {
        0
    } else if total > 1_000_000 {
        FULL
    } else {
        total as u32
    }
}

} // verus!
