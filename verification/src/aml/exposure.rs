//! Exposure scoring and counterparty counting.
use vstd::prelude::*;

use crate::text::{count_distinct, distinct_count};

verus! {

/// The points for how close the path is: 40 within two hops, 20 within four, else 0.
pub open spec fn depth_points(path_depth: usize) -> int {
    if path_depth <= 2 {
        40
    } else if path_depth <= 4 {
        20
    } else {
        0
    }
}

/// Raw exposure points before capping at 100.
pub open spec fn exposure_points(
    path_depth: usize,
    touched_sanctioned: bool,
    touched_mixer: bool,
    touched_exchange: bool,
) -> int {
    depth_points(path_depth) + (if touched_sanctioned {
        50int
    } else {
        0
    }) + (if touched_mixer {
        40int
    } else {
        0
    }) + (if touched_exchange {
        20int
    } else {
        0
    })
}

/// Each signal adds its points on its own: with no signal the points are 40
/// within two hops, 20 within four and 0 beyond; a sanctioned address adds 50,
/// a mixer 40 and an exchange cash-out 20, whatever the other signals are.
pub proof fn lemma_exposure_signals_add_up(d: usize, s: bool, m: bool, e: bool)
    ensures
        exposure_points(d, false, false, false) == (if d <= 2 {
            40int
        } else if d <= 4 {
            20int
        } else {
            0int
        }),
        exposure_points(d, true, m, e) == exposure_points(d, false, m, e) + 50,
        exposure_points(d, s, true, e) == exposure_points(d, s, false, e) + 40,
        exposure_points(d, s, m, true) == exposure_points(d, s, m, false) + 20,
        0 <= exposure_points(d, s, m, e) <= 150,
{
}

/// Exposure score in 0..=100: points for a short path (40 within two hops, 20
/// within four), a sanctioned address (50), a mixer (40) and an exchange cash-out
/// (20), capped at 100.
pub fn compute_exposure_score(
    path_depth: usize,
    touched_sanctioned: bool,
    touched_mixer: bool,
    touched_exchange: bool,
) -> (score: u8)
    ensures
        score as int == if exposure_points(
            path_depth,
            touched_sanctioned,
            touched_mixer,
            touched_exchange,
        ) < 100 {
            exposure_points(path_depth, touched_sanctioned, touched_mixer, touched_exchange)
        } else {
            100
        },
{
    let mut score = 0u8;
    if path_depth <= 2 {
        score += 40;
    } else if path_depth <= 4 {
        score += 20;
    }
    if touched_sanctioned {
        score += 50;
    }
    if touched_mixer {
        score += 40;
    }
    if touched_exchange {
        score += 20;
    }
    if score < 100 {
        score
    } else {
        100
    }
}

/// The number of different addresses in `addresses`.
pub fn unique_counterparties(addresses: &[String]) -> (n: usize)
    ensures
        n == distinct_count(addresses@),
{
    count_distinct(addresses)
}

} // verus!
