//! How many Zopfli iterations a file is worth.
//!
//! The time that Zopfli takes for a block of 64 KiB grows with the number
//! of iterations along a line: about `A * i + B` seconds for `i`
//! iterations, with `A = 0.004381402` and `B = 0.035055663`. The
//! iterations of the settings are meant for a file of sixteen such blocks,
//! which sets the time that any file may take: `T = (A * N + B) * 16` for
//! `N` configured iterations. A file of `L` bytes counts as
//! `M = (L / 65536) ^ (5/6)` blocks, a little less than it has, so that big
//! files are not starved of iterations. It gets the number of iterations
//! with which its blocks take the time `T`, which is
//! `(T - B * M) / (A * M)`, brought into the range from 1 to 20 and
//! rounded to the nearest whole number.
//!
//! That number is at least `k`, for `k` from 2 to 20, if and only if
//! `(A * (k - 1/2) + B) * M <= T`. Raised to the sixth power and cleared of
//! fractions, this is a comparison of two products of whole numbers,
//!
//! `L^5 * ((2k - 1) * a + 2 * b)^6 <= 2^110 * (N * a + b)^6`,
//!
//! with `a = A * 10^9` and `b = B * 10^9`, which is computed exactly.

use vstd::prelude::*;
use crate::natural::{less_or_equal, multiply_all, product};

verus! {

/// The maximum number of Zopfli iterations that are done on a file, no
/// matter its size.
pub const MAXIMUM_ZOPFLI_ITERATIONS: u8 = 20;

/// The slope `A` of the time of one block, in billionths.
pub const SLOPE: u32 = 4_381_402;

/// The intercept `B` of the time of one block, in billionths.
pub const INTERCEPT: u32 = 35_055_663;

/// Two to the power of twenty-two, whose fifth power scales the budget.
pub const BUDGET_SCALE: u32 = 0x40_0000;

/// Twice the time of one block with `iterations` iterations less a half,
/// in billionths.
pub open spec fn cost_factor(iterations: int) -> int {
    (2 * iterations - 1) * SLOPE + 2 * INTERCEPT
}

/// The time of one block with the configured iterations, in billionths.
pub open spec fn budget_factor(configured_iterations: u8) -> int {
    configured_iterations * SLOPE + INTERCEPT
}

/// The factors of what a file of `size` bytes costs with `iterations`
/// iterations: five times the size, six times the cost factor.
pub open spec fn cost(size: u32, iterations: int) -> Seq<u32> {
    let factor = cost_factor(iterations) as u32;
    seq![size, size, size, size, size, factor, factor, factor, factor, factor, factor]
}

/// The factors of what a file may cost: five times the scale, six times
/// the budget factor.
pub open spec fn budget(configured_iterations: u8) -> Seq<u32> {
    let factor = budget_factor(configured_iterations) as u32;
    seq![
        BUDGET_SCALE,
        BUDGET_SCALE,
        BUDGET_SCALE,
        BUDGET_SCALE,
        BUDGET_SCALE,
        factor,
        factor,
        factor,
        factor,
        factor,
        factor,
    ]
}

/// Whether a file of `size` bytes is worth at least `iterations`
/// iterations when `configured_iterations` are configured.
pub open spec fn affordable(size: u32, configured_iterations: u8, iterations: int) -> bool {
    product(cost(size, iterations)) <= product(budget(configured_iterations))
}

/// The biggest number of iterations up to `limit` that a file of `size`
/// bytes is worth, and one if it is worth no more.
pub open spec fn affordable_iterations(size: u32, configured_iterations: u8, limit: int) -> int
    decreases limit,
{
    if limit <= 1 {
        1
    } else if affordable(size, configured_iterations, limit) {
        limit
    } else {
        affordable_iterations(size, configured_iterations, limit - 1)
    }
}

/// The number of iterations that a file of `size` bytes is deflated with
/// when `configured_iterations` are configured for files of 1 MiB.
pub open spec fn estimated_iterations(size: u32, configured_iterations: u8) -> int {
    affordable_iterations(size, configured_iterations, MAXIMUM_ZOPFLI_ITERATIONS as int)
}

/// A file is worth between one and `limit` iterations.
pub proof fn lemma_affordable_iterations_range(size: u32, configured_iterations: u8, limit: int)
    requires
        1 <= limit,
    ensures
        1 <= affordable_iterations(size, configured_iterations, limit) <= limit,
    decreases limit,
{
    if limit > 1 && !affordable(size, configured_iterations, limit) {
        lemma_affordable_iterations_range(size, configured_iterations, limit - 1);
    }
}

/// Computes whether a file is worth at least `iterations` iterations.
fn affords(size: u32, configured_iterations: u8, iterations: u8) -> (afforded: bool)
    requires
        1 <= iterations <= MAXIMUM_ZOPFLI_ITERATIONS,
    ensures
        afforded == affordable(size, configured_iterations, iterations as int),
{
    let cost_factor: u32 = (2 * iterations as u32 - 1) * SLOPE + 2 * INTERCEPT;
    let budget_factor: u32 = configured_iterations as u32 * SLOPE + INTERCEPT;
    let cost_factors: [u32; 11] = [
        size,
        size,
        size,
        size,
        size,
        cost_factor,
        cost_factor,
        cost_factor,
        cost_factor,
        cost_factor,
        cost_factor,
    ];
    let budget_factors: [u32; 11] = [
        BUDGET_SCALE,
        BUDGET_SCALE,
        BUDGET_SCALE,
        BUDGET_SCALE,
        BUDGET_SCALE,
        budget_factor,
        budget_factor,
        budget_factor,
        budget_factor,
        budget_factor,
        budget_factor,
    ];
    assert(cost_factors@ =~= cost(size, iterations as int));
    assert(budget_factors@ =~= budget(configured_iterations));
    less_or_equal(multiply_all(cost_factors.as_slice()), multiply_all(budget_factors.as_slice()))
}

/// Estimates the number of iterations to deflate a file of `size` bytes
/// with, given the iterations that are configured for files of 1 MiB.
pub fn zopfli_iterations(size: u32, configured_iterations: u8) -> (iterations: u8)
    ensures
        iterations == estimated_iterations(size, configured_iterations),
        1 <= iterations <= MAXIMUM_ZOPFLI_ITERATIONS,
{
    let mut iterations: u8 = MAXIMUM_ZOPFLI_ITERATIONS;
    while iterations > 1
        invariant
            1 <= iterations <= MAXIMUM_ZOPFLI_ITERATIONS,
            affordable_iterations(size, configured_iterations, iterations as int)
                == estimated_iterations(size, configured_iterations),
        decreases iterations,
    {
        if affords(size, configured_iterations, iterations) {
            return iterations;
        }
        iterations = iterations - 1;
    }
    iterations
}

} // verus!
