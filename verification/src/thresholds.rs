//! The byte cutoffs that gate the compaction tiers.

use vstd::prelude::*;
use crate::builder::CompactPlanBuilder;

verus! {

/// The lower cutoff: `percentage` percent of the target size, rounded down.
pub open spec fn small_cutoff(max_desired_file_size_bytes: u64, percentage: u16) -> int {
    (max_desired_file_size_bytes * percentage) / 100
}

/// The upper cutoff: `100 + percentage` percent of the target size, rounded down.
pub open spec fn large_cutoff(max_desired_file_size_bytes: u64, percentage: u16) -> int {
    (max_desired_file_size_bytes * (100 + percentage)) / 100
}

/// Whether both cutoffs can be computed in 64 bits.
pub open spec fn cutoffs_fit(max_desired_file_size_bytes: u64, percentage: u16) -> bool {
    max_desired_file_size_bytes * (100 + percentage) <= u64::MAX
}

/// With a tolerance of at most one hundred percent, the target size lies
/// between the two cutoffs.
pub proof fn lemma_cutoffs_bracket_target(max_desired_file_size_bytes: u64, percentage: u16)
    requires
        percentage <= 100,
    ensures
        0 <= small_cutoff(max_desired_file_size_bytes, percentage) <= max_desired_file_size_bytes,
        max_desired_file_size_bytes <= large_cutoff(max_desired_file_size_bytes, percentage),
{
    let m = max_desired_file_size_bytes as int;
    let p = percentage as int;
    assert(0 <= m * p <= m * 100) by (nonlinear_arith)
        requires
            0 <= m,
            0 <= p <= 100,
    ;
    assert(m * (100 + p) >= m * 100) by (nonlinear_arith)
        requires
            0 <= m,
            0 <= p,
    ;
}

/// The two cutoffs are ordered, whatever the tolerance.
pub proof fn lemma_cutoffs_ordered(max_desired_file_size_bytes: u64, percentage: u16)
    ensures
        0 <= small_cutoff(max_desired_file_size_bytes, percentage) <= large_cutoff(
            max_desired_file_size_bytes,
            percentage,
        ),
{
    let m = max_desired_file_size_bytes as int;
    let p = percentage as int;
    assert(0 <= m * p <= m * (100 + p)) by (nonlinear_arith)
        requires
            0 <= m,
            0 <= p,
    ;
}

impl CompactPlanBuilder {
    /// Computes the small and the large cutoff for a target file size and a
    /// tolerance in percent: `percentage_max_file_size` percent of the target
    /// size, and that much above the target size, both rounded down.
    pub fn cutoff_bytes(
        max_desired_file_size_bytes: u64,
        percentage_max_file_size: u16,
    ) -> (cutoffs: (u64, u64))
        requires
            cutoffs_fit(max_desired_file_size_bytes, percentage_max_file_size),
        ensures
            cutoffs.0 == small_cutoff(max_desired_file_size_bytes, percentage_max_file_size),
            cutoffs.1 == large_cutoff(max_desired_file_size_bytes, percentage_max_file_size),
            cutoffs.0 <= cutoffs.1,
            percentage_max_file_size <= 100 ==> cutoffs.0 <= max_desired_file_size_bytes
                <= cutoffs.1,
    {
        let percentage: u64 = percentage_max_file_size as u64;
        proof {
            lemma_cutoffs_ordered(max_desired_file_size_bytes, percentage_max_file_size);
            if percentage_max_file_size <= 100 {
                lemma_cutoffs_bracket_target(max_desired_file_size_bytes, percentage_max_file_size);
            }
            assert(0 <= max_desired_file_size_bytes * percentage <= max_desired_file_size_bytes
                * (100 + percentage)) by (nonlinear_arith)
                requires
                    0 <= max_desired_file_size_bytes,
                    0 <= percentage,
            ;
        }
        (
            (max_desired_file_size_bytes * percentage) / 100,
            (max_desired_file_size_bytes * (100 + percentage)) / 100,
        )
    }
}

} // verus!
