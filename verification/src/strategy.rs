//! The choice between the compaction tiers.
//!
//! Input at or below the small cutoff is merged into one file. Input above
//! it and at or below the large cutoff is split in two at a fixed share of
//! the time range. Larger input is split at the boundaries that the search
//! in [`crate::split`] finds. A list of boundaries that splits nothing falls
//! back to one file.

use vstd::prelude::*;
use crate::builder::CompactPlanBuilder;
use crate::split::{no_split_needed, split_inputs_ok, split_times, strictly_increasing};
use crate::time_range::TimestampMinMax;

verus! {

/// What a compaction does with its input files.
#[derive(Clone, Debug, PartialEq, Eq)]
pub enum SplitPlan {
    /// All the data goes into one output file.
    Compact,
    /// The data is split into output files at these times.
    Split(Vec<i64>),
}

/// The mathematical value of a [`SplitPlan`].
pub enum SplitPlanView {
    /// One output file.
    Compact,
    /// Output files split at these times.
    Split(Seq<i64>),
}

impl View for SplitPlan {
    type V = SplitPlanView;

    open spec fn view(&self) -> SplitPlanView {
        match self {
            SplitPlan::Compact => SplitPlanView::Compact,
            SplitPlan::Split(times) => SplitPlanView::Split(times@),
        }
    }
}

impl SplitPlanView {
    /// A plan fits the range `[min_time, max_time]` when it has no
    /// boundaries, or its boundaries are at least one, strictly increasing,
    /// not below `min_time` and below `max_time`.
    pub open spec fn fits_range(self, min_time: i64, max_time: i64) -> bool {
        match self {
            SplitPlanView::Compact => true,
            SplitPlanView::Split(times) => {
                &&& times.len() >= 1
                &&& strictly_increasing(times)
                &&& forall|i: int|
                    0 <= i < times.len() ==> min_time <= #[trigger] times[i] < max_time
            },
        }
    }
}

/// The boundary of a split into two files: `split_percentage` percent of the
/// way from `min_time` to `max_time`, rounded down.
pub open spec fn two_way_boundary(min_time: i64, max_time: i64, split_percentage: u16) -> int {
    min_time + ((max_time - min_time) * split_percentage) / 100
}

/// Whether `times` splits anything: it is not empty and not `max_time` alone.
pub open spec fn splits_something(times: Seq<i64>, max_time: i64) -> bool {
    !(times.len() == 0 || (times.len() == 1 && times[0] == max_time))
}

/// The plan for a list of boundaries: a split at them where they split
/// something, else one file.
pub open spec fn plan_for_times(times: Seq<i64>, max_time: i64) -> SplitPlanView {
    if splits_something(times, max_time) {
        SplitPlanView::Split(times)
    } else {
        SplitPlanView::Compact
    }
}

/// The boundaries that the tiers above the small cutoff propose.
pub open spec fn proposed_times(
    chunks: Seq<TimestampMinMax>,
    min_time: i64,
    max_time: i64,
    total_size: u64,
    max_desired_file_size_bytes: u64,
    large_cutoff_bytes: u64,
    split_percentage: u16,
) -> Seq<i64> {
    if total_size <= large_cutoff_bytes {
        seq![two_way_boundary(min_time, max_time, split_percentage) as i64]
    } else {
        split_times(chunks, min_time, max_time, total_size, max_desired_file_size_bytes)
    }
}

/// The plan that the tiers select.
pub open spec fn selected_plan(
    chunks: Seq<TimestampMinMax>,
    min_time: i64,
    max_time: i64,
    total_size: u64,
    max_desired_file_size_bytes: u64,
    small_cutoff_bytes: u64,
    large_cutoff_bytes: u64,
    split_percentage: u16,
) -> SplitPlanView {
    if total_size <= small_cutoff_bytes {
        SplitPlanView::Compact
    } else {
        plan_for_times(
            proposed_times(
                chunks,
                min_time,
                max_time,
                total_size,
                max_desired_file_size_bytes,
                large_cutoff_bytes,
                split_percentage,
            ),
            max_time,
        )
    }
}

/// Whether the selection is defined on these inputs: the time range is in
/// order, the split percentage is one, and the boundary search is defined
/// where the size calls for it.
pub open spec fn selection_inputs_ok(
    min_time: i64,
    max_time: i64,
    total_size: u64,
    max_desired_file_size_bytes: u64,
    large_cutoff_bytes: u64,
    split_percentage: u16,
) -> bool {
    &&& min_time <= max_time
    &&& split_percentage <= 100
    &&& total_size > large_cutoff_bytes ==> split_inputs_ok(
        min_time,
        max_time,
        total_size,
        max_desired_file_size_bytes,
    )
}

/// The boundary of a split into two files lies within the time range, and
/// below its end unless the range is a single instant or the percentage is
/// one hundred.
pub proof fn lemma_two_way_boundary_within(min_time: i64, max_time: i64, split_percentage: u16)
    requires
        min_time <= max_time,
        split_percentage <= 100,
    ensures
        min_time <= two_way_boundary(min_time, max_time, split_percentage) <= max_time,
        min_time < max_time && split_percentage < 100 ==> two_way_boundary(
            min_time,
            max_time,
            split_percentage,
        ) < max_time,
        0 <= (max_time - min_time) * split_percentage <= (max_time - min_time) * 100,
{
    let width = max_time - min_time;
    let share = split_percentage as int;
    assert(0 <= width * share <= width * 100) by (nonlinear_arith)
        requires
            0 <= width,
            0 <= share <= 100,
    ;
    if min_time < max_time && split_percentage < 100 {
        assert(width * share <= width * 100 - width) by (nonlinear_arith)
            requires
                0 < width,
                0 <= share <= 99,
        ;
    }
}

/// The selection is a function of its inputs: two plans that both are the
/// selected plan of the same inputs are the same plan.
pub proof fn lemma_selection_deterministic(
    first: SplitPlan,
    second: SplitPlan,
    chunks: Seq<TimestampMinMax>,
    min_time: i64,
    max_time: i64,
    total_size: u64,
    max_desired_file_size_bytes: u64,
    small_cutoff_bytes: u64,
    large_cutoff_bytes: u64,
    split_percentage: u16,
)
    requires
        first@ == selected_plan(
            chunks,
            min_time,
            max_time,
            total_size,
            max_desired_file_size_bytes,
            small_cutoff_bytes,
            large_cutoff_bytes,
            split_percentage,
        ),
        second@ == selected_plan(
            chunks,
            min_time,
            max_time,
            total_size,
            max_desired_file_size_bytes,
            small_cutoff_bytes,
            large_cutoff_bytes,
            split_percentage,
        ),
    ensures
        first@ == second@,
        first is Compact <==> second is Compact,
        first is Split ==> second is Split && first->Split_0@ == second->Split_0@,
{
}

/// Input at or below the small cutoff is merged into one file, whatever the
/// chunks, the time range and the other options are.
pub proof fn lemma_small_input_is_compacted(
    chunks: Seq<TimestampMinMax>,
    min_time: i64,
    max_time: i64,
    total_size: u64,
    max_desired_file_size_bytes: u64,
    small_cutoff_bytes: u64,
    large_cutoff_bytes: u64,
    split_percentage: u16,
)
    requires
        total_size <= small_cutoff_bytes,
    ensures
        selected_plan(
            chunks,
            min_time,
            max_time,
            total_size,
            max_desired_file_size_bytes,
            small_cutoff_bytes,
            large_cutoff_bytes,
            split_percentage,
        ) == SplitPlanView::Compact,
{
}

/// Every selected plan fits the time range: its boundaries, if any, are
/// strictly increasing, not below the start of the range and below its end.
pub proof fn lemma_selected_plan_fits_range(
    chunks: Seq<TimestampMinMax>,
    min_time: i64,
    max_time: i64,
    total_size: u64,
    max_desired_file_size_bytes: u64,
    small_cutoff_bytes: u64,
    large_cutoff_bytes: u64,
    split_percentage: u16,
)
    requires
        selection_inputs_ok(
            min_time,
            max_time,
            total_size,
            max_desired_file_size_bytes,
            large_cutoff_bytes,
            split_percentage,
        ),
    ensures
        selected_plan(
            chunks,
            min_time,
            max_time,
            total_size,
            max_desired_file_size_bytes,
            small_cutoff_bytes,
            large_cutoff_bytes,
            split_percentage,
        ).fits_range(min_time, max_time),
{
    if total_size <= small_cutoff_bytes {
    } else if total_size <= large_cutoff_bytes {
        lemma_two_way_boundary_within(min_time, max_time, split_percentage);
    } else if no_split_needed(min_time, max_time, total_size, max_desired_file_size_bytes) {
    } else {
        crate::split::lemma_split_step_bounds(
            min_time,
            max_time,
            total_size,
            max_desired_file_size_bytes,
        );
        crate::split::lemma_splits_from_ordered(
            chunks,
            min_time,
            crate::split::split_step(min_time, max_time, total_size, max_desired_file_size_bytes),
            max_time,
        );
    }
}

impl CompactPlanBuilder {
    /// Turns a list of boundaries into a plan: a split at them where they
    /// split something, else one file.
    pub fn plan_for_split_times(split_times: Vec<i64>, max_time: i64) -> (plan: SplitPlan)
        ensures
            plan@ == plan_for_times(split_times@, max_time),
    {
        if split_times.len() == 0 || (split_times.len() == 1 && split_times[0] == max_time) {
            SplitPlan::Compact
        } else {
            SplitPlan::Split(split_times)
        }
    }

    /// Selects the plan for input of `total_size` bytes over the time range
    /// `[min_time, max_time]`.
    ///
    /// At or below `small_cutoff_bytes` the input is merged into one file.
    /// Above it and at or below `large_cutoff_bytes` it is split in two at
    /// `split_percentage` percent of the time range. Above that it is split
    /// at the times that [`CompactPlanBuilder::compute_split_time`] finds.
    /// Boundaries that split nothing give one file.
    pub fn select_plan(
        chunk_times: Vec<TimestampMinMax>,
        min_time: i64,
        max_time: i64,
        total_size: u64,
        max_desired_file_size_bytes: u64,
        small_cutoff_bytes: u64,
        large_cutoff_bytes: u64,
        split_percentage: u16,
    ) -> (plan: SplitPlan)
        requires
            selection_inputs_ok(
                min_time,
                max_time,
                total_size,
                max_desired_file_size_bytes,
                large_cutoff_bytes,
                split_percentage,
            ),
        ensures
            plan@ == selected_plan(
                chunk_times@,
                min_time,
                max_time,
                total_size,
                max_desired_file_size_bytes,
                small_cutoff_bytes,
                large_cutoff_bytes,
                split_percentage,
            ),
            plan@.fits_range(min_time, max_time),
            total_size <= small_cutoff_bytes ==> plan@ == SplitPlanView::Compact,
    {
        proof {
            lemma_selected_plan_fits_range(
                chunk_times@,
                min_time,
                max_time,
                total_size,
                max_desired_file_size_bytes,
                small_cutoff_bytes,
                large_cutoff_bytes,
                split_percentage,
            );
        }
        if total_size <= small_cutoff_bytes {
            return SplitPlan::Compact;
        }
        let split_times: Vec<i64> = if total_size <= large_cutoff_bytes {
            proof {
                lemma_two_way_boundary_within(min_time, max_time, split_percentage);
            }
            let width: i128 = max_time as i128 - min_time as i128;
            let offset: i128 = (width * (split_percentage as i128)) / 100;
            let boundary: i64 = (min_time as i128 + offset) as i64;
            let two_way: Vec<i64> = vec![boundary];
            assert(two_way@ =~= seq![boundary]);
            two_way
        } else {
            Self::compute_split_time(
                chunk_times,
                min_time,
                max_time,
                total_size,
                max_desired_file_size_bytes,
            )
        };
        Self::plan_for_split_times(split_times, max_time)
    }
}

} // verus!
