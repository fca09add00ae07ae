//! The search for split boundaries over the time range of a partition.
//!
//! The range is walked in equal steps. The step is the width of the range
//! scaled by the ratio of the target file size to the total size, rounded up.
//! A step's end becomes a boundary when some chunk has data in that step.

use vstd::prelude::*;
use crate::builder::CompactPlanBuilder;
use crate::time_range::{range_present, TimestampMinMax};

verus! {

/// The quotient of `a` by `b`, rounded up.
pub open spec fn ceil_div(a: int, b: int) -> int {
    if a % b == 0 {
        a / b
    } else {
        a / b + 1
    }
}

/// The distance between two candidate boundaries: the width of
/// `[min_time, max_time]` times `max_desired_file_size / total_size`,
/// rounded up.
pub open spec fn split_step(
    min_time: i64,
    max_time: i64,
    total_size: u64,
    max_desired_file_size: u64,
) -> int {
    ceil_div((max_time - min_time) * max_desired_file_size, total_size as int)
}

/// The boundaries found from `cursor` on: each candidate `cursor + step`
/// below `max_time` is kept when `[cursor, cursor + step]` holds data, and
/// the walk goes on from the candidate either way.
pub open spec fn splits_from(
    chunks: Seq<TimestampMinMax>,
    cursor: i64,
    step: int,
    max_time: i64,
) -> Seq<i64>
    decreases max_time - cursor,
{
    if step <= 0 || cursor + step >= max_time {
        Seq::empty()
    } else {
        let candidate = (cursor + step) as i64;
        let rest = splits_from(chunks, candidate, step, max_time);
        if range_present(chunks, cursor, candidate) {
            seq![candidate] + rest
        } else {
            rest
        }
    }
}

/// Whether the inputs ask for no split at all: the data fits one file, or
/// the time range is a single instant.
pub open spec fn no_split_needed(
    min_time: i64,
    max_time: i64,
    total_size: u64,
    max_desired_file_size: u64,
) -> bool {
    total_size <= max_desired_file_size || min_time == max_time
}

/// The split times of a partition: `max_time` alone where no split is
/// needed, else the boundaries found from `min_time` on.
pub open spec fn split_times(
    chunks: Seq<TimestampMinMax>,
    min_time: i64,
    max_time: i64,
    total_size: u64,
    max_desired_file_size: u64,
) -> Seq<i64> {
    if no_split_needed(min_time, max_time, total_size, max_desired_file_size) {
        seq![max_time]
    } else {
        splits_from(
            chunks,
            min_time,
            split_step(min_time, max_time, total_size, max_desired_file_size),
            max_time,
        )
    }
}

/// Whether the boundary search is defined on these inputs: the range is in
/// order, and where a split is needed the target size is positive, so that
/// the step is.
pub open spec fn split_inputs_ok(
    min_time: i64,
    max_time: i64,
    total_size: u64,
    max_desired_file_size: u64,
) -> bool {
    &&& min_time <= max_time
    &&& no_split_needed(min_time, max_time, total_size, max_desired_file_size)
        || max_desired_file_size > 0
}

/// Whether `times` is strictly increasing.
pub open spec fn strictly_increasing(times: Seq<i64>) -> bool {
    forall|i: int, j: int| 0 <= i < j < times.len() ==> times[i] < times[j]
}

/// Whether every element of `times` lies in `(lo, hi)`.
pub open spec fn strictly_between(times: Seq<i64>, lo: i64, hi: i64) -> bool {
    forall|i: int| 0 <= i < times.len() ==> lo < #[trigger] times[i] < hi
}

/// `ceil_div(a, b)` is the least integer whose product with `b` reaches `a`.
pub proof fn lemma_ceil_div_is_ceiling(a: int, b: int)
    requires
        0 <= a,
        0 < b,
    ensures
        (ceil_div(a, b) - 1) * b < a <= ceil_div(a, b) * b,
        a > 0 ==> ceil_div(a, b) >= 1,
        a == 0 ==> ceil_div(a, b) == 0,
{
    let q = a / b;
    let r = a % b;
    assert(a == b * q + r && 0 <= r < b) by (nonlinear_arith)
        requires
            0 <= a,
            0 < b,
            q == a / b,
            r == a % b,
    ;
    assert((q - 1) * b == q * b - b && (q + 1) * b == q * b + b && q * b == b * q)
        by (nonlinear_arith);
    if a > 0 && r == 0 {
        assert(q >= 1) by (nonlinear_arith)
            requires
                b * q >= 1,
                b > 0,
        ;
    }
    if r != 0 {
        assert(q >= 0) by (nonlinear_arith)
            requires
                b * q + b > 0,
                b > 0,
        ;
    }
    if a == 0 {
        assert(q == 0) by (nonlinear_arith)
            requires
                b * q + r == 0,
                0 <= r < b,
        ;
    }
}

/// Where a split is needed and the target size is positive, the step is at
/// least one and at most the width of the range.
pub proof fn lemma_split_step_bounds(
    min_time: i64,
    max_time: i64,
    total_size: u64,
    max_desired_file_size: u64,
)
    requires
        min_time < max_time,
        0 < max_desired_file_size < total_size,
    ensures
        1 <= split_step(min_time, max_time, total_size, max_desired_file_size) <= max_time
            - min_time,
{
    let width = max_time - min_time;
    let scaled = width * max_desired_file_size;
    let total = total_size as int;
    let step = ceil_div(scaled, total);
    assert(1 <= scaled && scaled + width <= width * total) by (nonlinear_arith)
        requires
            1 <= width,
            1 <= max_desired_file_size < total,
            scaled == width * max_desired_file_size,
    ;
    lemma_ceil_div_is_ceiling(scaled, total);
    assert(step <= width) by (nonlinear_arith)
        requires
            (step - 1) * total < scaled,
            scaled + width <= width * total,
            0 < total,
            1 <= width,
    ;
}

/// The boundaries found from `cursor` on are strictly increasing and lie
/// strictly between `cursor` and `max_time`.
pub proof fn lemma_splits_from_ordered(
    chunks: Seq<TimestampMinMax>,
    cursor: i64,
    step: int,
    max_time: i64,
)
    ensures
        strictly_increasing(splits_from(chunks, cursor, step, max_time)),
        strictly_between(splits_from(chunks, cursor, step, max_time), cursor, max_time),
    decreases max_time - cursor,
{
    if step <= 0 || cursor + step >= max_time {
    } else {
        let candidate = (cursor + step) as i64;
        lemma_splits_from_ordered(chunks, candidate, step, max_time);
    }
}

/// Every boundary found from `cursor` on ends a step that holds data: it
/// lies a whole number of steps above `cursor`, and some chunk overlaps the
/// step that it ends.
pub proof fn lemma_splits_from_present(
    chunks: Seq<TimestampMinMax>,
    cursor: i64,
    step: int,
    max_time: i64,
    i: int,
)
    requires
        0 <= i < splits_from(chunks, cursor, step, max_time).len(),
    ensures
        step >= 1,
        cursor <= splits_from(chunks, cursor, step, max_time)[i] - step,
        (splits_from(chunks, cursor, step, max_time)[i] - cursor) % step == 0,
        range_present(
            chunks,
            (splits_from(chunks, cursor, step, max_time)[i] - step) as i64,
            splits_from(chunks, cursor, step, max_time)[i],
        ),
    decreases max_time - cursor,
{
    if step <= 0 || cursor + step >= max_time {
    } else {
        let candidate = (cursor + step) as i64;
        let time = splits_from(chunks, cursor, step, max_time)[i];
        if range_present(chunks, cursor, candidate) && i == 0 {
            assert(time == candidate);
            vstd::arithmetic::div_mod::lemma_mod_self_0(step);
        } else {
            if range_present(chunks, cursor, candidate) {
                lemma_splits_from_present(chunks, candidate, step, max_time, i - 1);
            } else {
                lemma_splits_from_present(chunks, candidate, step, max_time, i);
            }
            vstd::arithmetic::div_mod::lemma_mod_add_multiples_vanish(time - candidate, step);
            assert(step + (time - candidate) == time - cursor);
        }
    }
}

/// No step that holds data is left out: the end of the `k`-th step from
/// `cursor`, where it lies below `max_time` and some chunk overlaps that
/// step, is one of the boundaries found from `cursor` on.
pub proof fn lemma_splits_from_complete(
    chunks: Seq<TimestampMinMax>,
    cursor: i64,
    step: int,
    max_time: i64,
    k: int,
)
    requires
        step >= 1,
        k >= 1,
        cursor + k * step < max_time,
        range_present(chunks, (cursor + (k - 1) * step) as i64, (cursor + k * step) as i64),
    ensures
        splits_from(chunks, cursor, step, max_time).contains((cursor + k * step) as i64),
    decreases k,
{
    let time = (cursor + k * step) as i64;
    let candidate = (cursor + step) as i64;
    let found = splits_from(chunks, cursor, step, max_time);
    let rest = splits_from(chunks, candidate, step, max_time);
    assert(k * step == (k - 1) * step + step && (k - 1) * step >= 0) by (nonlinear_arith)
        requires
            step >= 1,
            k >= 1,
    ;
    if k == 1 {
        assert((k - 1) * step == 0) by (nonlinear_arith)
            requires
                k == 1,
        ;
        assert(found[0] == time);
    } else {
        assert((k - 1) * step == (k - 2) * step + step) by (nonlinear_arith);
        lemma_splits_from_complete(chunks, candidate, step, max_time, k - 1);
        let at = choose|i: int| 0 <= i < rest.len() && rest[i] == time;
        if range_present(chunks, cursor, candidate) {
            assert(found[at + 1] == time);
        } else {
            assert(found[at] == time);
        }
    }
}

/// The walk from `cursor` ends: it finds fewer boundaries than there are
/// instants between `cursor` and `max_time`.
pub proof fn lemma_splits_from_len(
    chunks: Seq<TimestampMinMax>,
    cursor: i64,
    step: int,
    max_time: i64,
)
    requires
        cursor <= max_time,
    ensures
        splits_from(chunks, cursor, step, max_time).len() <= max_time - cursor,
    decreases max_time - cursor,
{
    if step <= 0 || cursor + step >= max_time {
    } else {
        lemma_splits_from_len(chunks, (cursor + step) as i64, step, max_time);
    }
}

/// Where a split is needed, every split time ends a step of the walk in
/// which some chunk has data, and the split times are strictly increasing
/// and strictly inside the time range.
pub proof fn lemma_split_times_present(
    chunks: Seq<TimestampMinMax>,
    min_time: i64,
    max_time: i64,
    total_size: u64,
    max_desired_file_size: u64,
    i: int,
)
    requires
        split_inputs_ok(min_time, max_time, total_size, max_desired_file_size),
        !no_split_needed(min_time, max_time, total_size, max_desired_file_size),
        0 <= i < split_times(
            chunks,
            min_time,
            max_time,
            total_size,
            max_desired_file_size,
        ).len(),
    ensures
        ({
            let times = split_times(
                chunks,
                min_time,
                max_time,
                total_size,
                max_desired_file_size,
            );
            let step = split_step(min_time, max_time, total_size, max_desired_file_size);
            &&& min_time <= times[i] - step
            &&& times[i] < max_time
            &&& (times[i] - min_time) % step == 0
            &&& range_present(chunks, (times[i] - step) as i64, times[i])
            &&& strictly_increasing(times)
            &&& times.len() <= max_time - min_time
        }),
{
    let step = split_step(min_time, max_time, total_size, max_desired_file_size);
    lemma_splits_from_present(chunks, min_time, step, max_time, i);
    lemma_splits_from_ordered(chunks, min_time, step, max_time);
    lemma_splits_from_len(chunks, min_time, step, max_time);
}

impl CompactPlanBuilder {
    /// Tells whether some chunk of `chunk_times` overlaps
    /// `[min_time, max_time]`.
    pub fn time_range_present(
        chunk_times: &[TimestampMinMax],
        min_time: i64,
        max_time: i64,
    ) -> (present: bool)
        ensures
            present == range_present(chunk_times@, min_time, max_time),
    {
        let mut i: usize = 0;
        while i < chunk_times.len()
            invariant
                i <= chunk_times.len(),
                forall|k: int|
                    0 <= k < i ==> !(#[trigger] chunk_times@[k]).overlaps(min_time, max_time),
            decreases chunk_times.len() - i,
        {
            let chunk: TimestampMinMax = chunk_times[i];
            if chunk.max >= min_time && chunk.min <= max_time {
                assert(chunk_times@[i as int].overlaps(min_time, max_time));
                return true;
            }
            i = i + 1;
        }
        false
    }

    /// The distance between two candidate boundaries, for inputs that need a
    /// split.
    fn step_between_splits(
        min_time: i64,
        max_time: i64,
        total_size: u64,
        max_desired_file_size: u64,
    ) -> (step: u64)
        requires
            min_time < max_time,
            0 < max_desired_file_size < total_size,
        ensures
            step == split_step(min_time, max_time, total_size, max_desired_file_size),
            1 <= step <= max_time - min_time,
    {
        let width: u128 = (max_time as i128 - min_time as i128) as u128;
        proof {
            lemma_split_step_bounds(min_time, max_time, total_size, max_desired_file_size);
            assert(width * max_desired_file_size <= u128::MAX) by (nonlinear_arith)
                requires
                    0 <= width <= 0xffff_ffff_ffff_ffff,
                    0 <= max_desired_file_size <= 0xffff_ffff_ffff_ffff,
            ;
        }
        let scaled: u128 = width * (max_desired_file_size as u128);
        let total: u128 = total_size as u128;
        let whole: u128 = scaled / total;
        if scaled % total == 0 {
            whole as u64
        } else {
            (whole + 1) as u64
        }
    }

    /// Computes the times at which the output of a compaction is split.
    ///
    /// Where the data fits one file, or the time range is a single instant,
    /// the result is `max_time` alone. Otherwise the range is walked from
    /// `min_time` in steps of `split_step`, and the end of each step that
    /// lies below `max_time` and holds data of some chunk is a boundary.
    pub fn compute_split_time(
        chunk_times: Vec<TimestampMinMax>,
        min_time: i64,
        max_time: i64,
        total_size: u64,
        max_desired_file_size: u64,
    ) -> (times: Vec<i64>)
        requires
            split_inputs_ok(min_time, max_time, total_size, max_desired_file_size),
        ensures
            times@ == split_times(
                chunk_times@,
                min_time,
                max_time,
                total_size,
                max_desired_file_size,
            ),
            no_split_needed(min_time, max_time, total_size, max_desired_file_size)
                ==> times@ == seq![max_time],
            !no_split_needed(min_time, max_time, total_size, max_desired_file_size) ==> {
                &&& strictly_increasing(times@)
                &&& strictly_between(times@, min_time, max_time)
            },
    {
        if total_size <= max_desired_file_size {
            return vec![max_time];
        }
        if min_time == max_time {
            return vec![max_time];
        }
        let step: u64 = Self::step_between_splits(
            min_time,
            max_time,
            total_size,
            max_desired_file_size,
        );
        let mut times: Vec<i64> = Vec::new();
        let mut cursor: i64 = min_time;
        loop
            invariant
                min_time <= cursor < max_time,
                1 <= step <= max_time - min_time,
                times@ + splits_from(chunk_times@, cursor, step as int, max_time) == splits_from(
                    chunk_times@,
                    min_time,
                    step as int,
                    max_time,
                ),
            ensures
                times@ == splits_from(chunk_times@, min_time, step as int, max_time),
            decreases max_time - cursor,
        {
            let candidate: i128 = cursor as i128 + step as i128;
            if candidate >= max_time as i128 {
                assert(times@ + Seq::<i64>::empty() =~= times@);
                break;
            }
            let split_time: i64 = candidate as i64;
            let ghost before = times@;
            let ghost rest = splits_from(chunk_times@, split_time, step as int, max_time);
            if Self::time_range_present(chunk_times.as_slice(), cursor, split_time) {
                times.push(split_time);
                assert(times@ + rest =~= before + (seq![split_time] + rest));
            }
            cursor = split_time;
        }
        proof {
            lemma_splits_from_ordered(chunk_times@, min_time, step as int, max_time);
        }
        times
    }
}

} // verus!
