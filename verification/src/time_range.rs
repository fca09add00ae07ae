//! Inclusive time ranges of chunks, and the test whether a range holds data.

use vstd::prelude::*;

verus! {

/// The inclusive time range `[min, max]` covered by one chunk of data.
#[derive(Clone, Copy, Debug, PartialEq, Eq)]
pub struct TimestampMinMax {
    /// The smallest timestamp in the chunk.
    pub min: i64,
    /// The largest timestamp in the chunk.
    pub max: i64,
}

impl TimestampMinMax {
    /// A range is well formed when its ends are in order.
    pub open spec fn wf(self) -> bool {
        self.min <= self.max
    }

    /// Whether this range shares at least one instant with `[lo, hi]`.
    pub open spec fn overlaps(self, lo: i64, hi: i64) -> bool {
        self.max >= lo && self.min <= hi
    }

    /// Makes the range `[min, max]`.
    pub fn new(min: i64, max: i64) -> (range: Self)
        requires
            min <= max,
        ensures
            range.min == min,
            range.max == max,
            range.wf(),
    {
        TimestampMinMax { min, max }
    }
}

/// Whether some chunk of `chunks` overlaps the range `[lo, hi]`.
pub open spec fn range_present(chunks: Seq<TimestampMinMax>, lo: i64, hi: i64) -> bool {
    exists|i: int| 0 <= i < chunks.len() && (#[trigger] chunks[i]).overlaps(lo, hi)
}

} // verus!
