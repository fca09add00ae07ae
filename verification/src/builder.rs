//! The plan builder: from the metadata of the files of a partition and the
//! planner's options to the plan of their compaction.

use vstd::prelude::*;
use crate::strategy::{selected_plan, selection_inputs_ok, SplitPlan, SplitPlanView};
use crate::thresholds::{cutoffs_fit, large_cutoff, small_cutoff};
use crate::time_range::TimestampMinMax;

verus! {

/// The stage of a file in the levels of compaction.
#[derive(Clone, Copy, Debug, PartialEq, Eq, Structural)]
pub enum CompactionLevel {
    /// Newly written data, which may overlap other files.
    Initial,
    /// Data that overlaps no other file of its level.
    FileNonOverlapped,
    /// Data that is compacted for good.
    Final,
}

/// What the planner reads of one stored data file.
#[derive(Clone, Copy, Debug, PartialEq, Eq)]
pub struct DataFile {
    /// The size of the file in bytes.
    pub file_size_bytes: i64,
    /// The smallest timestamp in the file.
    pub min_time: i64,
    /// The largest timestamp in the file.
    pub max_time: i64,
}

impl DataFile {
    /// A file is well formed when its size is not negative and its time
    /// range is in order.
    pub open spec fn wf(self) -> bool {
        self.file_size_bytes >= 0 && self.min_time <= self.max_time
    }

    /// The time range of the file.
    pub open spec fn time_range(self) -> TimestampMinMax {
        TimestampMinMax { min: self.min_time, max: self.max_time }
    }
}

/// The options of the planner.
#[derive(Clone, Copy, Debug, PartialEq, Eq)]
pub struct Config {
    /// The size that an output file should not exceed.
    pub max_desired_file_size_bytes: u64,
    /// The tolerance round the target size, in percent.
    pub percentage_max_file_size: u16,
    /// Where the boundary of a split into two files lies, in percent of the
    /// time range.
    pub split_percentage: u16,
}

/// The sum of the sizes of `files`.
pub open spec fn total_size_of(files: Seq<DataFile>) -> int
    decreases files.len(),
{
    if files.len() == 0 {
        0
    } else {
        total_size_of(files.drop_last()) + files.last().file_size_bytes
    }
}

/// Whether `time` is the smallest start of a file of `files`.
pub open spec fn is_min_time(files: Seq<DataFile>, time: i64) -> bool {
    &&& forall|i: int| 0 <= i < files.len() ==> time <= (#[trigger] files[i]).min_time
    &&& exists|i: int| 0 <= i < files.len() && time == (#[trigger] files[i]).min_time
}

/// Whether `time` is the largest end of a file of `files`.
pub open spec fn is_max_time(files: Seq<DataFile>, time: i64) -> bool {
    &&& forall|i: int| 0 <= i < files.len() ==> time >= (#[trigger] files[i]).max_time
    &&& exists|i: int| 0 <= i < files.len() && time == (#[trigger] files[i]).max_time
}

/// The smallest start of a file of `files`, which must not be empty.
pub open spec fn min_time_of(files: Seq<DataFile>) -> i64 {
    choose|time: i64| is_min_time(files, time)
}

/// The largest end of a file of `files`, which must not be empty.
pub open spec fn max_time_of(files: Seq<DataFile>) -> i64 {
    choose|time: i64| is_max_time(files, time)
}

/// The time ranges of `files`, in their order.
pub open spec fn time_ranges_of(files: Seq<DataFile>) -> Seq<TimestampMinMax> {
    Seq::new(files.len(), |i: int| files[i].time_range())
}

/// Whether every file of `files` is well formed.
pub open spec fn all_wf(files: Seq<DataFile>) -> bool {
    forall|i: int| 0 <= i < files.len() ==> (#[trigger] files[i]).wf()
}

/// Builds the compaction plan of one partition.
pub struct CompactPlanBuilder {
    files: Vec<DataFile>,
    max_desired_file_size_bytes: u64,
    percentage_max_file_size: u16,
    split_percentage: u16,
    target_level: CompactionLevel,
}

impl CompactPlanBuilder {
    /// The files to compact.
    pub closed spec fn files(&self) -> Seq<DataFile> {
        self.files@
    }

    /// The options that the builder was made with.
    pub closed spec fn config(&self) -> Config {
        Config {
            max_desired_file_size_bytes: self.max_desired_file_size_bytes,
            percentage_max_file_size: self.percentage_max_file_size,
            split_percentage: self.split_percentage,
        }
    }

    /// The level of the files that the compaction writes.
    pub closed spec fn level(&self) -> CompactionLevel {
        self.target_level
    }

    /// Whether a plan can be built: there is a file, the files are well
    /// formed, their sizes add up to a signed 64-bit number, the cutoffs fit
    /// 64 bits, and the selection is defined on the files' time range.
    pub open spec fn can_plan(&self) -> bool {
        let config = self.config();
        &&& self.files().len() >= 1
        &&& all_wf(self.files())
        &&& total_size_of(self.files()) <= i64::MAX
        &&& cutoffs_fit(config.max_desired_file_size_bytes, config.percentage_max_file_size)
        &&& selection_inputs_ok(
            min_time_of(self.files()),
            max_time_of(self.files()),
            total_size_of(self.files()) as u64,
            config.max_desired_file_size_bytes,
            large_cutoff(
                config.max_desired_file_size_bytes,
                config.percentage_max_file_size,
            ) as u64,
            config.split_percentage,
        )
    }

    /// The plan of the builder: the selected plan for the total size of the
    /// files, the ranges of the files, the range that they span, and the
    /// cutoffs of the options.
    pub open spec fn plan(&self) -> SplitPlanView {
        let config = self.config();
        selected_plan(
            time_ranges_of(self.files()),
            min_time_of(self.files()),
            max_time_of(self.files()),
            total_size_of(self.files()) as u64,
            config.max_desired_file_size_bytes,
            small_cutoff(
                config.max_desired_file_size_bytes,
                config.percentage_max_file_size,
            ) as u64,
            large_cutoff(
                config.max_desired_file_size_bytes,
                config.percentage_max_file_size,
            ) as u64,
            config.split_percentage,
        )
    }

    /// Makes a builder for the compaction of `files` to `compaction_level`
    /// under the options `config`.
    pub fn new(
        files: Vec<DataFile>,
        config: Config,
        compaction_level: CompactionLevel,
    ) -> (builder: Self)
        ensures
            builder.files() == files@,
            builder.config() == config,
            builder.level() == compaction_level,
    {
        CompactPlanBuilder {
            files,
            max_desired_file_size_bytes: config.max_desired_file_size_bytes,
            percentage_max_file_size: config.percentage_max_file_size,
            split_percentage: config.split_percentage,
            target_level: compaction_level,
        }
    }

    /// The level of the files that the compaction writes.
    pub fn target_level(&self) -> (level: CompactionLevel)
        ensures
            level == self.level(),
    {
        self.target_level
    }

    /// Adds up the sizes of `files`.
    pub fn total_file_size(files: &Vec<DataFile>) -> (total: u64)
        requires
            all_wf(files@),
            total_size_of(files@) <= i64::MAX,
        ensures
            total == total_size_of(files@),
    {
        let mut sum: u128 = 0;
        let mut i: usize = 0;
        while i < files.len()
            invariant
                i <= files.len(),
                all_wf(files@),
                sum == total_size_of(files@.take(i as int)),
                0 <= sum <= i * 0x7fff_ffff_ffff_ffff,
            decreases files.len() - i,
        {
            let file: DataFile = files[i];
            assert(file.wf());
            assert(files@.take(i + 1).drop_last() =~= files@.take(i as int));
            sum = sum + (file.file_size_bytes as u128);
            i = i + 1;
        }
        assert(files@.take(i as int) =~= files@);
        sum as u64
    }

    /// Finds the time range that `files` span: the smallest start and the
    /// largest end, over all the files.
    pub fn time_bounds(files: &Vec<DataFile>) -> (bounds: (i64, i64))
        requires
            files@.len() >= 1,
        ensures
            is_min_time(files@, bounds.0),
            is_max_time(files@, bounds.1),
            bounds.0 == min_time_of(files@),
            bounds.1 == max_time_of(files@),
            all_wf(files@) ==> bounds.0 <= bounds.1,
    {
        let mut min_time: i64 = files[0].min_time;
        let mut max_time: i64 = files[0].max_time;
        let mut i: usize = 1;
        while i < files.len()
            invariant
                1 <= i <= files.len(),
                forall|k: int| 0 <= k < i ==> min_time <= (#[trigger] files@[k]).min_time,
                forall|k: int| 0 <= k < i ==> max_time >= (#[trigger] files@[k]).max_time,
                exists|k: int| 0 <= k < i && min_time == (#[trigger] files@[k]).min_time,
                exists|k: int| 0 <= k < i && max_time == (#[trigger] files@[k]).max_time,
            decreases files.len() - i,
        {
            let file: DataFile = files[i];
            if file.min_time < min_time {
                min_time = file.min_time;
            }
            if file.max_time > max_time {
                max_time = file.max_time;
            }
            i = i + 1;
        }
        proof {
            lemma_time_bounds_unique(files@, min_time, max_time);
            if all_wf(files@) {
                let low = choose|k: int|
                    0 <= k < files@.len() && min_time == (#[trigger] files@[k]).min_time;
                assert(files@[low].wf());
            }
        }
        (min_time, max_time)
    }

    /// Lists the time ranges of `files`, in their order.
    pub fn chunk_times(files: &Vec<DataFile>) -> (times: Vec<TimestampMinMax>)
        ensures
            times@ == time_ranges_of(files@),
    {
        let mut times: Vec<TimestampMinMax> = Vec::new();
        let mut i: usize = 0;
        while i < files.len()
            invariant
                i <= files.len(),
                times@ == time_ranges_of(files@.take(i as int)),
            decreases files.len() - i,
        {
            let file: DataFile = files[i];
            times.push(TimestampMinMax { min: file.min_time, max: file.max_time });
            assert(times@ =~= time_ranges_of(files@.take(i + 1)));
            i = i + 1;
        }
        assert(files@.take(i as int) =~= files@);
        times
    }

    /// Tells whether every file of `files` is well formed.
    pub fn all_files_wf(files: &Vec<DataFile>) -> (ok: bool)
        ensures
            ok == all_wf(files@),
    {
        let mut i: usize = 0;
        while i < files.len()
            invariant
                i <= files.len(),
                forall|k: int| 0 <= k < i ==> (#[trigger] files@[k]).wf(),
            decreases files.len() - i,
        {
            let file: DataFile = files[i];
            if file.file_size_bytes < 0 || file.min_time > file.max_time {
                assert(!files@[i as int].wf());
                return false;
            }
            i = i + 1;
        }
        true
    }

    /// Tells whether the sizes of `files` add up to a signed 64-bit number.
    pub fn total_size_fits(files: &Vec<DataFile>) -> (ok: bool)
        requires
            all_wf(files@),
        ensures
            ok == (total_size_of(files@) <= i64::MAX),
    {
        let mut sum: u128 = 0;
        let mut i: usize = 0;
        while i < files.len()
            invariant
                i <= files.len(),
                all_wf(files@),
                sum == total_size_of(files@.take(i as int)),
                0 <= sum <= i * 0x7fff_ffff_ffff_ffff,
            decreases files.len() - i,
        {
            let file: DataFile = files[i];
            assert(file.wf());
            assert(files@.take(i + 1).drop_last() =~= files@.take(i as int));
            sum = sum + (file.file_size_bytes as u128);
            i = i + 1;
        }
        assert(files@.take(i as int) =~= files@);
        sum <= 0x7fff_ffff_ffff_ffff
    }

    /// Tells whether a plan can be built from this builder.
    pub fn is_plannable(&self) -> (ok: bool)
        ensures
            ok == self.can_plan(),
    {
        if self.files.len() == 0 || !Self::all_files_wf(&self.files) {
            return false;
        }
        if !Self::total_size_fits(&self.files) {
            return false;
        }
        let target: u128 = self.max_desired_file_size_bytes as u128;
        let share: u128 = 100 + (self.percentage_max_file_size as u128);
        assert(target * share <= u128::MAX) by (nonlinear_arith)
            requires
                0 <= target <= 0xffff_ffff_ffff_ffff,
                0 <= share <= 0xffff_ffff,
        ;
        let scaled: u128 = target * share;
        if scaled > 0xffff_ffff_ffff_ffff {
            return false;
        }
        let total_size: u64 = Self::total_file_size(&self.files);
        let (min_time, max_time) = Self::time_bounds(&self.files);
        let (_, large_cutoff_bytes) = Self::cutoff_bytes(
            self.max_desired_file_size_bytes,
            self.percentage_max_file_size,
        );
        if self.split_percentage > 100 {
            return false;
        }
        total_size <= large_cutoff_bytes || total_size <= self.max_desired_file_size_bytes
            || min_time == max_time || self.max_desired_file_size_bytes > 0
    }

    /// Builds the plan of the compaction: one output file, or a split at a
    /// list of times.
    ///
    /// The total size of the files is held against the two cutoffs of the
    /// options, and the plan is selected for the range that the files span.
    pub fn build_compact_plan(self) -> (plan: SplitPlan)
        requires
            self.can_plan(),
        ensures
            plan@ == self.plan(),
            plan@.fits_range(min_time_of(self.files()), max_time_of(self.files())),
            total_size_of(self.files()) <= small_cutoff(
                self.config().max_desired_file_size_bytes,
                self.config().percentage_max_file_size,
            ) ==> plan@ == SplitPlanView::Compact,
    {
        let total_size: u64 = Self::total_file_size(&self.files);
        let (min_time, max_time) = Self::time_bounds(&self.files);
        let chunk_times: Vec<TimestampMinMax> = Self::chunk_times(&self.files);
        let (small_cutoff_bytes, large_cutoff_bytes) = Self::cutoff_bytes(
            self.max_desired_file_size_bytes,
            self.percentage_max_file_size,
        );
        Self::select_plan(
            chunk_times,
            min_time,
            max_time,
            total_size,
            self.max_desired_file_size_bytes,
            small_cutoff_bytes,
            large_cutoff_bytes,
            self.split_percentage,
        )
    }
}

/// A list of files has one smallest start and one largest end: times that
/// are such are the times that `min_time_of` and `max_time_of` name.
pub proof fn lemma_time_bounds_unique(files: Seq<DataFile>, min_time: i64, max_time: i64)
    requires
        is_min_time(files, min_time),
        is_max_time(files, max_time),
    ensures
        min_time == min_time_of(files),
        max_time == max_time_of(files),
{
    let low = min_time_of(files);
    let high = max_time_of(files);
    assert(is_min_time(files, low));
    assert(is_max_time(files, high));
}

/// A plan depends on the files and the options alone: builders that agree
/// on both have the same plan.
pub proof fn lemma_plan_depends_on_inputs_only(
    first: CompactPlanBuilder,
    second: CompactPlanBuilder,
)
    requires
        first.files() == second.files(),
        first.config() == second.config(),
    ensures
        first.plan() == second.plan(),
{
}

/// A single file that is no larger than the small cutoff is compacted into
/// one file, never split.
pub proof fn lemma_single_small_file_is_compacted(builder: CompactPlanBuilder)
    requires
        builder.files().len() == 1,
        builder.files()[0].wf(),
        cutoffs_fit(
            builder.config().max_desired_file_size_bytes,
            builder.config().percentage_max_file_size,
        ),
        builder.files()[0].file_size_bytes <= small_cutoff(
            builder.config().max_desired_file_size_bytes,
            builder.config().percentage_max_file_size,
        ),
    ensures
        builder.plan() == SplitPlanView::Compact,
{
    crate::thresholds::lemma_cutoffs_ordered(
        builder.config().max_desired_file_size_bytes,
        builder.config().percentage_max_file_size,
    );
    let files = builder.files();
    assert(files.drop_last().len() == 0);
    assert(total_size_of(files.drop_last()) == 0);
    assert(total_size_of(files) == files[0].file_size_bytes);
}

} // verus!
