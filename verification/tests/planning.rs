use compaction_planner::{
    CompactPlanBuilder, CompactionLevel, Config, DataFile, SplitPlan, TimestampMinMax,
};

fn file(file_size_bytes: i64, min_time: i64, max_time: i64) -> DataFile {
    DataFile {
        file_size_bytes,
        min_time,
        max_time,
    }
}

fn config(max_desired_file_size_bytes: u64, percentage: u16, split_percentage: u16) -> Config {
    Config {
        max_desired_file_size_bytes,
        percentage_max_file_size: percentage,
        split_percentage,
    }
}

fn plan_of(files: Vec<DataFile>, config: Config) -> SplitPlan {
    let builder = CompactPlanBuilder::new(files, config, CompactionLevel::FileNonOverlapped);
    assert!(builder.is_plannable());
    builder.build_compact_plan()
}

#[test]
fn plan_for_split_times_falls_back_to_one_file() {
    assert_eq!(
        CompactPlanBuilder::plan_for_split_times(Vec::new(), 10),
        SplitPlan::Compact
    );
    assert_eq!(
        CompactPlanBuilder::plan_for_split_times(vec![10], 10),
        SplitPlan::Compact
    );
}

#[test]
fn plan_for_split_times_keeps_real_boundaries() {
    assert_eq!(
        CompactPlanBuilder::plan_for_split_times(vec![9], 10),
        SplitPlan::Split(vec![9])
    );
    assert_eq!(
        CompactPlanBuilder::plan_for_split_times(vec![3, 10], 10),
        SplitPlan::Split(vec![3, 10])
    );
    assert_eq!(
        CompactPlanBuilder::plan_for_split_times(vec![2, 4, 6], 10),
        SplitPlan::Split(vec![2, 4, 6])
    );
}

#[test]
fn select_plan_compacts_at_or_below_the_small_cutoff() {
    let chunks = vec![TimestampMinMax { min: 1, max: 101 }];
    let plan = CompactPlanBuilder::select_plan(chunks.clone(), 1, 101, 30, 100, 30, 130, 80);
    assert_eq!(plan, SplitPlan::Compact);
    let plan = CompactPlanBuilder::select_plan(chunks, 1, 101, 1, 100, 30, 130, 80);
    assert_eq!(plan, SplitPlan::Compact);
}

#[test]
fn select_plan_splits_in_two_between_the_cutoffs() {
    let chunks = vec![TimestampMinMax { min: 1, max: 101 }];
    // 1 + (100 * 80) / 100 = 81
    let plan = CompactPlanBuilder::select_plan(chunks.clone(), 1, 101, 31, 100, 30, 130, 80);
    assert_eq!(plan, SplitPlan::Split(vec![81]));
    let plan = CompactPlanBuilder::select_plan(chunks.clone(), 1, 101, 130, 100, 30, 130, 80);
    assert_eq!(plan, SplitPlan::Split(vec![81]));
    // 1 + (100 * 0) / 100 = 1
    let plan = CompactPlanBuilder::select_plan(chunks, 1, 101, 130, 100, 30, 130, 0);
    assert_eq!(plan, SplitPlan::Split(vec![1]));
}

#[test]
fn select_plan_two_way_boundary_is_rounded_down() {
    // 0 + (7 * 50) / 100 = 3
    let plan = CompactPlanBuilder::select_plan(Vec::new(), 0, 7, 100, 100, 30, 130, 50);
    assert_eq!(plan, SplitPlan::Split(vec![3]));
    // -7 + (7 * 50) / 100 = -4
    let plan = CompactPlanBuilder::select_plan(Vec::new(), -7, 0, 100, 100, 30, 130, 50);
    assert_eq!(plan, SplitPlan::Split(vec![-4]));
}

#[test]
fn select_plan_two_way_split_ignores_gaps() {
    let chunks = vec![
        TimestampMinMax { min: 1, max: 10 },
        TimestampMinMax { min: 90, max: 101 },
    ];
    let plan = CompactPlanBuilder::select_plan(chunks, 1, 101, 100, 100, 30, 130, 50);
    assert_eq!(plan, SplitPlan::Split(vec![51]));
}

#[test]
fn select_plan_two_way_split_at_the_end_falls_back() {
    let chunks = vec![TimestampMinMax { min: 1, max: 101 }];
    let plan = CompactPlanBuilder::select_plan(chunks.clone(), 1, 101, 100, 100, 30, 130, 100);
    assert_eq!(plan, SplitPlan::Compact);
    let plan = CompactPlanBuilder::select_plan(chunks, 5, 5, 100, 100, 30, 130, 40);
    assert_eq!(plan, SplitPlan::Compact);
}

#[test]
fn select_plan_searches_boundaries_above_the_large_cutoff() {
    let chunks = vec![TimestampMinMax { min: 1, max: 11 }];
    // step = ceil(10 * 100 / 250) = 4
    let plan = CompactPlanBuilder::select_plan(chunks, 1, 11, 250, 100, 30, 130, 80);
    assert_eq!(plan, SplitPlan::Split(vec![5, 9]));
}

#[test]
fn select_plan_falls_back_when_the_search_finds_nothing() {
    // a single instant: the search returns the end of the range alone
    let chunks = vec![TimestampMinMax { min: 7, max: 7 }];
    let plan = CompactPlanBuilder::select_plan(chunks, 7, 7, 1000, 100, 30, 130, 80);
    assert_eq!(plan, SplitPlan::Compact);
    // no chunk holds data: the search returns nothing
    let plan = CompactPlanBuilder::select_plan(Vec::new(), 1, 11, 1000, 100, 30, 130, 80);
    assert_eq!(plan, SplitPlan::Compact);
    // the first step already reaches the end of the range
    let chunks = vec![TimestampMinMax { min: 1, max: 2 }];
    let plan = CompactPlanBuilder::select_plan(chunks, 1, 2, 1000, 100, 30, 130, 80);
    assert_eq!(plan, SplitPlan::Compact);
}

#[test]
fn select_plan_is_idempotent() {
    let chunks = vec![
        TimestampMinMax { min: 1, max: 24 },
        TimestampMinMax { min: 75, max: 100 },
    ];
    let sizes: [u64; 5] = [10, 19, 20, 86, 200];
    for total_size in sizes {
        let first =
            CompactPlanBuilder::select_plan(chunks.clone(), 1, 100, total_size, 66, 19, 85, 30);
        let second =
            CompactPlanBuilder::select_plan(chunks.clone(), 1, 100, total_size, 66, 19, 85, 30);
        assert_eq!(first, second);
    }
    let gapped = CompactPlanBuilder::select_plan(chunks, 1, 100, 200, 66, 19, 85, 30);
    assert_eq!(gapped, SplitPlan::Split(vec![34]));
}

#[test]
fn total_file_size_adds_up() {
    assert_eq!(CompactPlanBuilder::total_file_size(&Vec::new()), 0);
    let files = vec![file(10, 0, 1), file(0, 0, 1), file(32, 5, 9)];
    assert_eq!(CompactPlanBuilder::total_file_size(&files), 42);
    let files = vec![file(i64::MAX - 1, 0, 1), file(1, 0, 1)];
    assert_eq!(CompactPlanBuilder::total_file_size(&files), i64::MAX as u64);
}

#[test]
fn time_bounds_fold_over_every_file() {
    let files = vec![file(1, 5, 9), file(1, -3, 2), file(1, 7, 40), file(1, 0, 0)];
    assert_eq!(CompactPlanBuilder::time_bounds(&files), (-3, 40));
    let files = vec![file(1, 5, 9)];
    assert_eq!(CompactPlanBuilder::time_bounds(&files), (5, 9));
    let files = vec![file(1, 5, 9), file(1, 6, 8)];
    assert_eq!(CompactPlanBuilder::time_bounds(&files), (5, 9));
    let files = vec![file(1, 6, 8), file(1, 5, 9)];
    assert_eq!(CompactPlanBuilder::time_bounds(&files), (5, 9));
}

#[test]
fn chunk_times_keep_the_order_of_the_files() {
    let files = vec![file(1, 5, 9), file(2, -3, 2)];
    assert_eq!(
        CompactPlanBuilder::chunk_times(&files),
        vec![
            TimestampMinMax { min: 5, max: 9 },
            TimestampMinMax { min: -3, max: 2 }
        ]
    );
    assert_eq!(CompactPlanBuilder::chunk_times(&Vec::new()), Vec::new());
}

#[test]
fn builder_keeps_the_target_level() {
    let builder =
        CompactPlanBuilder::new(vec![file(1, 0, 1)], config(100, 30, 80), CompactionLevel::Final);
    assert_eq!(builder.target_level(), CompactionLevel::Final);
    let builder =
        CompactPlanBuilder::new(Vec::new(), config(100, 30, 80), CompactionLevel::Initial);
    assert_eq!(builder.target_level(), CompactionLevel::Initial);
}

#[test]
fn single_small_file_is_compacted_to_one_file() {
    let sizes: [i64; 4] = [0, 1, 29, 30];
    for size in sizes {
        assert_eq!(
            plan_of(vec![file(size, 1, 1000)], config(100, 30, 80)),
            SplitPlan::Compact
        );
    }
    assert_eq!(
        plan_of(vec![file(31, 1, 1001)], config(100, 30, 80)),
        SplitPlan::Split(vec![801])
    );
}

#[test]
fn build_compact_plan_compacts_small_input() {
    let files = vec![file(10, 1, 50), file(10, 40, 90), file(10, 95, 101)];
    assert_eq!(plan_of(files, config(100, 30, 80)), SplitPlan::Compact);
}

#[test]
fn build_compact_plan_splits_medium_input_in_two() {
    let files = vec![file(40, 1, 50), file(40, 40, 90), file(40, 95, 101)];
    // total 120, cutoffs 30 and 130, range [1, 101]
    assert_eq!(
        plan_of(files, config(100, 30, 80)),
        SplitPlan::Split(vec![81])
    );
}

#[test]
fn build_compact_plan_splits_large_input_at_present_steps() {
    let files = vec![file(100, 1, 24), file(100, 75, 100)];
    // total 200, cutoffs 19 and 85, step = ceil(99 * 66 / 200) = 33
    assert_eq!(
        plan_of(files, config(66, 30, 80)),
        SplitPlan::Split(vec![34])
    );
}

#[test]
fn build_compact_plan_uses_the_range_of_all_files() {
    let files = vec![file(100, 5, 8), file(100, 1, 3), file(50, 9, 11)];
    // total 250, range [1, 11], step = ceil(10 * 100 / 250) = 4
    assert_eq!(
        plan_of(files, config(100, 30, 80)),
        SplitPlan::Split(vec![5, 9])
    );
}

#[test]
fn build_compact_plan_falls_back_on_a_single_instant() {
    let files = vec![file(500, 3, 3), file(500, 3, 3)];
    assert_eq!(plan_of(files, config(100, 30, 80)), SplitPlan::Compact);
}

#[test]
fn build_compact_plan_is_idempotent() {
    let files = vec![file(100, 1, 24), file(100, 75, 100), file(7, 30, 31)];
    let options = config(66, 30, 80);
    let first = plan_of(files.clone(), options);
    let second = plan_of(files, options);
    assert_eq!(first, second);
}

#[test]
fn is_plannable_accepts_ordinary_input() {
    let builder = CompactPlanBuilder::new(
        vec![file(100, 1, 24)],
        config(66, 30, 80),
        CompactionLevel::Initial,
    );
    assert!(builder.is_plannable());
    // a target size of zero is harmless where nothing is searched
    let builder = CompactPlanBuilder::new(
        vec![file(0, 1, 24)],
        config(0, 30, 80),
        CompactionLevel::Initial,
    );
    assert!(builder.is_plannable());
    let builder = CompactPlanBuilder::new(
        vec![file(10, 4, 4)],
        config(0, 30, 80),
        CompactionLevel::Initial,
    );
    assert!(builder.is_plannable());
}

#[test]
fn is_plannable_refuses_what_cannot_be_planned() {
    let level = CompactionLevel::Initial;
    let no_files = CompactPlanBuilder::new(Vec::new(), config(66, 30, 80), level);
    assert!(!no_files.is_plannable());
    let negative_size = CompactPlanBuilder::new(vec![file(-1, 1, 2)], config(66, 30, 80), level);
    assert!(!negative_size.is_plannable());
    let reversed = CompactPlanBuilder::new(vec![file(1, 2, 1)], config(66, 30, 80), level);
    assert!(!reversed.is_plannable());
    let too_large = CompactPlanBuilder::new(
        vec![file(i64::MAX, 1, 2), file(1, 1, 2)],
        config(66, 30, 80),
        level,
    );
    assert!(!too_large.is_plannable());
    let cutoff_overflow =
        CompactPlanBuilder::new(vec![file(1, 1, 2)], config(u64::MAX / 100, 30, 80), level);
    assert!(!cutoff_overflow.is_plannable());
    let split_percentage =
        CompactPlanBuilder::new(vec![file(1, 1, 2)], config(66, 30, 101), level);
    assert!(!split_percentage.is_plannable());
    let zero_target = CompactPlanBuilder::new(vec![file(1, 1, 2)], config(0, 30, 80), level);
    assert!(!zero_target.is_plannable());
}

#[test]
fn all_files_wf_and_total_size_fits() {
    assert!(CompactPlanBuilder::all_files_wf(&Vec::new()));
    assert!(CompactPlanBuilder::all_files_wf(&vec![file(0, 1, 1), file(5, -2, 9)]));
    assert!(!CompactPlanBuilder::all_files_wf(&vec![file(0, 1, 1), file(5, 9, -2)]));
    assert!(!CompactPlanBuilder::all_files_wf(&vec![file(-3, 1, 1)]));
    assert!(CompactPlanBuilder::total_size_fits(&vec![file(i64::MAX, 1, 1)]));
    assert!(!CompactPlanBuilder::total_size_fits(&vec![
        file(i64::MAX, 1, 1),
        file(1, 1, 1)
    ]));
}
