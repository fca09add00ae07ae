use compaction_planner::CompactPlanBuilder;

#[test]
fn test_cutoff_bytes() {
    let (small, large) = CompactPlanBuilder::cutoff_bytes(100, 30);
    assert_eq!(small, 30);
    assert_eq!(large, 130);

    let (small, large) = CompactPlanBuilder::cutoff_bytes(100 * 1024 * 1024, 30);
    assert_eq!(small, 30 * 1024 * 1024);
    assert_eq!(large, 130 * 1024 * 1024);

    let (small, large) = CompactPlanBuilder::cutoff_bytes(100, 60);
    assert_eq!(small, 60);
    assert_eq!(large, 160);
}

#[test]
fn cutoff_bytes_round_down() {
    assert_eq!(CompactPlanBuilder::cutoff_bytes(7, 30), (2, 9));
    assert_eq!(CompactPlanBuilder::cutoff_bytes(199, 1), (1, 200));
    assert_eq!(CompactPlanBuilder::cutoff_bytes(0, 50), (0, 0));
}

#[test]
fn cutoff_bytes_at_the_ends_of_the_tolerance() {
    assert_eq!(CompactPlanBuilder::cutoff_bytes(1000, 0), (0, 1000));
    assert_eq!(CompactPlanBuilder::cutoff_bytes(1000, 100), (1000, 2000));
    assert_eq!(CompactPlanBuilder::cutoff_bytes(1000, 250), (2500, 3500));
}

#[test]
fn cutoff_bytes_bracket_the_target_size() {
    let sizes: [u64; 6] = [0, 1, 7, 99, 100 * 1024 * 1024, u64::MAX / 200];
    for size in sizes {
        let mut percentage: u16 = 0;
        while percentage <= 100 {
            let (small, large) = CompactPlanBuilder::cutoff_bytes(size, percentage);
            assert!(small <= size);
            assert!(size <= large);
            percentage += 1;
        }
    }
}
