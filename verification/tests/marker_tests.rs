use vic::markers::MarkerIndex;

#[test]
fn insertions_keep_the_list_sorted() {
    let mut idx = MarkerIndex::new();
    for t in [5_000_000u64, 1_000_000, 3_000_000, 3_000_000, 9_000_000] {
        idx.insert(t);
        // sorted ascending after every insertion
        for i in 1..idx.len() {
            assert!(idx.get(i - 1) <= idx.get(i));
        }
    }
    assert_eq!(idx.len(), 5);
    let collected: Vec<u64> = (0..idx.len()).map(|i| idx.get(i)).collect();
    assert_eq!(
        collected,
        vec![1_000_000, 3_000_000, 3_000_000, 5_000_000, 9_000_000]
    );
}

#[test]
fn segment_count_is_markers_plus_one() {
    let mut idx = MarkerIndex::new();
    assert_eq!(idx.segment_count(), 1);
    idx.insert(10);
    assert_eq!(idx.segment_count(), 2);
    idx.insert(20);
    assert_eq!(idx.segment_count(), 3);
    idx.remove(0);
    assert_eq!(idx.segment_count(), 2);
}

#[test]
fn remove_shifts_the_rest_left() {
    let mut idx = MarkerIndex::new();
    idx.insert(1);
    idx.insert(2);
    idx.insert(3);
    let removed = idx.remove(1);
    assert_eq!(removed, 2);
    assert_eq!(idx.len(), 2);
    assert_eq!(idx.get(0), 1);
    assert_eq!(idx.get(1), 3);
}

#[test]
fn incremental_resync_matches_full_rescan() {
    let mut idx = MarkerIndex::new();
    for t in [2u64, 4, 4, 8, 16, 32] {
        idx.insert(t);
    }
    // from every possible previous hover index and for many playhead
    // positions, the incremental walk lands exactly where a scan from
    // scratch does
    for t in [0u64, 1, 2, 3, 4, 5, 8, 9, 15, 16, 31, 32, 33, 100] {
        let scanned = idx.segment_index_scan(t);
        for start in 0..=idx.len() {
            assert_eq!(idx.resync_from(start, t), scanned);
        }
    }
}

#[test]
fn duplicate_timestamps_count_together() {
    let mut idx = MarkerIndex::new();
    idx.insert(7);
    idx.insert(7);
    // at t = 7 both markers are behind the playhead
    assert_eq!(idx.segment_index_scan(7), 2);
    assert_eq!(idx.segment_index_scan(6), 0);
}

#[test]
fn insert_position_is_the_count_at_or_before() {
    let mut idx = MarkerIndex::new();
    assert_eq!(idx.insert(10), 0);
    assert_eq!(idx.insert(5), 0);
    assert_eq!(idx.insert(10), 2);
    assert_eq!(idx.insert(7), 1);
}
