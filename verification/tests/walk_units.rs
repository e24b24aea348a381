use fsfill::e2fs::extent::mark_extent_node_footprint;
use fsfill::e2fs::inode::mark_block_pointers;
use fsfill::usage_map::AllocStatus;
use fsfill::usage_map::UsageMap;

fn status_at(map: &UsageMap, addr: u64) -> AllocStatus {
    for seg in &map.0 {
        if seg.start <= addr && addr < seg.end {
            return seg.status;
        }
    }
    panic!("address outside the map");
}

#[test]
fn pointer_walk_clips_and_skips_holes() {
    // Four pointers, a three-block quota, a hole in the middle, and a file
    // size of two and a half blocks: the last half block is clipped.
    let mut map = UsageMap::new(100 * 1024);
    let mut cursor: u64 = 0;
    let ptrs: Vec<u32> = vec![10, 0, 20, 30];
    mark_block_pointers(&mut map, &mut cursor, &ptrs, 3, 2 * 1024 + 512, 1024).unwrap();

    assert_eq!(cursor, 3);
    assert_eq!(status_at(&map, 10 * 1024), AllocStatus::Used);
    assert_eq!(status_at(&map, 11 * 1024 - 1), AllocStatus::Used);
    assert_eq!(status_at(&map, 11 * 1024), AllocStatus::Free);
    assert_eq!(status_at(&map, 20 * 1024), AllocStatus::Used);
    // The third taken pointer is clipped to the file's last 512 bytes.
    assert_eq!(status_at(&map, 30 * 1024), AllocStatus::Used);
    assert_eq!(status_at(&map, 30 * 1024 + 511), AllocStatus::Used);
    assert_eq!(status_at(&map, 30 * 1024 + 512), AllocStatus::Free);
}

#[test]
fn pointer_walk_stops_at_block_count() {
    let mut map = UsageMap::new(100 * 1024);
    let mut cursor: u64 = 0;
    let ptrs: Vec<u32> = vec![10, 20, 30];
    mark_block_pointers(&mut map, &mut cursor, &ptrs, 1, 10 * 1024, 1024).unwrap();

    assert_eq!(cursor, 1);
    assert_eq!(status_at(&map, 10 * 1024), AllocStatus::Used);
    assert_eq!(status_at(&map, 20 * 1024), AllocStatus::Free);
    assert_eq!(status_at(&map, 30 * 1024), AllocStatus::Free);
}

#[test]
fn node_footprint_marks_records_and_tail() {
    let mut map = UsageMap::new(100 * 1024);
    mark_extent_node_footprint(&mut map, 3, 50 * 1024, 1024).unwrap();

    assert_eq!(status_at(&map, 50 * 1024), AllocStatus::Used);
    assert_eq!(status_at(&map, 50 * 1024 + 47), AllocStatus::Used);
    assert_eq!(status_at(&map, 50 * 1024 + 48), AllocStatus::Free);
    assert_eq!(status_at(&map, 51 * 1024 - 5), AllocStatus::Free);
    assert_eq!(status_at(&map, 51 * 1024 - 4), AllocStatus::Used);
    assert_eq!(status_at(&map, 51 * 1024), AllocStatus::Free);
}
