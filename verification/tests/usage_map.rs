use fsfill::usage_map::AllocStatus;
use fsfill::usage_map::Segment;
use fsfill::usage_map::UsageMap;

#[test]
fn new() {
    let map = UsageMap::new(5);

    assert_eq!(map.0[0], Segment { start: 0, end: 5, status: AllocStatus::Free });
}

#[test]
fn len_1() {
    let map = UsageMap::new(5);

    assert_eq!(map.len(), 1);
}

#[test]
fn len_2() {
    let mut map = UsageMap::new(5);
    map.add_segment(Segment { start: 2, end: 5, status: AllocStatus::Used });

    assert_eq!(map.len(), 2);
}

#[test]
fn add_segment_start_eq_end() {
    let mut map = UsageMap::new(5);
    let orig_e = map.0[0];

    map.add_segment(Segment { start: 1, end: 1, status: AllocStatus::Used });

    assert_eq!(map.len(), 1);
    assert_eq!(map.0[0], orig_e);
}

#[test]
fn add_segment_inside_one_different_status() {
    let mut map = UsageMap::new(20);
    let new_segment = Segment { start: 2, end: 11, status: AllocStatus::Used };
    map.add_segment(new_segment);

    assert_eq!(map.len(), 3);
    assert_eq!(map.0[0], Segment { start: 0, end: 2, status: AllocStatus::Free });
    assert_eq!(map.0[1], new_segment);
    assert_eq!(map.0[2], Segment { start: 11, end: 20, status: AllocStatus::Free });
}

#[test]
fn add_segment_inside_one_same_status() {
    let mut map = UsageMap::new(20);
    let new_segment = Segment { start: 2, end: 11, status: AllocStatus::Free };
    map.add_segment(new_segment);

    assert_eq!(map.len(), 1);
    assert_eq!(map.0[0].start, 0);
    assert_eq!(map.0[0].end, 20);
    assert_eq!(map.0[0].status, AllocStatus::Free);
}

#[test]
fn add_segment_inside_two_different_first_same() {
    let mut map = UsageMap::new(20);
    map.add_segment(Segment { start: 10, end: 20, status: AllocStatus::Used });
    let new_segment = Segment { start: 3, end: 11, status: AllocStatus::Free };
    map.add_segment(new_segment);

    assert_eq!(map.len(), 2);
    assert_eq!(map.0[0].start, 0);
    assert_eq!(map.0[0].end, 11);
    assert_eq!(map.0[0].status, AllocStatus::Free);
    assert_eq!(map.0[1].start, 11);
    assert_eq!(map.0[1].end, 20);
    assert_eq!(map.0[1].status, AllocStatus::Used);
}

#[test]
fn add_segment_inside_two_different_second_same() {
    let mut map = UsageMap::new(20);
    map.add_segment(Segment { start: 10, end: 20, status: AllocStatus::Used });
    let new_segment = Segment { start: 5, end: 16, status: AllocStatus::Used };
    map.add_segment(new_segment);

    assert_eq!(map.len(), 2);
    assert_eq!(map.0[0].start, 0);
    assert_eq!(map.0[0].end, 5);
    assert_eq!(map.0[0].status, AllocStatus::Free);
    assert_eq!(map.0[1].start, 5);
    assert_eq!(map.0[1].end, 20);
    assert_eq!(map.0[1].status, AllocStatus::Used);
}

#[test]
fn add_segment_add_a_bunch() {
    let mut map = UsageMap::new(100);
    map.add_segment(Segment { start: 10, end: 20, status: AllocStatus::Used });
    map.add_segment(Segment { start: 30, end: 40, status: AllocStatus::Used });
    map.add_segment(Segment { start: 40, end: 50, status: AllocStatus::Free });
    map.add_segment(Segment { start: 50, end: 60, status: AllocStatus::Used });

    assert_eq!(map.len(), 7);

    assert_eq!(map.0[0].status, AllocStatus::Free);
    assert_eq!(map.0[1].status, AllocStatus::Used);
    assert_eq!(map.0[2].status, AllocStatus::Free);
    assert_eq!(map.0[3].status, AllocStatus::Used);
    assert_eq!(map.0[4].status, AllocStatus::Free);
    assert_eq!(map.0[5].status, AllocStatus::Used);
    assert_eq!(map.0[6].status, AllocStatus::Free);

    assert_eq!(map.0[0].start, 0);
    assert_eq!(map.0[1].start, 10);
    assert_eq!(map.0[2].start, 20);
    assert_eq!(map.0[3].start, 30);
    assert_eq!(map.0[4].start, 40);
    assert_eq!(map.0[5].start, 50);
    assert_eq!(map.0[6].start, 60);

    assert_eq!(map.0[0].end, 10);
    assert_eq!(map.0[1].end, 20);
    assert_eq!(map.0[2].end, 30);
    assert_eq!(map.0[3].end, 40);
    assert_eq!(map.0[4].end, 50);
    assert_eq!(map.0[5].end, 60);
    assert_eq!(map.0[6].end, 100);
}

#[test]
fn add_segment_span_first_status_same() {
    let mut map = UsageMap::new(100);
    map.add_segment(Segment { start: 10, end: 20, status: AllocStatus::Used });
    map.add_segment(Segment { start: 30, end: 40, status: AllocStatus::Used });
    map.add_segment(Segment { start: 40, end: 50, status: AllocStatus::Free });
    map.add_segment(Segment { start: 50, end: 60, status: AllocStatus::Used });
    let new_segment = Segment { start: 15, end: 45, status: AllocStatus::Used };
    map.add_segment(new_segment);

    assert_eq!(map.len(), 5);

    assert_eq!(map.0[0].status, AllocStatus::Free);
    assert_eq!(map.0[1].status, AllocStatus::Used);
    assert_eq!(map.0[2].status, AllocStatus::Free);
    assert_eq!(map.0[3].status, AllocStatus::Used);
    assert_eq!(map.0[4].status, AllocStatus::Free);

    assert_eq!(map.0[0].start, 0);
    assert_eq!(map.0[1].start, 10);
    assert_eq!(map.0[2].start, 45);
    assert_eq!(map.0[3].start, 50);
    assert_eq!(map.0[4].start, 60);

    assert_eq!(map.0[0].end, 10);
    assert_eq!(map.0[1].end, 45);
    assert_eq!(map.0[2].end, 50);
    assert_eq!(map.0[3].end, 60);
    assert_eq!(map.0[4].end, 100);
}

#[test]
fn add_segment_span_last_status_same() {
    let mut map = UsageMap::new(100);
    map.add_segment(Segment { start: 10, end: 20, status: AllocStatus::Used });
    map.add_segment(Segment { start: 30, end: 40, status: AllocStatus::Used });
    map.add_segment(Segment { start: 40, end: 50, status: AllocStatus::Free });
    map.add_segment(Segment { start: 50, end: 60, status: AllocStatus::Used });
    let new_segment = Segment { start: 15, end: 45, status: AllocStatus::Free };
    map.add_segment(new_segment);

    assert_eq!(map.len(), 5);

    assert_eq!(map.0[0].status, AllocStatus::Free);
    assert_eq!(map.0[1].status, AllocStatus::Used);
    assert_eq!(map.0[2].status, AllocStatus::Free);
    assert_eq!(map.0[3].status, AllocStatus::Used);
    assert_eq!(map.0[4].status, AllocStatus::Free);

    assert_eq!(map.0[0].start, 0);
    assert_eq!(map.0[1].start, 10);
    assert_eq!(map.0[2].start, 15);
    assert_eq!(map.0[3].start, 50);
    assert_eq!(map.0[4].start, 60);

    assert_eq!(map.0[0].end, 10);
    assert_eq!(map.0[1].end, 15);
    assert_eq!(map.0[2].end, 50);
    assert_eq!(map.0[3].end, 60);
    assert_eq!(map.0[4].end, 100);
}

#[test]
fn add_segment_starts_at_boundary_same() {
    let mut map = UsageMap::new(40);
    map.add_segment(Segment { start: 10, end: 20, status: AllocStatus::Used });
    map.add_segment(Segment { start: 30, end: 40, status: AllocStatus::Used });
    let new_segment = Segment { start: 10, end: 25, status: AllocStatus::Used };
    map.add_segment(new_segment);

    assert_eq!(map.len(), 4);

    assert_eq!(map.0[0].status, AllocStatus::Free);
    assert_eq!(map.0[1].status, AllocStatus::Used);
    assert_eq!(map.0[2].status, AllocStatus::Free);
    assert_eq!(map.0[3].status, AllocStatus::Used);

    assert_eq!(map.0[0].start, 0);
    assert_eq!(map.0[1].start, 10);
    assert_eq!(map.0[2].start, 25);
    assert_eq!(map.0[3].start, 30);

    assert_eq!(map.0[0].end, 10);
    assert_eq!(map.0[1].end, 25);
    assert_eq!(map.0[2].end, 30);
    assert_eq!(map.0[3].end, 40);
}

#[test]
fn add_segment_starts_at_boundary_different() {
    let mut map = UsageMap::new(40);
    map.add_segment(Segment { start: 10, end: 20, status: AllocStatus::Used });
    map.add_segment(Segment { start: 30, end: 40, status: AllocStatus::Used });
    let new_segment = Segment { start: 10, end: 25, status: AllocStatus::Free };
    map.add_segment(new_segment);

    assert_eq!(map.len(), 2);

    assert_eq!(map.0[0].status, AllocStatus::Free);
    assert_eq!(map.0[1].status, AllocStatus::Used);

    assert_eq!(map.0[0].start, 0);
    assert_eq!(map.0[1].start, 30);

    assert_eq!(map.0[0].end, 30);
    assert_eq!(map.0[1].end, 40);
}

#[test]
fn add_segment_ends_at_boundary_same() {
    let mut map = UsageMap::new(40);
    map.add_segment(Segment { start: 10, end: 20, status: AllocStatus::Used });
    map.add_segment(Segment { start: 30, end: 40, status: AllocStatus::Used });
    let new_segment = Segment { start: 15, end: 30, status: AllocStatus::Free };
    map.add_segment(new_segment);

    assert_eq!(map.len(), 4);

    assert_eq!(map.0[0].status, AllocStatus::Free);
    assert_eq!(map.0[1].status, AllocStatus::Used);
    assert_eq!(map.0[2].status, AllocStatus::Free);
    assert_eq!(map.0[3].status, AllocStatus::Used);

    assert_eq!(map.0[0].start, 0);
    assert_eq!(map.0[1].start, 10);
    assert_eq!(map.0[2].start, 15);
    assert_eq!(map.0[3].start, 30);

    assert_eq!(map.0[0].end, 10);
    assert_eq!(map.0[1].end, 15);
    assert_eq!(map.0[2].end, 30);
    assert_eq!(map.0[3].end, 40);
}

#[test]
fn add_segment_ends_at_boundary_different() {
    let mut map = UsageMap::new(40);
    map.add_segment(Segment { start: 10, end: 20, status: AllocStatus::Used });
    map.add_segment(Segment { start: 30, end: 40, status: AllocStatus::Used });
    let new_segment = Segment { start: 15, end: 30, status: AllocStatus::Used };
    map.add_segment(new_segment);

    assert_eq!(map.len(), 2);

    assert_eq!(map.0[0].status, AllocStatus::Free);
    assert_eq!(map.0[1].status, AllocStatus::Used);

    assert_eq!(map.0[0].start, 0);
    assert_eq!(map.0[1].start, 10);

    assert_eq!(map.0[0].end, 10);
    assert_eq!(map.0[1].end, 40);
}

#[test]
fn eq() {
    let e1 = Segment { start: 0, end: 0, status: AllocStatus::Free };
    assert_eq!(e1, Segment { start: 0, end: 0, status: AllocStatus::Free });

    let e1 = Segment { start: 10, end: 0, status: AllocStatus::Free };
    assert_eq!(e1, Segment { start: 10, end: 0, status: AllocStatus::Free });

    let e1 = Segment { start: 3, end: 20, status: AllocStatus::Free };
    assert_eq!(e1, Segment { start: 3, end: 20, status: AllocStatus::Free });

    let e1 = Segment { start: 55, end: 300, status: AllocStatus::Used };
    assert_eq!(e1, Segment { start: 55, end: 300, status: AllocStatus::Used });
}

#[test]
fn usage_map_eq() {
    assert_eq!(AllocStatus::Free, AllocStatus::Free);
    assert_eq!(AllocStatus::Used, AllocStatus::Used);
}

#[test]
fn update_absorbs_same_status() {
    let mut map = UsageMap::new(20);
    map.update(2, 9, AllocStatus::Free);

    assert_eq!(map.len(), 1);
    assert_eq!(map.0[0], Segment { start: 0, end: 20, status: AllocStatus::Free });
}

#[test]
fn update_carves_different_status() {
    let mut map = UsageMap::new(20);
    map.update(2, 9, AllocStatus::Used);

    assert_eq!(map.len(), 3);
    assert_eq!(map.0[0], Segment { start: 0, end: 2, status: AllocStatus::Free });
    assert_eq!(map.0[1], Segment { start: 2, end: 11, status: AllocStatus::Used });
    assert_eq!(map.0[2], Segment { start: 11, end: 20, status: AllocStatus::Free });
}

#[test]
fn update_merges_overlapping_runs() {
    let mut map = UsageMap::new(100);
    map.update(10, 10, AllocStatus::Used);
    map.update(30, 10, AllocStatus::Used);
    map.update(40, 10, AllocStatus::Free);
    map.update(50, 10, AllocStatus::Used);
    map.update(15, 30, AllocStatus::Used);

    assert_eq!(map.len(), 5);
    assert_eq!(map.0[1], Segment { start: 10, end: 45, status: AllocStatus::Used });
}

#[test]
fn update_clips_past_the_end() {
    let mut map = UsageMap::new(10);
    map.update(6, 100, AllocStatus::Used);

    assert_eq!(map.len(), 2);
    assert_eq!(map.0[0], Segment { start: 0, end: 6, status: AllocStatus::Free });
    assert_eq!(map.0[1], Segment { start: 6, end: 10, status: AllocStatus::Used });
}

#[test]
fn update_twice_is_idempotent() {
    let mut once = UsageMap::new(50);
    once.update(5, 10, AllocStatus::Used);
    once.update(20, 4, AllocStatus::Used);
    once.update(8, 14, AllocStatus::Used);

    let mut twice = UsageMap::new(50);
    twice.update(5, 10, AllocStatus::Used);
    twice.update(20, 4, AllocStatus::Used);
    twice.update(8, 14, AllocStatus::Used);
    twice.update(8, 14, AllocStatus::Used);

    assert_eq!(once.len(), twice.len());
    for i in 0..once.len() {
        assert_eq!(once.0[i], twice.0[i]);
    }
}
