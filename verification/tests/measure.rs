use tuidom::virtualize::{MeasurementCache, Uniform};

#[test]
fn an_unmeasured_cache_matches_the_uniform_math() {
    let cache = MeasurementCache::new(100, 2);
    let uniform = Uniform {
        count: 100,
        stride: 2,
    };

    assert_eq!(cache.total_extent(), uniform.total_extent());
    for offset in [0_u16, 3, 95, 190] {
        assert_eq!(cache.window(offset, 10, 2), uniform.window(offset, 10, 2));
    }
}

#[test]
fn measurements_shift_offsets_and_the_total() {
    let mut cache = MeasurementCache::new(10, 2);
    assert_eq!(cache.total_extent(), 20);

    assert_eq!(cache.record(3, 5), 3);
    assert_eq!(cache.record(7, 1), -1);

    assert_eq!(cache.extent_of(3), 5);
    assert_eq!(cache.extent_of(4), 2);
    assert_eq!(cache.total_extent(), 22);

    assert_eq!(cache.offset_of(3), 6);
    assert_eq!(cache.offset_of(4), 11);
    assert_eq!(cache.offset_of(8), 18);
}

#[test]
fn re_recording_returns_the_adjustment_not_the_original_delta() {
    let mut cache = MeasurementCache::new(10, 2);
    assert_eq!(cache.record(3, 5), 3);
    assert_eq!(cache.record(3, 4), -1);
    assert_eq!(cache.record(3, 4), 0);
    assert_eq!(cache.total_extent(), 22);
}

#[test]
fn invalidation_reverts_to_the_estimate() {
    let mut cache = MeasurementCache::new(10, 2);
    cache.record(3, 5);
    cache.record(4, 6);
    cache.record(5, 7);

    cache.invalidate(3);
    assert_eq!(cache.extent_of(3), 2);

    cache.invalidate_range(0..5);
    assert_eq!(cache.extent_of(4), 2);
    assert_eq!(cache.extent_of(5), 7);

    cache.invalidate_all();
    assert_eq!(cache.total_extent(), 20);
}

#[test]
fn windows_respect_measured_extents() {
    let mut cache = MeasurementCache::new(10, 2);
    cache.record(0, 6);

    let window = cache.window(0, 6, 0);
    assert_eq!(window.items, 0..1);
    assert_eq!((window.lead, window.trail), (0, 18));

    let window = cache.window(6, 6, 0);
    assert_eq!(window.items, 1..4);
    assert_eq!(window.lead, 6);
    assert_eq!(window.trail, 24 - 6 - 6);
}

#[test]
fn anchoring_compensation_keeps_the_window_pinned() {
    let mut cache = MeasurementCache::new(100, 2);
    let offset: u16 = 50;
    let before = cache.window(offset, 10, 0);

    let delta = cache.record(3, 6);
    assert_eq!(delta, 4);
    let compensated = offset.saturating_add_signed(delta as i16);

    let after = cache.window(compensated, 10, 0);
    assert_eq!(after.items, before.items);
    assert_eq!(after.lead, before.lead + delta as u64);
}

#[test]
fn set_count_keeps_surviving_measurements() {
    let mut cache = MeasurementCache::new(10, 2);
    cache.record(2, 5);
    cache.record(8, 5);

    cache.set_count(5);
    assert_eq!(cache.count(), 5);
    assert_eq!(cache.extent_of(2), 5);
    assert_eq!(cache.total_extent(), 13);

    cache.set_count(8);
    assert_eq!(cache.total_extent(), 19);
}

#[test]
fn out_of_range_records_are_ignored() {
    let mut cache = MeasurementCache::new(5, 2);
    assert_eq!(cache.record(5, 9), 0);
    assert_eq!(cache.total_extent(), 10);
}

#[test]
fn offsets_stay_exact_over_large_measured_collections() {
    let mut cache = MeasurementCache::new(1_000_000, 3);
    for index in 0..1_000 {
        cache.record(index * 1_000, 5);
    }
    assert_eq!(cache.total_extent(), 3_000_000 + 2_000);
    assert_eq!(cache.offset_of(500_000), 1_500_000 + 2 * 500);
}

#[test]
fn recording_moves_only_later_offsets() {
    // Law: a measurement shifts every later offset by the returned delta and leaves
    // earlier ones where they were.
    let mut cache = MeasurementCache::new(20, 3);
    let before: Vec<u64> = (0..20).map(|i| cache.offset_of(i)).collect();
    let delta = cache.record(7, 10);
    assert_eq!(delta, 7);
    for i in 0..20usize {
        if i <= 7 {
            assert_eq!(cache.offset_of(i), before[i]);
        } else {
            assert_eq!(cache.offset_of(i), before[i] + 7);
        }
    }
}

#[test]
fn estimate_and_count_are_reported() {
    let cache = MeasurementCache::new(12, 4);
    assert_eq!(cache.count(), 12);
    assert_eq!(cache.estimate(), 4);
    assert_eq!(cache.extent_of(11), 4);
    assert_eq!(cache.offset_of(12), 48);
}
