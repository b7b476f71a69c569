use std::ops::Range;

use tuidom::virtualize::Virtualizer;

#[test]
fn first_update_materializes_the_whole_window() {
    let mut virtualizer = Virtualizer::uniform(100, 2, 2);

    let update = virtualizer.update(0, 10).unwrap();
    assert_eq!(update.window.items, 0..7);
    assert_eq!(update.add, vec![0..7]);
    assert_eq!(update.remove, Vec::<Range<usize>>::new());
    assert_eq!((update.window.lead, update.window.trail), (0, 186));
    assert_eq!(virtualizer.materialized(), 0..7);
}

#[test]
fn a_small_scroll_is_an_incremental_diff() {
    let mut virtualizer = Virtualizer::uniform(100, 2, 2);
    virtualizer.update(0, 10).unwrap();

    let update = virtualizer.update(4, 10).unwrap();
    assert_eq!(update.window.items, 0..9);
    assert_eq!(update.add, vec![7..9]);
    assert_eq!(update.remove, Vec::<Range<usize>>::new());

    let update = virtualizer.update(8, 10).unwrap();
    assert_eq!(update.add, vec![9..11]);
    assert_eq!(update.remove, vec![0..2]);
}

#[test]
fn a_jump_replaces_the_window_wholesale() {
    let mut virtualizer = Virtualizer::uniform(100, 2, 2);
    virtualizer.update(0, 10).unwrap();

    let update = virtualizer.update(100, 10).unwrap();
    assert_eq!(update.window.items, 48..57);
    assert_eq!(update.add, vec![48..57]);
    assert_eq!(update.remove, vec![0..7]);
}

#[test]
fn an_unchanged_window_is_a_no_op() {
    let mut virtualizer = Virtualizer::uniform(100, 2, 2);
    virtualizer.update(0, 10).unwrap();
    assert_eq!(virtualizer.update(0, 10), None);
}

#[test]
fn shrinking_the_count_removes_items_beyond_it() {
    let mut virtualizer = Virtualizer::uniform(100, 2, 2);
    virtualizer.update(0, 10).unwrap();
    assert_eq!(virtualizer.materialized(), 0..7);

    virtualizer.set_count(4);
    let update = virtualizer.update(0, 10).unwrap();
    assert_eq!(update.window.items, 0..4);
    assert_eq!(update.add, Vec::<Range<usize>>::new());
    assert_eq!(update.remove, vec![4..7]);
    assert_eq!((update.window.lead, update.window.trail), (0, 0));
}

#[test]
fn a_measurement_alone_changes_the_window() {
    let mut virtualizer = Virtualizer::measured(100, 2, 0);
    virtualizer.update(50, 10).unwrap();
    let before = virtualizer.materialized();

    let delta = virtualizer.record(3, 6);
    assert_eq!(delta, 4);

    let compensated = 50 + delta as u16;
    let update = virtualizer.update(compensated, 10).unwrap();
    assert_eq!(update.window.items, before);
    assert_eq!(update.add, Vec::<Range<usize>>::new());
    assert_eq!(update.remove, Vec::<Range<usize>>::new());
    assert_eq!(update.window.lead, 54);
}

#[test]
fn reset_rematerializes_everything() {
    let mut virtualizer = Virtualizer::uniform(100, 2, 2);
    virtualizer.update(0, 10).unwrap();

    virtualizer.reset();
    let update = virtualizer.update(0, 10).unwrap();
    assert_eq!(update.add, vec![0..7]);
    assert_eq!(update.remove, Vec::<Range<usize>>::new());
}

#[test]
fn uniform_collections_have_nothing_to_record() {
    let mut virtualizer = Virtualizer::uniform(100, 2, 2);
    assert_eq!(virtualizer.record(3, 6), 0);
    assert!(virtualizer.cache().is_none());
}

#[test]
fn measured_virtualizer_exposes_its_cache() {
    let mut virtualizer = Virtualizer::measured(10, 3, 1);
    assert_eq!(virtualizer.count(), 10);
    assert_eq!(virtualizer.total_extent(), 30);
    assert_eq!(virtualizer.record(2, 5), 2);
    assert_eq!(virtualizer.cache().unwrap().extent_of(2), 5);
    assert_eq!(virtualizer.offset_of(3), 11);
    virtualizer.cache_mut().unwrap().invalidate(2);
    assert_eq!(virtualizer.total_extent(), 30);
}
