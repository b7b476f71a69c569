use tuidom::virtualize::Uniform;

fn uniform(count: usize, stride: u16) -> Uniform {
    Uniform { count, stride }
}

#[test]
fn window_at_the_start_has_no_lead() {
    let window = uniform(100, 2).window(0, 10, 0);
    assert_eq!(window.items, 0..5);
    assert_eq!(window.lead, 0);
    assert_eq!(window.trail, 190);
}

#[test]
fn window_at_the_end_has_no_trail() {
    let window = uniform(100, 2).window(190, 10, 0);
    assert_eq!(window.items, 95..100);
    assert_eq!(window.lead, 190);
    assert_eq!(window.trail, 0);
}

#[test]
fn items_straddling_either_edge_are_included() {
    let window = uniform(100, 2).window(3, 10, 0);
    assert_eq!(window.items, 1..7);
    assert_eq!(window.lead, 2);
    assert_eq!(window.trail, 186);
}

#[test]
fn overscan_pads_both_sides_and_clamps_to_the_collection() {
    let window = uniform(100, 2).window(3, 10, 3);
    assert_eq!(window.items, 0..10);

    let window = uniform(8, 2).window(3, 10, 3);
    assert_eq!(window.items, 0..8);
    assert_eq!((window.lead, window.trail), (0, 0));
}

#[test]
fn spacers_and_window_always_sum_to_the_total_extent() {
    let axis = uniform(1000, 3);
    for offset in [0_u16, 1, 500, 1499, 2970] {
        let window = axis.window(offset, 30, 2);
        let window_extent = (window.items.end - window.items.start) as u64 * 3;
        assert_eq!(
            window.lead + window_extent + window.trail,
            axis.total_extent()
        );
    }
}

#[test]
fn empty_collection_yields_an_empty_window() {
    let window = uniform(0, 5).window(0, 10, 4);
    assert_eq!(window.items, 0..0);
    assert_eq!((window.lead, window.trail), (0, 0));
}

#[test]
fn viewport_larger_than_content_materializes_everything() {
    let window = uniform(3, 2).window(0, 50, 0);
    assert_eq!(window.items, 0..3);
    assert_eq!((window.lead, window.trail), (0, 0));
}

#[test]
fn zero_stride_materializes_everything() {
    let window = uniform(7, 0).window(20, 10, 1);
    assert_eq!(window.items, 0..7);
    assert_eq!((window.lead, window.trail), (0, 0));
}

#[test]
fn extents_stay_exact_beyond_the_engines_cell_range() {
    let axis = uniform(10_000_000, 3);
    assert_eq!(axis.total_extent(), 30_000_000);
    assert_eq!(axis.offset_of(9_999_999), 29_999_997);

    let window = axis.window(60_000, 30, 5);
    assert_eq!(window.items, 19_995..20_015);
    assert_eq!(window.lead, 59_985);
    assert_eq!(window.trail, 30_000_000 - 60_045);
}

#[test]
fn uniform_window_covers_the_viewport() {
    // Law: every item overlapping the viewport is in the window.
    let axis = uniform(50, 4);
    for offset in [0u16, 3, 17, 100, 180] {
        let window = axis.window(offset, 9, 0);
        for index in 0..50usize {
            let start = index as u64 * 4;
            let end = start + 4;
            if end > offset as u64 && start < offset as u64 + 9 {
                assert!(window.items.contains(&index), "offset {offset} index {index}");
            }
        }
    }
}
