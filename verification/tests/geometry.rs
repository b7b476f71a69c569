use tuidom::geometry::{any_center_x, any_center_y, center_x, center_y, Centered};

#[test]
fn even_leftover_space_centers_exactly() {
    assert_eq!(center_x(10, 4), Centered::Even(3));
    assert_eq!(center_y(10, 10), Centered::Even(0));
    assert_eq!(center_x(0, 0), Centered::Even(0));
}

#[test]
fn odd_leftover_space_reports_both_offsets() {
    assert_eq!(center_x(10, 5), Centered::Uneven { low: 2, high: 3 });
    assert_eq!(center_y(3, 2), Centered::Uneven { low: 0, high: 1 });
}

#[test]
fn oversized_content_yields_negative_offsets() {
    assert_eq!(center_x(4, 10), Centered::Even(-3));
    assert_eq!(center_x(4, 9), Centered::Uneven { low: -3, high: -2 });
}

#[test]
fn any_center_takes_the_low_biased_offset() {
    assert_eq!(any_center_x(10, 5), 2);
    assert_eq!(any_center_y(10, 4), 3);
    assert_eq!(any_center_x(4, 9), -3);
}

#[test]
fn centering_balances_the_two_sides() {
    // Law: the two margins of a centered box differ by at most one cell.
    for container in [0u16, 1, 7, 10, 80] {
        for content in [0u16, 1, 5, 10, 81] {
            let low = any_center_x(container, content) as i64;
            let high = container as i64 - content as i64 - low;
            assert!(high - low == 0 || high - low == 1);
        }
    }
}
