use tuidom::style::{
    apply_optional_override, apply_override, resolve, resolve_optional, Border, BorderCharset, EdgeInsets,
    FlexGap, ScrollbarCharset, Sides, StyleValue,
};

#[test]
fn resolution_rules() {
    let parent = 7u16;
    assert_eq!(resolve(&StyleValue::Unset, Some(&parent), &1), 1);
    assert_eq!(resolve(&StyleValue::Inherit, Some(&parent), &1), 7);
    assert_eq!(resolve(&StyleValue::Inherit, None, &1), 1);
    assert_eq!(resolve(&StyleValue::Explicit(3), Some(&parent), &1), 3);
    assert_eq!(resolve_optional(&StyleValue::Inherit, Some(None), Some(2u8)), None);
    assert_eq!(resolve_optional(&StyleValue::Explicit(4u8), None, None), Some(4));
    assert_eq!(resolve_optional::<u8>(&StyleValue::Unset, Some(Some(9)), Some(2)), Some(2));
}

#[test]
fn overrides_leave_unset_properties_alone() {
    let mut value = 5u16;
    apply_override(&mut value, &StyleValue::Unset, Some(&9), &0);
    assert_eq!(value, 5);
    apply_override(&mut value, &StyleValue::Inherit, Some(&9), &0);
    assert_eq!(value, 9);
    apply_override(&mut value, &StyleValue::Explicit(2), None, &0);
    assert_eq!(value, 2);
    let mut optional = Some(1u8);
    apply_optional_override(&mut optional, &StyleValue::Inherit, None, None);
    assert_eq!(optional, None);
    apply_optional_override(&mut optional, &StyleValue::Explicit(6), None, None);
    assert_eq!(optional, Some(6));
}

#[test]
fn edge_insets_constructors() {
    assert_eq!(EdgeInsets::all(2), EdgeInsets { top: 2, right: 2, bottom: 2, left: 2 });
    assert_eq!(EdgeInsets::symmetric(2, 1), EdgeInsets { top: 1, right: 2, bottom: 1, left: 2 });
    assert_eq!(EdgeInsets::new(1, 2, 3, 4), EdgeInsets { top: 1, right: 2, bottom: 3, left: 4 });
    assert_eq!(FlexGap::new(1, 2), FlexGap { row: 1, column: 2 });
    assert_eq!(FlexGap::all(3), FlexGap { row: 3, column: 3 });
}

#[test]
fn border_insets_follow_the_drawn_sides() {
    let border = Border::new(BorderCharset::rounded());
    assert_eq!(border.insets(), EdgeInsets::all(1));
    let top_left = border.with_sides(Sides::new(true, false, false, true));
    assert_eq!(top_left.insets(), EdgeInsets::new(1, 0, 0, 1));
    assert_eq!(Border::none().insets(), EdgeInsets::all(0));
    assert!(!Sides::none().any());
    assert!(Sides::all().any());
    assert_eq!(Border::default(), Border::none());
    assert_eq!(BorderCharset::ascii().top_left, '+');
    assert_eq!(BorderCharset::double().top, '═');
}

#[test]
fn scrollbar_charsets() {
    assert_eq!(ScrollbarCharset::default(), ScrollbarCharset::block());
    assert_eq!(ScrollbarCharset::half_block().vertical_thumb, '▐');
}
