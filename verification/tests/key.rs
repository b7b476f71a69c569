use tuidom::event::KeyModifiers;

#[test]
fn modifier_set_operations() {
    let both = KeyModifiers::control() | KeyModifiers::shift();

    assert!(both.contains(KeyModifiers::control()));
    assert!(both.intersects(KeyModifiers::shift() | KeyModifiers::alt()));
    assert!(!both.contains(KeyModifiers::control() | KeyModifiers::alt()));
    assert_eq!(both.without(KeyModifiers::shift()), KeyModifiers::control());
    assert!(KeyModifiers::empty().is_empty());
}

#[test]
fn modifiers_from_flags_and_union() {
    let mods = KeyModifiers::from_flags(true, false, true);
    assert_eq!(mods, KeyModifiers::shift() | KeyModifiers::alt());
    assert_eq!(
        KeyModifiers::shift().union(KeyModifiers::control()),
        KeyModifiers::from_flags(true, true, false)
    );
    assert!(KeyModifiers::from_flags(false, false, false).is_empty());
    assert_eq!(KeyModifiers::default(), KeyModifiers::empty());
}

#[test]
fn empty_means_no_modifier_held() {
    assert!(KeyModifiers::empty().is_empty());
    assert!(!KeyModifiers::shift().is_empty());
    let none = KeyModifiers::from_flags(false, false, false);
    assert!(none.is_empty());
    assert_eq!(none, KeyModifiers::empty());
    let all = KeyModifiers::from_flags(true, true, true);
    assert!(all.contains(KeyModifiers::shift()) && all.contains(KeyModifiers::control()) && all.contains(KeyModifiers::alt()));
    assert!(all.without(all).is_empty());
}
