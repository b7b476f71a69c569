use tuidom::panic::CatchDepth;

#[test]
fn guard_nests_without_clearing_early() {
    let mut depth = CatchDepth::new();
    assert!(!depth.catching());
    {
        depth.enter();
        assert!(depth.catching());
        {
            depth.enter();
            assert!(depth.catching());
            depth.leave();
        }
        assert!(
            depth.catching(),
            "an inner guard ending must not unguard the outer callback"
        );
        depth.leave();
    }
    assert!(!depth.catching());
}

#[test]
fn leaving_more_than_entered_stays_unguarded() {
    let mut depth = CatchDepth::new();
    depth.leave();
    assert!(!depth.catching());
    depth.enter();
    assert!(depth.catching());
}
