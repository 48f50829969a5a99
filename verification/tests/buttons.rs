use gamebient_input::buttons::{edges, Buttons};

#[test]
fn bit_layout_is_the_protocol_layout() {
    assert_eq!(Buttons::up().0, 1);
    assert_eq!(Buttons::down().0, 2);
    assert_eq!(Buttons::left().0, 4);
    assert_eq!(Buttons::right().0, 8);
    assert_eq!(Buttons::a().0, 16);
    assert_eq!(Buttons::b().0, 32);
    assert_eq!(Buttons::start().0, 64);
    assert_eq!(Buttons::select().0, 128);
    assert_eq!(Buttons::pause().0, 256);
    assert_eq!(Buttons::all().0, 511);
}

#[test]
fn press_hold_release_edges() {
    let e = edges(Buttons::none(), Buttons::a(), Buttons::none());
    assert_eq!(e.just_pressed, Buttons::a());
    assert_eq!(e.held, Buttons::a());
    assert!(e.just_released.is_empty());

    let e = edges(Buttons::a(), Buttons::a(), Buttons::none());
    assert!(e.just_pressed.is_empty());
    assert_eq!(e.held, Buttons::a());

    let e = edges(Buttons::a(), Buttons::none(), Buttons::none());
    assert!(e.just_pressed.is_empty());
    assert_eq!(e.just_released, Buttons::a());
    assert!(e.held.is_empty());
}

#[test]
fn sub_frame_tap_counts_via_latch() {
    // Pressed and released between two polls: current is empty but the
    // source latched it.
    let e = edges(Buttons::none(), Buttons::none(), Buttons::b());
    assert_eq!(e.just_pressed, Buttons::b());
    assert!(e.held.is_empty());
    assert!(e.just_released.is_empty());
}

#[test]
fn latch_does_not_repeat_a_button_already_held() {
    let e = edges(Buttons::a(), Buttons::a(), Buttons::a());
    assert!(e.just_pressed.is_empty());
}

#[test]
fn release_only_when_no_source_holds_it() {
    // Keyboard released Z while the gamepad still holds South: the union
    // stays held, so no release edge.
    let e = edges(Buttons::a(), Buttons::a(), Buttons::none());
    assert!(e.just_released.is_empty());
}

#[test]
fn unknown_bits_are_masked() {
    let e = edges(
        Buttons::none(),
        Buttons(1 << 20 | Buttons::up().0),
        Buttons(1 << 30),
    );
    assert_eq!(e.held, Buttons::up());
    assert_eq!(e.just_pressed, Buttons::up());
}

#[test]
fn set_operations_follow_the_bits() {
    let ab = Buttons::a() | Buttons::b();
    assert_eq!(ab.0, 48);
    assert_eq!(Buttons::a().union(Buttons::b()), ab);
    assert_eq!(ab.difference(Buttons::a()), Buttons::b());
    assert!(ab.contains(Buttons::b()));
    assert!(ab.contains(Buttons::b() | Buttons::start()));
    assert!(!ab.contains(Buttons::start()));
    assert!(Buttons::none().is_empty());
    assert!(!ab.is_empty());
    assert_eq!(Buttons(0xffff_ffff).sanitized(), Buttons::all());
    let mut x = Buttons::up();
    x |= Buttons::pause();
    assert_eq!(x.0, 257);
}

#[test]
fn press_and_release_never_overlap_and_steady_hold_is_quiet() {
    let prev = Buttons::a() | Buttons::left();
    let cur = Buttons::b() | Buttons::left();
    let e = edges(prev, cur, Buttons::start());
    assert_eq!(e.just_pressed, Buttons::b() | Buttons::start());
    assert_eq!(e.just_released, Buttons::a());
    assert_eq!(e.just_pressed.0 & e.just_released.0, 0);
    // The next frame with the same held set has no edges.
    let e2 = edges(e.held, cur, Buttons::none());
    assert!(e2.just_pressed.is_empty() && e2.just_released.is_empty());
    assert_eq!(e2.held, e.held);
    // Letting go releases exactly what was held.
    let e3 = edges(e2.held, Buttons::none(), Buttons::none());
    assert_eq!(e3.just_released, cur);
}
