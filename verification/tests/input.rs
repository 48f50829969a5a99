use gamebient_input::buttons::{edges, Buttons};
use gamebient_input::input::{
    collect_edges, derive_digital, map_gamepad, map_keys, CanonKey, InputFrame, PadButton,
    VirtualInput,
};

fn key_name(k: CanonKey) -> &'static str {
    match k {
        CanonKey::ArrowUp => "ArrowUp",
        CanonKey::KeyW => "KeyW",
        CanonKey::ArrowDown => "ArrowDown",
        CanonKey::KeyS => "KeyS",
        CanonKey::ArrowLeft => "ArrowLeft",
        CanonKey::KeyA => "KeyA",
        CanonKey::ArrowRight => "ArrowRight",
        CanonKey::KeyD => "KeyD",
        CanonKey::KeyZ => "KeyZ",
        CanonKey::Space => "Space",
        CanonKey::KeyX => "KeyX",
        CanonKey::ShiftLeft => "ShiftLeft",
        CanonKey::ShiftRight => "ShiftRight",
        CanonKey::Enter => "Enter",
        CanonKey::Escape => "Escape",
    }
}

/// The buttons for a keyboard with the named keys down.
fn keys(set: &[&str]) -> Buttons {
    map_keys(|k| set.contains(&key_name(k)))
}

fn pad(set: &[PadButton]) -> Buttons {
    map_gamepad(|b| set.contains(&b))
}

#[test]
fn keyboard_canon() {
    assert_eq!(keys(&["KeyZ"]), Buttons::a());
    assert_eq!(keys(&["Space"]), Buttons::a());
    assert_eq!(keys(&["KeyX"]), Buttons::b());
    assert_eq!(keys(&["ShiftLeft"]), Buttons::b());
    assert_eq!(keys(&["Enter"]), Buttons::start());
    assert_eq!(keys(&["Escape"]), Buttons::pause());
    assert_eq!(keys(&["ArrowLeft", "KeyW"]), Buttons::left() | Buttons::up());
    assert!(keys(&["KeyQ"]).is_empty());
}

#[test]
fn gamepad_canon_with_dragonrise_pairing() {
    assert_eq!(pad(&[PadButton::South]), Buttons::a());
    assert_eq!(pad(&[PadButton::North]), Buttons::a());
    assert_eq!(pad(&[PadButton::West]), Buttons::b());
    assert_eq!(pad(&[PadButton::East]), Buttons::b());
    assert_eq!(pad(&[PadButton::Start]), Buttons::pause());
    assert_eq!(pad(&[PadButton::Select]), Buttons::select());
    assert_eq!(pad(&[PadButton::DPadRight, PadButton::DPadDown]), Buttons::right() | Buttons::down());
}

#[test]
fn keyboard_and_pad_cover_every_canon_binding() {
    assert_eq!(keys(&["ArrowUp"]), Buttons::up());
    assert_eq!(keys(&["KeyS"]), Buttons::down());
    assert_eq!(keys(&["ArrowDown"]), Buttons::down());
    assert_eq!(keys(&["KeyA"]), Buttons::left());
    assert_eq!(keys(&["KeyD"]), Buttons::right());
    assert_eq!(keys(&["ArrowRight"]), Buttons::right());
    assert_eq!(keys(&["ShiftRight"]), Buttons::b());
    assert_eq!(keys(&[]), Buttons::none());
    assert_eq!(
        keys(&[
            "ArrowUp", "KeyW", "ArrowDown", "KeyS", "ArrowLeft", "KeyA", "ArrowRight", "KeyD",
            "KeyZ", "Space", "KeyX", "ShiftLeft", "ShiftRight", "Enter", "Escape"
        ]),
        Buttons(Buttons::all().0 & !Buttons::select().0)
    );
    assert_eq!(pad(&[PadButton::DPadUp]), Buttons::up());
    assert_eq!(pad(&[PadButton::DPadLeft]), Buttons::left());
    assert_eq!(
        pad(&[PadButton::DPadUp, PadButton::DPadDown, PadButton::DPadLeft, PadButton::DPadRight, PadButton::South, PadButton::North, PadButton::West, PadButton::East, PadButton::Select, PadButton::Start]),
        Buttons(Buttons::all().0 & !Buttons::start().0)
    );
}

#[test]
fn derive_actions_and_confirm() {
    let e = edges(Buttons::none(), Buttons::a(), Buttons::none());
    let g = derive_digital(e);
    assert!(
        g.primary_just_pressed
            && g.primary_held
            && g.confirm_just_pressed
            && g.any_just_pressed
    );
    assert!(!g.secondary_just_pressed && !g.pause_just_pressed);

    let g = derive_digital(edges(Buttons::none(), Buttons::start(), Buttons::none()));
    assert!(g.start_just_pressed && g.confirm_just_pressed);

    let g = derive_digital(edges(Buttons::none(), Buttons::pause(), Buttons::none()));
    assert!(g.pause_just_pressed && !g.confirm_just_pressed);

    let g = derive_digital(edges(Buttons::a(), Buttons::none(), Buttons::none()));
    assert!(g.primary_just_released && !g.primary_held && !g.any_just_pressed);
}

#[test]
fn derive_digital_axes() {
    let g = derive_digital(edges(Buttons::none(), Buttons::right() | Buttons::up(), Buttons::none()));
    assert_eq!((g.move_x, g.move_y), (1, 1));
    let g = derive_digital(edges(Buttons::none(), Buttons::left() | Buttons::down(), Buttons::none()));
    assert_eq!((g.move_x, g.move_y), (-1, -1));
    let g = derive_digital(edges(
        Buttons::none(),
        Buttons::left() | Buttons::right(),
        Buttons::none(),
    ));
    assert_eq!((g.move_x, g.move_y), (0, 0));
    let g = derive_digital(edges(Buttons::none(), Buttons::select(), Buttons::b()));
    assert!(g.select_just_pressed && g.secondary_just_pressed && g.confirm_just_pressed);
    assert!(!g.secondary_held && !g.secondary_just_released);
    assert_eq!(g.edges.just_pressed, Buttons::select() | Buttons::b());
}

#[test]
fn virtual_set_held_latches_new_presses_only() {
    let mut v = VirtualInput::default();
    v.set_held(Buttons::a());
    assert_eq!(v.latched, Buttons::a());
    v.latched = Buttons::none();
    v.set_held(Buttons::a() | Buttons::b());
    assert_eq!(v.latched, Buttons::b());
    v.set_held(Buttons::none());
    assert_eq!(v.latched, Buttons::b());
}

#[test]
fn virtual_record_poll_and_take() {
    let mut v = VirtualInput::default();
    v.record_poll(Buttons::left(), Buttons::start());
    assert_eq!(v.held, Buttons::left());
    assert_eq!(v.latched, Buttons::left() | Buttons::start());
    assert_eq!(v.take_latched(), Buttons::left() | Buttons::start());
    assert!(v.latched.is_empty());
    assert_eq!(v.held, Buttons::left());
}

#[test]
fn collect_input_runs_in_an_app_and_consumes_the_virtual_latch() {
    let mut virt = VirtualInput::default();
    let mut frame = InputFrame::new();
    let none: Vec<Buttons> = Vec::new();

    // A sub-frame tap arrives from the virtual source.
    virt.latched = Buttons::start();
    let g = derive_digital(collect_edges(&none, &none, &mut virt, &mut frame));
    assert!(g.start_just_pressed && g.confirm_just_pressed);
    assert!(virt.latched.is_empty());

    // Next frame: nothing held, no repeat.
    let g = derive_digital(collect_edges(&none, &none, &mut virt, &mut frame));
    assert!(!g.start_just_pressed && !g.any_just_pressed);

    // Held virtual A across frames: one press edge, then held.
    virt.set_held(Buttons::a());
    let g = derive_digital(collect_edges(&none, &none, &mut virt, &mut frame));
    assert!(g.primary_just_pressed);
    let g = derive_digital(collect_edges(&none, &none, &mut virt, &mut frame));
    assert!(g.primary_held && !g.primary_just_pressed);
}

#[test]
fn collect_unions_every_source_and_releases_only_when_none_holds() {
    let mut virt = VirtualInput::default();
    let mut frame = InputFrame::new();
    // Keyboard holds A, a pad holds A too.
    let e = collect_edges(
        &vec![Buttons::a(), Buttons::a() | Buttons::up()],
        &vec![Buttons::a(), Buttons::none()],
        &mut virt,
        &mut frame,
    );
    assert_eq!(e.held, Buttons::a() | Buttons::up());
    assert_eq!(e.just_pressed, Buttons::a() | Buttons::up());
    assert_eq!(frame.prev(), e.held);
    // The keyboard lets go; the pad still holds A: no release of A.
    let e = collect_edges(
        &vec![Buttons::none(), Buttons::a()],
        &vec![Buttons::none(), Buttons::none()],
        &mut virt,
        &mut frame,
    );
    assert!(e.just_released == Buttons::up());
    assert_eq!(e.held, Buttons::a());
}
