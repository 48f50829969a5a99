use gamebient_input::canvas::{CanvasPolicy, WindowConfig};

fn default_window() -> WindowConfig {
    WindowConfig {
        title: "App".to_string(),
        physical_width: 1280,
        physical_height: 720,
        canvas: None,
        fit_canvas_to_parent: false,
        unit_scale_factor: false,
    }
}

#[test]
fn policy_follows_the_window_config() {
    let pinned = WindowConfig {
        fit_canvas_to_parent: false,
        physical_width: 1280,
        physical_height: 720,
        ..default_window()
    };
    assert_eq!(
        CanvasPolicy::from_window(&pinned),
        CanvasPolicy::pinned_720p()
    );

    let fit = WindowConfig {
        fit_canvas_to_parent: true,
        ..default_window()
    };
    assert_eq!(CanvasPolicy::from_window(&fit), CanvasPolicy::Fit);
}

#[test]
fn window_round_trips_and_targets_the_game_canvas() {
    for policy in [
        CanvasPolicy::pinned_720p(),
        CanvasPolicy::Pinned {
            width: 960,
            height: 540,
        },
        CanvasPolicy::Fit,
    ] {
        for on_web in [false, true] {
            let window = policy.window("Test".to_string(), on_web);
            assert_eq!(CanvasPolicy::from_window(&window), policy);
            assert_eq!(window.canvas.as_deref(), Some("#game"));
            assert_eq!(window.title, "Test");
        }
    }
    // Native never overrides the OS scale factor (a 1.0 override would
    // shrink the window to half size on a HiDPI desktop).
    assert!(!CanvasPolicy::pinned_720p().window("t".to_string(), false).unit_scale_factor);
}

#[test]
fn only_a_pinned_web_window_overrides_the_scale_factor() {
    assert!(CanvasPolicy::pinned_720p().window("t".to_string(), true).unit_scale_factor);
    assert!(!CanvasPolicy::Fit.window("t".to_string(), true).unit_scale_factor);
    let w = CanvasPolicy::Fit.window("t".to_string(), false);
    assert_eq!((w.physical_width, w.physical_height), (1280, 720));
    assert!(w.fit_canvas_to_parent);
    let w = CanvasPolicy::Pinned { width: 960, height: 540 }.window("t".to_string(), true);
    assert_eq!((w.physical_width, w.physical_height), (960, 540));
    assert!(!w.fit_canvas_to_parent);
}

#[test]
fn primary_window_policy_defaults_to_fit() {
    assert_eq!(CanvasPolicy::from_primary_window(None), CanvasPolicy::Fit);
    let pinned = CanvasPolicy::pinned_720p().window("t".to_string(), false);
    assert_eq!(
        CanvasPolicy::from_primary_window(Some(&pinned)),
        CanvasPolicy::pinned_720p()
    );
}
