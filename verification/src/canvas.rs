//! Canvas policy: how the web backbuffer relates to the page.
//!
//! A game declares its policy through the window it already configures:
//!
//! - `fit_canvas_to_parent: false` is **pinned**. The render surface stays at
//!   the configured physical size on every display. On the web the glue
//!   sizes the canvas layout box to `physical / devicePixelRatio` and
//!   letterboxes it in the viewport with a CSS transform.
//! - `fit_canvas_to_parent: true` is **fit**. The canvas tracks its parent at
//!   device resolution and the glue leaves it alone. A scale factor override
//!   does not reduce the rendered pixel count on any platform; it only
//!   changes the logical size.

use vstd::prelude::*;

verus! {

/// The canvas policy derived from the primary window.
#[derive(Debug, Clone, Copy, PartialEq, Eq, Structural)]
pub enum CanvasPolicy {
    /// Backbuffer fixed at `width x height` physical pixels, letterboxed.
    Pinned { width: u32, height: u32 },
    /// Canvas tracks its parent element at device resolution.
    Fit,
}

/// The parts of a window configuration that the canvas policy reads and
/// writes.
#[derive(Debug, Clone, PartialEq, Eq)]
pub struct WindowConfig {
    pub title: String,
    pub physical_width: u32,
    pub physical_height: u32,
    /// CSS selector of the canvas the window renders into.
    pub canvas: Option<String>,
    pub fit_canvas_to_parent: bool,
    /// The window overrides the OS scale factor with 1.0, so logical and
    /// physical sizes agree.
    pub unit_scale_factor: bool,
}

/// The selector of the canvas every game renders into.
pub open spec fn game_canvas() -> Seq<char> {
    "#game"@
}

impl CanvasPolicy {
    /// The Gamebient fleet default: 720p, the Pi fill-rate budget.
    pub fn pinned_720p() -> (p: CanvasPolicy)
        ensures
            p == (CanvasPolicy::Pinned { width: 1280, height: 720 }),
    {
        CanvasPolicy::Pinned { width: 1280, height: 720 }
    }

    /// The policy a configured window asks for.
    pub open spec fn of_window(window: WindowConfig) -> CanvasPolicy {
        if window.fit_canvas_to_parent {
            CanvasPolicy::Fit
        } else {
            CanvasPolicy::Pinned { width: window.physical_width, height: window.physical_height }
        }
    }

    /// Reads the policy off a configured window.
    pub fn from_window(window: &WindowConfig) -> (p: CanvasPolicy)
        ensures
            p == Self::of_window(*window),
    {
        if window.fit_canvas_to_parent {
            CanvasPolicy::Fit
        } else {
            CanvasPolicy::Pinned { width: window.physical_width, height: window.physical_height }
        }
    }

    /// The policy of the primary window, or `Fit` when there is none (tests,
    /// headless tools), since there is then nothing to pin.
    pub fn from_primary_window(primary: Option<&WindowConfig>) -> (p: CanvasPolicy)
        ensures
            p == (match primary {
                Some(w) => Self::of_window(*w),
                None => CanvasPolicy::Fit,
            }),
    {
        match primary {
            Some(w) => Self::from_window(w),
            None => CanvasPolicy::Fit,
        }
    }

    /// `w` is the window this policy configures: titled `title`, rendering
    /// into `#game`, pinned at the policy's size (720p for `Fit`), fitting
    /// its parent exactly for `Fit`, and with the scale factor overridden to
    /// 1.0 only for a pinned window on the web.
    pub open spec fn configures(self, w: WindowConfig, title: String, on_web: bool) -> bool {
        &&& w.title == title
        &&& w.physical_width == (match self {
            CanvasPolicy::Pinned { width, height } => width,
            CanvasPolicy::Fit => 1280,
        })
        &&& w.physical_height == (match self {
            CanvasPolicy::Pinned { width, height } => height,
            CanvasPolicy::Fit => 720,
        })
        &&& w.canvas matches Some(c) && c@ == game_canvas()
        &&& w.fit_canvas_to_parent == (self == CanvasPolicy::Fit)
        &&& w.unit_scale_factor == (on_web && self != CanvasPolicy::Fit)
    }

    /// A window configured for this policy, targeting `#game`. A pinned
    /// window measures 720p for `Fit`. On the web (`on_web`) a pinned game
    /// runs with logical == physical so UI authored against the pinned
    /// height is 1:1; natively the OS scale factor is kept, since a 1.0
    /// override would shrink the window on a HiDPI desktop.
    pub fn window(self, title: String, on_web: bool) -> (w: WindowConfig)
        ensures
            self.configures(w, title, on_web),
    {
        let (width, height) = match self {
            CanvasPolicy::Pinned { width, height } => (width, height),
            CanvasPolicy::Fit => (1280, 720),
        };
        let fit = match self {
            CanvasPolicy::Pinned { .. } => false,
            CanvasPolicy::Fit => true,
        };
        WindowConfig {
            title,
            physical_width: width,
            physical_height: height,
            canvas: Some(String::from_str("#game")),
            fit_canvas_to_parent: fit,
            unit_scale_factor: on_web && !fit,
        }
    }
}

/// A window that fits its parent asks for `Fit`, whatever its size; any
/// other window is pinned at its own physical size.
pub proof fn lemma_policy_of_window(w: WindowConfig)
    ensures
        w.fit_canvas_to_parent ==> CanvasPolicy::of_window(w) == CanvasPolicy::Fit,
        !w.fit_canvas_to_parent ==> CanvasPolicy::of_window(w) == (CanvasPolicy::Pinned {
            width: w.physical_width,
            height: w.physical_height,
        }),
{
}

/// Reading the policy back off the window it configures gives the policy
/// again, on the web and natively, whatever the title.
pub proof fn lemma_window_round_trips(
    policy: CanvasPolicy,
    title: String,
    on_web: bool,
    w: WindowConfig,
)
    requires
        policy.configures(w, title, on_web),
    ensures
        CanvasPolicy::of_window(w) == policy,
{
}

} // verus!
