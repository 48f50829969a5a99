//! The Gamebient control canon: one digital button set that every input
//! source is normalised to, the per-frame edge logic computed on the union of
//! those sources, the canon key and pad bindings, the canvas policy, and the
//! JSON messages of the ColecoVision GX host protocol.

pub mod buttons;
pub mod canvas;
pub mod host;
pub mod input;
pub mod json;
pub mod lists;
pub mod prelude;

pub use buttons::{Buttons, Edges, edges};
pub use canvas::{CanvasPolicy, WindowConfig};
pub use host::{GxConfig, HostCommand, HostEvent};
pub use input::{DigitalInput, InputFrame, VirtualInput};

use vstd::prelude::*;

verus! {

/// The plugin's configuration: the game's `gx:hello` description.
#[derive(Debug, Clone, PartialEq, Eq)]
pub struct GxInputPlugin {
    pub config: GxConfig,
}

impl Default for GxInputPlugin {
    fn default() -> (p: Self)
        ensures
            p.config.name@ == "Gamebient Game"@,
            p.config.aspect@ == "16:9"@,
            p.config.extra_host_origins@.len() == 0,
    {
        GxInputPlugin { config: GxConfig::default() }
    }
}

impl GxInputPlugin {
    /// Plugin with the given display name and default aspect.
    pub fn named(name: String) -> (p: Self)
        ensures
            p.config.name == name,
            p.config.aspect@ == "16:9"@,
            p.config.extra_host_origins@.len() == 0,
    {
        let defaults = GxConfig::default();
        GxInputPlugin {
            config: GxConfig { name, aspect: defaults.aspect, extra_host_origins: defaults.extra_host_origins },
        }
    }
}

} // verus!
