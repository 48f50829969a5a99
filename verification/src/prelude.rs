//! The items a game usually needs.

pub use crate::buttons::Buttons;
pub use crate::canvas::CanvasPolicy;
pub use crate::host::{GxConfig, HostCommand, HostEvent};
pub use crate::input::{DigitalInput, VirtualInput};
pub use crate::GxInputPlugin;
