//! A layout-aware keyboard map: for each physical key of a key table, the
//! character that the active keyboard layout gives it, plain and shifted.
//!
//! The map is built from a snapshot of the live keymap, in a layout group
//! that can type plain text, and from the table's own fallback characters
//! where the live keymap cannot be had. It is kept until a key event tells
//! of another group.

pub mod group;
pub mod layout;
pub mod live;
pub mod model;
pub mod platform;
pub mod shift;

pub use crate::live::{LiveKey, LiveKeymap};
pub use crate::model::{Key, KeyMapEntry, KeyboardMap};
pub use crate::platform::PlatformKeyboardMap;
