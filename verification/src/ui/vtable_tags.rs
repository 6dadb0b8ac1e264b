//! Type tags of the entity kinds.

use vstd::prelude::*;

verus! {

/// The root entity.
pub const ROOT: u16 = 0x9CE2;

/// A plain rectangle.
pub const RECT_BASE: u16 = 0x9D26;

/// An interactive rectangle.
pub const RECT_INTERACTIVE: u16 = 0x9D6A;

/// A viewport.
pub const VIEWPORT: u16 = 0x9D82;

/// A window.
pub const WINDOW: u16 = 0xA426;

/// A button.
pub const BUTTON: u16 = 0x9F0A;

/// A scrollbar.
pub const SCROLLBAR: u16 = 0xA31E;

/// A text control.
pub const TEXT: u16 = 0x9F0E;

} // verus!
