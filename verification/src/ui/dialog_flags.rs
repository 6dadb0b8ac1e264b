//! Flag bits that select a dialog's variant.

use vstd::prelude::*;

verus! {

/// Selection mode: the chosen index is looked up in the mapping table.
pub const SELECTION: u8 = 0x01;

/// Show a cancel button.
pub const CANCEL: u8 = 0x02;

/// Show a confirm button.
pub const CONFIRM: u8 = 0x04;

/// Show yes and no buttons.
pub const YES_NO: u8 = 0x08;

/// Draw no shadow.
pub const NO_SHADOW: u8 = 0x10;

/// Return at once, without waiting for input.
pub const DIRECT_RETURN: u8 = 0x20;

} // verus!
