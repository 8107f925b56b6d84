//! Clipboard HUD core: the text truncation algorithm that fits clipboard
//! text into a fixed display area, and the state machine that drives the
//! transient overlay (show on clipboard change, auto-hide after a delay).

use vstd::prelude::*;

pub mod hud;
pub mod truncate;

verus! {

/// Display policy: maximum characters per visual line.
pub const HUD_MAX_WIDTH: usize = 100;

/// Display policy: maximum number of visual lines.
pub const HUD_MAX_LINES: usize = 5;

} // verus!
