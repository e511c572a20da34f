//! The options the program is started with.
use vstd::prelude::*;

verus! {

/// What the command line asks for.
#[derive(Debug, Clone, PartialEq, Eq)]
pub struct Args {
    /// Emulate original hardware behaviour.
    pub original_behaviour: bool,
    /// Display current framerate.
    pub show_fps: bool,
    /// Enable using the ESC key to exit.
    pub esc_quits: bool,
    /// Path to a CHIP-8 ROM file.
    pub rom_path: String,
}

} // verus!
