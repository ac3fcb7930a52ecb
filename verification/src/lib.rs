use vstd::prelude::*;

pub mod cartridge;
pub mod cpu;
pub mod cpu_properties;
pub mod interrupt;
pub mod memory;
pub mod ppu;
pub mod registers;
pub mod util;
pub mod video;

verus! {

/// The scale of the window that shows the screen.
pub const SCALE_FACTOR: u32 = 3;

/// The screen is 160 pixels wide and 144 high.
pub const DISPLAY_WIDTH: u32 = 160;

pub const DISPLAY_HEIGHT: u32 = 144;

} // verus!
