use vstd::prelude::*;

mod disassemble;
mod emulator;
mod error;
mod keyboard;
mod opcode;
mod platform;
mod registers;
mod utils;

pub use disassemble::{disassemble, Disassembler};
pub use emulator::{is_continue_key, Emulator, MachineState};
pub use error::EmulatorError;
pub use keyboard::Keyboard;
pub use platform::{HeadlessPlatform, Platform};
pub use opcode::{decode, encode, OpCode};
pub use registers::{Reg, Registers};
pub use utils::{bcd, stretch_u16};

verus! {

/// Width of the monochrome display, in pixels.
pub const DISPLAY_WIDTH: usize = 64;

/// Height of the monochrome display, in pixels.
pub const DISPLAY_HEIGHT: usize = 32;

}
