//! A CHIP-8 virtual machine: instruction interpreter, display bitmap,
//! keypad snapshot and countdown timers.

pub mod context;
pub mod display;
pub mod error;
pub mod keypad;
pub mod laws;
pub mod machine;
pub mod memory;
pub mod opcode;
pub mod quirks;
pub mod random;
pub mod timers;

pub use context::Chip8Context;
pub use display::{
    Display, DrawOutcome, Pixel, Renderer, DISPLAY_HEIGHT, DISPLAY_WIDTH, LOGICAL_WINDOW_SIZE,
    WINDOW_SIZE,
};
pub use error::Chip8Error;
pub use keypad::{first_key_down, press_keys, Key, KEY_COUNT};
pub use machine::{Frame, ScreenUpdate, FLAG_REGISTER, REGISTER_COUNT};
pub use memory::{init_memory, FONT, FONT_OFFSET, GLYPH_SIZE, INSTR_OFFSET, MEMORY_SIZE};
pub use opcode::bit_i;
pub use quirks::{Quirks, Variant};
pub use timers::{duration_to_ticks, AudioSignal, DTimer, STimer, TARGET_IPS};
