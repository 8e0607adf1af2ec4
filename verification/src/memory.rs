//! The 4096-byte store and what it holds before the first tick: the
//! built-in font and the program image.

use vstd::prelude::*;

verus! {

/// Bytes of addressable memory.
pub const MEMORY_SIZE: usize = 4096;

/// Address of the first glyph of the built-in font.
pub const FONT_OFFSET: usize = 0x050;

/// Address of the first instruction of a loaded program.
pub const INSTR_OFFSET: usize = 0x200;

/// Bytes of one glyph: five rows of pixels, four wide, in the high nibble.
pub const GLYPH_SIZE: usize = 5;

/// The glyphs of the sixteen hexadecimal digits, `0` first.
pub const FONT: [u8; 80] = [
    0xF0, 0x90, 0x90, 0x90, 0xF0,
    0x20, 0x60, 0x20, 0x20, 0x70,
    0xF0, 0x10, 0xF0, 0x80, 0xF0,
    0xF0, 0x10, 0xF0, 0x10, 0xF0,
    0x90, 0x90, 0xF0, 0x10, 0x10,
    0xF0, 0x80, 0xF0, 0x10, 0xF0,
    0xF0, 0x80, 0xF0, 0x90, 0xF0,
    0xF0, 0x10, 0x20, 0x40, 0x40,
    0xF0, 0x90, 0xF0, 0x90, 0xF0,
    0xF0, 0x90, 0xF0, 0x10, 0xF0,
    0xF0, 0x90, 0xF0, 0x90, 0x90,
    0xE0, 0x90, 0xE0, 0x90, 0xE0,
    0xF0, 0x80, 0x80, 0x80, 0xF0,
    0xE0, 0x90, 0x90, 0x90, 0xE0,
    0xF0, 0x80, 0xF0, 0x80, 0xF0,
    0xF0, 0x80, 0xF0, 0x80, 0x80,
];

/// The largest program image that fits behind the program offset.
pub open spec fn max_program_len() -> nat {
    (MEMORY_SIZE - INSTR_OFFSET) as nat
}

/// Memory before the first tick: the font at the font offset, `program` at
/// the program offset, zero everywhere else.
pub open spec fn initial_memory(program: Seq<u8>) -> Seq<u8> {
    Seq::new(
        MEMORY_SIZE as nat,
        |a: int|
            if FONT_OFFSET <= a < FONT_OFFSET + 80 {
                FONT[a - FONT_OFFSET]
            } else if INSTR_OFFSET <= a < INSTR_OFFSET + program.len() {
                program[a - INSTR_OFFSET]
            } else {
                0u8
            },
    )
}

/// Builds the memory that a machine starts from.
pub fn init_memory(program_bytes: Vec<u8>) -> (memory: [u8; 4096])
    requires
        program_bytes.len() <= max_program_len(),
    ensures
        memory@ == initial_memory(program_bytes@),
{
    let mut memory: [u8; 4096] = [0; 4096];
    let mut k: usize = 0;
    while k < 80
        invariant
            k <= 80,
            forall|a: int|
                0 <= a < 4096 ==> memory[a] == if FONT_OFFSET <= a < FONT_OFFSET + k {
                    FONT[a - FONT_OFFSET]
                } else {
                    0u8
                },
        decreases 80 - k,
    {
        memory[FONT_OFFSET + k] = FONT[k];
        k += 1;
    }
    let mut j: usize = 0;
    while j < program_bytes.len()
        invariant
            j <= program_bytes.len() <= max_program_len(),
            forall|a: int|
                0 <= a < 4096 ==> memory[a] == if FONT_OFFSET <= a < FONT_OFFSET + 80 {
                    FONT[a - FONT_OFFSET]
                } else if INSTR_OFFSET <= a < INSTR_OFFSET + j {
                    program_bytes[a - INSTR_OFFSET]
                } else {
                    0u8
                },
        decreases program_bytes.len() - j,
    {
        memory[INSTR_OFFSET + j] = program_bytes[j];
        j += 1;
    }
    memory
}

} // verus!
