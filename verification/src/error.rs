//! The faults a program or a loader can cause.

use vstd::prelude::*;

verus! {

/// Why the machine refused to be built or to run an instruction.
#[derive(Clone, Copy, Debug, PartialEq, Eq, Structural)]
pub enum Chip8Error {
    /// The program image does not fit between the program offset and the
    /// end of memory.
    ProgramTooLarge,
    /// A return instruction found no pending call on the stack.
    StackUnderflow,
    /// An instruction fetch or a memory operand reaches past the last byte
    /// of memory.
    AddressOutOfBounds,
    /// A key instruction names a key that the sixteen-key keypad lacks.
    KeyOutOfRange,
}

impl Chip8Error {
    /// A short description of the fault for messages to a user.
    pub fn message(&self) -> (text: &'static str)
        ensures
            text@ == match *self {
                Chip8Error::ProgramTooLarge => "program does not fit in memory"@,
                Chip8Error::StackUnderflow => "return with an empty call stack"@,
                Chip8Error::AddressOutOfBounds => "memory access out of bounds"@,
                Chip8Error::KeyOutOfRange => "key index out of range"@,
            },
    {
        match self {
            Chip8Error::ProgramTooLarge => "program does not fit in memory",
            Chip8Error::StackUnderflow => "return with an empty call stack",
            Chip8Error::AddressOutOfBounds => "memory access out of bounds",
            Chip8Error::KeyOutOfRange => "key index out of range",
        }
    }
}

} // verus!
