//! Decoding of the 16-bit instruction word into its nibbles and operands.

use vstd::prelude::*;

verus! {

/// The `i`-th nibble of an instruction word, counted from the most
/// significant one (`i == 0`) to the least significant one (`i == 3`).
pub open spec fn nibble(word: u16, i: int) -> int {
    if i == 0 {
        word as int / 4096
    } else if i == 1 {
        (word as int / 256) % 16
    } else if i == 2 {
        (word as int / 16) % 16
    } else {
        word as int % 16
    }
}

/// The top nibble, which names the instruction family.
pub open spec fn family(opcode: u16) -> int {
    nibble(opcode, 0)
}

/// The second nibble: the register operand `x`.
pub open spec fn operand_x(opcode: u16) -> int {
    nibble(opcode, 1)
}

/// The third nibble: the register operand `y`.
pub open spec fn operand_y(opcode: u16) -> int {
    nibble(opcode, 2)
}

/// The low twelve bits: the address operand `nnn`.
pub open spec fn operand_nnn(opcode: u16) -> u16 {
    (opcode % 4096) as u16
}

/// The low byte: the immediate operand `nn`.
pub open spec fn operand_nn(opcode: u16) -> u8 {
    (opcode % 256) as u8
}

/// The low nibble: the operand `n`.
pub open spec fn operand_n(opcode: u16) -> u8 {
    (opcode % 16) as u8
}

/// Extracts the `i`-th nibble of `byte`, most significant first.
pub fn bit_i(byte: u16, i: u16) -> (r: u8)
    requires
        i <= 3,
    ensures
        r as int == nibble(byte, i as int),
        r < 16,
{
    assert((byte >> 12u16) & 0xF == byte / 4096) by (bit_vector);
    assert((byte >> 8u16) & 0xF == (byte / 256) % 16) by (bit_vector);
    assert((byte >> 4u16) & 0xF == (byte / 16) % 16) by (bit_vector);
    assert((byte >> 0u16) & 0xF == byte % 16) by (bit_vector);
    ((byte >> (12 - i * 4)) & 0xF) as u8
}

} // verus!
