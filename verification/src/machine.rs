//! The machine as a mathematical model, and the meaning of every
//! instruction and of a whole tick as functions on it.

use crate::display::{
    bitmap_shaped, blank, collides, drawn, flipped, relisted_all, touches, Bitmap, Pixel,
};
use crate::error::Chip8Error;
use crate::keypad::{any_key_down, lowest_down, released, KEY_COUNT};
use crate::memory::{initial_memory, FONT_OFFSET, GLYPH_SIZE, INSTR_OFFSET, MEMORY_SIZE};
use crate::opcode::{family, operand_n, operand_nn, operand_nnn, operand_x, operand_y};
use crate::quirks::{Quirks, Variant};
use crate::timers::{stepped, ticks_for, AudioSignal, DTimer, STimer};
use vstd::prelude::*;

verus! {

/// General registers, V0 to VF.
pub const REGISTER_COUNT: usize = 16;

/// The register that instructions use for carry, borrow, shifted-out bit
/// and collision.
pub const FLAG_REGISTER: usize = 0xF;

/// What the presentation surface is asked to do after a tick.
#[derive(Clone, Copy, Debug, PartialEq, Eq, Structural)]
pub enum ScreenUpdate {
    /// Nothing: the bitmap is as it was.
    Unchanged,
    /// Wipe the surface: the bitmap was cleared.
    Cleared,
    /// Paint the lit points anew: a sprite flipped pixels.
    Redrawn,
}

/// What a tick asks of the collaborators outside the machine.
#[derive(Clone, Copy, Debug, PartialEq, Eq, Structural)]
pub struct Frame {
    /// The request to the presentation surface.
    pub screen: ScreenUpdate,
    /// The request to the audio device.
    pub audio: AudioSignal,
}

/// Whether the table assigns 8xy`n` an operation.
pub open spec fn alu_assigned(n: u8) -> bool {
    n <= 0x7 || n == 0xE
}

/// Whether the operation 8xy`n` writes the flag register.
pub open spec fn alu_has_flag(n: u8) -> bool {
    0x4 <= n <= 0x7 || n == 0xE
}

/// What the operation 8xy`n` leaves in Vx, given the values of Vx and Vy
/// and the value that a shift works on: copy, or, and, exclusive or, sum,
/// Vx minus Vy, half, Vy minus Vx, double; sums, differences and doubles
/// modulo 256.
pub open spec fn alu_value(vx: u8, vy: u8, shifted: u8, n: u8) -> u8 {
    if n == 0x0 {
        vy
    } else if n == 0x1 {
        vx | vy
    } else if n == 0x2 {
        vx & vy
    } else if n == 0x3 {
        vx ^ vy
    } else if n == 0x4 {
        ((vx + vy) % 256) as u8
    } else if n == 0x5 {
        ((vx - vy) % 256) as u8
    } else if n == 0x6 {
        shifted / 2
    } else if n == 0x7 {
        ((vy - vx) % 256) as u8
    } else {
        ((shifted * 2) % 256) as u8
    }
}

/// What the operation 8xy`n` leaves in the flag register: the carry of the
/// sum, 1 where the minuend is the greater, the bit that the shift pushed
/// out.
pub open spec fn alu_flag(vx: u8, vy: u8, shifted: u8, n: u8) -> u8 {
    if n == 0x4 {
        if vx + vy > 255 {
            1
        } else {
            0
        }
    } else if n == 0x5 {
        if vx > vy {
            1
        } else {
            0
        }
    } else if n == 0x6 {
        shifted % 2
    } else if n == 0x7 {
        if vy > vx {
            1
        } else {
            0
        }
    } else {
        shifted / 128
    }
}

/// The state of the machine.
#[verifier::ext_equal]
pub struct Machine {
    /// The 4096 bytes of memory.
    pub memory: Seq<u8>,
    /// The bitmap, row by row.
    pub display: Bitmap,
    /// The lit points that the presentation surface shows, in the order in
    /// which they were lit.
    pub to_be_rendered: Seq<Pixel>,
    /// Address of the next instruction.
    pub program_counter: int,
    /// The index register I.
    pub i: u16,
    /// Return addresses of the pending calls, the latest last.
    pub stack: Seq<usize>,
    /// The delay timer.
    pub delay_timer: DTimer,
    /// The sound timer.
    pub sound_timer: STimer,
    /// The general registers V0 to VF.
    pub register: Seq<u8>,
    /// The keys held down during this tick.
    pub keypad: Seq<bool>,
    /// The instruction variants in force.
    pub quirks: Quirks,
}

impl Machine {
    /// Memory, bitmap, registers and keypad have their fixed sizes.
    pub open spec fn shaped(self) -> bool {
        &&& self.memory.len() == MEMORY_SIZE
        &&& bitmap_shaped(self.display)
        &&& self.register.len() == REGISTER_COUNT
        &&& self.keypad.len() == KEY_COUNT
    }

    /// The state between two ticks: shaped, with the program counter inside
    /// memory.
    pub open spec fn valid(self) -> bool {
        self.shaped() && 0 <= self.program_counter < MEMORY_SIZE
    }

    /// The state in which an instruction executes: shaped, with the program
    /// counter just past an instruction that lay inside memory.
    pub open spec fn fetched(self) -> bool {
        self.shaped() && 2 <= self.program_counter <= MEMORY_SIZE + 1
    }

    /// The machine before its first tick, loaded with `program`.
    pub open spec fn initial(program: Seq<u8>, quirks: Quirks) -> Machine {
        Machine {
            memory: initial_memory(program),
            display: blank(),
            to_be_rendered: Seq::empty(),
            program_counter: INSTR_OFFSET as int,
            i: 0,
            stack: Seq::empty(),
            delay_timer: DTimer { time: 0 },
            sound_timer: STimer { time: 0, playing: false },
            register: Seq::new(REGISTER_COUNT as nat, |k: int| 0u8),
            keypad: released(),
            quirks,
        }
    }

    /// The machine with register `x` holding `value`.
    pub open spec fn set_register(self, x: int, value: u8) -> Machine {
        Machine { register: self.register.update(x, value), ..self }
    }

    /// The machine with the flag register holding `value`.
    pub open spec fn set_flag(self, value: u8) -> Machine {
        self.set_register(FLAG_REGISTER as int, value)
    }

    /// The machine with the program counter at `address`.
    pub open spec fn set_pc(self, address: int) -> Machine {
        Machine { program_counter: address, ..self }
    }

    /// The machine with the index register holding `address`.
    pub open spec fn set_index(self, address: u16) -> Machine {
        Machine { i: address, ..self }
    }

    /// The machine past the next instruction if `condition` holds, else
    /// unchanged.
    pub open spec fn skip_if(self, condition: bool) -> Machine {
        if condition {
            self.set_pc(self.program_counter + 2)
        } else {
            self
        }
    }

    /// 00E0: every pixel unlit, and no point left to show.
    pub open spec fn clear_screen(self) -> Machine {
        Machine { display: blank(), to_be_rendered: Seq::empty(), ..self }
    }

    /// 00EE: the program counter is the latest return address, which
    /// leaves the stack.
    pub open spec fn return_from_subroutine(self) -> Machine {
        Machine {
            program_counter: self.stack.last() as int,
            stack: self.stack.drop_last(),
            ..self
        }
    }

    /// 2nnn: the program counter goes on the stack and then to `address`.
    pub open spec fn call_subroutine(self, address: u16) -> Machine {
        Machine {
            stack: self.stack.push(self.program_counter as usize),
            program_counter: address as int,
            ..self
        }
    }

    /// 8xy0 to 8xyE: the register-to-register operations. Operands are read
    /// first, then Vx is written, then the flag where the operation has
    /// one, so that the flag stands in VF even where `x` names VF.
    pub open spec fn alu(self, x: int, y: int, n: u8) -> Machine {
        let vx = self.register[x];
        let vy = self.register[y];
        let shifted = if self.quirks.shift == Variant::Legacy {
            vy
        } else {
            vx
        };
        if !alu_assigned(n) {
            self
        } else if alu_has_flag(n) {
            self.set_register(x, alu_value(vx, vy, shifted, n)).set_flag(
                alu_flag(vx, vy, shifted, n),
            )
        } else {
            self.set_register(x, alu_value(vx, vy, shifted, n))
        }
    }

    /// Bnnn: the program counter is `nnn` plus V0, or plus Vx in the modern
    /// variant.
    pub open spec fn jump_with_offset(self, opcode: u16) -> Machine {
        let offset = if self.quirks.jump == Variant::Legacy {
            self.register[0]
        } else {
            self.register[operand_x(opcode)]
        };
        self.set_pc(operand_nnn(opcode) + offset)
    }

    /// The `n` bytes of memory from the index register on.
    pub open spec fn sprite(self, n: u8) -> Seq<u8> {
        self.memory.subrange(self.i as int, self.i + n)
    }

    /// Dxyn: the sprite of `n` rows at the index register is drawn at
    /// column Vx mod 64 of row Vy mod 32, and VF tells whether a lit pixel
    /// was turned off. Each flipped pixel, in the order of the scan, leaves
    /// the list of lit points or is appended to it.
    pub open spec fn draw(self, x: int, y: int, n: u8) -> Machine {
        let x0 = self.register[x] as int % 64;
        let y0 = self.register[y] as int % 32;
        Machine {
            display: drawn(self.display, self.sprite(n), x0, y0),
            to_be_rendered: relisted_all(
                self.to_be_rendered,
                flipped(self.sprite(n), x0, y0, (8 * self.sprite(n).len()) as nat),
            ),
            register: self.register.update(
                FLAG_REGISTER as int,
                if collides(self.display, self.sprite(n), x0, y0) {
                    1u8
                } else {
                    0u8
                },
            ),
            ..self
        }
    }

    /// Fx1E: Vx is added to the index register, within sixteen bits and
    /// without masking to twelve; VF becomes 1 if the sum is past 0xFFF and
    /// is kept otherwise.
    pub open spec fn add_to_index(self, x: int) -> Machine {
        let sum = ((self.i + self.register[x]) % 0x10000) as u16;
        Machine {
            i: sum,
            register: if sum > 0xFFF {
                self.register.update(FLAG_REGISTER as int, 1u8)
            } else {
                self.register
            },
            ..self
        }
    }

    /// Fx0A: with no key held down the program counter goes back to this
    /// instruction; otherwise Vx is the first key held down.
    pub open spec fn wait_key(self, x: int) -> Machine {
        if any_key_down(self.keypad) {
            self.set_register(x, lowest_down(self.keypad) as u8)
        } else {
            self.set_pc(self.program_counter - 2)
        }
    }

    /// Fx33: hundreds, tens and ones of Vx at the index register and the
    /// two bytes after it.
    pub open spec fn store_bcd(self, x: int) -> Machine {
        let value = self.register[x];
        Machine {
            memory: self.memory.update(self.i as int, value / 100).update(
                self.i + 1,
                (value / 10) % 10,
            ).update(self.i + 2, value % 10),
            ..self
        }
    }

    /// The index register after a store or load of V0 to Vx: just past the
    /// last byte used in the legacy variant, unchanged in the modern one.
    pub open spec fn index_after_transfer(self, x: int) -> u16 {
        if self.quirks.store_load == Variant::Legacy {
            (self.i + x + 1) as u16
        } else {
            self.i
        }
    }

    /// Fx55: V0 to Vx in memory from the index register on.
    pub open spec fn store_registers(self, x: int) -> Machine {
        Machine {
            memory: Seq::new(
                self.memory.len(),
                |a: int|
                    if self.i <= a <= self.i + x {
                        self.register[a - self.i]
                    } else {
                        self.memory[a]
                    },
            ),
            i: self.index_after_transfer(x),
            ..self
        }
    }

    /// Fx65: V0 to Vx from memory from the index register on.
    pub open spec fn load_registers(self, x: int) -> Machine {
        Machine {
            register: Seq::new(
                self.register.len(),
                |k: int|
                    if k <= x {
                        self.memory[self.i + k]
                    } else {
                        self.register[k]
                    },
            ),
            i: self.index_after_transfer(x),
            ..self
        }
    }

    /// Ex9E and ExA1: the next instruction is skipped if the key that Vx
    /// names is held down, or is not.
    pub open spec fn key_skip(self, x: int, nn: u8) -> Machine {
        let down = self.keypad[self.register[x] as int];
        if nn == 0x9E {
            self.skip_if(down)
        } else if nn == 0xA1 {
            self.skip_if(!down)
        } else {
            self
        }
    }

    /// Fx07 to Fx65: timers, index register, key wait, font, decimal
    /// digits, register store and load.
    pub open spec fn misc(self, x: int, nn: u8) -> Machine {
        let vx = self.register[x];
        if nn == 0x07 {
            self.set_register(x, (self.delay_timer.time % 256) as u8)
        } else if nn == 0x15 {
            Machine { delay_timer: DTimer { time: ticks_for(vx as nat) as u32 }, ..self }
        } else if nn == 0x18 {
            Machine {
                sound_timer: STimer { time: ticks_for(vx as nat) as u32, ..self.sound_timer },
                ..self
            }
        } else if nn == 0x1E {
            self.add_to_index(x)
        } else if nn == 0x0A {
            self.wait_key(x)
        } else if nn == 0x29 {
            self.set_index((FONT_OFFSET + GLYPH_SIZE * vx) as u16)
        } else if nn == 0x33 {
            self.store_bcd(x)
        } else if nn == 0x55 {
            self.store_registers(x)
        } else if nn == 0x65 {
            self.load_registers(x)
        } else {
            self
        }
    }

    /// The fault that `opcode` causes in this state, if any. A fault stops
    /// the instruction before it changes anything.
    pub open spec fn fault(self, opcode: u16) -> Option<Chip8Error> {
        let f = family(opcode);
        let x = operand_x(opcode);
        let nn = operand_nn(opcode);
        if f == 0x0 && operand_nnn(opcode) == 0x0EE && self.stack.len() == 0 {
            Some(Chip8Error::StackUnderflow)
        } else if f == 0xD && self.i + operand_n(opcode) > MEMORY_SIZE {
            Some(Chip8Error::AddressOutOfBounds)
        } else if f == 0xE && (nn == 0x9E || nn == 0xA1) && self.register[x] >= KEY_COUNT {
            Some(Chip8Error::KeyOutOfRange)
        } else if f == 0xF && nn == 0x33 && self.i + 2 >= MEMORY_SIZE {
            Some(Chip8Error::AddressOutOfBounds)
        } else if f == 0xF && (nn == 0x55 || nn == 0x65) && self.i + x >= MEMORY_SIZE {
            Some(Chip8Error::AddressOutOfBounds)
        } else {
            None
        }
    }

    /// The machine after `opcode` has run, the program counter standing
    /// past it already. `random` is the byte that Cxnn masks. Opcodes that
    /// the table does not assign change nothing.
    pub open spec fn execute(self, opcode: u16, random: u8) -> Machine {
        let f = family(opcode);
        let x = operand_x(opcode);
        let y = operand_y(opcode);
        let nnn = operand_nnn(opcode);
        let nn = operand_nn(opcode);
        let n = operand_n(opcode);
        let vx = self.register[x];
        let vy = self.register[y];
        if f == 0x0 {
            if nnn == 0x0E0 {
                self.clear_screen()
            } else if nnn == 0x0EE {
                self.return_from_subroutine()
            } else {
                self
            }
        } else if f == 0x1 {
            self.set_pc(nnn as int)
        } else if f == 0x2 {
            self.call_subroutine(nnn)
        } else if f == 0x3 {
            self.skip_if(vx == nn)
        } else if f == 0x4 {
            self.skip_if(vx != nn)
        } else if f == 0x5 {
            self.skip_if(vx == vy)
        } else if f == 0x6 {
            self.set_register(x, nn)
        } else if f == 0x7 {
            self.set_register(x, ((vx + nn) % 256) as u8)
        } else if f == 0x8 {
            self.alu(x, y, n)
        } else if f == 0x9 {
            self.skip_if(vx != vy)
        } else if f == 0xA {
            self.set_index(nnn)
        } else if f == 0xB {
            self.jump_with_offset(opcode)
        } else if f == 0xC {
            self.set_register(x, random & nn)
        } else if f == 0xD {
            self.draw(x, y, n)
        } else if f == 0xE {
            self.key_skip(x, nn)
        } else {
            self.misc(x, nn)
        }
    }

    /// What `opcode` asks of the presentation surface.
    pub open spec fn screen_update(self, opcode: u16) -> ScreenUpdate {
        let x0 = self.register[operand_x(opcode)] as int % 64;
        let y0 = self.register[operand_y(opcode)] as int % 32;
        if family(opcode) == 0x0 && operand_nnn(opcode) == 0x0E0 {
            ScreenUpdate::Cleared
        } else if family(opcode) == 0xD && touches(self.sprite(operand_n(opcode)), x0, y0) {
            ScreenUpdate::Redrawn
        } else {
            ScreenUpdate::Unchanged
        }
    }

    /// The instruction word at the program counter: two bytes, the high
    /// one first.
    pub open spec fn current_opcode(self) -> u16 {
        (self.memory[self.program_counter] * 256 + self.memory[self.program_counter + 1]) as u16
    }

    /// The machine with the program counter past the current instruction.
    pub open spec fn advanced(self) -> Machine {
        self.set_pc(self.program_counter + 2)
    }

    /// The machine with a program counter at or past the end of memory
    /// taken back to the program offset.
    pub open spec fn wrapped(self) -> Machine {
        if self.program_counter >= MEMORY_SIZE {
            self.set_pc(INSTR_OFFSET as int)
        } else {
            self
        }
    }

    /// The machine with both timers one tick further and no key held down.
    pub open spec fn end_of_tick(self) -> Machine {
        Machine {
            delay_timer: DTimer { time: stepped(self.delay_timer.time as nat) as u32 },
            sound_timer: self.sound_timer.after_tick(),
            keypad: released(),
            ..self
        }
    }

    /// The fault that the next tick causes, if any: an instruction word
    /// that does not lie inside memory, or the fault of the instruction.
    pub open spec fn tick_fault(self) -> Option<Chip8Error> {
        if self.program_counter + 1 >= MEMORY_SIZE {
            Some(Chip8Error::AddressOutOfBounds)
        } else {
            self.advanced().fault(self.current_opcode())
        }
    }

    /// The machine after fetch, advance, execution and wrap.
    pub open spec fn after_instruction(self, random: u8) -> Machine {
        self.advanced().execute(self.current_opcode(), random).wrapped()
    }

    /// The machine after one whole tick.
    pub open spec fn tick(self, random: u8) -> Machine {
        self.after_instruction(random).end_of_tick()
    }

    /// What one whole tick asks of the collaborators.
    pub open spec fn tick_frame(self, random: u8) -> Frame {
        Frame {
            screen: self.advanced().screen_update(self.current_opcode()),
            audio: self.after_instruction(random).sound_timer.signal(),
        }
    }

    /// Whether the next instruction masks a random byte.
    pub open spec fn draws_random(self) -> bool {
        family(self.current_opcode()) == 0xC
    }
}

} // verus!
