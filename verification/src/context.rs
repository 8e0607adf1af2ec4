//! The interpreter: the machine's state in executable form and the
//! fetch, decode and execute cycle that drives it.

use crate::display::{in_frame, touches, Display};
use crate::error::Chip8Error;
use crate::keypad::{first_key_down, press_keys, pressed, Key, KEY_COUNT};
use crate::machine::{
    alu_assigned, alu_flag, alu_has_flag, alu_value, Frame, Machine, ScreenUpdate, FLAG_REGISTER,
    REGISTER_COUNT,
};
use crate::memory::{init_memory, max_program_len, FONT_OFFSET, INSTR_OFFSET, MEMORY_SIZE};
use crate::opcode::{bit_i, family};
use crate::quirks::{Quirks, Variant};
use crate::random::sample_range;
use crate::timers::{duration_to_ticks, lemma_ticks_for, ticks_for, DTimer, STimer};
use rand::rngs::StdRng;
use vstd::prelude::*;

verus! {

/// Computes what the operation 8xy`n` leaves in Vx and, where it has one,
/// in the flag register; `None` where the table assigns no operation.
fn alu_values(vx: u8, vy: u8, shifted: u8, n: u8) -> (values: Option<(u8, Option<u8>)>)
    ensures
        values is Some <==> alu_assigned(n),
        values matches Some((value, flag)) ==> value == alu_value(vx, vy, shifted, n) && (flag
            is Some <==> alu_has_flag(n)) && (flag matches Some(bit) ==> bit == alu_flag(
            vx,
            vy,
            shifted,
            n,
        )),
{
    match n {
        0x0 => Some((vy, None)),
        0x1 => Some((vx | vy, None)),
        0x2 => Some((vx & vy, None)),
        0x3 => Some((vx ^ vy, None)),
        0x4 => {
            let sum: u16 = vx as u16 + vy as u16;
            Some(
                (
                    (sum % 256) as u8,
                    Some(
                        if sum > 0xFF {
                            1
                        } else {
                            0
                        },
                    ),
                ),
            )
        },
        0x5 => {
            let difference: u16 = 256 + vx as u16 - vy as u16;
            Some(
                (
                    (difference % 256) as u8,
                    Some(
                        if vx > vy {
                            1
                        } else {
                            0
                        },
                    ),
                ),
            )
        },
        0x6 => {
            assert(shifted >> 1 == shifted / 2) by (bit_vector);
            assert(shifted & 0x1 == shifted % 2) by (bit_vector);
            Some((shifted >> 1, Some(shifted & 0x1)))
        },
        0x7 => {
            let difference: u16 = 256 + vy as u16 - vx as u16;
            Some(
                (
                    (difference % 256) as u8,
                    Some(
                        if vy > vx {
                            1
                        } else {
                            0
                        },
                    ),
                ),
            )
        },
        0xE => {
            assert(shifted << 1 == (shifted * 2) % 256) by (bit_vector);
            assert((shifted & 0x80) >> 7 == shifted / 128) by (bit_vector);
            Some((shifted << 1, Some((shifted & 0x80) >> 7)))
        },
        _ => None,
    }
}

/// Copies V0 to Vx into memory from `base` on.
fn store_block(memory: &mut [u8; 4096], register: &[u8; 16], base: usize, x: usize)
    requires
        x < REGISTER_COUNT,
        base + x < MEMORY_SIZE,
    ensures
        forall|a: int|
            0 <= a < MEMORY_SIZE ==> #[trigger] final(memory)@[a] == if base <= a <= base + x {
                register@[a - base]
            } else {
                old(memory)@[a]
            },
{
    let mut k: usize = 0;
    while k <= x
        invariant
            x < REGISTER_COUNT,
            base + x < MEMORY_SIZE,
            k <= x + 1,
            forall|a: int|
                0 <= a < MEMORY_SIZE ==> #[trigger] memory@[a] == if base <= a < base + k {
                    register@[a - base]
                } else {
                    old(memory)@[a]
                },
        decreases x + 1 - k,
    {
        memory[base + k] = register[k];
        k += 1;
    }
}

/// Copies memory from `base` on into V0 to Vx.
fn load_block(register: &mut [u8; 16], memory: &[u8; 4096], base: usize, x: usize)
    requires
        x < REGISTER_COUNT,
        base + x < MEMORY_SIZE,
    ensures
        forall|k: int|
            0 <= k < REGISTER_COUNT ==> #[trigger] final(register)@[k] == if k <= x {
                memory@[base + k]
            } else {
                old(register)@[k]
            },
{
    let mut k: usize = 0;
    while k <= x
        invariant
            x < REGISTER_COUNT,
            base + x < MEMORY_SIZE,
            k <= x + 1,
            forall|j: int|
                0 <= j < REGISTER_COUNT ==> #[trigger] register@[j] == if j < k {
                    memory@[base + j]
                } else {
                    old(register)@[j]
                },
        decreases x + 1 - k,
    {
        register[k] = memory[base + k];
        k += 1;
    }
}

/// A CHIP-8 machine: memory, display, registers, stack, timers, keypad and
/// the generator of random bytes.
pub struct Chip8Context {
    display: Display,
    memory: [u8; 4096],
    program_counter: usize,
    i: u16,
    stack: Vec<usize>,
    delay_timer: DTimer,
    sound_timer: STimer,
    register: [u8; 16],
    random_device: StdRng,
    keypad: [bool; 16],
    quirks: Quirks,
}

impl View for Chip8Context {
    type V = Machine;

    closed spec fn view(&self) -> Machine {
        Machine {
            memory: self.memory@,
            display: self.display@,
            to_be_rendered: self.display.renderer()@,
            program_counter: self.program_counter as int,
            i: self.i,
            stack: self.stack@,
            delay_timer: self.delay_timer,
            sound_timer: self.sound_timer,
            register: self.register@,
            keypad: self.keypad@,
            quirks: self.quirks,
        }
    }
}

impl Chip8Context {
    /// The display's renderer lists exactly the lit pixels.
    pub closed spec fn inv(&self) -> bool {
        self.display.wf()
    }

    /// The display of this machine.
    pub closed spec fn spec_display(&self) -> &Display {
        &self.display
    }

    /// Memory, bitmap, registers and keypad always have their fixed sizes,
    /// and the display shows the model's bitmap.
    pub proof fn lemma_shaped(&self)
        ensures
            self@.shaped(),
            self.display()@ == self@.display,
            self.display().renderer()@ == self@.to_be_rendered,
            self.inv() == self.display().wf(),
    {
        self.display.lemma_shape();
    }

    /// Builds a machine that holds `game_file` at the program offset and
    /// the font at the font offset, with everything else zero, empty or
    /// unlit, and that draws its random bytes from `random_device`. A
    /// program that does not fit in memory is refused.
    pub fn new(game_file: Vec<u8>, quirks: Quirks, random_device: StdRng) -> (result: Result<
        Chip8Context,
        Chip8Error,
    >)
        ensures
            result is Ok <==> game_file.len() <= max_program_len(),
            result matches Ok(context) ==> context.inv() && context@.valid() && context@
                == Machine::initial(game_file@, quirks),
            result matches Err(e) ==> e == Chip8Error::ProgramTooLarge,
    {
        if game_file.len() > MEMORY_SIZE - INSTR_OFFSET {
            return Err(Chip8Error::ProgramTooLarge);
        }
        let ghost program = game_file@;
        let context = Chip8Context {
            display: Display::new(),
            memory: init_memory(game_file),
            program_counter: INSTR_OFFSET,
            i: 0,
            stack: Vec::with_capacity(16),
            delay_timer: DTimer::new(),
            sound_timer: STimer::new(),
            register: [0;16],
            random_device,
            keypad: [false;16],
            quirks,
        };
        proof {
            context.lemma_shaped();
            assert(context@ =~~= Machine::initial(program, quirks));
        }
        Ok(context)
    }

    /// Starts the delay timer: `duration` sixtieths of a second, in ticks.
    pub fn start_delay(&mut self, duration: u32)
        requires
            ticks_for(duration as nat) <= u32::MAX,
        ensures
            final(self)@ == (Machine {
                delay_timer: DTimer { time: ticks_for(duration as nat) as u32 },
                ..old(self)@
            }),
            final(self).inv() == old(self).inv(),
    {
        self.delay_timer.time = duration_to_ticks(duration);
    }

    /// Starts the sound timer: `duration` sixtieths of a second, in ticks.
    pub fn start_sound(&mut self, duration: u32)
        requires
            ticks_for(duration as nat) <= u32::MAX,
        ensures
            final(self)@ == (Machine {
                sound_timer: STimer {
                    time: ticks_for(duration as nat) as u32,
                    ..old(self)@.sound_timer
                },
                ..old(self)@
            }),
            final(self).inv() == old(self).inv(),
    {
        self.sound_timer.time = duration_to_ticks(duration);
    }

    /// The bytes of memory from `start` up to, not including, `end`.
    pub fn get_mem_region(&self, start: usize, end: usize) -> (region: Vec<u8>)
        requires
            start <= end <= MEMORY_SIZE,
        ensures
            region@ == self@.memory.subrange(start as int, end as int),
    {
        let mut region: Vec<u8> = Vec::with_capacity(end - start);
        let mut a: usize = start;
        while a < end
            invariant
                start <= a <= end <= MEMORY_SIZE,
                region@ == self@.memory.subrange(start as int, a as int),
            decreases end - a,
        {
            region.push(self.memory[a]);
            a += 1;
            assert(region@ =~= self@.memory.subrange(start as int, a as int));
        }
        region
    }

    /// Runs a register-to-register operation, 8xy0 to 8xyE.
    fn alu(&mut self, x: usize, y: usize, n: u8)
        requires
            x < REGISTER_COUNT,
            y < REGISTER_COUNT,
        ensures
            final(self)@ == old(self)@.alu(x as int, y as int, n),
            final(self).inv() == old(self).inv(),
    {
        let vx: u8 = self.register[x];
        let vy: u8 = self.register[y];
        let shifted: u8 = match self.quirks.shift {
            Variant::Legacy => vy,
            Variant::Modern => vx,
        };
        match alu_values(vx, vy, shifted, n) {
            Some((value, flag)) => {
                self.register[x] = value;
                match flag {
                    Some(bit) => {
                        self.register[FLAG_REGISTER] = bit;
                    },
                    None => {},
                }
            },
            None => {},
        }
        assert(self@ =~= old(self)@.alu(x as int, y as int, n));
    }

    /// Skips the next instruction if `condition` holds.
    fn skip_if(&mut self, condition: bool)
        requires
            old(self)@.fetched(),
        ensures
            final(self)@ == old(self)@.skip_if(condition),
            final(self).inv() == old(self).inv(),
    {
        if condition {
            self.program_counter += 2;
        }
    }

    /// Runs Dxyn: draws the sprite of `n` rows at the index register.
    fn draw(&mut self, x: usize, y: usize, n: u8) -> (result: Result<ScreenUpdate, Chip8Error>)
        requires
            old(self).inv(),
            x < REGISTER_COUNT,
            y < REGISTER_COUNT,
        ensures
            final(self).inv(),
            result is Err <==> old(self)@.i + n > MEMORY_SIZE,
            result matches Err(e) ==> e == Chip8Error::AddressOutOfBounds && final(self)@ == old(
                self,
            )@,
            result matches Ok(screen) ==> final(self)@ == old(self)@.draw(x as int, y as int, n)
                && screen == (if touches(
                old(self)@.sprite(n),
                old(self)@.register[x as int] as int % 64,
                old(self)@.register[y as int] as int % 32,
            ) {
                ScreenUpdate::Redrawn
            } else {
                ScreenUpdate::Unchanged
            }),
    {
        let start: usize = self.i as usize;
        if start + n as usize > MEMORY_SIZE {
            return Err(Chip8Error::AddressOutOfBounds);
        }
        let sprite = self.get_mem_region(start, start + n as usize);
        let outcome = self.display.draw_sprite(self.register[x], self.register[y], &sprite);
        self.register[FLAG_REGISTER] = if outcome.collision {
            1
        } else {
            0
        };
        assert(self@ =~= old(self)@.draw(x as int, y as int, n));
        Ok(
            if outcome.changed {
                ScreenUpdate::Redrawn
            } else {
                ScreenUpdate::Unchanged
            },
        )
    }

    /// Runs Ex9E or ExA1: skips on the state of the key that Vx names.
    fn key_skip(&mut self, x: usize, nn: u8) -> (result: Result<(), Chip8Error>)
        requires
            old(self)@.fetched(),
            x < REGISTER_COUNT,
        ensures
            final(self).inv() == old(self).inv(),
            result is Err <==> (nn == 0x9E || nn == 0xA1) && old(self)@.register[x as int]
                >= KEY_COUNT,
            result matches Err(e) ==> e == Chip8Error::KeyOutOfRange && final(self)@ == old(self)@,
            result is Ok ==> final(self)@ == old(self)@.key_skip(x as int, nn),
    {
        if nn == 0x9E || nn == 0xA1 {
            let key: usize = self.register[x] as usize;
            if key >= KEY_COUNT {
                return Err(Chip8Error::KeyOutOfRange);
            }
            let down = self.keypad[key];
            self.skip_if(if nn == 0x9E {
                down
            } else {
                !down
            });
        }
        Ok(())
    }

    /// Runs an instruction of the Fx family.
    fn misc(&mut self, x: usize, nn: u8) -> (result: Result<(), Chip8Error>)
        requires
            old(self)@.fetched(),
            x < REGISTER_COUNT,
        ensures
            final(self).inv() == old(self).inv(),
            result is Err <==> (nn == 0x33 && old(self)@.i + 2 >= MEMORY_SIZE) || ((nn == 0x55
                || nn == 0x65) && old(self)@.i + x >= MEMORY_SIZE),
            result matches Err(e) ==> e == Chip8Error::AddressOutOfBounds && final(self)@ == old(
                self,
            )@,
            result is Ok ==> final(self)@ == old(self)@.misc(x as int, nn),
    {
        let vx: u8 = self.register[x];
        let base: usize = self.i as usize;
        proof {
            lemma_ticks_for(vx as nat);
            assert(ticks_for(vx as nat) <= u32::MAX);
        }
        match nn {
            0x07 => {
                self.register[x] = (self.delay_timer.time % 256) as u8;
            },
            0x15 => {
                self.start_delay(vx as u32);
            },
            0x18 => {
                self.start_sound(vx as u32);
            },
            0x1E => {
                let sum: u32 = (self.i as u32 + vx as u32) % 0x10000;
                self.i = sum as u16;
                if self.i > 0xFFF {
                    self.register[FLAG_REGISTER] = 1;
                }
            },
            0x0A => {
                match first_key_down(&self.keypad) {
                    Some(key) => {
                        self.register[x] = key;
                    },
                    None => {
                        self.program_counter -= 2;
                    },
                }
            },
            0x29 => {
                self.i = FONT_OFFSET as u16 + 5 * vx as u16;
            },
            0x33 => {
                if base + 2 >= MEMORY_SIZE {
                    return Err(Chip8Error::AddressOutOfBounds);
                }
                self.memory[base] = vx / 100;
                self.memory[base + 1] = (vx / 10) % 10;
                self.memory[base + 2] = vx % 10;
            },
            0x55 => {
                if base + x >= MEMORY_SIZE {
                    return Err(Chip8Error::AddressOutOfBounds);
                }
                store_block(&mut self.memory, &self.register, base, x);
                match self.quirks.store_load {
                    Variant::Legacy => {
                        self.i = self.i + x as u16 + 1;
                    },
                    Variant::Modern => {},
                }
            },
            0x65 => {
                if base + x >= MEMORY_SIZE {
                    return Err(Chip8Error::AddressOutOfBounds);
                }
                load_block(&mut self.register, &self.memory, base, x);
                match self.quirks.store_load {
                    Variant::Legacy => {
                        self.i = self.i + x as u16 + 1;
                    },
                    Variant::Modern => {},
                }
            },
            _ => {},
        }
        assert(self@ =~= old(self)@.misc(x as int, nn));
        Ok(())
    }

    /// Runs one instruction, the program counter standing past it already.
    /// `random` is the byte that Cxnn masks; no other instruction reads it.
    /// An instruction that faults changes nothing.
    pub fn execute(&mut self, opcode: u16, random: u8) -> (result: Result<
        ScreenUpdate,
        Chip8Error,
    >)
        requires
            old(self).inv(),
            old(self)@.fetched(),
        ensures
            final(self).inv(),
            final(self)@.shaped(),
            result is Err <==> old(self)@.fault(opcode) is Some,
            result matches Err(e) ==> old(self)@.fault(opcode) == Some(e) && final(self)@ == old(
                self,
            )@,
            result matches Ok(screen) ==> final(self)@ == old(self)@.execute(opcode, random)
                && screen == old(self)@.screen_update(opcode),
    {
        let vx: usize = bit_i(opcode, 1) as usize;
        let vy: usize = bit_i(opcode, 2) as usize;
        let nnn: u16 = opcode & 0xFFF;
        let nn: u8 = (opcode & 0xFF) as u8;
        let n: u8 = (opcode & 0xF) as u8;
        proof {
            assert(opcode & 0xFFF == opcode % 4096) by (bit_vector);
            assert(opcode & 0xFF == opcode % 256) by (bit_vector);
            assert(opcode & 0xF == opcode % 16) by (bit_vector);
            self.lemma_shaped();
        }
        let mut screen = ScreenUpdate::Unchanged;
        match bit_i(opcode, 0) {
            0x0 => {
                match nnn {
                    0x0E0 => {
                        self.display.clear_screen();
                        screen = ScreenUpdate::Cleared;
                    },
                    0x0EE => {
                        match self.stack.pop() {
                            Some(address) => {
                                self.program_counter = address;
                            },
                            None => {
                                return Err(Chip8Error::StackUnderflow);
                            },
                        }
                    },
                    _ => {},
                }
            },
            0x1 => {
                self.program_counter = nnn as usize;
            },
            0x2 => {
                self.stack.push(self.program_counter);
                self.program_counter = nnn as usize;
            },
            0x3 => {
                self.skip_if(self.register[vx] == nn);
            },
            0x4 => {
                self.skip_if(self.register[vx] != nn);
            },
            0x5 => {
                self.skip_if(self.register[vx] == self.register[vy]);
            },
            0x6 => {
                self.register[vx] = nn;
            },
            0x7 => {
                self.register[vx] = ((self.register[vx] as u16 + nn as u16) % (0xFF + 1)) as u8;
            },
            0x8 => {
                self.alu(vx, vy, n);
            },
            0x9 => {
                self.skip_if(self.register[vx] != self.register[vy]);
            },
            0xA => {
                self.i = nnn;
            },
            0xB => {
                let offset: u8 = match self.quirks.jump {
                    Variant::Legacy => self.register[0],
                    Variant::Modern => self.register[vx],
                };
                self.program_counter = (nnn + offset as u16) as usize;
            },
            0xC => {
                self.register[vx] = random & nn;
            },
            0xD => {
                match self.draw(vx, vy, n) {
                    Ok(update) => {
                        screen = update;
                    },
                    Err(e) => {
                        return Err(e);
                    },
                }
            },
            0xE => {
                match self.key_skip(vx, nn) {
                    Ok(()) => {},
                    Err(e) => {
                        return Err(e);
                    },
                }
            },
            _ => {
                match self.misc(vx, nn) {
                    Ok(()) => {},
                    Err(e) => {
                        return Err(e);
                    },
                }
            },
        }
        proof {
            self.lemma_shaped();
            assert(self@ =~= old(self)@.execute(opcode, random));
        }
        Ok(screen)
    }

    /// Runs one instruction, drawing the random byte for Cxnn from the
    /// machine's generator: some byte below 0xFF.
    pub fn decode_instruction(&mut self, opcode: u16) -> (result: Result<ScreenUpdate, Chip8Error>)
        requires
            old(self).inv(),
            old(self)@.fetched(),
        ensures
            final(self).inv(),
            final(self)@.shaped(),
            result is Err <==> old(self)@.fault(opcode) is Some,
            result matches Err(e) ==> old(self)@.fault(opcode) == Some(e) && final(self)@ == old(
                self,
            )@,
            result matches Ok(screen) ==> screen == old(self)@.screen_update(opcode) && exists|
                random: u8,
            |
                random < 0xFF && final(self)@ == #[trigger] old(self)@.execute(opcode, random),
            result is Ok && family(opcode) != 0xC ==> final(self)@ == old(self)@.execute(
                opcode,
                0,
            ),
    {
        let random: u8 = if bit_i(opcode, 0) == 0xC {
            sample_range(&mut self.random_device, 0x0, 0xFF)
        } else {
            0
        };
        self.execute(opcode, random)
    }

    /// Fetches the instruction at the program counter, steps past it, runs
    /// it, and takes a program counter that has left memory back to the
    /// program offset. A fault leaves the machine as it was.
    pub fn process_instructions(&mut self) -> (result: Result<ScreenUpdate, Chip8Error>)
        requires
            old(self).inv(),
            old(self)@.valid(),
        ensures
            final(self).inv(),
            final(self)@.valid(),
            result is Err <==> old(self)@.tick_fault() is Some,
            result matches Err(e) ==> old(self)@.tick_fault() == Some(e) && final(self)@ == old(
                self,
            )@,
            result matches Ok(screen) ==> screen == old(self)@.advanced().screen_update(
                old(self)@.current_opcode(),
            ) && exists|random: u8|
                random < 0xFF && final(self)@ == #[trigger] old(self)@.after_instruction(random),
            result is Ok && !old(self)@.draws_random() ==> final(self)@ == old(
                self,
            )@.after_instruction(0),
    {
        if self.program_counter + 1 >= MEMORY_SIZE {
            return Err(Chip8Error::AddressOutOfBounds);
        }
        let instr1: u8 = self.memory[self.program_counter];
        let instr2: u8 = self.memory[self.program_counter + 1];
        assert((instr1 as u16) << 8u16 == instr1 as u16 * 256) by (bit_vector);
        let instr: u16 = ((instr1 as u16) << 8) + instr2 as u16;
        self.program_counter += 2;
        let ghost advanced = self@;
        match self.decode_instruction(instr) {
            Ok(screen) => {
                let ghost executed = self@;
                if self.program_counter >= MEMORY_SIZE {
                    self.program_counter = INSTR_OFFSET;
                }
                proof {
                    assert(self@ =~= executed.wrapped());
                    let random = choose|random: u8|
                        random < 0xFF && executed == #[trigger] advanced.execute(instr, random);
                    assert(self@ == old(self)@.after_instruction(random));
                }
                Ok(screen)
            },
            Err(e) => {
                self.program_counter -= 2;
                assert(self@ =~= old(self)@);
                Err(e)
            },
        }
    }

    /// Runs one tick: one instruction, then both timers one step, then the
    /// keypad snapshot released for the next tick. The frame says what the
    /// presentation surface and the audio device are asked to do. A fault
    /// leaves the machine as it was.
    pub fn update(&mut self) -> (result: Result<Frame, Chip8Error>)
        requires
            old(self).inv(),
            old(self)@.valid(),
        ensures
            final(self).inv(),
            final(self)@.valid(),
            result is Err <==> old(self)@.tick_fault() is Some,
            result matches Err(e) ==> old(self)@.tick_fault() == Some(e) && final(self)@ == old(
                self,
            )@,
            result matches Ok(frame) ==> exists|random: u8|
                random < 0xFF && final(self)@ == #[trigger] old(self)@.tick(random) && frame
                    == old(self)@.tick_frame(random),
            result matches Ok(frame) ==> !old(self)@.draws_random() ==> final(self)@ == old(
                self,
            )@.tick(0) && frame == old(self)@.tick_frame(0),
    {
        let screen = match self.process_instructions() {
            Ok(screen) => screen,
            Err(e) => {
                return Err(e);
            },
        };
        let ghost executed = self@;
        self.delay_timer.update();
        let audio = self.sound_timer.update();
        self.keypad = [false;16];
        proof {
            assert(self@ =~= executed.end_of_tick());
            let random = choose|random: u8|
                random < 0xFF && executed == #[trigger] old(self)@.after_instruction(random);
            assert(self@ == old(self)@.tick(random));
        }
        Ok(Frame { screen, audio })
    }

    /// Replaces the keypad snapshot: key `k` is held down in the tick that
    /// follows exactly if `down[k]` says so.
    pub fn set_keypad(&mut self, down: &[bool; 16])
        ensures
            final(self)@ == (Machine { keypad: down@, ..old(self)@ }),
            final(self).inv() == old(self).inv(),
    {
        self.keypad = *down;
    }

    /// Holds down the keys of the keypad that the pressed physical keys
    /// stand for, for the tick that follows.
    pub fn process_keyboard_input(&mut self, keycodes: &Vec<Key>)
        ensures
            final(self)@ == (Machine {
                keypad: pressed(old(self)@.keypad, keycodes@),
                ..old(self)@
            }),
            final(self).inv() == old(self).inv(),
    {
        press_keys(&mut self.keypad, keycodes);
    }

    /// The value of register `x`.
    pub fn register(&self, x: usize) -> (value: u8)
        requires
            x < REGISTER_COUNT,
        ensures
            value == self@.register[x as int],
    {
        self.register[x]
    }

    /// The address of the next instruction.
    pub fn program_counter(&self) -> (address: usize)
        ensures
            address == self@.program_counter,
    {
        self.program_counter
    }

    /// The index register.
    pub fn index(&self) -> (address: u16)
        ensures
            address == self@.i,
    {
        self.i
    }

    /// The byte of memory at `address`.
    pub fn memory_at(&self, address: usize) -> (byte: u8)
        requires
            address < MEMORY_SIZE,
        ensures
            byte == self@.memory[address as int],
    {
        self.memory[address]
    }

    /// The number of pending calls.
    pub fn stack_depth(&self) -> (depth: usize)
        ensures
            depth == self@.stack.len(),
    {
        self.stack.len()
    }

    /// The delay timer.
    pub fn delay_timer(&self) -> (timer: DTimer)
        ensures
            timer == self@.delay_timer,
    {
        self.delay_timer
    }

    /// The sound timer.
    pub fn sound_timer(&self) -> (timer: STimer)
        ensures
            timer == self@.sound_timer,
    {
        self.sound_timer
    }

    /// Whether key `key` of the keypad is held down in the snapshot.
    pub fn key_down(&self, key: usize) -> (down: bool)
        requires
            key < KEY_COUNT,
        ensures
            down == self@.keypad[key as int],
    {
        self.keypad[key]
    }

    /// The instruction variants in force.
    pub fn quirks(&self) -> (quirks: Quirks)
        ensures
            quirks == self@.quirks,
    {
        self.quirks
    }

    /// Whether the pixel in column `x` of row `y` is lit.
    pub fn read_pixel_at(&self, x: u8, y: u8) -> (lit: bool)
        requires
            in_frame(x as int, y as int),
        ensures
            lit == self@.display[y as int][x as int],
    {
        self.display.read_pixel_at(x, y)
    }

    /// The display of this machine.
    #[verifier::when_used_as_spec(spec_display)]
    pub fn display(&self) -> (display: &Display)
        ensures
            display == self.spec_display(),
    {
        &self.display
    }
}

} // verus!
