//! Laws of the machine, proved of the model that the interpreter's
//! contracts are stated over.

use crate::display::{
    bitmap_shaped, blank, collides, drawn, erases, flips, in_frame, touches, Bitmap, Pixel,
};
use crate::keypad::{any_key_down, is_lowest_down, lemma_lowest_down_unique};
use crate::machine::{Machine, FLAG_REGISTER, REGISTER_COUNT};
use crate::memory::{INSTR_OFFSET, MEMORY_SIZE};
use crate::opcode::{family, operand_n, operand_nn, operand_nnn, operand_x, operand_y};
use crate::quirks::Variant;
use crate::timers::{countdown, lemma_ticks_for, stepped, ticks_for};
use vstd::prelude::*;

verus! {

/// Setting a register (`6xnn`) and then adding zero to it (`7x00`) leaves
/// the value that was set, and changes nothing else either.
pub proof fn law_add_zero_keeps_value(m: Machine, set: u16, add: u16, r1: u8, r2: u8)
    requires
        m.shaped(),
        family(set) == 0x6,
        family(add) == 0x7,
        operand_x(add) == operand_x(set),
        operand_nn(add) == 0,
    ensures
        m.execute(set, r1).execute(add, r2).register[operand_x(set)] == operand_nn(set),
        m.execute(set, r1).execute(add, r2) == m.execute(set, r1),
{
    let x = operand_x(set);
    let after = m.execute(set, r1);
    assert(after.register[x] == operand_nn(set));
    assert(after.execute(add, r2).register =~= after.register);
}

/// Subtraction writes the difference modulo 256 and sets the flag exactly
/// when the minuend is the greater: Vx minus Vy for `8xy5`, Vy minus Vx
/// for `8xy7`. Where `x` names the flag register the flag is what stays.
pub proof fn law_subtract(m: Machine, opcode: u16, r: u8)
    requires
        m.shaped(),
        family(opcode) == 0x8,
        operand_n(opcode) == 0x5 || operand_n(opcode) == 0x7,
    ensures
        ({
            let x = operand_x(opcode);
            let y = operand_y(opcode);
            let after = m.execute(opcode, r);
            let minuend = if operand_n(opcode) == 0x5 {
                m.register[x]
            } else {
                m.register[y]
            };
            let subtrahend = if operand_n(opcode) == 0x5 {
                m.register[y]
            } else {
                m.register[x]
            };
            &&& x != FLAG_REGISTER ==> after.register[x] == (minuend - subtrahend) % 256
            &&& after.register[FLAG_REGISTER as int] == (if minuend > subtrahend {
                1u8
            } else {
                0u8
            })
        }),
{
}

/// After the screen was cleared every pixel reads unlit.
pub proof fn law_clear_screen_unlights_all(m: Machine, r: u8, c: int, row: int)
    requires
        in_frame(c, row),
    ensures
        !m.execute(0x00E0, r).display[row][c],
        m.execute(0x00E0, r).display == blank(),
        m.execute(0x00E0, r).to_be_rendered == Seq::<Pixel>::empty(),
{
    assert(family(0x00E0u16) == 0 && operand_nnn(0x00E0u16) == 0x0E0);
}

/// Drawing the same sprite twice in the same place gives back the bitmap
/// that was there before, and the second drawing reports a collision
/// exactly when the sprite has a set bit inside the frame.
pub proof fn law_draw_twice_restores(b: Bitmap, sprite: Seq<u8>, x0: int, y0: int)
    requires
        bitmap_shaped(b),
    ensures
        drawn(drawn(b, sprite, x0, y0), sprite, x0, y0) == b,
        collides(drawn(b, sprite, x0, y0), sprite, x0, y0) || collides(b, sprite, x0, y0)
            <==> touches(sprite, x0, y0),
        !collides(b, sprite, x0, y0) ==> (collides(drawn(b, sprite, x0, y0), sprite, x0, y0)
            <==> touches(sprite, x0, y0)),
{
    let once = drawn(b, sprite, x0, y0);
    let twice = drawn(once, sprite, x0, y0);
    assert(twice =~~= b);
    if touches(sprite, x0, y0) {
        let (c, r) = choose|c: int, r: int| #[trigger] flips(sprite, x0, y0, c, r);
        if b[r][c] {
            assert(erases(b, sprite, x0, y0, c, r));
        } else {
            assert(once[r][c]);
            assert(erases(once, sprite, x0, y0, c, r));
        }
    }
    if collides(once, sprite, x0, y0) {
        let (c, r) = choose|c: int, r: int| #[trigger] erases(once, sprite, x0, y0, c, r);
        assert(flips(sprite, x0, y0, c, r));
    }
    if collides(b, sprite, x0, y0) {
        let (c, r) = choose|c: int, r: int| #[trigger] erases(b, sprite, x0, y0, c, r);
        assert(flips(sprite, x0, y0, c, r));
    }
}

/// A sprite drawn on pixels that were all unlit lights every pixel it
/// touches, and drawing it again turns each of them off.
pub proof fn law_draw_twice_unlights_touched(
    b: Bitmap,
    sprite: Seq<u8>,
    x0: int,
    y0: int,
    c: int,
    r: int,
)
    requires
        bitmap_shaped(b),
        flips(sprite, x0, y0, c, r),
        !b[r][c],
    ensures
        drawn(b, sprite, x0, y0)[r][c],
        !drawn(drawn(b, sprite, x0, y0), sprite, x0, y0)[r][c],
        collides(drawn(b, sprite, x0, y0), sprite, x0, y0),
{
    let once = drawn(b, sprite, x0, y0);
    assert(once[r][c]);
    assert(erases(once, sprite, x0, y0, c, r));
}

/// A timer that is never negative loses one per tick until it is zero.
pub proof fn lemma_countdown(time: nat, steps: nat)
    ensures
        countdown(time, steps) == if steps <= time {
            (time - steps) as nat
        } else {
            0
        },
    decreases steps,
{
    if steps > 0 {
        lemma_countdown(stepped(time), (steps - 1) as nat);
    }
}

/// A timer started with `duration` reads zero after as many ticks as the
/// duration stands for, and still reads a positive value one tick before.
pub proof fn law_timer_runs_out(duration: nat)
    ensures
        countdown(ticks_for(duration), ticks_for(duration)) == 0,
        duration > 0 ==> countdown(ticks_for(duration), (ticks_for(duration) - 1) as nat) > 0,
{
    lemma_ticks_for(duration);
    lemma_countdown(ticks_for(duration), ticks_for(duration));
    if duration > 0 {
        lemma_countdown(ticks_for(duration), (ticks_for(duration) - 1) as nat);
    }
}

/// Between ticks the program counter is inside memory: a tick that does not
/// fault leaves a valid machine, whatever the random byte.
pub proof fn law_tick_keeps_valid(m: Machine, random: u8)
    requires
        m.valid(),
        m.tick_fault() is None,
    ensures
        m.tick(random).valid(),
{
    let opcode = m.current_opcode();
    let executed = m.advanced().execute(opcode, random);
    assert(executed.shaped());
}

/// An instruction that leaves the program counter at or past the end of
/// memory, as a jump with offset to 0x1000 does, ends with the program
/// counter at the program offset, so that the next fetch reads inside
/// memory.
pub proof fn law_pc_past_memory_wraps(m: Machine, random: u8)
    requires
        m.valid(),
        m.tick_fault() is None,
        m.advanced().execute(m.current_opcode(), random).program_counter >= MEMORY_SIZE,
    ensures
        m.tick(random).program_counter == INSTR_OFFSET,
        m.tick(random).program_counter + 1 < MEMORY_SIZE,
{
}

/// A jump with offset whose sum is at or past the end of memory ends with
/// the program counter at the program offset.
pub proof fn law_jump_past_memory_wraps(m: Machine, random: u8)
    requires
        m.valid(),
        m.program_counter + 1 < MEMORY_SIZE,
        family(m.current_opcode()) == 0xB,
        m.quirks.jump == Variant::Legacy,
        operand_nnn(m.current_opcode()) + m.register[0] >= MEMORY_SIZE,
    ensures
        m.tick_fault() is None,
        m.tick(random).program_counter == INSTR_OFFSET,
{
}

/// While no key is held down, a tick on the key wait (`Fx0A`) leaves the
/// program counter on that instruction and the registers as they were.
pub proof fn law_key_wait_blocks(m: Machine, random: u8)
    requires
        m.valid(),
        m.program_counter + 1 < MEMORY_SIZE,
        family(m.current_opcode()) == 0xF,
        operand_nn(m.current_opcode()) == 0x0A,
        !any_key_down(m.keypad),
    ensures
        m.tick_fault() is None,
        m.tick(random).program_counter == m.program_counter,
        m.tick(random).register == m.register,
        m.tick(random).memory == m.memory,
{
}

/// With a key held down, a tick on the key wait (`Fx0A`) puts the first
/// such key in Vx and moves the program counter on.
pub proof fn law_key_wait_takes_lowest(m: Machine, random: u8, key: int)
    requires
        m.valid(),
        m.program_counter + 1 < MEMORY_SIZE,
        family(m.current_opcode()) == 0xF,
        operand_nn(m.current_opcode()) == 0x0A,
        is_lowest_down(m.keypad, key),
    ensures
        m.tick_fault() is None,
        m.tick(random).register[operand_x(m.current_opcode())] == key,
        m.tick(random).program_counter == m.advanced().wrapped().program_counter,
{
    lemma_lowest_down_unique(m.keypad, key);
}

/// The decimal digits that `Fx33` stores give the value back.
pub proof fn law_bcd_digits(m: Machine, x: int)
    requires
        m.shaped(),
        0 <= x < REGISTER_COUNT,
        m.i + 2 < MEMORY_SIZE,
    ensures
        ({
            let after = m.store_bcd(x);
            let hundreds = after.memory[m.i as int];
            let tens = after.memory[m.i + 1];
            let ones = after.memory[m.i + 2];
            &&& hundreds <= 2 && tens <= 9 && ones <= 9
            &&& 100 * hundreds + 10 * tens + ones == m.register[x]
        }),
{
}

} // verus!
