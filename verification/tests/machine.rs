use rand::{rngs::StdRng, SeedableRng};
use chip_8::{
    bit_i, duration_to_ticks, first_key_down, init_memory, press_keys, AudioSignal, Chip8Context,
    Chip8Error, DTimer, Frame, Key, Quirks, STimer, ScreenUpdate, Variant, FONT, TARGET_IPS,
};

fn generator() -> StdRng {
    StdRng::seed_from_u64(0x00C8)
}

fn loaded(program: &[u8]) -> Chip8Context {
    Chip8Context::new(program.to_vec(), Quirks::default(), generator()).unwrap()
}

#[test]
fn nibbles_of_a_word() {
    assert_eq!(bit_i(0xABCD, 0), 0xA);
    assert_eq!(bit_i(0xABCD, 1), 0xB);
    assert_eq!(bit_i(0xABCD, 2), 0xC);
    assert_eq!(bit_i(0xABCD, 3), 0xD);
    assert_eq!(bit_i(0x0000, 2), 0);
    assert_eq!(bit_i(0xFFFF, 0), 0xF);
}

#[test]
fn memory_holds_font_and_program() {
    let memory = init_memory(vec![0xDE, 0xAD]);
    assert_eq!(memory.len(), 4096);
    assert_eq!(&memory[0x50..0xA0], &FONT[..]);
    assert_eq!(memory[0x200], 0xDE);
    assert_eq!(memory[0x201], 0xAD);
    for a in 0..4096 {
        if !(0x50..0xA0).contains(&a) && a != 0x200 && a != 0x201 {
            assert_eq!(memory[a], 0);
        }
    }
}

#[test]
fn largest_program_fills_memory_to_the_end() {
    let memory = init_memory(vec![7; 3584]);
    assert_eq!(memory[0x200], 7);
    assert_eq!(memory[0xFFF], 7);
    assert_eq!(memory[0x1FF], 0);
}

#[test]
fn program_too_large_is_refused() {
    assert!(Chip8Context::new(vec![0; 3584], Quirks::default(), generator()).is_ok());
    match Chip8Context::new(vec![0; 3585], Quirks::default(), generator()) {
        Err(e) => assert_eq!(e, Chip8Error::ProgramTooLarge),
        Ok(_) => panic!("a program of 3585 bytes was accepted"),
    }
}

#[test]
fn new_machine_is_zeroed() {
    let c = loaded(&[0x12, 0x34]);
    assert_eq!(c.program_counter(), 0x200);
    assert_eq!(c.index(), 0);
    assert_eq!(c.stack_depth(), 0);
    assert_eq!(c.delay_timer(), DTimer { time: 0 });
    assert_eq!(c.sound_timer(), STimer { time: 0, playing: false });
    for x in 0..16 {
        assert_eq!(c.register(x), 0);
        assert!(!c.key_down(x));
    }
    assert_eq!(c.memory_at(0x200), 0x12);
    assert_eq!(c.memory_at(0x50), 0xF0);
    assert_eq!(c.quirks(), Quirks::default());
}

#[test]
fn default_quirks() {
    let q = Quirks::default();
    assert_eq!(q.shift, Variant::Modern);
    assert_eq!(q.jump, Variant::Legacy);
    assert_eq!(q.store_load, Variant::Modern);
}

#[test]
fn tick_fetches_big_endian_and_advances() {
    let mut c = loaded(&[0x61, 0x2A, 0x71, 0x01]);
    let frame = c.update().unwrap();
    assert_eq!(frame, Frame { screen: ScreenUpdate::Unchanged, audio: AudioSignal::Pause });
    assert_eq!(c.register(1), 0x2A);
    assert_eq!(c.program_counter(), 0x202);
    c.update().unwrap();
    assert_eq!(c.register(1), 0x2B);
    assert_eq!(c.program_counter(), 0x204);
}

#[test]
fn jump_is_not_advanced_twice() {
    let mut c = loaded(&[0x13, 0x00]);
    c.update().unwrap();
    assert_eq!(c.program_counter(), 0x300);
}

#[test]
fn jump_past_memory_wraps_to_program_start() {
    // V0 = 1, then jump to 0xFFF + V0 = 0x1000
    let mut c = loaded(&[0x60, 0x01, 0xBF, 0xFF]);
    c.update().unwrap();
    c.update().unwrap();
    assert_eq!(c.program_counter(), 0x200);
    c.update().unwrap();
    assert_eq!(c.program_counter(), 0x202);
}

#[test]
fn running_off_the_end_wraps_to_program_start() {
    // jump to 0xFFE, where memory holds zeros: an unassigned opcode
    let mut c = loaded(&[0x1F, 0xFE]);
    c.update().unwrap();
    assert_eq!(c.program_counter(), 0xFFE);
    c.update().unwrap();
    assert_eq!(c.program_counter(), 0x200);
}

#[test]
fn fetch_across_the_end_of_memory_is_an_error() {
    let mut c = loaded(&[0x1F, 0xFF]);
    c.update().unwrap();
    assert_eq!(c.program_counter(), 0xFFF);
    assert_eq!(c.update(), Err(Chip8Error::AddressOutOfBounds));
    assert_eq!(c.program_counter(), 0xFFF);
}

#[test]
fn faulting_tick_changes_nothing() {
    // V1 = 3, delay = V1, return with an empty stack
    let mut c = loaded(&[0x61, 0x03, 0xF1, 0x15, 0x00, 0xEE]);
    c.update().unwrap();
    c.update().unwrap();
    let timer = c.delay_timer();
    c.process_keyboard_input(&vec![Key::W]);
    assert_eq!(c.update(), Err(Chip8Error::StackUnderflow));
    assert_eq!(c.program_counter(), 0x204);
    assert_eq!(c.delay_timer(), timer);
    assert!(c.key_down(5));
}

#[test]
fn delay_timer_counts_in_ticks() {
    assert_eq!(TARGET_IPS / 60, 11);
    assert_eq!(duration_to_ticks(0), 0);
    assert_eq!(duration_to_ticks(3), 33);
    assert_eq!(duration_to_ticks(255), 2805);
    let mut c = loaded(&[]);
    c.start_delay(3);
    assert_eq!(c.delay_timer().time, 33);
    for _ in 0..32 {
        c.update().unwrap();
    }
    assert_eq!(c.delay_timer().time, 1);
    c.update().unwrap();
    assert_eq!(c.delay_timer().time, 0);
    c.update().unwrap();
    assert_eq!(c.delay_timer().time, 0);
}

#[test]
fn delay_timer_reads_back_through_the_instruction() {
    // V1 = 2; delay = V1; loop: V2 = delay; jump loop
    let mut c = loaded(&[0x61, 0x02, 0xF1, 0x15, 0xF2, 0x07, 0x12, 0x04]);
    c.update().unwrap();
    c.update().unwrap();
    // the tick that starts the timer also steps it once
    assert_eq!(c.delay_timer().time, 21);
    for _ in 0..20 {
        c.update().unwrap();
    }
    assert_eq!(c.delay_timer().time, 1);
    // one tick before the end the timer reads back positive
    c.update().unwrap();
    assert_eq!(c.delay_timer().time, 0);
    c.update().unwrap();
    c.update().unwrap();
    assert_eq!(c.register(2), 0);
}

#[test]
fn delay_read_is_the_low_byte_of_the_ticks() {
    let mut c = loaded(&[]);
    c.execute(0x1202, 0).unwrap();
    c.start_delay(30);
    c.execute(0xF207, 0).unwrap();
    assert_eq!(c.register(2), (330 % 256) as u8);
    c.start_delay(1);
    c.execute(0xF207, 0).unwrap();
    assert_eq!(c.register(2), 11);
}

#[test]
fn dtimer_stops_at_zero() {
    let mut t = DTimer::new();
    assert_eq!(t.time, 0);
    t.update();
    assert_eq!(t.time, 0);
    t.time = 2;
    t.update();
    assert_eq!(t.time, 1);
    t.update();
    t.update();
    assert_eq!(t.time, 0);
}

#[test]
fn stimer_signals_resume_then_pause() {
    let mut t = STimer::new();
    assert_eq!(t, STimer { time: 0, playing: false });
    assert_eq!(t.update(), AudioSignal::Pause);
    t.time = 2;
    assert_eq!(t.update(), AudioSignal::Resume);
    assert_eq!(t, STimer { time: 1, playing: true });
    assert_eq!(t.update(), AudioSignal::Unchanged);
    assert_eq!(t, STimer { time: 0, playing: true });
    assert_eq!(t.update(), AudioSignal::Pause);
    assert_eq!(t, STimer { time: 0, playing: false });
}

#[test]
fn sound_instruction_starts_the_tone() {
    // V1 = 1; sound = V1; then zeros
    let mut c = loaded(&[0x61, 0x01, 0xF1, 0x18]);
    assert_eq!(c.update().unwrap().audio, AudioSignal::Pause);
    assert_eq!(c.update().unwrap().audio, AudioSignal::Resume);
    assert_eq!(c.sound_timer(), STimer { time: 10, playing: true });
    for _ in 0..10 {
        assert_eq!(c.update().unwrap().audio, AudioSignal::Unchanged);
    }
    assert_eq!(c.update().unwrap().audio, AudioSignal::Pause);
    assert!(!c.sound_timer().playing);
}

#[test]
fn key_wait_blocks_until_a_key_is_down() {
    let mut c = loaded(&[0xF3, 0x0A, 0x61, 0x01]);
    for _ in 0..5 {
        c.update().unwrap();
        assert_eq!(c.program_counter(), 0x200);
        assert_eq!(c.register(3), 0);
    }
    c.process_keyboard_input(&vec![Key::V, Key::W, Key::A]);
    c.update().unwrap();
    assert_eq!(c.register(3), 5);
    assert_eq!(c.program_counter(), 0x202);
    // the snapshot is released at the end of the tick
    for k in 0..16 {
        assert!(!c.key_down(k));
    }
}

#[test]
fn key_skips_read_the_snapshot() {
    let mut c = loaded(&[0x61, 0x05, 0xE1, 0x9E, 0x00, 0x00, 0xE1, 0xA1]);
    c.update().unwrap();
    c.process_keyboard_input(&vec![Key::W]);
    c.update().unwrap();
    assert_eq!(c.program_counter(), 0x206);
    c.process_keyboard_input(&vec![Key::W]);
    c.update().unwrap();
    assert_eq!(c.program_counter(), 0x208);
    let mut c = loaded(&[0x61, 0x05, 0xE1, 0x9E, 0xE1, 0xA1]);
    c.update().unwrap();
    c.update().unwrap();
    assert_eq!(c.program_counter(), 0x204);
    c.update().unwrap();
    assert_eq!(c.program_counter(), 0x208);
}

#[test]
fn physical_keys_map_to_the_keypad() {
    let table = [
        (Key::Num1, Some(0x0)),
        (Key::Num2, Some(0x1)),
        (Key::Num3, Some(0x2)),
        (Key::Num4, Some(0xC)),
        (Key::Q, Some(0x4)),
        (Key::W, Some(0x5)),
        (Key::E, Some(0x6)),
        (Key::R, Some(0xD)),
        (Key::A, Some(0x7)),
        (Key::S, Some(0x8)),
        (Key::D, Some(0x9)),
        (Key::F, Some(0xE)),
        (Key::Y, Some(0xA)),
        (Key::Z, Some(0xA)),
        (Key::X, Some(0x0)),
        (Key::C, Some(0xB)),
        (Key::V, Some(0xF)),
        (Key::Other, None),
    ];
    for (key, index) in table {
        assert_eq!(key.index(), index);
    }
}

#[test]
fn pressing_keys_keeps_those_already_down() {
    let mut keypad = [false; 16];
    press_keys(&mut keypad, &vec![Key::Q, Key::Other]);
    press_keys(&mut keypad, &vec![Key::V]);
    press_keys(&mut keypad, &Vec::new());
    for k in 0..16 {
        assert_eq!(keypad[k], k == 4 || k == 15);
    }
    assert_eq!(first_key_down(&keypad), Some(4));
    assert_eq!(first_key_down(&[false; 16]), None);
    let mut c = loaded(&[]);
    c.process_keyboard_input(&vec![Key::X]);
    c.process_keyboard_input(&vec![Key::C]);
    assert!(c.key_down(0) && c.key_down(0xB));
    assert!(!c.key_down(1));
}

#[test]
fn drawing_through_ticks_reports_the_screen() {
    // I = font glyph 0; draw at (V0, V0); clear; draw nothing
    let mut c = loaded(&[0xA0, 0x50, 0xD0, 0x05, 0x00, 0xE0, 0xD0, 0x00]);
    assert_eq!(c.update().unwrap().screen, ScreenUpdate::Unchanged);
    assert_eq!(c.update().unwrap().screen, ScreenUpdate::Redrawn);
    assert_eq!(c.display().renderer().points().len(), 14);
    assert_eq!(c.update().unwrap().screen, ScreenUpdate::Cleared);
    assert_eq!(c.update().unwrap().screen, ScreenUpdate::Unchanged);
}

#[test]
fn random_instruction_through_a_tick() {
    let mut c = loaded(&[0xC1, 0x0F, 0x12, 0x00]);
    for _ in 0..100 {
        c.update().unwrap();
        assert!(c.register(1) <= 0x0F);
    }
}

#[test]
fn keypad_snapshot_is_replaced_whole() {
    let mut c = loaded(&[0xF3, 0x0A]);
    c.process_keyboard_input(&vec![Key::V]);
    let mut down = [false; 16];
    down[3] = true;
    down[7] = true;
    c.set_keypad(&down);
    for k in 0..16 {
        assert_eq!(c.key_down(k), k == 3 || k == 7);
    }
    c.update().unwrap();
    assert_eq!(c.register(3), 3);
    assert_eq!(c.program_counter(), 0x202);
}

#[test]
fn key_wait_with_only_a_high_key_down() {
    let mut c = loaded(&[0xF1, 0x0A]);
    let mut down = [false; 16];
    down[15] = true;
    c.set_keypad(&down);
    c.update().unwrap();
    assert_eq!(c.register(1), 15);
    c.set_keypad(&[false; 16]);
    assert!(!c.key_down(15));
}
