use std::cell::RefCell;
use std::rc::Rc;

use chip8::errors::ChipError;
use chip8::instruction_decoder::{ChipSystem, RANDOM_SEED};
use chip8::keyboard::KeyboardDriver;
use chip8::memory::{EntireMemory, RegisterSet, Stack, CHIP_FONT};
use chip8::timers::{DelayTimer, SoundDriver, SoundTimer};
use chip8::video::{VideoDisplay, VideoDriver};
use chip8::runner::TimedRunner;

struct NullVideo;

impl VideoDriver for NullVideo {
    fn draw(&mut self, _bitmap: &[u64; 32]) {}
}

struct FrameRecorder {
    frames: Rc<RefCell<Vec<[u64; 32]>>>,
}

impl VideoDriver for FrameRecorder {
    fn draw(&mut self, bitmap: &[u64; 32]) {
        self.frames.borrow_mut().push(*bitmap);
    }
}

struct NullSound;

impl SoundDriver for NullSound {
    fn set_beep(&self, _state: bool) {}
}

struct BeepRecorder {
    states: Rc<RefCell<Vec<bool>>>,
}

impl SoundDriver for BeepRecorder {
    fn set_beep(&self, state: bool) {
        self.states.borrow_mut().push(state);
    }
}

struct NoKeys;

impl KeyboardDriver for NoKeys {
    fn get_key_pressed(&self) -> Option<u8> {
        None
    }

    fn wait_key_pressed(&self) -> u8 {
        0
    }
}

struct FixedKey(u8);

impl KeyboardDriver for FixedKey {
    fn get_key_pressed(&self) -> Option<u8> {
        Some(self.0)
    }

    fn wait_key_pressed(&self) -> u8 {
        self.0
    }
}

fn new_system(program: Vec<u8>) -> ChipSystem<NullVideo, NullSound, NoKeys> {
    let mut sys = ChipSystem::new(NullVideo, NullSound, NoKeys);
    sys.load_program(program).unwrap();
    sys
}

fn run_steps<V: VideoDriver, S: SoundDriver, K: KeyboardDriver>(
    sys: &mut ChipSystem<V, S, K>,
    n: usize,
) {
    for _ in 0..n {
        sys.decode_next_instruction().unwrap();
    }
}

#[test]
fn test_video() {
    let mut chip_video = VideoDisplay::new(NullVideo);
    chip_video.update_screen();
    chip_video.clear_buffer();
    chip_video.update_screen();
}

#[test]
fn test_clear_is_idempotent() {
    let mut display = VideoDisplay::new(NullVideo);
    display.draw_sprite(0, 0, &vec![0xFF, 0x81]);
    display.clear_buffer();
    let once = display.snapshot();
    assert_eq!(once, [0u64; 32]);
    display.clear_buffer();
    let twice = display.snapshot();
    assert_eq!(once, twice);
}

#[test]
fn test_store_load_roundtrip() {
    let mut sys = new_system(vec![
        0x63, 0x11, // V3 = 0x11
        0x60, 0xAA, // V0 = 0xAA
        0x61, 0xBB, // V1 = 0xBB
        0x62, 0xCC, // V2 = 0xCC
        0xA3, 0x00, // I = 0x300
        0xF2, 0x55, // store V0..V2 at I
        0x60, 0x00, // V0 = 0
        0x61, 0x00, // V1 = 0
        0x62, 0x00, // V2 = 0
        0xF2, 0x65, // load V0..V2 back from I
    ]);
    run_steps(&mut sys, 10);
    let regs = sys.registers();
    assert_eq!(regs.variable_register[0], 0xAA);
    assert_eq!(regs.variable_register[1], 0xBB);
    assert_eq!(regs.variable_register[2], 0xCC);
    assert_eq!(regs.variable_register[3], 0x11);
    assert_eq!(regs.index_register, 0x300);
}

#[test]
fn test_add_with_carry() {
    let mut sys = new_system(vec![
        0x60, 0xFF, // V0 = 0xFF
        0x61, 0x01, // V1 = 0x01
        0x80, 0x14, // V0 += V1
        0x62, 0x01, // V2 = 0x01
        0x63, 0x01, // V3 = 0x01
        0x82, 0x34, // V2 += V3
    ]);
    run_steps(&mut sys, 3);
    assert_eq!(sys.registers().variable_register[0], 0x00);
    assert_eq!(sys.registers().variable_register[0xF], 1);
    run_steps(&mut sys, 3);
    assert_eq!(sys.registers().variable_register[2], 0x02);
    assert_eq!(sys.registers().variable_register[0xF], 0);
}

#[test]
fn test_sub_with_borrow_flag() {
    let mut sys = new_system(vec![
        0x60, 0x05, // V0 = 5
        0x61, 0x03, // V1 = 3
        0x80, 0x15, // V0 -= V1
        0x62, 0x03, // V2 = 3
        0x63, 0x05, // V3 = 5
        0x82, 0x35, // V2 -= V3
    ]);
    run_steps(&mut sys, 3);
    assert_eq!(sys.registers().variable_register[0], 0x02);
    assert_eq!(sys.registers().variable_register[0xF], 1);
    run_steps(&mut sys, 3);
    assert_eq!(sys.registers().variable_register[2], 0xFE);
    assert_eq!(sys.registers().variable_register[0xF], 0);
}

#[test]
fn test_stack_depth_and_order() {
    let mut stack = Stack::new();
    for i in 0..16u16 {
        assert_eq!(stack.push(0x200 + i), Ok(()));
    }
    assert_eq!(stack.push(0x300), Err(ChipError::StackOverflow));
    for i in (0..16u16).rev() {
        assert_eq!(stack.pop(), Ok(0x200 + i));
    }
    assert_eq!(stack.pop(), Err(ChipError::StackUnderflow));
}

#[test]
fn test_call_stack_overflow_on_seventeenth() {
    // The instruction at 0x200 calls 0x200 again, pushing one return
    // address per step until the 16-deep stack is full.
    let mut sys = new_system(vec![0x22, 0x00]);
    for _ in 0..16 {
        assert_eq!(sys.decode_next_instruction(), Ok(()));
    }
    assert_eq!(
        sys.decode_next_instruction(),
        Err(ChipError::StackOverflow)
    );
}

#[test]
fn test_return_on_empty_stack() {
    let mut sys = new_system(vec![0x00, 0xEE]);
    assert_eq!(
        sys.decode_next_instruction(),
        Err(ChipError::StackUnderflow)
    );
}

#[test]
fn test_draw_twice_restores_frame() {
    let mut display = VideoDisplay::new(NullVideo);
    let sprite = vec![0xF0, 0x90, 0x90, 0x90, 0xF0];
    let first = display.draw_sprite(3, 4, &sprite);
    assert!(!first);
    let drawn = display.snapshot();
    assert_eq!(drawn[4], (0xF0u64 << 56) >> 3);
    let second = display.draw_sprite(3, 4, &sprite);
    assert!(second);
    assert_eq!(display.snapshot(), [0u64; 32]);
}

#[test]
fn test_draw_wraps_rows_and_clips_columns() {
    let mut display = VideoDisplay::new(NullVideo);
    // Vertical wrap: rows land at 31 and (31 + 1) % 32 == 0.
    display.draw_sprite(0, 31, &vec![0xFF, 0xFF]);
    let frame = display.snapshot();
    assert_eq!(frame[31], 0xFFu64 << 56);
    assert_eq!(frame[0], 0xFFu64 << 56);
    // Horizontal clip: bits pushed past column 63 are discarded.
    let mut clipped = VideoDisplay::new(NullVideo);
    clipped.draw_sprite(60, 0, &vec![0xFF]);
    assert_eq!(clipped.snapshot()[0], (0xFFu64 << 56) >> 60);
}

#[test]
fn test_end_to_end_glyph() {
    let frames = Rc::new(RefCell::new(Vec::new()));
    let recorder = FrameRecorder { frames: frames.clone() };
    let mut sys = ChipSystem::new(recorder, NullSound, NoKeys);
    sys.load_program(vec![
        0x00, 0xE0, // clear
        0x60, 0x05, // V0 = 5
        0xA0, 0x00, // I = 0: the glyph for digit 0
        0xD0, 0x05, // draw 5 rows at (V0, V0)
        0x12, 0x00, // loop forever
    ])
    .unwrap();
    run_steps(&mut sys, 4);
    // The digit-0 glyph sits at (5, 5): the draw coordinates come from V0.
    let frame = *frames.borrow().last().unwrap();
    for r in 0..5 {
        assert_eq!(frame[5 + r], ((CHIP_FONT[r] as u64) << 56) >> 5);
    }
    for r in 0..32 {
        if !(5..10).contains(&r) {
            assert_eq!(frame[r], 0);
        }
    }
    // The program loops forever without a decode error.
    for _ in 0..50 {
        assert_eq!(sys.decode_next_instruction(), Ok(()));
    }
    assert_eq!(*frames.borrow().last().unwrap(), frame);
}

#[test]
fn test_sound_timer_signal() {
    let states = Rc::new(RefCell::new(Vec::new()));
    let mut timer = SoundTimer::new(BeepRecorder { states: states.clone() });
    timer.set_time(5);
    for _ in 0..5 {
        timer.tick_down();
    }
    assert_eq!(*states.borrow(), vec![true, true, true, true, false]);
    assert_eq!(timer.get_time(), 0);
    timer.tick_down();
    assert_eq!(*states.borrow(), vec![true, true, true, true, false, false]);
}

#[test]
fn test_delay_timer_parks_at_zero() {
    let mut timer = DelayTimer::new();
    assert_eq!(timer.time_value, 0);
    timer.time_value = 2;
    timer.tick_down();
    timer.tick_down();
    timer.tick_down();
    assert_eq!(timer.time_value, 0);
}

#[test]
fn test_program_too_large() {
    let mut memory = EntireMemory::new();
    assert_eq!(memory.load_program(vec![0; 3585]), Err(ChipError::ProgramTooLarge));
    let mut memory2 = EntireMemory::new();
    assert_eq!(memory2.load_program(vec![0x12; 3584]), Ok(0x200));
    let mut sys = ChipSystem::new(NullVideo, NullSound, NoKeys);
    assert_eq!(sys.load_program(vec![0; 3585]), Err(ChipError::ProgramTooLarge));
}

#[test]
fn test_font_installed() {
    let memory = EntireMemory::new();
    assert_eq!(&memory.memory_array[0..5], &[0xF0, 0x90, 0x90, 0x90, 0xF0]);
    assert_eq!(memory.memory_array[79], 0x80);
    assert_eq!(memory.memory_array[80], 0);
    assert_eq!(memory.get_character(0), 0);
    assert_eq!(memory.get_character(7), 35);
    assert_eq!(memory.get_character(15), 75);
}

#[test]
fn test_program_loaded_at_start_address() {
    let mut memory = EntireMemory::new();
    assert_eq!(memory.load_program(vec![0xAB, 0xCD]), Ok(0x200));
    assert_eq!(memory.memory_array[0x200], 0xAB);
    assert_eq!(memory.memory_array[0x201], 0xCD);
    assert_eq!(memory.memory_array[0x202], 0);
}

#[test]
fn test_decode_errors_carry_word() {
    for (bytes, word) in [
        (vec![0x00u8, 0x00u8], 0x0000u16),
        (vec![0x50, 0x01], 0x5001),
        (vec![0x90, 0x01], 0x9001),
        (vec![0x80, 0x0F], 0x800F),
        (vec![0xE0, 0x00], 0xE000),
        (vec![0xF0, 0x00], 0xF000),
    ] {
        let mut sys = new_system(bytes);
        assert_eq!(sys.decode_next_instruction(), Err(ChipError::DecodeError(word)));
    }
}

#[test]
fn test_skip_instructions() {
    // 3xnn skips when equal.
    let mut sys = new_system(vec![0x60, 0x07, 0x30, 0x07]);
    run_steps(&mut sys, 2);
    assert_eq!(sys.program_counter(), 0x206);
    // 4xnn skips when not equal.
    let mut sys2 = new_system(vec![0x60, 0x07, 0x40, 0x07]);
    run_steps(&mut sys2, 2);
    assert_eq!(sys2.program_counter(), 0x204);
    // 5xy0 skips when registers are equal.
    let mut sys3 = new_system(vec![0x60, 0x03, 0x61, 0x03, 0x50, 0x10]);
    run_steps(&mut sys3, 3);
    assert_eq!(sys3.program_counter(), 0x208);
    // 9xy0 skips when registers differ.
    let mut sys4 = new_system(vec![0x60, 0x03, 0x61, 0x04, 0x90, 0x10]);
    run_steps(&mut sys4, 3);
    assert_eq!(sys4.program_counter(), 0x208);
}

#[test]
fn test_alu_bit_operations() {
    let mut sys = new_system(vec![
        0x60, 0xF0, 0x61, 0x0F, 0x80, 0x11, // V0 |= V1
        0x62, 0xCC, 0x63, 0xAA, 0x82, 0x32, // V2 &= V3
        0x64, 0xF0, 0x65, 0xFF, 0x84, 0x53, // V4 ^= V5
        0x66, 0x00, 0x67, 0x12, 0x86, 0x70, // V6 = V7
    ]);
    run_steps(&mut sys, 12);
    let regs = sys.registers();
    assert_eq!(regs.variable_register[0], 0xFF);
    assert_eq!(regs.variable_register[2], 0x88);
    assert_eq!(regs.variable_register[4], 0x0F);
    assert_eq!(regs.variable_register[6], 0x12);
}

#[test]
fn test_shifts_read_vy() {
    let mut sys = new_system(vec![
        0x61, 0x85, // V1 = 0x85
        0x80, 0x16, // V0 = V1 >> 1, VF = V1 & 1
    ]);
    run_steps(&mut sys, 2);
    assert_eq!(sys.registers().variable_register[0], 0x42);
    assert_eq!(sys.registers().variable_register[0xF], 1);
    let mut sys2 = new_system(vec![
        0x61, 0x85, // V1 = 0x85
        0x80, 0x1E, // V0 = V1 << 1, VF = top bit of V1
    ]);
    run_steps(&mut sys2, 2);
    assert_eq!(sys2.registers().variable_register[0], 0x0A);
    assert_eq!(sys2.registers().variable_register[0xF], 1);
}

#[test]
fn test_add_nn_wraps_without_flag() {
    let mut sys = new_system(vec![
        0x60, 0xFE, // V0 = 0xFE
        0x70, 0x05, // V0 += 5, wrapping, no flag
    ]);
    run_steps(&mut sys, 2);
    assert_eq!(sys.registers().variable_register[0], 0x03);
    assert_eq!(sys.registers().variable_register[0xF], 0);
}

#[test]
fn test_jump_call_and_return() {
    let mut sys = new_system(vec![0x12, 0x08]);
    run_steps(&mut sys, 1);
    assert_eq!(sys.program_counter(), 0x208);
    let mut sys2 = new_system(vec![0x22, 0x04, 0x00, 0x00, 0x00, 0xEE]);
    run_steps(&mut sys2, 1);
    assert_eq!(sys2.program_counter(), 0x204);
    run_steps(&mut sys2, 1);
    assert_eq!(sys2.program_counter(), 0x202);
}

#[test]
fn test_jump_with_offset() {
    let mut sys = new_system(vec![0x60, 0x02, 0xB2, 0x0A]);
    run_steps(&mut sys, 2);
    assert_eq!(sys.program_counter(), 0x20C);
}

#[test]
fn test_random_masked_and_seeded() {
    let mut sys = new_system(vec![0xC0, 0x0F]);
    run_steps(&mut sys, 1);
    let s = RANDOM_SEED;
    let a = s ^ (s << 13);
    let b = a ^ (a >> 7);
    let next = b ^ (b << 17);
    let expected = ((next % 256) as u8) & 0x0F;
    let v0 = sys.registers().variable_register[0];
    assert_eq!(v0, expected);
    assert_eq!(v0 & !0x0F, 0);
}

#[test]
fn test_index_add_sets_overflow_flag() {
    let mut sys = new_system(vec![
        0xA0, 0x10, // I = 0x010
        0x60, 0x05, // V0 = 5
        0xF0, 0x1E, // I += V0: no overflow
        0xAF, 0xFF, // I = 0xFFF
        0x61, 0x02, // V1 = 2
        0xF1, 0x1E, // I += V1: overflow, mask to 12 bits
    ]);
    run_steps(&mut sys, 3);
    assert_eq!(sys.registers().index_register, 0x15);
    assert_eq!(sys.registers().variable_register[0xF], 0);
    run_steps(&mut sys, 3);
    assert_eq!(sys.registers().index_register, 0x001);
    assert_eq!(sys.registers().variable_register[0xF], 1);
}

#[test]
fn test_decimal_digits() {
    let mut sys = new_system(vec![
        0x60, 0xEA, // V0 = 234
        0xA3, 0x00, // I = 0x300
        0xF0, 0x33, // digits of V0 to memory at I
        0xF2, 0x65, // load V0..V2 back from I
    ]);
    run_steps(&mut sys, 4);
    let regs = sys.registers();
    assert_eq!(regs.variable_register[0], 2);
    assert_eq!(regs.variable_register[1], 3);
    assert_eq!(regs.variable_register[2], 4);
}

#[test]
fn test_timers_through_instructions() {
    let states = Rc::new(RefCell::new(Vec::new()));
    let recorder = BeepRecorder { states: states.clone() };
    let mut sys = ChipSystem::new(NullVideo, recorder, NoKeys);
    sys.load_program(vec![
        0x60, 0x09, // V0 = 9
        0xF0, 0x15, // delay = V0
        0xF0, 0x18, // sound = V0
        0xF1, 0x07, // V1 = delay
    ])
    .unwrap();
    run_steps(&mut sys, 2);
    sys.tick_timers();
    run_steps(&mut sys, 2);
    let regs = sys.registers();
    assert_eq!(regs.variable_register[1], 8);
    // The one tick happened while the sound timer was still zero, so the
    // audio signal stayed de-asserted.
    assert_eq!(*states.borrow(), vec![false]);
}

#[test]
fn test_glyph_lookup() {
    let mut sys = new_system(vec![0x60, 0x07, 0xF0, 0x29]);
    run_steps(&mut sys, 2);
    assert_eq!(sys.registers().index_register, 35);
}

#[test]
fn test_key_skip_instructions() {
    // Key 5 pressed and V0 == 5: "skip if pressed" skips.
    let mut sys = ChipSystem::new(NullVideo, NullSound, FixedKey(5));
    sys.load_program(vec![0x60, 0x05, 0xE0, 0x9E]).unwrap();
    run_steps(&mut sys, 2);
    assert_eq!(sys.program_counter(), 0x206);
    // No key pressed: "skip if pressed" does not skip.
    let mut sys2 = new_system(vec![0x60, 0x05, 0xE0, 0x9E]);
    run_steps(&mut sys2, 2);
    assert_eq!(sys2.program_counter(), 0x204);
    // Key 5 pressed but V0 == 6: "skip if not pressed" skips.
    let mut sys3 = ChipSystem::new(NullVideo, NullSound, FixedKey(5));
    sys3.load_program(vec![0x60, 0x06, 0xE0, 0xA1]).unwrap();
    run_steps(&mut sys3, 2);
    assert_eq!(sys3.program_counter(), 0x206);
}

#[test]
fn test_wait_for_key() {
    let mut sys = ChipSystem::new(NullVideo, NullSound, FixedKey(0xB));
    sys.load_program(vec![0xF0, 0x0A]).unwrap();
    run_steps(&mut sys, 1);
    assert_eq!(sys.registers().variable_register[0], 0xB);
}

#[test]
fn test_free_function_faces() {
    let mut sys = ChipSystem::new(NullVideo, NullSound, NoKeys);
    chip8::instruction_decoder::load_program_from_vector(&mut sys, vec![0x60, 0x2A]).unwrap();
    chip8::instruction_decoder::decode_next_instruction(&mut sys).unwrap();
    assert_eq!(sys.registers().variable_register[0], 0x2A);
    chip8::instruction_decoder::tick_timers(&mut sys);
}

#[test]
fn test_register_file_starts_zeroed() {
    let regs = RegisterSet::new();
    assert_eq!(regs.index_register, 0);
    assert_eq!(regs.variable_register, [0u8; 16]);
}

#[test]
fn test_runner_paces_decodes() {
    let mut runner = TimedRunner::new(NullVideo, NullSound, NoKeys);
    runner.load_program(vec![0x70, 0x01, 0x12, 0x00]).unwrap();
    // The decode interval is exceeded on the 61st tick.
    for _ in 0..60 {
        assert_eq!(runner.tick_chip(), Ok(()));
    }
    assert_eq!(runner.system().registers().variable_register[0], 0);
    assert_eq!(runner.tick_chip(), Ok(()));
    assert_eq!(runner.system().registers().variable_register[0], 1);
}

#[test]
fn test_runner_catch_up_mode() {
    let mut runner = TimedRunner::new(NullVideo, NullSound, NoKeys);
    runner.load_program(vec![0x70, 0x01, 0x12, 0x00]).unwrap();
    // From a fresh runner the timer accumulator is zero, so catch-up is a
    // no-op.
    assert_eq!(runner.decode_next_immediately(), Ok(()));
    assert_eq!(runner.system().registers().variable_register[0], 0);
    // One manual tick, then catch-up drains until the timer fires at tick
    // 701; decodes fire every 61 ticks, so 11 run, 6 of them additions.
    assert_eq!(runner.tick_chip(), Ok(()));
    assert_eq!(runner.decode_next_immediately(), Ok(()));
    assert_eq!(runner.system().registers().variable_register[0], 6);
}

#[test]
fn test_runner_surfaces_decode_error() {
    let mut runner = TimedRunner::new(NullVideo, NullSound, NoKeys);
    runner.load_program(vec![0x00, 0x00]).unwrap();
    for _ in 0..60 {
        assert_eq!(runner.tick_chip(), Ok(()));
    }
    assert_eq!(runner.tick_chip(), Err(ChipError::DecodeError(0x0000)));
}
