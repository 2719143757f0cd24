//! The fetch-decode-execute dispatcher and the machine it drives.
//!
//! `ChipSystem` bundles the program counter, register file, call stack,
//! RAM, framebuffer, timer pair, keypad and random byte source. One
//! `decode_next_instruction` call fetches the 2-byte word at the program
//! counter, advances the counter, and executes the word's opcode family.
//!
//! The whole step is specified against a mathematical machine state,
//! `ChipState`: `spec_chip_step` says exactly which state and which result
//! a step produces, up to the one external input — the key the keypad
//! driver reports, existentially quantified in the contract.

use vstd::prelude::*;

use crate::errors::ChipError;
use crate::keyboard::{Keyboard, KeyboardDriver};
use crate::memory::{EntireMemory, RegisterSet, Stack};
use crate::memory::{spec_initial_memory, spec_loaded_memory, MEMORY_SIZE, PROGRAM_START, STACK_DEPTH};
use crate::random::{spec_next_state, spec_state_byte, RandomByteSource};
use crate::timers::{spec_ticked, DelayTimer, SoundDriver, SoundTimer};
use crate::video::{spec_blank_frame, spec_draw, VideoDisplay, VideoDriver};

verus! {

/// The seed every fresh machine starts its byte source from. Runs are
/// reproducible; a host wanting variety can load a different program.
pub const RANDOM_SEED: u64 = 0x2545F4914F6CDD1D;

/// The mathematical state of the whole machine: what every contract of
/// the dispatcher speaks about.
pub ghost struct ChipState {
    /// Program counter, always below 4096.
    pub pc: u16,
    /// The 16-bit index register `I`, always below 4096.
    pub index: u16,
    /// The sixteen variable registers `V0`..`VF`.
    pub regs: Seq<u8>,
    /// The call stack, most recent return address last.
    pub stack: Seq<u16>,
    /// All 4096 bytes of RAM.
    pub mem: Seq<u8>,
    /// The 32 framebuffer rows.
    pub fb: Seq<u64>,
    /// The delay timer value.
    pub delay: u8,
    /// The sound timer value.
    pub sound: u8,
    /// The state of the pseudo-random byte source.
    pub rng: u64,
}

impl ChipState {
    /// The shape every reachable machine state has.
    pub open spec fn wf(self) -> bool {
        &&& self.pc < 4096
        &&& self.index < 4096
        &&& self.regs.len() == 16
        &&& self.stack.len() <= STACK_DEPTH
        &&& forall|i: int| 0 <= i < self.stack.len() ==> self.stack[i] < 4096
        &&& self.mem.len() == 4096
        &&& self.fb.len() == 32
    }
}

/// The state a fresh machine is in before a program is loaded.
pub open spec fn spec_initial_state() -> ChipState {
    ChipState {
        pc: 0,
        index: 0,
        regs: Seq::new(16, |i: int| 0u8),
        stack: Seq::empty(),
        mem: spec_initial_memory(),
        fb: spec_blank_frame(),
        delay: 0,
        sound: 0,
        rng: RANDOM_SEED,
    }
}

/// The top nibble of an instruction word: which of the 16 opcode families
/// it belongs to.
pub open spec fn spec_op_category(w: u16) -> int {
    w as int / 0x1000
}

/// Bits 8-11: the first register operand.
pub open spec fn spec_op_x(w: u16) -> int {
    (w as int / 0x100) % 0x10
}

/// Bits 4-7: the second register operand.
pub open spec fn spec_op_y(w: u16) -> int {
    (w as int / 0x10) % 0x10
}

/// Bits 0-3: the low nibble operand.
pub open spec fn spec_op_n(w: u16) -> int {
    w as int % 0x10
}

/// The low byte operand.
pub open spec fn spec_op_nn(w: u16) -> u8 {
    (w as int % 0x100) as u8
}

/// The low 12 bits: an address operand.
pub open spec fn spec_op_nnn(w: u16) -> u16 {
    (w as int % 0x1000) as u16
}

/// The 2-byte big-endian instruction word at the program counter.
pub open spec fn spec_fetch(s: ChipState) -> u16 {
    (s.mem[s.pc as int] * 0x100 + s.mem[(s.pc + 1) % 4096]) as u16
}

/// A program counter moved past one instruction, wrapped to the address
/// space.
pub open spec fn spec_pc_plus_2(pc: u16) -> u16 {
    ((pc + 2) % 4096) as u16
}

/// Family 0: clear the screen, or return from a call.
pub open spec fn spec_sys(s: ChipState, w: u16) -> (ChipState, Result<(), ChipError>) {
    let nnn = spec_op_nnn(w);
    if nnn == 0x0E0 {
        (ChipState { fb: spec_blank_frame(), ..s }, Ok(()))
    } else if nnn == 0x0EE {
        if s.stack.len() == 0 {
            (s, Err(ChipError::StackUnderflow))
        } else {
            (ChipState { pc: s.stack.last(), stack: s.stack.drop_last(), ..s }, Ok(()))
        }
    } else {
        (s, Err(ChipError::DecodeError(w)))
    }
}

/// Family 1: jump.
pub open spec fn spec_jump(s: ChipState, w: u16) -> (ChipState, Result<(), ChipError>) {
    (ChipState { pc: spec_op_nnn(w), ..s }, Ok(()))
}

/// Family 2: call — push the return address, then jump.
pub open spec fn spec_call(s: ChipState, w: u16) -> (ChipState, Result<(), ChipError>) {
    if s.stack.len() >= STACK_DEPTH {
        (s, Err(ChipError::StackOverflow))
    } else {
        (ChipState { pc: spec_op_nnn(w), stack: s.stack.push(s.pc), ..s }, Ok(()))
    }
}

/// Families 3 and 4: skip the next instruction when `Vx` compares equal
/// (or not equal) to the byte operand.
pub open spec fn spec_skip_nn(s: ChipState, w: u16, when_equal: bool) -> (
    ChipState,
    Result<(), ChipError>,
) {
    if (s.regs[spec_op_x(w)] == spec_op_nn(w)) == when_equal {
        (ChipState { pc: spec_pc_plus_2(s.pc), ..s }, Ok(()))
    } else {
        (s, Ok(()))
    }
}

/// Families 5 and 9: skip the next instruction when `Vx` compares equal
/// (or not equal) to `Vy`; only the low nibble 0 is defined.
pub open spec fn spec_skip_reg(s: ChipState, w: u16, when_equal: bool) -> (
    ChipState,
    Result<(), ChipError>,
) {
    if spec_op_n(w) != 0 {
        (s, Err(ChipError::DecodeError(w)))
    } else if (s.regs[spec_op_x(w)] == s.regs[spec_op_y(w)]) == when_equal {
        (ChipState { pc: spec_pc_plus_2(s.pc), ..s }, Ok(()))
    } else {
        (s, Ok(()))
    }
}

/// Family 6: set `Vx` to the byte operand.
pub open spec fn spec_set_nn(s: ChipState, w: u16) -> (ChipState, Result<(), ChipError>) {
    (ChipState { regs: s.regs.update(spec_op_x(w), spec_op_nn(w)), ..s }, Ok(()))
}

/// Family 7: add the byte operand into `Vx`, wrapping, no flag.
pub open spec fn spec_add_nn(s: ChipState, w: u16) -> (ChipState, Result<(), ChipError>) {
    let x = spec_op_x(w);
    let sum = s.regs[x] + spec_op_nn(w);
    (ChipState { regs: s.regs.update(x, ((sum % 256) as u8)), ..s }, Ok(()))
}

/// Family 8: register-to-register arithmetic and logic. `VF` is written
/// last, so it wins when `x` is `F`.
pub open spec fn spec_alu(s: ChipState, w: u16) -> (ChipState, Result<(), ChipError>) {
    let x = spec_op_x(w);
    let vx = s.regs[x];
    let vy = s.regs[spec_op_y(w)];
    let n = spec_op_n(w);
    if n == 0 {
        (ChipState { regs: s.regs.update(x, vy), ..s }, Ok(()))
    } else if n == 1 {
        (ChipState { regs: s.regs.update(x, vx | vy), ..s }, Ok(()))
    } else if n == 2 {
        (ChipState { regs: s.regs.update(x, vx & vy), ..s }, Ok(()))
    } else if n == 3 {
        (ChipState { regs: s.regs.update(x, vx ^ vy), ..s }, Ok(()))
    } else if n == 4 {
        let flag: u8 = if vx + vy > 255 {
            1u8
        } else {
            0u8
        };
        (
            ChipState { regs: s.regs.update(x, (((vx + vy) % 256) as u8)).update(15, flag), ..s },
            Ok(()),
        )
    } else if n == 5 {
        let flag: u8 = if vx >= vy {
            1u8
        } else {
            0u8
        };
        (
            ChipState { regs: s.regs.update(x, (((vx - vy) % 256) as u8)).update(15, flag), ..s },
            Ok(()),
        )
    } else if n == 6 {
        (ChipState { regs: s.regs.update(x, vy >> 1u8).update(15, vy & 1), ..s }, Ok(()))
    } else if n == 0xE {
        let flag: u8 = if vy & 0x80 != 0 {
            1u8
        } else {
            0u8
        };
        (ChipState { regs: s.regs.update(x, vy << 1u8).update(15, flag), ..s }, Ok(()))
    } else {
        (s, Err(ChipError::DecodeError(w)))
    }
}

/// Family A: set the index register.
pub open spec fn spec_set_index(s: ChipState, w: u16) -> (ChipState, Result<(), ChipError>) {
    (ChipState { index: spec_op_nnn(w), ..s }, Ok(()))
}

/// Family B: jump to the address operand displaced by `V0`, wrapped to
/// the address space.
pub open spec fn spec_jump_offset(s: ChipState, w: u16) -> (ChipState, Result<(), ChipError>) {
    (ChipState { pc: (((spec_op_nnn(w) + s.regs[0]) % 4096) as u16), ..s }, Ok(()))
}

/// Family C: draw a fresh pseudo-random byte and mask it into `Vx`.
pub open spec fn spec_random(s: ChipState, w: u16) -> (ChipState, Result<(), ChipError>) {
    let next = spec_next_state(s.rng);
    (
        ChipState {
            regs: s.regs.update(spec_op_x(w), spec_state_byte(next) & spec_op_nn(w)),
            rng: next,
            ..s
        },
        Ok(()),
    )
}

/// Family D: XOR-composite an `n`-row sprite read from memory at the
/// index register onto the frame at `(Vx, Vy)`; `VF` becomes the
/// collision flag.
pub open spec fn spec_draw_instr(s: ChipState, w: u16) -> (ChipState, Result<(), ChipError>) {
    let vx = s.regs[spec_op_x(w)];
    let vy = s.regs[spec_op_y(w)];
    let rows = Seq::new(spec_op_n(w) as nat, |i: int| s.mem[(s.index + i) % 4096]);
    let d = spec_draw(s.fb, vx, vy, rows);
    (
        ChipState {
            fb: d.0,
            regs: s.regs.update(
                15,
                if d.1 {
                    1u8
                } else {
                    0u8
                },
            ),
            ..s
        },
        Ok(()),
    )
}

/// Family E: skip the next instruction depending on whether key `Vx` is
/// pressed, given what the keypad reported.
pub open spec fn spec_key_skip(s: ChipState, w: u16, key: Option<u8>) -> (
    ChipState,
    Result<(), ChipError>,
) {
    let nn = spec_op_nn(w);
    if nn == 0x9E || nn == 0xA1 {
        let pressed = key == Some(s.regs[spec_op_x(w)]);
        if pressed == (nn == 0x9E) {
            (ChipState { pc: spec_pc_plus_2(s.pc), ..s }, Ok(()))
        } else {
            (s, Ok(()))
        }
    } else {
        (s, Err(ChipError::DecodeError(w)))
    }
}

/// RAM after registers `V0..=V(count-1)` were stored at the index
/// register, each address wrapped to the address space.
pub open spec fn spec_store_regs(mem: Seq<u8>, regs: Seq<u8>, base: u16, count: nat) -> Seq<u8>
    decreases count,
{
    if count == 0 {
        mem
    } else {
        spec_store_regs(mem, regs, base, (count - 1) as nat).update(
            (base + count - 1) % 4096,
            regs[count - 1],
        )
    }
}

/// Registers after `V0..=V(count-1)` were loaded from RAM at the index
/// register, each address wrapped to the address space.
pub open spec fn spec_load_regs(regs: Seq<u8>, mem: Seq<u8>, base: u16, count: nat) -> Seq<u8>
    decreases count,
{
    if count == 0 {
        regs
    } else {
        spec_load_regs(regs, mem, base, (count - 1) as nat).update(
            count - 1,
            mem[(base + count - 1) % 4096],
        )
    }
}

/// Family F: timers, index arithmetic, key wait, glyph lookup, decimal
/// digits and the register/memory bulk copies. `key` is what the keypad
/// reported; the key-wait instruction is only ever completed with a key
/// in hand.
pub open spec fn spec_misc(s: ChipState, w: u16, key: Option<u8>) -> (
    ChipState,
    Result<(), ChipError>,
) {
    let x = spec_op_x(w);
    let nn = spec_op_nn(w);
    if nn == 0x07 {
        (ChipState { regs: s.regs.update(x, s.delay), ..s }, Ok(()))
    } else if nn == 0x15 {
        (ChipState { delay: s.regs[x], ..s }, Ok(()))
    } else if nn == 0x18 {
        (ChipState { sound: s.regs[x], ..s }, Ok(()))
    } else if nn == 0x1E {
        let sum = s.index + s.regs[x];
        if sum > 0xFFF {
            (ChipState { index: ((sum % 0x1000) as u16), regs: s.regs.update(15, 1u8), ..s }, Ok(()))
        } else {
            (ChipState { index: (sum as u16), ..s }, Ok(()))
        }
    } else if nn == 0x0A {
        match key {
            Some(k) => (ChipState { regs: s.regs.update(x, k), ..s }, Ok(())),
            None => (s, Ok(())),
        }
    } else if nn == 0x29 {
        (ChipState { index: ((5 * (s.regs[x] % 16)) as u16), ..s }, Ok(()))
    } else if nn == 0x33 {
        let v = s.regs[x];
        let mem1 = s.mem.update(s.index as int, ((v / 100) as u8)).update(
            (s.index + 1) % 4096,
            ((v / 10 % 10) as u8),
        ).update((s.index + 2) % 4096, ((v % 10) as u8));
        (ChipState { mem: mem1, ..s }, Ok(()))
    } else if nn == 0x55 {
        (ChipState { mem: spec_store_regs(s.mem, s.regs, s.index, (x + 1) as nat), ..s }, Ok(()))
    } else if nn == 0x65 {
        (ChipState { regs: spec_load_regs(s.regs, s.mem, s.index, (x + 1) as nat), ..s }, Ok(()))
    } else {
        (s, Err(ChipError::DecodeError(w)))
    }
}

/// One instruction executed against a state whose program counter has
/// already moved past the word `w`.
pub open spec fn spec_execute(s: ChipState, w: u16, key: Option<u8>) -> (
    ChipState,
    Result<(), ChipError>,
) {
    let c = spec_op_category(w);
    if c == 0x0 {
        spec_sys(s, w)
    } else if c == 0x1 {
        spec_jump(s, w)
    } else if c == 0x2 {
        spec_call(s, w)
    } else if c == 0x3 {
        spec_skip_nn(s, w, true)
    } else if c == 0x4 {
        spec_skip_nn(s, w, false)
    } else if c == 0x5 {
        spec_skip_reg(s, w, true)
    } else if c == 0x6 {
        spec_set_nn(s, w)
    } else if c == 0x7 {
        spec_add_nn(s, w)
    } else if c == 0x8 {
        spec_alu(s, w)
    } else if c == 0x9 {
        spec_skip_reg(s, w, false)
    } else if c == 0xA {
        spec_set_index(s, w)
    } else if c == 0xB {
        spec_jump_offset(s, w)
    } else if c == 0xC {
        spec_random(s, w)
    } else if c == 0xD {
        spec_draw_instr(s, w)
    } else if c == 0xE {
        spec_key_skip(s, w, key)
    } else {
        spec_misc(s, w, key)
    }
}

/// One whole dispatcher step: fetch the word at the program counter,
/// advance the counter past it, then execute it. `key` is the one
/// external input: what the keypad reported during the step.
pub open spec fn spec_chip_step(s: ChipState, key: Option<u8>) -> (ChipState, Result<(), ChipError>) {
    let w = spec_fetch(s);
    spec_execute(ChipState { pc: spec_pc_plus_2(s.pc), ..s }, w, key)
}

/// Whether the instruction at the program counter is the blocking
/// key-wait, whose step only completes once a key is reported.
pub open spec fn spec_waits_for_key(s: ChipState) -> bool {
    let w = spec_fetch(s);
    spec_op_category(w) == 0xF && spec_op_nn(w) == 0x0A
}

/// Both timers ticked once, as the 60 Hz cadence does.
pub open spec fn spec_tick_timers(s: ChipState) -> ChipState {
    ChipState { delay: spec_ticked(s.delay), sound: spec_ticked(s.sound), ..s }
}

/// Everything needed to run a program: the components of the machine and
/// the three host drivers.
pub struct ChipSystem<V: VideoDriver, S: SoundDriver, K: KeyboardDriver> {
    program_counter: u16,
    registers: RegisterSet,
    stack: Stack,
    ram: EntireMemory,
    video: VideoDisplay<V>,
    sound_timer: SoundTimer<S>,
    delay_timer: DelayTimer,
    keyboard: Keyboard<K>,
    random: RandomByteSource,
}

impl<V: VideoDriver, S: SoundDriver, K: KeyboardDriver> View for ChipSystem<V, S, K> {
    type V = ChipState;

    closed spec fn view(&self) -> ChipState {
        ChipState {
            pc: self.program_counter,
            index: self.registers.index_register,
            regs: self.registers.variable_register@,
            stack: self.stack@,
            mem: self.ram@,
            fb: self.video@,
            delay: self.delay_timer.time_value,
            sound: self.sound_timer.spec_time(),
            rng: self.random@,
        }
    }
}

impl<V: VideoDriver, S: SoundDriver, K: KeyboardDriver> ChipSystem<V, S, K> {
    /// The components keep their own internal invariants: the font sits
    /// where the glyph lookup expects it, and the stack cursor is in
    /// range.
    pub closed spec fn wf_components(&self) -> bool {
        &&& self.ram.wf()
        &&& self.stack.wf()
    }

    /// The abstract state is well-formed and the components keep their own
    /// internal invariants.
    pub open spec fn wf(&self) -> bool {
        &&& self@.wf()
        &&& self.wf_components()
    }

    /// A fresh machine wired to the given drivers: font installed, every
    /// register, timer and pixel zeroed. A program still has to be loaded.
    pub fn new(video_driver: V, sound_driver: S, keyboard_driver: K) -> (r: Self)
        ensures
            r.wf(),
            r@ == spec_initial_state(),
    {
        let r = ChipSystem {
            program_counter: 0,
            registers: RegisterSet::new(),
            stack: Stack::new(),
            ram: EntireMemory::new(),
            video: VideoDisplay::new(video_driver),
            sound_timer: SoundTimer::new(sound_driver),
            delay_timer: DelayTimer::new(),
            keyboard: Keyboard::new(keyboard_driver),
            random: RandomByteSource::new(RANDOM_SEED),
        };
        proof {
            assert(r@.regs =~= spec_initial_state().regs);
        }
        r
    }

    /// Copies a program into RAM at the load address and points the
    /// program counter at it; fails with `ProgramTooLarge`, changing
    /// nothing, when the program does not fit.
    pub fn load_program(&mut self, program_array: Vec<u8>) -> (r: Result<(), ChipError>)
        requires
            old(self).wf(),
        ensures
            final(self).wf(),
            program_array@.len() <= MEMORY_SIZE - PROGRAM_START ==> {
                &&& r == Ok::<(), ChipError>(())
                &&& final(self)@ == ChipState {
                    pc: PROGRAM_START,
                    mem: spec_loaded_memory(old(self)@.mem, program_array@),
                    ..old(self)@
                }
            },
            program_array@.len() > MEMORY_SIZE - PROGRAM_START ==> {
                &&& r == Err::<(), ChipError>(ChipError::ProgramTooLarge)
                &&& final(self)@ == old(self)@
            },
    {
        match self.ram.load_program(program_array) {
            Ok(start) => {
                self.program_counter = start;
                Ok(())
            },
            Err(e) => Err(e),
        }
    }

    /// Ticks both timers once; nothing else moves.
    pub fn tick_timers(&mut self)
        requires
            old(self).wf(),
        ensures
            final(self).wf(),
            final(self)@ == spec_tick_timers(old(self)@),
    {
        self.sound_timer.tick_down();
        self.delay_timer.tick_down();
    }

    /// The current program counter.
    pub fn program_counter(&self) -> (r: u16)
        ensures
            r == self@.pc,
    {
        self.program_counter
    }

    /// The register file, for a host that wants to inspect the machine.
    pub fn registers(&self) -> (r: &RegisterSet)
        ensures
            r.index_register == self@.index,
            r.variable_register@ == self@.regs,
    {
        &self.registers
    }

    /// Fetches the word at the program counter, advances the counter past
    /// it and executes it: one whole dispatcher step, exactly
    /// `spec_chip_step` for the key the keypad reported.
    pub fn decode_next_instruction(&mut self) -> (r: Result<(), ChipError>)
        requires
            old(self).wf(),
        ensures
            final(self).wf(),
            exists|key: Option<u8>|
                {
                    &&& (spec_waits_for_key(old(self)@) ==> key is Some)
                    &&& (final(self)@, r) == spec_chip_step(old(self)@, key)
                },
    {
        let ghost pre = self@;
        let pc = self.program_counter;
        let b1 = self.ram.read_byte(pc as usize);
        let b2 = self.ram.read_byte((pc as usize + 1) % 4096);
        let w = (b1 as u16) * 0x100 + (b2 as u16);
        self.program_counter = (pc + 2) % 4096;
        proof {
            assert(w == spec_fetch(pre));
            assert(self@ == ChipState { pc: spec_pc_plus_2(pre.pc), ..pre });
        }
        let c = get_instruction_category(w);
        if c == 0x0 {
            let r = self.op_system(w);
            proof {
                assert((self@, r) == spec_chip_step(pre, Option::<u8>::None));
            }
            r
        } else if c == 0x1 {
            let r = self.op_jump(w);
            proof {
                assert((self@, r) == spec_chip_step(pre, Option::<u8>::None));
            }
            r
        } else if c == 0x2 {
            let r = self.op_call(w);
            proof {
                assert((self@, r) == spec_chip_step(pre, Option::<u8>::None));
            }
            r
        } else if c == 0x3 {
            let r = self.op_skip_nn(w, true);
            proof {
                assert((self@, r) == spec_chip_step(pre, Option::<u8>::None));
            }
            r
        } else if c == 0x4 {
            let r = self.op_skip_nn(w, false);
            proof {
                assert((self@, r) == spec_chip_step(pre, Option::<u8>::None));
            }
            r
        } else if c == 0x5 {
            let r = self.op_skip_reg(w, true);
            proof {
                assert((self@, r) == spec_chip_step(pre, Option::<u8>::None));
            }
            r
        } else if c == 0x6 {
            let r = self.op_set_nn(w);
            proof {
                assert((self@, r) == spec_chip_step(pre, Option::<u8>::None));
            }
            r
        } else if c == 0x7 {
            let r = self.op_add_nn(w);
            proof {
                assert((self@, r) == spec_chip_step(pre, Option::<u8>::None));
            }
            r
        } else if c == 0x8 {
            let r = self.op_alu(w);
            proof {
                assert((self@, r) == spec_chip_step(pre, Option::<u8>::None));
            }
            r
        } else if c == 0x9 {
            let r = self.op_skip_reg(w, false);
            proof {
                assert((self@, r) == spec_chip_step(pre, Option::<u8>::None));
            }
            r
        } else if c == 0xA {
            let r = self.op_set_index(w);
            proof {
                assert((self@, r) == spec_chip_step(pre, Option::<u8>::None));
            }
            r
        } else if c == 0xB {
            let r = self.op_jump_offset(w);
            proof {
                assert((self@, r) == spec_chip_step(pre, Option::<u8>::None));
            }
            r
        } else if c == 0xC {
            let r = self.op_random(w);
            proof {
                assert((self@, r) == spec_chip_step(pre, Option::<u8>::None));
            }
            r
        } else if c == 0xD {
            let r = self.op_draw(w);
            proof {
                assert((self@, r) == spec_chip_step(pre, Option::<u8>::None));
            }
            r
        } else if c == 0xE {
            let ghost mid = self@;
            let r = self.op_key_skip(w);
            proof {
                let k = choose|k: Option<u8>| (self@, r) == spec_key_skip(mid, w, k);
                assert((self@, r) == spec_chip_step(pre, k));
            }
            r
        } else {
            let ghost mid = self@;
            let r = self.op_misc(w);
            proof {
                let k = choose|k: Option<u8>|
                    ((spec_op_nn(w) == 0x0A) ==> k is Some) && (self@, r) == spec_misc(mid, w, k);
                assert((self@, r) == spec_chip_step(pre, k));
            }
            r
        }
    }

    /// Family 0: `00E0` clears the frame and requests a redraw; `00EE`
    /// returns from a call.
    fn op_system(&mut self, w: u16) -> (r: Result<(), ChipError>)
        requires
            old(self).wf(),
        ensures
            final(self).wf(),
            (final(self)@, r) == spec_sys(old(self)@, w),
    {
        let nnn = get_nnn(w);
        if nnn == 0x0E0 {
            self.video.clear_buffer();
            self.video.update_screen();
            Ok(())
        } else if nnn == 0x0EE {
            match self.stack.pop() {
                Ok(addr) => {
                    self.program_counter = addr;
                    Ok(())
                },
                Err(e) => Err(e),
            }
        } else {
            Err(ChipError::DecodeError(w))
        }
    }

    /// Family 1: jump to the address operand.
    fn op_jump(&mut self, w: u16) -> (r: Result<(), ChipError>)
        requires
            old(self).wf(),
        ensures
            final(self).wf(),
            (final(self)@, r) == spec_jump(old(self)@, w),
    {
        self.program_counter = get_nnn(w);
        Ok(())
    }

    /// Family 2: push the return address and jump; fails when the stack
    /// is full.
    fn op_call(&mut self, w: u16) -> (r: Result<(), ChipError>)
        requires
            old(self).wf(),
        ensures
            final(self).wf(),
            (final(self)@, r) == spec_call(old(self)@, w),
    {
        match self.stack.push(self.program_counter) {
            Ok(_) => {
                self.program_counter = get_nnn(w);
                Ok(())
            },
            Err(e) => Err(e),
        }
    }

    /// Families 3 and 4: conditional skip against the byte operand.
    fn op_skip_nn(&mut self, w: u16, when_equal: bool) -> (r: Result<(), ChipError>)
        requires
            old(self).wf(),
        ensures
            final(self).wf(),
            (final(self)@, r) == spec_skip_nn(old(self)@, w, when_equal),
    {
        if (self.registers.variable_register[get_x(w)] == get_nn(w)) == when_equal {
            self.program_counter = (self.program_counter + 2) % 4096;
        }
        Ok(())
    }

    /// Families 5 and 9: conditional skip against the other register.
    fn op_skip_reg(&mut self, w: u16, when_equal: bool) -> (r: Result<(), ChipError>)
        requires
            old(self).wf(),
        ensures
            final(self).wf(),
            (final(self)@, r) == spec_skip_reg(old(self)@, w, when_equal),
    {
        if get_n(w) != 0 {
            return Err(ChipError::DecodeError(w));
        }
        let vx = self.registers.variable_register[get_x(w)];
        let vy = self.registers.variable_register[get_y(w)];
        if (vx == vy) == when_equal {
            self.program_counter = (self.program_counter + 2) % 4096;
        }
        Ok(())
    }

    /// Family 6: load the byte operand into `Vx`.
    fn op_set_nn(&mut self, w: u16) -> (r: Result<(), ChipError>)
        requires
            old(self).wf(),
        ensures
            final(self).wf(),
            (final(self)@, r) == spec_set_nn(old(self)@, w),
    {
        self.registers.variable_register[get_x(w)] = get_nn(w);
        Ok(())
    }

    /// Family 7: wrapping add of the byte operand into `Vx`; no flag.
    fn op_add_nn(&mut self, w: u16) -> (r: Result<(), ChipError>)
        requires
            old(self).wf(),
        ensures
            final(self).wf(),
            (final(self)@, r) == spec_add_nn(old(self)@, w),
    {
        let x = get_x(w);
        self.registers.variable_register[x] = self.registers.variable_register[x].wrapping_add(
            get_nn(w),
        );
        Ok(())
    }

    /// Family 8: assign, OR, AND, XOR, add with carry, subtract with
    /// borrow flag, and the two shifts of `Vy`.
    fn op_alu(&mut self, w: u16) -> (r: Result<(), ChipError>)
        requires
            old(self).wf(),
        ensures
            final(self).wf(),
            (final(self)@, r) == spec_alu(old(self)@, w),
    {
        let x = get_x(w);
        let y = get_y(w);
        let vx = self.registers.variable_register[x];
        let vy = self.registers.variable_register[y];
        let n = get_n(w);
        if n == 0 {
            self.registers.variable_register[x] = vy;
            Ok(())
        } else if n == 1 {
            self.registers.variable_register[x] = vx | vy;
            Ok(())
        } else if n == 2 {
            self.registers.variable_register[x] = vx & vy;
            Ok(())
        } else if n == 3 {
            self.registers.variable_register[x] = vx ^ vy;
            Ok(())
        } else if n == 4 {
            let sum = vx as u16 + vy as u16;
            self.registers.variable_register[x] = (sum % 256) as u8;
            self.registers.variable_register[0xF] = if sum > 255 {
                1
            } else {
                0
            };
            Ok(())
        } else if n == 5 {
            self.registers.variable_register[x] = vx.wrapping_sub(vy);
            self.registers.variable_register[0xF] = if vx >= vy {
                1
            } else {
                0
            };
            Ok(())
        } else if n == 6 {
            self.registers.variable_register[x] = vy >> 1u8;
            self.registers.variable_register[0xF] = vy & 1;
            Ok(())
        } else if n == 0xE {
            self.registers.variable_register[x] = vy << 1u8;
            self.registers.variable_register[0xF] = if vy & 0x80 != 0 {
                1
            } else {
                0
            };
            Ok(())
        } else {
            Err(ChipError::DecodeError(w))
        }
    }

    /// Family A: load the address operand into the index register.
    fn op_set_index(&mut self, w: u16) -> (r: Result<(), ChipError>)
        requires
            old(self).wf(),
        ensures
            final(self).wf(),
            (final(self)@, r) == spec_set_index(old(self)@, w),
    {
        self.registers.index_register = get_nnn(w);
        Ok(())
    }

    /// Family B: jump to the address operand displaced by `V0`.
    fn op_jump_offset(&mut self, w: u16) -> (r: Result<(), ChipError>)
        requires
            old(self).wf(),
        ensures
            final(self).wf(),
            (final(self)@, r) == spec_jump_offset(old(self)@, w),
    {
        self.program_counter = (get_nnn(w) + self.registers.variable_register[0] as u16) % 4096;
        Ok(())
    }

    /// Family C: mask a fresh pseudo-random byte into `Vx`.
    fn op_random(&mut self, w: u16) -> (r: Result<(), ChipError>)
        requires
            old(self).wf(),
        ensures
            final(self).wf(),
            (final(self)@, r) == spec_random(old(self)@, w),
    {
        let b = self.random.next_byte();
        self.registers.variable_register[get_x(w)] = b & get_nn(w);
        Ok(())
    }

    /// Family D: copy the sprite rows out of RAM, XOR them onto the
    /// frame, store the collision flag in `VF` and request a redraw.
    #[verifier::loop_isolation(false)]
    fn op_draw(&mut self, w: u16) -> (r: Result<(), ChipError>)
        requires
            old(self).wf(),
        ensures
            final(self).wf(),
            (final(self)@, r) == spec_draw_instr(old(self)@, w),
    {
        let n = get_n(w);
        let vx = self.registers.variable_register[get_x(w)];
        let vy = self.registers.variable_register[get_y(w)];
        let mut sprite_lines: Vec<u8> = Vec::new();
        let mut k: usize = 0;
        while k < n
            invariant
                k <= n,
                n < 16,
                *self == *old(self),
                sprite_lines@.len() == k,
                forall|i: int|
                    0 <= i < k ==> sprite_lines@[i] == self@.mem[(self@.index + i) % 4096],
            decreases n - k,
        {
            let addr = (self.registers.index_register as usize + k) % 4096;
            sprite_lines.push(self.ram.read_byte(addr));
            k += 1;
        }
        proof {
            assert(sprite_lines@ =~= Seq::new(
                spec_op_n(w) as nat,
                |i: int| old(self)@.mem[(old(self)@.index + i) % 4096],
            ));
        }
        let collision = self.video.draw_sprite(vx, vy, &sprite_lines);
        self.registers.variable_register[0xF] = if collision {
            1
        } else {
            0
        };
        self.video.update_screen();
        Ok(())
    }

    /// Family E: one non-blocking keypad query, then a conditional skip
    /// on whether key `Vx` is the one pressed.
    fn op_key_skip(&mut self, w: u16) -> (r: Result<(), ChipError>)
        requires
            old(self).wf(),
        ensures
            final(self).wf(),
            exists|key: Option<u8>| (final(self)@, r) == spec_key_skip(old(self)@, w, key),
    {
        let nn = get_nn(w);
        if nn != 0x9E && nn != 0xA1 {
            proof {
                assert((self@, Result::<(), ChipError>::Err(ChipError::DecodeError(w)))
                    == spec_key_skip(old(self)@, w, Option::<u8>::None));
            }
            return Err(ChipError::DecodeError(w));
        }
        let skip_if_equal = nn == 0x9E;
        let key = self.keyboard.which_key_pressed();
        let vx = self.registers.variable_register[get_x(w)];
        let pressed = match key {
            Some(k) => k == vx,
            None => false,
        };
        if pressed == skip_if_equal {
            self.program_counter = (self.program_counter + 2) % 4096;
        }
        proof {
            assert((self@, Result::<(), ChipError>::Ok(())) == spec_key_skip(old(self)@, w, key));
        }
        Ok(())
    }

    /// Family F: timers, index arithmetic, the blocking key wait, glyph
    /// lookup, decimal digits and the bulk copies.
    #[verifier::loop_isolation(false)]
    fn op_misc(&mut self, w: u16) -> (r: Result<(), ChipError>)
        requires
            old(self).wf(),
        ensures
            final(self).wf(),
            exists|key: Option<u8>|
                ((spec_op_nn(w) == 0x0A) ==> key is Some) && (final(self)@, r) == spec_misc(
                    old(self)@,
                    w,
                    key,
                ),
    {
        let x = get_x(w);
        let nn = get_nn(w);
        if nn == 0x07 {
            self.registers.variable_register[x] = self.delay_timer.time_value;
            proof {
                assert((self@, Result::<(), ChipError>::Ok(())) == spec_misc(
                    old(self)@,
                    w,
                    Option::<u8>::None,
                ));
            }
            Ok(())
        } else if nn == 0x15 {
            self.delay_timer.time_value = self.registers.variable_register[x];
            proof {
                assert((self@, Result::<(), ChipError>::Ok(())) == spec_misc(
                    old(self)@,
                    w,
                    Option::<u8>::None,
                ));
            }
            Ok(())
        } else if nn == 0x18 {
            let value = self.registers.variable_register[x];
            self.sound_timer.set_time(value);
            proof {
                assert((self@, Result::<(), ChipError>::Ok(())) == spec_misc(
                    old(self)@,
                    w,
                    Option::<u8>::None,
                ));
            }
            Ok(())
        } else if nn == 0x1E {
            let sum = self.registers.index_register + self.registers.variable_register[x] as u16;
            if sum > 0xFFF {
                self.registers.variable_register[0xF] = 1;
                self.registers.index_register = sum % 0x1000;
            } else {
                self.registers.index_register = sum;
            }
            proof {
                assert((self@, Result::<(), ChipError>::Ok(())) == spec_misc(
                    old(self)@,
                    w,
                    Option::<u8>::None,
                ));
            }
            Ok(())
        } else if nn == 0x0A {
            let key = self.keyboard.wait_key_pressed();
            self.registers.variable_register[x] = key;
            proof {
                assert((self@, Result::<(), ChipError>::Ok(())) == spec_misc(
                    old(self)@,
                    w,
                    Some(key),
                ));
            }
            Ok(())
        } else if nn == 0x29 {
            let digit = (self.registers.variable_register[x] % 16) as usize;
            self.registers.index_register = self.ram.get_character(digit);
            proof {
                assert((self@, Result::<(), ChipError>::Ok(())) == spec_misc(
                    old(self)@,
                    w,
                    Option::<u8>::None,
                ));
            }
            Ok(())
        } else if nn == 0x33 {
            let number = self.registers.variable_register[x];
            let i0 = self.registers.index_register as usize;
            self.ram.write_byte(i0, number / 100);
            self.ram.write_byte((i0 + 1) % 4096, (number / 10) % 10);
            self.ram.write_byte((i0 + 2) % 4096, number % 10);
            proof {
                assert((self@, Result::<(), ChipError>::Ok(())) == spec_misc(
                    old(self)@,
                    w,
                    Option::<u8>::None,
                ));
            }
            Ok(())
        } else if nn == 0x55 {
            let mut k: usize = 0;
            while k <= x
                invariant
                    old(self).wf(),
                    k <= x + 1,
                    x < 16,
                    self.program_counter == old(self).program_counter,
                    self.registers == old(self).registers,
                    self.stack == old(self).stack,
                    self.video == old(self).video,
                    self.sound_timer == old(self).sound_timer,
                    self.delay_timer == old(self).delay_timer,
                    self.keyboard == old(self).keyboard,
                    self.random == old(self).random,
                    self.ram.wf() == old(self).ram.wf(),
                    self.ram@.len() == 4096,
                    self.ram@ == spec_store_regs(
                        old(self)@.mem,
                        old(self)@.regs,
                        old(self)@.index,
                        k as nat,
                    ),
                decreases x + 1 - k,
            {
                let addr = (self.registers.index_register as usize + k) % 4096;
                let value = self.registers.variable_register[k];
                self.ram.write_byte(addr, value);
                k += 1;
            }
            proof {
                assert((self@, Result::<(), ChipError>::Ok(())) == spec_misc(
                    old(self)@,
                    w,
                    Option::<u8>::None,
                ));
            }
            Ok(())
        } else if nn == 0x65 {
            let mut k: usize = 0;
            while k <= x
                invariant
                    old(self).wf(),
                    k <= x + 1,
                    x < 16,
                    self.program_counter == old(self).program_counter,
                    self.stack == old(self).stack,
                    self.ram == old(self).ram,
                    self.video == old(self).video,
                    self.sound_timer == old(self).sound_timer,
                    self.delay_timer == old(self).delay_timer,
                    self.keyboard == old(self).keyboard,
                    self.random == old(self).random,
                    self.registers.index_register == old(self).registers.index_register,
                    self.registers.variable_register@ == spec_load_regs(
                        old(self)@.regs,
                        old(self)@.mem,
                        old(self)@.index,
                        k as nat,
                    ),
                decreases x + 1 - k,
            {
                let addr = (self.registers.index_register as usize + k) % 4096;
                self.registers.variable_register[k] = self.ram.read_byte(addr);
                k += 1;
            }
            proof {
                assert((self@, Result::<(), ChipError>::Ok(())) == spec_misc(
                    old(self)@,
                    w,
                    Option::<u8>::None,
                ));
            }
            Ok(())
        } else {
            proof {
                assert((self@, Result::<(), ChipError>::Err(ChipError::DecodeError(w)))
                    == spec_misc(old(self)@, w, Option::<u8>::None));
            }
            Err(ChipError::DecodeError(w))
        }
    }

}

/// Extracts the register operand in bits 8-11.
fn get_x(input: u16) -> (r: usize)
    ensures
        r == spec_op_x(input),
        r < 16,
{
    proof {
        assert((input & 0x0F00) >> 8u16 == (input / 0x100) % 0x10) by (bit_vector);
    }
    ((input & 0x0F00) >> 8u16) as usize
}

/// Extracts the register operand in bits 4-7.
fn get_y(input: u16) -> (r: usize)
    ensures
        r == spec_op_y(input),
        r < 16,
{
    proof {
        assert((input & 0x00F0) >> 4u16 == (input / 0x10) % 0x10) by (bit_vector);
    }
    ((input & 0x00F0) >> 4u16) as usize
}

/// Extracts the low nibble operand.
fn get_n(input: u16) -> (r: usize)
    ensures
        r == spec_op_n(input),
        r < 16,
{
    proof {
        assert(input & 0x000F == input % 0x10) by (bit_vector);
    }
    (input & 0x000F) as usize
}

/// Extracts the low byte operand.
fn get_nn(input: u16) -> (r: u8)
    ensures
        r == spec_op_nn(input),
{
    proof {
        assert(input & 0x00FF == input % 0x100) by (bit_vector);
    }
    (input & 0x00FF) as u8
}

/// Extracts the address operand in the low 12 bits.
fn get_nnn(input: u16) -> (r: u16)
    ensures
        r == spec_op_nnn(input),
        r < 4096,
{
    proof {
        assert(input & 0x0FFF == input % 0x1000) by (bit_vector);
    }
    input & 0x0FFF
}

/// Extracts the top nibble: the opcode family.
fn get_instruction_category(input: u16) -> (r: usize)
    ensures
        r == spec_op_category(input),
        r < 16,
{
    proof {
        assert((input & 0xF000) >> 12u16 == input / 0x1000) by (bit_vector);
    }
    ((input & 0xF000) >> 12u16) as usize
}

/// Copies a program into the machine's RAM at the load address and points
/// the program counter at it; the free-function face of
/// `ChipSystem::load_program`.
pub fn load_program_from_vector<V: VideoDriver, S: SoundDriver, K: KeyboardDriver>(
    system: &mut ChipSystem<V, S, K>,
    program_array: Vec<u8>,
) -> (r: Result<(), ChipError>)
    requires
        old(system).wf(),
    ensures
        final(system).wf(),
        program_array@.len() <= MEMORY_SIZE - PROGRAM_START ==> {
            &&& r == Ok::<(), ChipError>(())
            &&& final(system)@ == ChipState {
                pc: PROGRAM_START,
                mem: spec_loaded_memory(old(system)@.mem, program_array@),
                ..old(system)@
            }
        },
        program_array@.len() > MEMORY_SIZE - PROGRAM_START ==> {
            &&& r == Err::<(), ChipError>(ChipError::ProgramTooLarge)
            &&& final(system)@ == old(system)@
        },
{
    system.load_program(program_array)
}

/// Runs one dispatcher step; the free-function face of
/// `ChipSystem::decode_next_instruction`.
pub fn decode_next_instruction<V: VideoDriver, S: SoundDriver, K: KeyboardDriver>(
    system: &mut ChipSystem<V, S, K>,
) -> (r: Result<(), ChipError>)
    requires
        old(system).wf(),
    ensures
        final(system).wf(),
        exists|key: Option<u8>|
            {
                &&& (spec_waits_for_key(old(system)@) ==> key is Some)
                &&& (final(system)@, r) == spec_chip_step(old(system)@, key)
            },
{
    system.decode_next_instruction()
}

/// Ticks both timers once; the free-function face of
/// `ChipSystem::tick_timers`.
pub fn tick_timers<V: VideoDriver, S: SoundDriver, K: KeyboardDriver>(
    system: &mut ChipSystem<V, S, K>,
)
    requires
        old(system).wf(),
    ensures
        final(system).wf(),
        final(system)@ == spec_tick_timers(old(system)@),
{
    system.tick_timers()
}

} // verus!
