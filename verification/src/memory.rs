//! The RAM of the machine, its call stack, and its register file.
//!
//! Memory is a flat 4096-byte array. The first 80 bytes hold the built-in
//! glyph font (16 hex-digit glyphs, 5 bytes each); programs are loaded at
//! `PROGRAM_START`. The stack is a strict LIFO of at most `STACK_DEPTH`
//! return addresses.

use vstd::prelude::*;

use crate::errors::ChipError;

verus! {

/// The built-in font: one 5-byte sprite per hex digit, `0` through `F`.
pub const CHIP_FONT: [u8; 80] = [
    0xF0, 0x90, 0x90, 0x90, 0xF0, // 0
    0x20, 0x60, 0x20, 0x20, 0x70, // 1
    0xF0, 0x10, 0xF0, 0x80, 0xF0, // 2
    0xF0, 0x10, 0xF0, 0x10, 0xF0, // 3
    0x90, 0x90, 0xF0, 0x10, 0x10, // 4
    0xF0, 0x80, 0xF0, 0x10, 0xF0, // 5
    0xF0, 0x80, 0xF0, 0x90, 0xF0, // 6
    0xF0, 0x10, 0x20, 0x40, 0x40, // 7
    0xF0, 0x90, 0xF0, 0x90, 0xF0, // 8
    0xF0, 0x90, 0xF0, 0x10, 0xF0, // 9
    0xF0, 0x90, 0xF0, 0x90, 0x90, // A
    0xE0, 0x90, 0xE0, 0x90, 0xE0, // B
    0xF0, 0x80, 0x80, 0x80, 0xF0, // C
    0xE0, 0x90, 0x90, 0x90, 0xE0, // D
    0xF0, 0x80, 0xF0, 0x80, 0xF0, // E
    0xF0, 0x80, 0xF0, 0x80, 0x80, // F
];

/// Size of the address space in bytes.
pub const MEMORY_SIZE: u16 = 4096;

/// Programs are copied into memory starting here, and the program counter
/// starts here.
pub const PROGRAM_START: u16 = 0x200;

/// How many return addresses the call stack can hold.
pub const STACK_DEPTH: usize = 16;

/// The full RAM of the machine: 4096 bytes, glyph font installed at the
/// bottom.
pub struct EntireMemory {
    pub memory_array: [u8; 4096],
    font_beginning_index: u16,
}

impl View for EntireMemory {
    type V = Seq<u8>;

    closed spec fn view(&self) -> Seq<u8> {
        self.memory_array@
    }
}

/// The memory contents right after construction: the font at the bottom,
/// zeroes everywhere else.
pub open spec fn spec_initial_memory() -> Seq<u8> {
    Seq::new(4096, |i: int| if i < 80 { CHIP_FONT@[i] } else { 0u8 })
}

/// The memory contents after `data` has been copied in at `PROGRAM_START`.
pub open spec fn spec_loaded_memory(mem: Seq<u8>, data: Seq<u8>) -> Seq<u8> {
    Seq::new(
        4096,
        |i: int|
            if PROGRAM_START <= i < PROGRAM_START + data.len() {
                data[i - PROGRAM_START]
            } else {
                mem[i]
            },
    )
}

impl EntireMemory {
    /// The font must sit at the bottom of memory, where `glyph_address`
    /// expects it.
    pub closed spec fn wf(&self) -> bool {
        self.font_beginning_index == 0
    }

    /// A fresh RAM: zero-filled with the glyph font installed.
    pub fn new() -> (r: Self)
        ensures
            r.wf(),
            r@ == spec_initial_memory(),
    {
        let mut new_memory = EntireMemory { memory_array: [0u8; 4096], font_beginning_index: 0 };
        new_memory.apply_font(&CHIP_FONT);
        proof {
            assert(new_memory@ =~= spec_initial_memory());
        }
        new_memory
    }

    /// Copies an 80-byte font into the bottom of memory; the rest of memory
    /// is untouched.
    pub fn apply_font(&mut self, font: &[u8; 80])
        ensures
            final(self).wf() == old(self).wf(),
            final(self)@.len() == 4096,
            forall|i: int| 0 <= i < 80 ==> final(self)@[i] == font@[i],
            forall|i: int| 80 <= i < 4096 ==> final(self)@[i] == old(self)@[i],
    {
        let mut i: usize = 0;
        while i < 80
            invariant
                i <= 80,
                self.font_beginning_index == old(self).font_beginning_index,
                self@.len() == 4096,
                forall|j: int| 0 <= j < i ==> self@[j] == font@[j],
                forall|j: int| i <= j < 4096 ==> self@[j] == old(self)@[j],
            decreases 80 - i,
        {
            self.memory_array[i] = font[i];
            i += 1;
        }
    }

    /// Copies a program into memory starting at `PROGRAM_START` and returns
    /// the address execution should start from. Fails with `ProgramTooLarge`,
    /// leaving memory untouched, when the program does not fit.
    pub fn load_program(&mut self, data: Vec<u8>) -> (r: Result<u16, ChipError>)
        ensures
            final(self).wf() == old(self).wf(),
            data@.len() <= MEMORY_SIZE - PROGRAM_START ==> {
                &&& r == Ok::<u16, ChipError>(PROGRAM_START)
                &&& final(self)@ == spec_loaded_memory(old(self)@, data@)
            },
            data@.len() > MEMORY_SIZE - PROGRAM_START ==> {
                &&& r == Err::<u16, ChipError>(ChipError::ProgramTooLarge)
                &&& final(self)@ == old(self)@
            },
    {
        if data.len() > (MEMORY_SIZE - PROGRAM_START) as usize {
            return Err(ChipError::ProgramTooLarge);
        }
        let mut i: usize = 0;
        while i < data.len()
            invariant
                i <= data@.len(),
                data@.len() <= MEMORY_SIZE - PROGRAM_START,
                self.font_beginning_index == old(self).font_beginning_index,
                self@.len() == 4096,
                forall|j: int|
                    PROGRAM_START <= j < PROGRAM_START + i ==> self@[j] == data@[j - PROGRAM_START],
                forall|j: int|
                    0 <= j < 4096 && !(PROGRAM_START <= j < PROGRAM_START + i) ==> self@[j] == old(
                        self,
                    )@[j],
            decreases data@.len() - i,
        {
            self.memory_array[PROGRAM_START as usize + i] = data[i];
            i += 1;
        }
        proof {
            assert(self@ =~= spec_loaded_memory(old(self)@, data@));
        }
        Ok(PROGRAM_START)
    }

    /// Reads the byte at `addr`.
    pub fn read_byte(&self, addr: usize) -> (r: u8)
        requires
            addr < 4096,
        ensures
            r == self@[addr as int],
    {
        self.memory_array[addr]
    }

    /// Writes the byte at `addr`.
    pub fn write_byte(&mut self, addr: usize, value: u8)
        requires
            addr < 4096,
        ensures
            final(self).wf() == old(self).wf(),
            final(self)@ == old(self)@.update(addr as int, value),
    {
        self.memory_array[addr] = value;
    }

    /// The address of the built-in 5-byte glyph for hex digit `input`.
    pub fn get_character(&self, input: usize) -> (r: u16)
        requires
            self.wf(),
            input < 16,
        ensures
            r == 5 * input,
    {
        self.font_beginning_index + (input as u16) * 5
    }
}

/// The bounded LIFO of return addresses, `STACK_DEPTH` entries deep.
pub struct Stack {
    stack_array: [u16; 16],
    stack_position: usize,
}

impl View for Stack {
    type V = Seq<u16>;

    closed spec fn view(&self) -> Seq<u16> {
        self.stack_array@.take(self.stack_position as int)
    }
}

impl Stack {
    pub closed spec fn wf(&self) -> bool {
        self.stack_position <= 16
    }

    /// A fresh, empty stack.
    pub fn new() -> (r: Self)
        ensures
            r.wf(),
            r@ == Seq::<u16>::empty(),
    {
        let r = Stack { stack_array: [0u16; 16], stack_position: 0 };
        proof {
            assert(r@ =~= Seq::<u16>::empty());
        }
        r
    }

    /// Pushes a return address; fails with `StackOverflow`, leaving the
    /// stack untouched, when the stack is already full.
    pub fn push(&mut self, value: u16) -> (r: Result<(), ChipError>)
        requires
            old(self).wf(),
        ensures
            final(self).wf(),
            old(self)@.len() < STACK_DEPTH ==> {
                &&& r == Ok::<(), ChipError>(())
                &&& final(self)@ == old(self)@.push(value)
            },
            old(self)@.len() >= STACK_DEPTH ==> {
                &&& r == Err::<(), ChipError>(ChipError::StackOverflow)
                &&& final(self)@ == old(self)@
            },
    {
        if self.stack_position >= 16 {
            Err(ChipError::StackOverflow)
        } else {
            self.stack_array[self.stack_position] = value;
            self.stack_position += 1;
            proof {
                assert(self@ =~= old(self)@.push(value));
            }
            Ok(())
        }
    }

    /// Pops the most recently pushed address; fails with `StackUnderflow`
    /// when the stack is empty.
    pub fn pop(&mut self) -> (r: Result<u16, ChipError>)
        requires
            old(self).wf(),
        ensures
            final(self).wf(),
            old(self)@.len() == 0 ==> {
                &&& r == Err::<u16, ChipError>(ChipError::StackUnderflow)
                &&& final(self)@ == old(self)@
            },
            old(self)@.len() > 0 ==> {
                &&& r == Ok::<u16, ChipError>(old(self)@.last())
                &&& final(self)@ == old(self)@.drop_last()
            },
    {
        if self.stack_position == 0 {
            Err(ChipError::StackUnderflow)
        } else {
            self.stack_position -= 1;
            proof {
                assert(self@ =~= old(self)@.drop_last());
            }
            Ok(self.stack_array[self.stack_position])
        }
    }
}

/// The register file: the 16-bit index register `I` and the sixteen 8-bit
/// variable registers `V0` through `VF`.
pub struct RegisterSet {
    pub index_register: u16,
    pub variable_register: [u8; 16],
}

impl RegisterSet {
    /// A fresh register set with every register zeroed.
    pub fn new() -> (r: Self)
        ensures
            r.index_register == 0,
            forall|i: int| 0 <= i < 16 ==> r.variable_register@[i] == 0,
    {
        RegisterSet { index_register: 0, variable_register: [0u8; 16] }
    }
}

} // verus!
