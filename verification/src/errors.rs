//! The error kinds that the core can report.

use vstd::prelude::*;

verus! {

/// Everything that can go wrong while loading or running a program.
///
/// A `DecodeError` carries the raw 16-bit instruction word that could not
/// be decoded, so the host can report it.
#[derive(Clone, Copy, Debug, PartialEq, Eq, Structural)]
pub enum ChipError {
    /// The dispatcher met an instruction word outside the supported set.
    DecodeError(u16),
    /// A call was made while the call stack was already full.
    StackOverflow,
    /// A return was made while the call stack was empty.
    StackUnderflow,
    /// The program does not fit between the load address and the end of memory.
    ProgramTooLarge,
}

} // verus!
