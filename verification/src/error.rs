//! The conditions that the machine reports instead of carrying out a request.

use vstd::prelude::*;

verus! {

/// Why a program image could not be placed in memory.
#[derive(Clone, Copy, Debug, PartialEq, Eq, Structural)]
pub enum LoadError {
    /// The image is longer than the space between the load address and the
    /// end of memory.
    RomTooLarge,
}

/// An instruction word that matches no entry of the opcode table.
#[derive(Clone, Copy, Debug, PartialEq, Eq, Structural)]
pub struct DecodeError {
    /// The word that could not be decoded.
    pub word: u16,
}

/// Why an operation of the machine was not carried out. Whenever one of these
/// is returned, the state is left exactly as it was.
#[derive(Clone, Copy, Debug, PartialEq, Eq, Structural)]
pub enum StepError {
    /// The word at the program counter is no instruction.
    Decode(DecodeError),
    /// A call was made with all sixteen stack slots in use.
    StackOverflow,
    /// A return was made with no call outstanding.
    StackUnderflow,
    /// An address outside the 4096-byte memory would have been read or
    /// written, or the program counter would have left the 16-bit range.
    AddressOutOfRange,
    /// A key instruction named a key outside `0x0..=0xF`.
    InvalidKey,
}

} // verus!
