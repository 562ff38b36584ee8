//! The error type of the machine.

use vstd::prelude::*;

verus! {

/// The ways in which an operation on the machine can fail.
///
/// Every one of them is fatal for the emulated program: the machine does not
/// retry or repair anything, it reports the failure and leaves the decision
/// to the caller.
#[derive(Clone, Copy, Debug, PartialEq, Eq, Structural)]
pub enum Chip8Error {
    /// A push was attempted while all sixteen stack slots were in use.
    StackOverflow,
    /// A pop was attempted on an empty stack.
    StackUnderflow,
    /// An instruction or a fetch reached for an address beyond the last
    /// memory cell.
    MemoryOutOfBounds,
    /// A key index outside `0..16` was used.
    InvalidKeyIndex,
    /// A program image does not fit between the load address and the end of
    /// memory.
    ImageTooLarge,
}

} // verus!
