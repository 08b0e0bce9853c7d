//! The failures the engine reports to its host.

use vstd::prelude::*;

verus! {

/// Everything that can go wrong while loading a program or executing a cycle.
///
/// Every failure is returned to the host; the engine never aborts.
#[derive(Clone, Copy, Debug, PartialEq, Eq, Structural)]
pub enum EmulatorError {
    /// The program does not fit between the load address and the end of memory.
    RomTooLarge,
    /// An instruction addressed memory beyond the last byte.
    MemoryOutOfBounds,
    /// The fetched word matches no instruction pattern; the word is carried along.
    UnknownOpcode(u16),
    /// A subroutine call found the return stack full.
    StackOverflow,
    /// A return found the return stack empty.
    StackUnderflow,
    /// A display was requested with no columns or no rows.
    InvalidDimensions,
}

} // verus!
