use vstd::prelude::*;

verus! {

/// The fatal conditions a machine can run into.
#[derive(Clone, Copy, Debug, PartialEq, Eq, Structural)]
pub enum Chip8Error {
    /// The program does not fit between 0x200 and the end of memory.
    ProgramTooLarge,
    /// A fetch, read or write reached past the 4096 bytes of memory.
    AddressOutOfRange,
    /// A call with all stack levels in use.
    StackOverflow,
    /// A return with an empty stack.
    StackUnderflow,
}

} // verus!
