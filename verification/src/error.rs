//! The faults that the interpreter reports.

use vstd::prelude::*;

verus! {

/// What can go wrong while loading a program or executing an instruction.
#[derive(Clone, Copy, Debug, PartialEq, Eq, Structural)]
pub enum Chip8Error {
    /// A register index above 0xF, a key index above 0xF, a pixel outside the
    /// screen, or a RAM address at or beyond 4096.
    IndexFault,
    /// A call with all 16 stack slots in use.
    StackOverflow,
    /// A return with an empty stack.
    StackUnderflow,
    /// An instruction word outside the instruction set.
    UnknownOpcode,
    /// A program image longer than the 3584 bytes above the load address.
    RomTooLarge,
}

} // verus!
