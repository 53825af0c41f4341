use vstd::prelude::*;

verus! {

/// The ways in which loading a program or executing an instruction can fail.
#[derive(Debug, Clone, Copy, PartialEq, Eq, Structural)]
pub enum EmuError {
    /// The program does not fit in the memory above the reserved area.
    RomTooLarge,
    /// An address at or beyond the end of memory was referenced.
    OutOfBounds,
    /// The opcode word matches no instruction.
    IllegalOpcode,
    /// A subroutine call was made with all stack slots in use.
    StackOverflow,
    /// A return was executed with an empty stack.
    StackUnderflow,
}

} // verus!
