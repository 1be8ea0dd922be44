//! The ways in which the interpreter refuses to go on.

use vstd::prelude::*;

verus! {

/// Why a program could not be loaded or an instruction could not be
/// executed. Whenever one of these is returned the machine is left exactly as
/// it was before the call.
#[derive(Copy, Clone, Debug, Eq, PartialEq, Structural)]
pub enum Chip8Error {
    /// The word fetched at address `pc` is no instruction.
    InvalidOpcode { opcode: u16, pc: u16 },
    /// A call was made with sixteen return addresses already on the stack.
    StackOverflow,
    /// A return was made with no return address on the stack.
    StackUnderflow,
    /// An instruction, or the fetch of one, reached for an address outside
    /// the 4096 bytes of memory.
    OutOfBoundsAccess,
    /// The program does not fit between address 0x200 and the end of memory.
    OversizeRom,
}

} // verus!
