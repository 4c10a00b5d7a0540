//! The errors the virtual machine reports to its host.

use vstd::prelude::*;

verus! {

/// What can go wrong while loading or executing a program.
#[derive(Clone, Copy, Debug, PartialEq, Eq, Structural)]
pub enum Chip8Error {
    /// The program is larger than the space between the program-start offset
    /// and the end of memory. Recoverable: the load is aborted and memory is
    /// unchanged.
    CapacityError,
    /// A return instruction ran with an empty call stack. Fatal: the program
    /// is malformed and execution must halt.
    StackUnderflow,
    /// No dispatch pattern matched the opcode; carries the four raw nibbles
    /// for diagnostics. Fatal.
    UnimplementedOpcode(u8, u8, u8, u8),
}

} // verus!
