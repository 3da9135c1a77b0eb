use vstd::prelude::*;

verus! {

/// Everything that can go wrong while building or stepping the machine.
#[derive(Clone, Copy, Debug, PartialEq, Eq, Structural)]
pub enum Chip8Error {
    /// The program image does not fit into memory above the load address.
    RomTooLarge,
    /// A memory access or jump targeted an address outside the 4 KiB space.
    InvalidAddress,
    /// A key index above `0xF` was used.
    InvalidKey,
    /// A call was made with sixteen return addresses already stacked.
    StackOverflow,
    /// A return was made with no return address stacked.
    StackUnderflow,
    /// The instruction word matches no instruction of the machine.
    UndefinedOpcode,
}

} // verus!
