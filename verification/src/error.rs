//! Structured errors the engine can surface per cycle. The driving loop
//! decides whether to halt, log or skip; nothing in the core panics.

use vstd::prelude::*;

verus! {

#[derive(Clone, Copy, Debug, PartialEq, Eq, Structural)]
pub enum ChipError {
    /// The fetched bytes name no opcode this machine implements.
    UnknownOpcode { b0: u8, b1: u8 },
    /// A call was issued with all 32 return-address slots in use.
    StackOverflow,
    /// A return was issued with no call outstanding.
    StackUnderflow,
    /// A fetch, sprite read or memory write would fall outside the
    /// 4096-byte address space.
    MemoryOutOfBounds,
    /// A program image longer than the 3584-byte program space.
    RomTooLarge,
}

} // verus!
