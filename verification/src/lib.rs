use vstd::prelude::*;

pub mod chip8;
pub mod cpu;
pub mod display;
pub mod isa;
pub mod lemmas;
mod rng;
pub mod keypad;
pub mod memory;

verus! {

/// Failures the machine can report. All of them are fatal: the driver is
/// expected to stop calling into the machine once one is returned.
#[derive(Clone, Copy, Debug, PartialEq, Eq, Structural)]
pub enum Chip8Error {
    /// A memory access at or beyond address 4096.
    AddressOutOfRange,
    /// A decoded instruction word with no defined semantics.
    UnknownInstruction,
    /// A program image that does not fit in memory from the load offset on.
    RomLoadError,
    /// A call while the sixteen-entry return stack is full.
    StackOverflow,
    /// A return while the return stack is empty.
    StackUnderflow,
    /// A key-state query for a key code above fifteen.
    KeyOutOfRange,
}

} // verus!
