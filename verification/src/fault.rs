use vstd::prelude::*;

verus! {

/// A fatal condition that stops the machine. Whenever an operation reports
/// one, the machine is left exactly as it was before the operation.
#[derive(Clone, Copy, Debug, PartialEq, Eq, Structural)]
pub enum Fault {
    /// A call was made with all sixteen stack entries in use.
    StackOverflow,
    /// A return was made with no call outstanding.
    StackUnderflow,
    /// The program counter or the index register addressed memory past
    /// `0xFFF`, or the index register itself would no longer fit in 16 bits.
    AddressOutOfRange,
    /// A key instruction named a key above `0xF`.
    KeyOutOfRange,
    /// A program image does not fit between the program start and the end of
    /// memory.
    ProgramTooLarge,
}

} // verus!
