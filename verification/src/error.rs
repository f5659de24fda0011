use vstd::prelude::*;

verus! {

/// Every way a load, a fetch, a decode or an instruction can fail.
///
/// `Exit` is not a defect: it reports that the user asked to quit during a
/// blocking key wait, and the run loop treats it as a clean termination.
#[derive(Clone, Copy, Debug, PartialEq, Eq, Structural)]
pub enum EmulatorError {
    /// The raw 16-bit instruction word matched no known instruction shape.
    UnknownOpCode(u16),
    /// A subroutine return executed with an empty return-address stack.
    StackUnderflow,
    /// An instruction would touch memory outside the 4096-byte address
    /// space; carries the base address of the offending access.
    AddressOutOfRange(u16),
    /// The program image does not fit between the load address and the top
    /// of memory.
    RomTooLarge,
    /// The user requested to quit while an instruction was blocked waiting
    /// for a key press.
    Exit,
}

}
