use vstd::prelude::*;

pub mod instructions;
pub mod machine;
pub mod memory;
pub mod register;
pub mod rv32m;
pub mod trace;

verus! {

/// Why an instruction could not complete: an unrecognized instruction word,
/// an out-of-bounds memory access, or exhaustion of the cycle budget.
/// Arithmetic never faults; division edge cases are defined, not trapped.
#[derive(Clone, Copy, Debug, PartialEq, Eq, Structural)]
pub enum Error {
    DecodeError,
    MemoryFault,
    CycleBudgetExceeded,
}

} // verus!
