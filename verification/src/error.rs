//! The failures an invocation can end in.

use vstd::prelude::*;

verus! {

/// Why an invocation did not take effect. Every failure is final for the
/// invocation that met it, and none leaves a trace in any account.
#[derive(Clone, Copy, Debug, PartialEq, Eq, Structural)]
pub enum ProgramError {
    /// No account was handed in.
    AccountMissing,
    /// The first account belongs to another program.
    IncorrectProgramId,
    /// The account's buffer is not the encoding of a counter record.
    MalformedAccountData,
    /// The counter holds the largest 32-bit value, so there is no next one.
    CounterOverflow,
}

} // verus!
