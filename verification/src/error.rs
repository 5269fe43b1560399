//! Closed error taxonomy for the transform protocol. Builders only ever
//! construct `LookupFailure`; the remaining kinds classify host-side failures
//! reported through the `TokenitisInstruction` trait.

use crate::address::Address;
use vstd::prelude::*;

verus! {

/// Which mapping a failed lookup was made against.
#[derive(Clone, Copy, Debug, PartialEq, Eq)]
pub enum LookupPhase {
    /// The declared full supply of an output asset was absent.
    OutputSupply,
    /// The caller supplied no deposit account for an input asset.
    CallerInput,
    /// The caller supplied no withdrawal account for an output asset.
    CallerOutput,
}

/// The failure kinds of the transform protocol.
#[derive(Clone, Copy, Debug, PartialEq, Eq)]
pub enum TokenitisError {
    /// A required asset id was absent from a supplied mapping.
    LookupFailure { asset: Address, phase: LookupPhase },
    /// An underlying primitive-instruction constructor rejected its arguments.
    BuildFailure,
    /// A host-side account, signer or ownership check failed before mutation.
    ValidationFailure,
    /// A primitive operation was rejected while the instruction was applied.
    ExecutionFailure,
}

} // verus!
