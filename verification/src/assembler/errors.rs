//! The error values the assembler returns.

use vstd::prelude::*;

use crate::models::label::Label;

verus! {

/// Errors returned during instruction emission.
#[derive(Debug, Clone, Copy, PartialEq, Eq, Structural)]
pub enum EmitError {
    /// The operands of the instruction have mismatched sizes.
    OperandSizeMismatch,
    /// The same label was defined twice.
    LabelAlreadyDefined(Label),
    /// The assembled code would outgrow the signed 32-bit offset range.
    OutOfCapacity,
}

/// Errors returned during final assembly.
#[derive(Debug, Clone, Copy, PartialEq, Eq, Structural)]
pub enum AssembleError {
    /// The code refers to a label that was never defined nor predefined.
    LabelNotSet(Label),
    /// A patched RIP-relative displacement does not fit a signed 32-bit
    /// value.
    DisplacementOutOfRange,
    /// A jump width chosen during relaxation does not hold its final
    /// displacement; this indicates a bug in the assembler itself.
    InternalInconsistency,
}

} // verus!
