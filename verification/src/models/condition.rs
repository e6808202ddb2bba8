use vstd::prelude::*;

verus! {

/// Conditions usable with conditional jumps.
#[derive(Debug, Clone, Copy, PartialEq, Eq, Structural)]
pub enum Condition {
    Equal,
    NotEqual,
    /// In unsigned sense.
    Above,
    /// In unsigned sense.
    AboveOrEqual,
    /// In unsigned sense.
    Below,
    /// In unsigned sense.
    BelowOrEqual,
    /// In signed sense.
    Greater,
    /// In signed sense.
    GreaterOrEqual,
    /// In signed sense.
    Less,
    /// In signed sense.
    LessOrEqual,
    Overflow,
    NotOverflow,
    Parity,
    NotParity,
    ParityOdd,
    ParityEven,
    Sign,
    NotSign,
    Carry,
    NotCarry,
}

} // verus!
