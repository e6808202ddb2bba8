use vstd::prelude::*;

verus! {

/// A scale factor for memory addressing; x86-64 allows the factors
/// 1, 2, 4 and 8.
#[derive(Debug, Clone, Copy, PartialEq, Eq, Structural)]
pub enum Scale {
    Scale1,
    Scale2,
    Scale4,
    Scale8,
}

impl Scale {
    /// The numeric factor.
    pub open spec fn spec_factor(self) -> u8 {
        match self {
            Scale::Scale1 => 1u8,
            Scale::Scale2 => 2u8,
            Scale::Scale4 => 4u8,
            Scale::Scale8 => 8u8,
        }
    }

    /// The numeric factor.
    #[verifier::when_used_as_spec(spec_factor)]
    pub fn factor(self) -> (r: u8)
        ensures
            r == self.spec_factor(),
    {
        match self {
            Scale::Scale1 => 1,
            Scale::Scale2 => 2,
            Scale::Scale4 => 4,
            Scale::Scale8 => 8,
        }
    }
}

} // verus!
