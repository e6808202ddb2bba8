use vstd::prelude::*;

verus! {

/// The width of a register or immediate operand.
#[derive(Debug, Clone, Copy, PartialEq, Eq, Structural)]
pub enum Size {
    Bit8,
    Bit16,
    Bit32,
    Bit64,
}

impl Size {
    /// The width in bits; doubles as the order on sizes.
    pub open spec fn spec_bits(self) -> u32 {
        match self {
            Size::Bit8 => 8u32,
            Size::Bit16 => 16u32,
            Size::Bit32 => 32u32,
            Size::Bit64 => 64u32,
        }
    }

    /// The width in bits.
    #[verifier::when_used_as_spec(spec_bits)]
    pub fn bits(self) -> (r: u32)
        ensures
            r == self.spec_bits(),
    {
        match self {
            Size::Bit8 => 8,
            Size::Bit16 => 16,
            Size::Bit32 => 32,
            Size::Bit64 => 64,
        }
    }

    /// Whether two sizes are the same width.
    pub fn equals(self, other: Self) -> (r: bool)
        ensures
            r == (self == other),
    {
        self.bits() == other.bits()
    }
}

} // verus!
