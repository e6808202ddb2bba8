use vstd::prelude::*;

use super::gpr_kind::GPRKind;
use super::size::Size;

verus! {

/// An error from building a general purpose register out of range.
#[derive(Debug, Clone, Copy, PartialEq, Eq, Structural)]
pub enum NewGPRError {
    /// A [`GPRKind::Bit8High`] register index outside of the `4..=7` range.
    InvalidBit8HighIndex,
    /// A register index outside of the `0..=15` range.
    IndexOutOfRange,
}

/// An x86-64 general purpose register, identified by its kind and its
/// hardware index.
#[derive(Debug, Clone, Copy, PartialEq, Eq, Structural)]
pub struct GPR {
    pub kind: GPRKind,
    pub index: u8,
}

impl GPR {
    /// Whether the kind and index identify a real register.
    pub open spec fn wf(self) -> bool {
        &&& self.index <= 15
        &&& self.kind == GPRKind::Bit8High ==> 4 <= self.index <= 7
    }

    /// The kind of the register, as a spec value.
    pub open spec fn spec_kind(self) -> GPRKind {
        self.kind
    }

    /// The hardware index of the register, as a spec value.
    pub open spec fn spec_index_value(self) -> u8 {
        self.index
    }

    /// Builds a register from its kind and hardware index, rejecting
    /// combinations that do not name a real register.
    pub fn new(kind: GPRKind, index: u8) -> (r: Result<Self, NewGPRError>)
        ensures
            match r {
                Ok(g) => {
                    &&& g == (GPR { kind, index })
                    &&& g.wf()
                },
                Err(NewGPRError::InvalidBit8HighIndex) => {
                    kind == GPRKind::Bit8High && !(4 <= index <= 7)
                },
                Err(NewGPRError::IndexOutOfRange) => {
                    &&& index > 15
                    &&& kind == GPRKind::Bit8High ==> 4 <= index <= 7
                },
            },
    {
        if kind.equals(GPRKind::Bit8High) && !(4 <= index && index <= 7) {
            return Err(NewGPRError::InvalidBit8HighIndex);
        }
        if index > 15 {
            return Err(NewGPRError::IndexOutOfRange);
        }
        Ok(GPR { kind, index })
    }

    /// The kind of the register.
    #[verifier::when_used_as_spec(spec_kind)]
    pub fn kind(self) -> (r: GPRKind)
        ensures
            r == self.kind,
    {
        self.kind
    }

    /// The hardware index of the register.
    #[verifier::when_used_as_spec(spec_index_value)]
    pub fn index_value(self) -> (r: u8)
        ensures
            r == self.index,
    {
        self.index
    }

    /// The operand width of the register.
    pub open spec fn spec_size(self) -> Size {
        self.kind.spec_size()
    }

    /// The operand width of the register.
    #[verifier::when_used_as_spec(spec_size)]
    pub fn size(self) -> (r: Size)
        ensures
            r == self.spec_size(),
    {
        self.kind.size()
    }
}

} // verus!
