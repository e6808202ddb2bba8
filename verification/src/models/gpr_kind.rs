use vstd::prelude::*;

use super::size::Size;

verus! {

/// The kind of a general purpose register.
#[derive(Debug, Clone, Copy, PartialEq, Eq, Structural)]
pub enum GPRKind {
    /// AH, BH, CH and DH.
    Bit8High,
    /// AL, CL, DL, BL, SPL, BPL, SIL, DIL and R8B through R15B.
    Bit8,
    /// AX, CX, DX, BX, SP, BP, SI, DI and R8W through R15W.
    Bit16,
    /// EAX, ECX, EDX, EBX, ESP, EBP, ESI, EDI and R8D through R15D.
    Bit32,
    /// RAX, RCX, RDX, RBX, RSP, RBP, RSI, RDI and R8 through R15.
    Bit64,
}

impl GPRKind {
    /// The operand width of registers of this kind.
    pub open spec fn spec_size(self) -> Size {
        match self {
            GPRKind::Bit8High => Size::Bit8,
            GPRKind::Bit8 => Size::Bit8,
            GPRKind::Bit16 => Size::Bit16,
            GPRKind::Bit32 => Size::Bit32,
            GPRKind::Bit64 => Size::Bit64,
        }
    }

    /// The operand width of registers of this kind.
    #[verifier::when_used_as_spec(spec_size)]
    pub fn size(self) -> (r: Size)
        ensures
            r == self.spec_size(),
    {
        match self {
            GPRKind::Bit8High => Size::Bit8,
            GPRKind::Bit8 => Size::Bit8,
            GPRKind::Bit16 => Size::Bit16,
            GPRKind::Bit32 => Size::Bit32,
            GPRKind::Bit64 => Size::Bit64,
        }
    }

    /// Whether two kinds are the same.
    pub fn equals(self, other: Self) -> (r: bool)
        ensures
            r == (self == other),
    {
        matches!(
            (self, other),
            (GPRKind::Bit8High, GPRKind::Bit8High)
            | (GPRKind::Bit8, GPRKind::Bit8)
            | (GPRKind::Bit16, GPRKind::Bit16)
            | (GPRKind::Bit32, GPRKind::Bit32)
            | (GPRKind::Bit64, GPRKind::Bit64)
        )
    }
}

} // verus!
