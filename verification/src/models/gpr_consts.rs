use vstd::prelude::*;

use super::gpr::GPR;
use super::gpr_kind::GPRKind;

verus! {

#[allow(non_snake_case)]
impl GPR {
    /// The `RAX` register.
    pub fn RAX() -> (r: GPR)
        ensures
            r.kind == GPRKind::Bit64,
            r.index == 0,
    {
        GPR { kind: GPRKind::Bit64, index: 0 }
    }
    /// The `RCX` register.
    pub fn RCX() -> (r: GPR)
        ensures
            r.kind == GPRKind::Bit64,
            r.index == 1,
    {
        GPR { kind: GPRKind::Bit64, index: 1 }
    }
    /// The `RDX` register.
    pub fn RDX() -> (r: GPR)
        ensures
            r.kind == GPRKind::Bit64,
            r.index == 2,
    {
        GPR { kind: GPRKind::Bit64, index: 2 }
    }
    /// The `RBX` register.
    pub fn RBX() -> (r: GPR)
        ensures
            r.kind == GPRKind::Bit64,
            r.index == 3,
    {
        GPR { kind: GPRKind::Bit64, index: 3 }
    }
    /// The `RSP` register.
    pub fn RSP() -> (r: GPR)
        ensures
            r.kind == GPRKind::Bit64,
            r.index == 4,
    {
        GPR { kind: GPRKind::Bit64, index: 4 }
    }
    /// The `RBP` register.
    pub fn RBP() -> (r: GPR)
        ensures
            r.kind == GPRKind::Bit64,
            r.index == 5,
    {
        GPR { kind: GPRKind::Bit64, index: 5 }
    }
    /// The `RSI` register.
    pub fn RSI() -> (r: GPR)
        ensures
            r.kind == GPRKind::Bit64,
            r.index == 6,
    {
        GPR { kind: GPRKind::Bit64, index: 6 }
    }
    /// The `RDI` register.
    pub fn RDI() -> (r: GPR)
        ensures
            r.kind == GPRKind::Bit64,
            r.index == 7,
    {
        GPR { kind: GPRKind::Bit64, index: 7 }
    }
    /// The `R8` register.
    pub fn R8() -> (r: GPR)
        ensures
            r.kind == GPRKind::Bit64,
            r.index == 8,
    {
        GPR { kind: GPRKind::Bit64, index: 8 }
    }
    /// The `R9` register.
    pub fn R9() -> (r: GPR)
        ensures
            r.kind == GPRKind::Bit64,
            r.index == 9,
    {
        GPR { kind: GPRKind::Bit64, index: 9 }
    }
    /// The `R10` register.
    pub fn R10() -> (r: GPR)
        ensures
            r.kind == GPRKind::Bit64,
            r.index == 10,
    {
        GPR { kind: GPRKind::Bit64, index: 10 }
    }
    /// The `R11` register.
    pub fn R11() -> (r: GPR)
        ensures
            r.kind == GPRKind::Bit64,
            r.index == 11,
    {
        GPR { kind: GPRKind::Bit64, index: 11 }
    }
    /// The `R12` register.
    pub fn R12() -> (r: GPR)
        ensures
            r.kind == GPRKind::Bit64,
            r.index == 12,
    {
        GPR { kind: GPRKind::Bit64, index: 12 }
    }
    /// The `R13` register.
    pub fn R13() -> (r: GPR)
        ensures
            r.kind == GPRKind::Bit64,
            r.index == 13,
    {
        GPR { kind: GPRKind::Bit64, index: 13 }
    }
    /// The `R14` register.
    pub fn R14() -> (r: GPR)
        ensures
            r.kind == GPRKind::Bit64,
            r.index == 14,
    {
        GPR { kind: GPRKind::Bit64, index: 14 }
    }
    /// The `R15` register.
    pub fn R15() -> (r: GPR)
        ensures
            r.kind == GPRKind::Bit64,
            r.index == 15,
    {
        GPR { kind: GPRKind::Bit64, index: 15 }
    }

    /// The `EAX` register.
    pub fn EAX() -> (r: GPR)
        ensures
            r.kind == GPRKind::Bit32,
            r.index == 0,
    {
        GPR { kind: GPRKind::Bit32, index: 0 }
    }
    /// The `ECX` register.
    pub fn ECX() -> (r: GPR)
        ensures
            r.kind == GPRKind::Bit32,
            r.index == 1,
    {
        GPR { kind: GPRKind::Bit32, index: 1 }
    }
    /// The `EDX` register.
    pub fn EDX() -> (r: GPR)
        ensures
            r.kind == GPRKind::Bit32,
            r.index == 2,
    {
        GPR { kind: GPRKind::Bit32, index: 2 }
    }
    /// The `EBX` register.
    pub fn EBX() -> (r: GPR)
        ensures
            r.kind == GPRKind::Bit32,
            r.index == 3,
    {
        GPR { kind: GPRKind::Bit32, index: 3 }
    }
    /// The `ESP` register.
    pub fn ESP() -> (r: GPR)
        ensures
            r.kind == GPRKind::Bit32,
            r.index == 4,
    {
        GPR { kind: GPRKind::Bit32, index: 4 }
    }
    /// The `EBP` register.
    pub fn EBP() -> (r: GPR)
        ensures
            r.kind == GPRKind::Bit32,
            r.index == 5,
    {
        GPR { kind: GPRKind::Bit32, index: 5 }
    }
    /// The `ESI` register.
    pub fn ESI() -> (r: GPR)
        ensures
            r.kind == GPRKind::Bit32,
            r.index == 6,
    {
        GPR { kind: GPRKind::Bit32, index: 6 }
    }
    /// The `EDI` register.
    pub fn EDI() -> (r: GPR)
        ensures
            r.kind == GPRKind::Bit32,
            r.index == 7,
    {
        GPR { kind: GPRKind::Bit32, index: 7 }
    }
    /// The `R8D` register.
    pub fn R8D() -> (r: GPR)
        ensures
            r.kind == GPRKind::Bit32,
            r.index == 8,
    {
        GPR { kind: GPRKind::Bit32, index: 8 }
    }
    /// The `R9D` register.
    pub fn R9D() -> (r: GPR)
        ensures
            r.kind == GPRKind::Bit32,
            r.index == 9,
    {
        GPR { kind: GPRKind::Bit32, index: 9 }
    }
    /// The `R10D` register.
    pub fn R10D() -> (r: GPR)
        ensures
            r.kind == GPRKind::Bit32,
            r.index == 10,
    {
        GPR { kind: GPRKind::Bit32, index: 10 }
    }
    /// The `R11D` register.
    pub fn R11D() -> (r: GPR)
        ensures
            r.kind == GPRKind::Bit32,
            r.index == 11,
    {
        GPR { kind: GPRKind::Bit32, index: 11 }
    }
    /// The `R12D` register.
    pub fn R12D() -> (r: GPR)
        ensures
            r.kind == GPRKind::Bit32,
            r.index == 12,
    {
        GPR { kind: GPRKind::Bit32, index: 12 }
    }
    /// The `R13D` register.
    pub fn R13D() -> (r: GPR)
        ensures
            r.kind == GPRKind::Bit32,
            r.index == 13,
    {
        GPR { kind: GPRKind::Bit32, index: 13 }
    }
    /// The `R14D` register.
    pub fn R14D() -> (r: GPR)
        ensures
            r.kind == GPRKind::Bit32,
            r.index == 14,
    {
        GPR { kind: GPRKind::Bit32, index: 14 }
    }
    /// The `R15D` register.
    pub fn R15D() -> (r: GPR)
        ensures
            r.kind == GPRKind::Bit32,
            r.index == 15,
    {
        GPR { kind: GPRKind::Bit32, index: 15 }
    }

    /// The `AX` register.
    pub fn AX() -> (r: GPR)
        ensures
            r.kind == GPRKind::Bit16,
            r.index == 0,
    {
        GPR { kind: GPRKind::Bit16, index: 0 }
    }
    /// The `CX` register.
    pub fn CX() -> (r: GPR)
        ensures
            r.kind == GPRKind::Bit16,
            r.index == 1,
    {
        GPR { kind: GPRKind::Bit16, index: 1 }
    }
    /// The `DX` register.
    pub fn DX() -> (r: GPR)
        ensures
            r.kind == GPRKind::Bit16,
            r.index == 2,
    {
        GPR { kind: GPRKind::Bit16, index: 2 }
    }
    /// The `BX` register.
    pub fn BX() -> (r: GPR)
        ensures
            r.kind == GPRKind::Bit16,
            r.index == 3,
    {
        GPR { kind: GPRKind::Bit16, index: 3 }
    }
    /// The `SP` register.
    pub fn SP() -> (r: GPR)
        ensures
            r.kind == GPRKind::Bit16,
            r.index == 4,
    {
        GPR { kind: GPRKind::Bit16, index: 4 }
    }
    /// The `BP` register.
    pub fn BP() -> (r: GPR)
        ensures
            r.kind == GPRKind::Bit16,
            r.index == 5,
    {
        GPR { kind: GPRKind::Bit16, index: 5 }
    }
    /// The `SI` register.
    pub fn SI() -> (r: GPR)
        ensures
            r.kind == GPRKind::Bit16,
            r.index == 6,
    {
        GPR { kind: GPRKind::Bit16, index: 6 }
    }
    /// The `DI` register.
    pub fn DI() -> (r: GPR)
        ensures
            r.kind == GPRKind::Bit16,
            r.index == 7,
    {
        GPR { kind: GPRKind::Bit16, index: 7 }
    }
    /// The `R8W` register.
    pub fn R8W() -> (r: GPR)
        ensures
            r.kind == GPRKind::Bit16,
            r.index == 8,
    {
        GPR { kind: GPRKind::Bit16, index: 8 }
    }
    /// The `R9W` register.
    pub fn R9W() -> (r: GPR)
        ensures
            r.kind == GPRKind::Bit16,
            r.index == 9,
    {
        GPR { kind: GPRKind::Bit16, index: 9 }
    }
    /// The `R10W` register.
    pub fn R10W() -> (r: GPR)
        ensures
            r.kind == GPRKind::Bit16,
            r.index == 10,
    {
        GPR { kind: GPRKind::Bit16, index: 10 }
    }
    /// The `R11W` register.
    pub fn R11W() -> (r: GPR)
        ensures
            r.kind == GPRKind::Bit16,
            r.index == 11,
    {
        GPR { kind: GPRKind::Bit16, index: 11 }
    }
    /// The `R12W` register.
    pub fn R12W() -> (r: GPR)
        ensures
            r.kind == GPRKind::Bit16,
            r.index == 12,
    {
        GPR { kind: GPRKind::Bit16, index: 12 }
    }
    /// The `R13W` register.
    pub fn R13W() -> (r: GPR)
        ensures
            r.kind == GPRKind::Bit16,
            r.index == 13,
    {
        GPR { kind: GPRKind::Bit16, index: 13 }
    }
    /// The `R14W` register.
    pub fn R14W() -> (r: GPR)
        ensures
            r.kind == GPRKind::Bit16,
            r.index == 14,
    {
        GPR { kind: GPRKind::Bit16, index: 14 }
    }
    /// The `R15W` register.
    pub fn R15W() -> (r: GPR)
        ensures
            r.kind == GPRKind::Bit16,
            r.index == 15,
    {
        GPR { kind: GPRKind::Bit16, index: 15 }
    }

    /// The `AL` register.
    pub fn AL() -> (r: GPR)
        ensures
            r.kind == GPRKind::Bit8,
            r.index == 0,
    {
        GPR { kind: GPRKind::Bit8, index: 0 }
    }
    /// The `CL` register.
    pub fn CL() -> (r: GPR)
        ensures
            r.kind == GPRKind::Bit8,
            r.index == 1,
    {
        GPR { kind: GPRKind::Bit8, index: 1 }
    }
    /// The `DL` register.
    pub fn DL() -> (r: GPR)
        ensures
            r.kind == GPRKind::Bit8,
            r.index == 2,
    {
        GPR { kind: GPRKind::Bit8, index: 2 }
    }
    /// The `BL` register.
    pub fn BL() -> (r: GPR)
        ensures
            r.kind == GPRKind::Bit8,
            r.index == 3,
    {
        GPR { kind: GPRKind::Bit8, index: 3 }
    }
    /// The `SPL` register.
    pub fn SPL() -> (r: GPR)
        ensures
            r.kind == GPRKind::Bit8,
            r.index == 4,
    {
        GPR { kind: GPRKind::Bit8, index: 4 }
    }
    /// The `BPL` register.
    pub fn BPL() -> (r: GPR)
        ensures
            r.kind == GPRKind::Bit8,
            r.index == 5,
    {
        GPR { kind: GPRKind::Bit8, index: 5 }
    }
    /// The `SIL` register.
    pub fn SIL() -> (r: GPR)
        ensures
            r.kind == GPRKind::Bit8,
            r.index == 6,
    {
        GPR { kind: GPRKind::Bit8, index: 6 }
    }
    /// The `DIL` register.
    pub fn DIL() -> (r: GPR)
        ensures
            r.kind == GPRKind::Bit8,
            r.index == 7,
    {
        GPR { kind: GPRKind::Bit8, index: 7 }
    }
    /// The `R8B` register.
    pub fn R8B() -> (r: GPR)
        ensures
            r.kind == GPRKind::Bit8,
            r.index == 8,
    {
        GPR { kind: GPRKind::Bit8, index: 8 }
    }
    /// The `R9B` register.
    pub fn R9B() -> (r: GPR)
        ensures
            r.kind == GPRKind::Bit8,
            r.index == 9,
    {
        GPR { kind: GPRKind::Bit8, index: 9 }
    }
    /// The `R10B` register.
    pub fn R10B() -> (r: GPR)
        ensures
            r.kind == GPRKind::Bit8,
            r.index == 10,
    {
        GPR { kind: GPRKind::Bit8, index: 10 }
    }
    /// The `R11B` register.
    pub fn R11B() -> (r: GPR)
        ensures
            r.kind == GPRKind::Bit8,
            r.index == 11,
    {
        GPR { kind: GPRKind::Bit8, index: 11 }
    }
    /// The `R12B` register.
    pub fn R12B() -> (r: GPR)
        ensures
            r.kind == GPRKind::Bit8,
            r.index == 12,
    {
        GPR { kind: GPRKind::Bit8, index: 12 }
    }
    /// The `R13B` register.
    pub fn R13B() -> (r: GPR)
        ensures
            r.kind == GPRKind::Bit8,
            r.index == 13,
    {
        GPR { kind: GPRKind::Bit8, index: 13 }
    }
    /// The `R14B` register.
    pub fn R14B() -> (r: GPR)
        ensures
            r.kind == GPRKind::Bit8,
            r.index == 14,
    {
        GPR { kind: GPRKind::Bit8, index: 14 }
    }
    /// The `R15B` register.
    pub fn R15B() -> (r: GPR)
        ensures
            r.kind == GPRKind::Bit8,
            r.index == 15,
    {
        GPR { kind: GPRKind::Bit8, index: 15 }
    }

    /// The `AH` register.
    pub fn AH() -> (r: GPR)
        ensures
            r.kind == GPRKind::Bit8High,
            r.index == 4,
    {
        GPR { kind: GPRKind::Bit8High, index: 4 }
    }
    /// The `CH` register.
    pub fn CH() -> (r: GPR)
        ensures
            r.kind == GPRKind::Bit8High,
            r.index == 5,
    {
        GPR { kind: GPRKind::Bit8High, index: 5 }
    }
    /// The `DH` register.
    pub fn DH() -> (r: GPR)
        ensures
            r.kind == GPRKind::Bit8High,
            r.index == 6,
    {
        GPR { kind: GPRKind::Bit8High, index: 6 }
    }
    /// The `BH` register.
    pub fn BH() -> (r: GPR)
        ensures
            r.kind == GPRKind::Bit8High,
            r.index == 7,
    {
        GPR { kind: GPRKind::Bit8High, index: 7 }
    }
}

} // verus!
