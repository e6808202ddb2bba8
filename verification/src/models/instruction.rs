use vstd::prelude::*;

use super::condition::Condition;
use super::gpr::GPR;
use super::immediate::Immediate;
use super::immediate64::Immediate64;
use super::label::Label;
use super::memory::Memory;

verus! {

/// The assembly-level instructions the assembler accepts.
#[derive(Debug, Clone, Copy, PartialEq, Eq, Structural)]
pub enum Instruction {
    /// `nop`, extended to the given length in bytes; a length of zero
    /// emits nothing.
    Nop { length: u32 },
    /// Pseudoinstruction: defines a label at the current position.  The
    /// label stays private to the assembled code.
    SetPrivate_Label { label: Label },
    /// Pseudoinstruction: defines a label at the current position and
    /// reports its final position to the caller.
    SetPublic_Label { label: Label },
    /// `ret`
    Ret,
    /// `cpuid`
    Cpuid,
    /// `mov reg, imm64`; the only instruction that takes a 64-bit
    /// immediate.
    Mov_RegImm64 { dst: GPR, src: Immediate64 },
    /// `mov reg, imm`
    Mov_RegImm { dst: GPR, src: Immediate },
    /// `mov [mem], imm`
    Mov_MemImm { dst: Memory, src: Immediate },
    /// `mov reg, reg`
    Mov_RegReg { dst: GPR, src: GPR },
    /// `mov [mem], reg`
    Mov_MemReg { dst: Memory, src: GPR },
    /// `mov reg, [mem]`
    Mov_RegMem { dst: GPR, src: Memory },
    /// `cmp reg, imm`
    Cmp_RegImm { dst: GPR, src: Immediate },
    /// `cmp reg, reg`
    Cmp_RegReg { dst: GPR, src: GPR },
    /// `cmp [mem], imm`
    Cmp_MemImm { dst: Memory, src: Immediate },
    /// `cmp reg, [mem]`
    Cmp_RegMem { dst: GPR, src: Memory },
    /// `cmp [mem], reg`
    Cmp_MemReg { dst: Memory, src: GPR },
    /// `add reg, imm`
    Add_RegImm { dst: GPR, src: Immediate },
    /// `add [mem], imm`
    Add_MemImm { dst: Memory, src: Immediate },
    /// `add reg, reg`
    Add_RegReg { dst: GPR, src: GPR },
    /// `add [mem], reg`
    Add_MemReg { dst: Memory, src: GPR },
    /// `add reg, [mem]`
    Add_RegMem { dst: GPR, src: Memory },
    /// `sub reg, imm`
    Sub_RegImm { dst: GPR, src: Immediate },
    /// `sub [mem], imm`
    Sub_MemImm { dst: Memory, src: Immediate },
    /// `sub reg, reg`
    Sub_RegReg { dst: GPR, src: GPR },
    /// `sub [mem], reg`
    Sub_MemReg { dst: Memory, src: GPR },
    /// `sub reg, [mem]`
    Sub_RegMem { dst: GPR, src: Memory },
    /// `xor reg, imm`
    Xor_RegImm { dst: GPR, src: Immediate },
    /// `xor [mem], imm`
    Xor_MemImm { dst: Memory, src: Immediate },
    /// `xor reg, reg`
    Xor_RegReg { dst: GPR, src: GPR },
    /// `xor [mem], reg`
    Xor_MemReg { dst: Memory, src: GPR },
    /// `xor reg, [mem]`
    Xor_RegMem { dst: GPR, src: Memory },
    /// Pseudoinstruction: a jump to a label, compiled into a RIP-relative
    /// jump whose width is chosen during assembly.
    Jump_Label { dst: Label },
    /// `jmp reg`
    Jump_Reg { dst: GPR },
    /// `jmp [mem]`
    Jump_Mem { dst: Memory },
    /// Pseudoinstruction: a call to a label, compiled into a RIP-relative
    /// call patched during assembly.
    Call_Label { dst: Label },
    /// `call reg`
    Call_Reg { dst: GPR },
    /// `call [mem]`
    Call_Mem { dst: Memory },
    /// Pseudoinstruction: a conditional jump to a label, compiled into a
    /// RIP-relative jump whose width is chosen during assembly.
    CondJump_Label { condition: Condition, dst: Label },
    /// `push imm`
    Push_Imm { src: Immediate },
    /// `push reg`; the register has to be 64-bit.
    Push_Reg { src: GPR },
    /// `push [mem]`
    Push_Mem { src: Memory },
    /// `pop reg`; the register has to be 64-bit.
    Pop_Reg { src: GPR },
    /// `pop [mem]`
    Pop_Mem { src: Memory },
    /// `int imm8`
    Int_Imm { src: Immediate },
    /// `syscall`
    Syscall,
    /// `lock` prefix
    Lock,
}

} // verus!
