//! Instruction intake: operand validation, the choice of encoder call
//! for instructions the encoder materializes, and the materialization
//! of everything the assembler encodes itself, all pinned by one
//! step function per entry point.

use vstd::prelude::*;

use crate::models::gpr::GPR;
use crate::models::gpr_kind::GPRKind;
use crate::models::immediate::Immediate;
use crate::models::immediate64::Immediate64;
use crate::models::instruction::Instruction;
use crate::models::label::Label;
use crate::models::memory::MemForm;
use crate::models::memory::Memory;
use crate::models::size::Size;
use super::errors::EmitError;
use super::encodings::build_call_placeholder;
use super::encodings::build_cpuid;
use super::encodings::build_int;
use super::encodings::build_lock;
use super::encodings::build_nop_unit;
use super::encodings::build_push_imm;
use super::encodings::build_ret;
use super::encodings::build_syscall;
use super::encodings::call_placeholder_bytes;
use super::encodings::cpuid_bytes;
use super::encodings::int_bytes;
use super::encodings::lock_bytes;
use super::encodings::nop_run;
use super::encodings::push_imm_bytes;
use super::encodings::ret_bytes;
use super::encodings::syscall_bytes;
use super::encodings::lemma_nop_run_len;
use super::fragment::Fragment;
use super::fragment::FragView;
use super::fragment::RelaxationVariant;
use super::fragment::LONG_COND_JUMP_LEN;
use super::fragment::LONG_JUMP_LEN;
use super::fragment::total_max_len;
use super::label_map::find_label;
use super::label_map::lemma_find_label_push;
use super::state::add_patch;
use super::state::append_bytes_view;
use super::state::landing_pos;
use super::state::lemma_append_concat;
use super::state::lemma_append_total;
use super::state::view_cur_pos;
use super::state::AsmView;
use super::state::PatchableImm32Instruction;
use super::state::X86_64Assembler;
use super::state::MAX_CODE_BYTES;
use super::state::def_in_code;
use super::state::lemma_bytes_len_bounded;

verus! {

/// What one `emit` call did: either the instruction is fully materialized
/// in the fragment sequence, or the assembler asks its caller to run the
/// named encoder call and hand the bytes back through
/// [`X86_64Assembler::emit_encoded`].
#[derive(Debug, Clone, Copy, PartialEq, Eq, Structural)]
pub enum EmitStatus {
    Emitted,
    NeedsEncoding(EncoderCall),
}

/// The four arithmetic-logical mnemonics that share one operand scheme.
#[derive(Debug, Clone, Copy, PartialEq, Eq, Structural)]
pub enum Group1Op {
    Add,
    Sub,
    Cmp,
    Xor,
}

/// A register-or-memory operand, with the memory form fully decided.
#[derive(Debug, Clone, Copy, PartialEq, Eq, Structural)]
pub enum RegOrMem {
    Reg(GPR),
    Mem(MemForm),
}

/// One fully decided call into the instruction encoder: which encoder
/// function to run and with which operands.  All operand validation and
/// width selection has already happened; running the call is pure
/// encoding.
#[derive(Debug, Clone, Copy, PartialEq, Eq, Structural)]
pub enum EncoderCall {
    /// `add`/`sub`/`cmp`/`xor` of an 8-bit immediate with `AL`.
    Group1ALImm8 { op: Group1Op, value: i8 },
    /// ... of a 16-bit immediate with `AX`.
    Group1AXImm16 { op: Group1Op, value: i16 },
    /// ... of a 32-bit immediate with `EAX`.
    Group1EAXImm32 { op: Group1Op, value: i32 },
    /// ... of a sign-extended 32-bit immediate with `RAX`.
    Group1RAXImm32 { op: Group1Op, value: i32 },
    /// ... of an immediate with a register or memory operand, at the
    /// given operand width.
    Group1RmImm { op: Group1Op, size: Size, rm: RegOrMem, value: i32 },
    /// ... storing a register into a register or memory operand.
    Group1RmReg { op: Group1Op, size: Size, rm: RegOrMem, reg: GPR },
    /// ... loading a register from a register or memory operand.
    Group1RegRm { op: Group1Op, size: Size, reg: GPR, rm: RegOrMem },
    /// `mov reg64, imm64`.
    MovRegImm64 { dst: GPR, value: i64 },
    /// `mov` of an immediate into a register at the given width.
    MovRegImm { size: Size, dst: GPR, value: i32 },
    /// `mov` of an immediate into a register or memory operand.
    MovRmImm { size: Size, rm: RegOrMem, value: i32 },
    /// `mov` storing a register.
    MovRmReg { size: Size, rm: RegOrMem, reg: GPR },
    /// `mov` loading a register.
    MovRegRm { size: Size, reg: GPR, rm: RegOrMem },
    /// `jmp` through a 64-bit register or memory operand.
    JmpRm64 { rm: RegOrMem },
    /// `call` through a 64-bit register or memory operand.
    CallRm64 { rm: RegOrMem },
    /// `push reg64`.
    PushReg64 { reg: GPR },
    /// `push` of a 64-bit register or memory operand.
    PushRm64 { rm: RegOrMem },
    /// `pop reg64`.
    PopReg64 { reg: GPR },
    /// `pop` of a 64-bit register or memory operand.
    PopRm64 { rm: RegOrMem },
}

/// Whether the register is the accumulator of the given kind.
pub open spec fn is_acc(g: GPR, kind: GPRKind) -> bool {
    g.kind == kind && g.index == 0
}

/// The encoder call for `add`/`sub`/`cmp`/`xor` of an immediate with a
/// register: the dedicated accumulator forms first, then the generic
/// register-or-memory form, rejecting immediates wider than the register.
pub open spec fn group1_reg_imm_call(op: Group1Op, dst: GPR, v: i32) -> Result<
    EncoderCall,
    EmitError,
> {
    let rsz = Immediate::spec_real_size(v);
    if is_acc(dst, GPRKind::Bit8) && rsz == Size::Bit8 {
        Ok(EncoderCall::Group1ALImm8 { op, value: v as i8 })
    } else if is_acc(dst, GPRKind::Bit16) && rsz.spec_bits() <= 16 {
        Ok(EncoderCall::Group1AXImm16 { op, value: v as i16 })
    } else if is_acc(dst, GPRKind::Bit32) {
        Ok(EncoderCall::Group1EAXImm32 { op, value: v })
    } else if is_acc(dst, GPRKind::Bit64) {
        Ok(EncoderCall::Group1RAXImm32 { op, value: v })
    } else if dst.spec_size().spec_bits() < rsz.spec_bits() {
        Err(EmitError::OperandSizeMismatch)
    } else {
        Ok(EncoderCall::Group1RmImm { op, size: dst.spec_size(), rm: RegOrMem::Reg(dst), value: v })
    }
}

/// The encoder call for `mov` of an immediate into a register, rejecting
/// immediates wider than the register.
pub open spec fn mov_reg_imm_call(dst: GPR, v: i32) -> Result<EncoderCall, EmitError> {
    if dst.spec_size().spec_bits() < Immediate::spec_real_size(v).spec_bits() {
        Err(EmitError::OperandSizeMismatch)
    } else {
        Ok(EncoderCall::MovRegImm { size: dst.spec_size(), dst, value: v })
    }
}

/// Which encoder call an instruction needs, if any: `Ok(None)` for the
/// instructions the assembler materializes itself, `Ok(Some(..))` for
/// those that go through the encoder, and `OperandSizeMismatch` where
/// operand validation rejects the instruction.
pub open spec fn instr_encoder_call(instruction: Instruction) -> Result<
    Option<EncoderCall>,
    EmitError,
> {
    match instruction {
        Instruction::Nop { .. } => Ok(None),
        Instruction::SetPrivate_Label { .. } => Ok(None),
        Instruction::SetPublic_Label { .. } => Ok(None),
        Instruction::Ret => Ok(None),
        Instruction::Cpuid => Ok(None),
        Instruction::Syscall => Ok(None),
        Instruction::Lock => Ok(None),
        Instruction::Jump_Label { .. } => Ok(None),
        Instruction::CondJump_Label { .. } => Ok(None),
        Instruction::Call_Label { .. } => Ok(None),
        Instruction::Push_Imm { .. } => Ok(None),
        Instruction::Int_Imm { src } => if 0 <= src.value <= 255 {
            Ok(None)
        } else {
            Err(EmitError::OperandSizeMismatch)
        },
        Instruction::Mov_RegImm64 { dst, src } => if Immediate64::spec_real_size(src.value)
            == Size::Bit64 {
            if dst.spec_size() != Size::Bit64 {
                Err(EmitError::OperandSizeMismatch)
            } else {
                Ok(Some(EncoderCall::MovRegImm64 { dst, value: src.value }))
            }
        } else {
            match mov_reg_imm_call(dst, src.value as i32) {
                Ok(c) => Ok(Some(c)),
                Err(e) => Err(e),
            }
        },
        Instruction::Mov_RegImm { dst, src } => match mov_reg_imm_call(dst, src.value) {
            Ok(c) => Ok(Some(c)),
            Err(e) => Err(e),
        },
        Instruction::Mov_MemImm { dst, src } => Ok(
            Some(
                EncoderCall::MovRmImm {
                    size: Immediate::spec_real_size(src.value),
                    rm: RegOrMem::Mem(dst.spec_enc_form()),
                    value: src.value,
                },
            ),
        ),
        Instruction::Mov_RegReg { dst, src } => if dst.spec_size() != src.spec_size() {
            Err(EmitError::OperandSizeMismatch)
        } else {
            Ok(
                Some(
                    EncoderCall::MovRmReg {
                        size: dst.spec_size(),
                        rm: RegOrMem::Reg(dst),
                        reg: src,
                    },
                ),
            )
        },
        Instruction::Mov_MemReg { dst, src } => Ok(
            Some(
                EncoderCall::MovRmReg {
                    size: src.spec_size(),
                    rm: RegOrMem::Mem(dst.spec_enc_form()),
                    reg: src,
                },
            ),
        ),
        Instruction::Mov_RegMem { dst, src } => Ok(
            Some(
                EncoderCall::MovRegRm {
                    size: dst.spec_size(),
                    reg: dst,
                    rm: RegOrMem::Mem(src.spec_enc_form()),
                },
            ),
        ),
        Instruction::Add_RegImm { dst, src } => match group1_reg_imm_call(
            Group1Op::Add,
            dst,
            src.value,
        ) {
            Ok(c) => Ok(Some(c)),
            Err(e) => Err(e),
        },
        Instruction::Sub_RegImm { dst, src } => match group1_reg_imm_call(
            Group1Op::Sub,
            dst,
            src.value,
        ) {
            Ok(c) => Ok(Some(c)),
            Err(e) => Err(e),
        },
        Instruction::Cmp_RegImm { dst, src } => match group1_reg_imm_call(
            Group1Op::Cmp,
            dst,
            src.value,
        ) {
            Ok(c) => Ok(Some(c)),
            Err(e) => Err(e),
        },
        Instruction::Xor_RegImm { dst, src } => match group1_reg_imm_call(
            Group1Op::Xor,
            dst,
            src.value,
        ) {
            Ok(c) => Ok(Some(c)),
            Err(e) => Err(e),
        },
        Instruction::Add_RegReg { dst, src } => group1_reg_reg_call(Group1Op::Add, dst, src),
        Instruction::Sub_RegReg { dst, src } => group1_reg_reg_call(Group1Op::Sub, dst, src),
        Instruction::Cmp_RegReg { dst, src } => group1_reg_reg_call(Group1Op::Cmp, dst, src),
        Instruction::Xor_RegReg { dst, src } => group1_reg_reg_call(Group1Op::Xor, dst, src),
        Instruction::Add_MemImm { dst, src } => Ok(
            Some(group1_mem_imm_call(Group1Op::Add, dst, src.value)),
        ),
        Instruction::Sub_MemImm { dst, src } => Ok(
            Some(group1_mem_imm_call(Group1Op::Sub, dst, src.value)),
        ),
        Instruction::Cmp_MemImm { dst, src } => Ok(
            Some(group1_mem_imm_call(Group1Op::Cmp, dst, src.value)),
        ),
        Instruction::Xor_MemImm { dst, src } => Ok(
            Some(group1_mem_imm_call(Group1Op::Xor, dst, src.value)),
        ),
        Instruction::Add_MemReg { dst, src } => Ok(
            Some(group1_mem_reg_call(Group1Op::Add, dst, src)),
        ),
        Instruction::Sub_MemReg { dst, src } => Ok(
            Some(group1_mem_reg_call(Group1Op::Sub, dst, src)),
        ),
        Instruction::Cmp_MemReg { dst, src } => Ok(
            Some(group1_mem_reg_call(Group1Op::Cmp, dst, src)),
        ),
        Instruction::Xor_MemReg { dst, src } => Ok(
            Some(group1_mem_reg_call(Group1Op::Xor, dst, src)),
        ),
        Instruction::Add_RegMem { dst, src } => Ok(
            Some(group1_reg_mem_call(Group1Op::Add, dst, src)),
        ),
        Instruction::Sub_RegMem { dst, src } => Ok(
            Some(group1_reg_mem_call(Group1Op::Sub, dst, src)),
        ),
        Instruction::Cmp_RegMem { dst, src } => Ok(
            Some(group1_reg_mem_call(Group1Op::Cmp, dst, src)),
        ),
        Instruction::Xor_RegMem { dst, src } => Ok(
            Some(group1_reg_mem_call(Group1Op::Xor, dst, src)),
        ),
        Instruction::Jump_Reg { dst } => Ok(Some(EncoderCall::JmpRm64 { rm: RegOrMem::Reg(dst) })),
        Instruction::Jump_Mem { dst } => Ok(
            Some(EncoderCall::JmpRm64 { rm: RegOrMem::Mem(dst.spec_enc_form()) }),
        ),
        Instruction::Call_Reg { dst } => Ok(Some(EncoderCall::CallRm64 { rm: RegOrMem::Reg(dst) })),
        Instruction::Call_Mem { dst } => Ok(
            Some(EncoderCall::CallRm64 { rm: RegOrMem::Mem(dst.spec_enc_form()) }),
        ),
        Instruction::Push_Reg { src } => if src.spec_size() != Size::Bit64 {
            Err(EmitError::OperandSizeMismatch)
        } else {
            Ok(Some(EncoderCall::PushReg64 { reg: src }))
        },
        Instruction::Push_Mem { src } => Ok(
            Some(EncoderCall::PushRm64 { rm: RegOrMem::Mem(src.spec_enc_form()) }),
        ),
        Instruction::Pop_Reg { src } => if src.spec_size() != Size::Bit64 {
            Err(EmitError::OperandSizeMismatch)
        } else {
            Ok(Some(EncoderCall::PopReg64 { reg: src }))
        },
        Instruction::Pop_Mem { src } => Ok(
            Some(EncoderCall::PopRm64 { rm: RegOrMem::Mem(src.spec_enc_form()) }),
        ),
    }
}

/// The encoder call for `add`/`sub`/`cmp`/`xor` of two registers; both
/// sides must have the same width.
pub open spec fn group1_reg_reg_call(op: Group1Op, dst: GPR, src: GPR) -> Result<
    Option<EncoderCall>,
    EmitError,
> {
    if dst.spec_size() != src.spec_size() {
        Err(EmitError::OperandSizeMismatch)
    } else {
        Ok(
            Some(
                EncoderCall::Group1RmReg {
                    op,
                    size: dst.spec_size(),
                    rm: RegOrMem::Reg(dst),
                    reg: src,
                },
            ),
        )
    }
}

/// The encoder call for `add`/`sub`/`cmp`/`xor` of an immediate with a
/// memory operand; the operand width follows the immediate's width.
pub open spec fn group1_mem_imm_call(op: Group1Op, dst: Memory, v: i32) -> EncoderCall {
    EncoderCall::Group1RmImm {
        op,
        size: Immediate::spec_real_size(v),
        rm: RegOrMem::Mem(dst.spec_enc_form()),
        value: v,
    }
}

/// The encoder call for `add`/`sub`/`cmp`/`xor` storing a register into
/// memory; the operand width follows the register.
pub open spec fn group1_mem_reg_call(op: Group1Op, dst: Memory, src: GPR) -> EncoderCall {
    EncoderCall::Group1RmReg {
        op,
        size: src.spec_size(),
        rm: RegOrMem::Mem(dst.spec_enc_form()),
        reg: src,
    }
}

/// The encoder call for `add`/`sub`/`cmp`/`xor` loading a register from
/// memory; the operand width follows the register.
pub open spec fn group1_reg_mem_call(op: Group1Op, dst: GPR, src: Memory) -> EncoderCall {
    EncoderCall::Group1RegRm {
        op,
        size: dst.spec_size(),
        reg: dst,
        rm: RegOrMem::Mem(src.spec_enc_form()),
    }
}

/// The bytes the assembler materializes itself for the instructions that
/// need no encoder call and push no jump fragment.
pub open spec fn internal_bytes(instruction: Instruction) -> Seq<u8> {
    match instruction {
        Instruction::Ret => ret_bytes(),
        Instruction::Cpuid => cpuid_bytes(),
        Instruction::Syscall => syscall_bytes(),
        Instruction::Lock => lock_bytes(),
        Instruction::Nop { length } => nop_run(length as int),
        Instruction::Int_Imm { src } => int_bytes(src.value as u8),
        Instruction::Push_Imm { src } => push_imm_bytes(src.value),
        _ => Seq::empty(),
    }
}

/// The label a just-encoded instruction's RIP-relative imm32 slot refers
/// to, if it carries a label memory operand that gets patched.
pub open spec fn patch_label_of(instruction: Instruction) -> Option<Label> {
    match instruction {
        Instruction::Mov_MemImm { dst, .. } => dst.spec_get_label(),
        Instruction::Add_MemImm { dst, .. } => dst.spec_get_label(),
        Instruction::Sub_MemImm { dst, .. } => dst.spec_get_label(),
        Instruction::Cmp_MemImm { dst, .. } => dst.spec_get_label(),
        Instruction::Xor_MemImm { dst, .. } => dst.spec_get_label(),
        Instruction::Mov_MemReg { dst, .. } => dst.spec_get_label(),
        Instruction::Add_MemReg { dst, .. } => dst.spec_get_label(),
        Instruction::Sub_MemReg { dst, .. } => dst.spec_get_label(),
        Instruction::Cmp_MemReg { dst, .. } => dst.spec_get_label(),
        Instruction::Xor_MemReg { dst, .. } => dst.spec_get_label(),
        Instruction::Mov_RegMem { src, .. } => src.spec_get_label(),
        Instruction::Add_RegMem { src, .. } => src.spec_get_label(),
        Instruction::Sub_RegMem { src, .. } => src.spec_get_label(),
        Instruction::Cmp_RegMem { src, .. } => src.spec_get_label(),
        Instruction::Xor_RegMem { src, .. } => src.spec_get_label(),
        Instruction::Push_Mem { src } => src.spec_get_label(),
        Instruction::Pop_Mem { src } => src.spec_get_label(),
        _ => None,
    }
}

/// How many immediate bytes trail the imm32 slot of a just-encoded
/// instruction: the width of a memory-immediate form's immediate, zero
/// otherwise.
pub open spec fn imm_suffix_of(instruction: Instruction) -> int {
    match instruction {
        Instruction::Mov_MemImm { src, .. } => imm_width(src.value),
        Instruction::Add_MemImm { src, .. } => imm_width(src.value),
        Instruction::Sub_MemImm { src, .. } => imm_width(src.value),
        Instruction::Cmp_MemImm { src, .. } => imm_width(src.value),
        Instruction::Xor_MemImm { src, .. } => imm_width(src.value),
        _ => 0,
    }
}

/// The byte width of an immediate's narrowest form.
pub open spec fn imm_width(v: i32) -> int {
    match Immediate::spec_real_size(v) {
        Size::Bit8 => 1,
        Size::Bit16 => 2,
        Size::Bit32 => 4,
        Size::Bit64 => 8,
    }
}

/// The relaxation variant new jump fragments start in: short when
/// relaxation may later keep it, long when relaxation is off.
pub open spec fn start_variant(relax: bool) -> RelaxationVariant {
    if relax {
        RelaxationVariant::Short
    } else {
        RelaxationVariant::Long
    }
}

/// What one internally materialized instruction does to the assembler
/// state.
pub open spec fn internal_step(v: AsmView, instruction: Instruction) -> Result<
    AsmView,
    EmitError,
> {
    match instruction {
        Instruction::SetPrivate_Label { label } => if find_label(v.defs, label) is Some {
            Err(EmitError::LabelAlreadyDefined(label))
        } else {
            Ok(
                AsmView {
                    defs: v.defs.push((label, view_cur_pos(v.frags))),
                    frags: v.frags,
                    patches: v.patches,
                    publics: v.publics,
                    relax: v.relax,
                },
            )
        },
        Instruction::SetPublic_Label { label } => if find_label(v.defs, label) is Some {
            Err(EmitError::LabelAlreadyDefined(label))
        } else {
            Ok(
                AsmView {
                    defs: v.defs.push((label, view_cur_pos(v.frags))),
                    publics: v.publics.push(label),
                    frags: v.frags,
                    patches: v.patches,
                    relax: v.relax,
                },
            )
        },
        Instruction::Jump_Label { dst } => if total_max_len(v.frags) + LONG_JUMP_LEN
            > MAX_CODE_BYTES {
            Err(EmitError::OutOfCapacity)
        } else {
            Ok(
                AsmView {
                    frags: v.frags.push(
                        FragView::Jump { variant: start_variant(v.relax), target: dst },
                    ),
                    defs: v.defs,
                    patches: v.patches,
                    publics: v.publics,
                    relax: v.relax,
                },
            )
        },
        Instruction::CondJump_Label { condition, dst } => if total_max_len(v.frags)
            + LONG_COND_JUMP_LEN > MAX_CODE_BYTES {
            Err(EmitError::OutOfCapacity)
        } else {
            Ok(
                AsmView {
                    frags: v.frags.push(
                        FragView::CondJump {
                            variant: start_variant(v.relax),
                            cond: condition,
                            target: dst,
                        },
                    ),
                    defs: v.defs,
                    patches: v.patches,
                    publics: v.publics,
                    relax: v.relax,
                },
            )
        },
        Instruction::Call_Label { dst } => if total_max_len(v.frags)
            + call_placeholder_bytes().len() > MAX_CODE_BYTES {
            Err(EmitError::OutOfCapacity)
        } else {
            Ok(
                AsmView {
                    frags: append_bytes_view(v.frags, call_placeholder_bytes()),
                    patches: add_patch(
                        v.patches,
                        dst,
                        PatchableImm32Instruction {
                            instruction_position: landing_pos(v.frags),
                            instruction_length: call_placeholder_bytes().len() as u32,
                            imm32_offset: 1,
                        },
                    ),
                    defs: v.defs,
                    publics: v.publics,
                    relax: v.relax,
                },
            )
        },
        _ => if total_max_len(v.frags) + internal_bytes(instruction).len() > MAX_CODE_BYTES {
            Err(EmitError::OutOfCapacity)
        } else {
            Ok(
                AsmView {
                    frags: append_bytes_view(v.frags, internal_bytes(instruction)),
                    defs: v.defs,
                    patches: v.patches,
                    publics: v.publics,
                    relax: v.relax,
                },
            )
        },
    }
}

/// What one `emit` call does: reject invalid operands, hand instructions
/// that need the encoder back to the caller unchanged, and materialize
/// everything else.
pub open spec fn emit_step(v: AsmView, instruction: Instruction) -> Result<
    (AsmView, EmitStatus),
    EmitError,
> {
    match instr_encoder_call(instruction) {
        Err(e) => Err(e),
        Ok(Some(call)) => Ok((v, EmitStatus::NeedsEncoding(call))),
        Ok(None) => match internal_step(v, instruction) {
            Ok(v2) => Ok((v2, EmitStatus::Emitted)),
            Err(e) => Err(e),
        },
    }
}

/// What appending an opaque byte run does to the assembler state.
pub open spec fn bytes_step(v: AsmView, b: Seq<u8>) -> Result<AsmView, EmitError> {
    if total_max_len(v.frags) + b.len() > MAX_CODE_BYTES {
        Err(EmitError::OutOfCapacity)
    } else {
        Ok(
            AsmView {
                frags: append_bytes_view(v.frags, b),
                defs: v.defs,
                patches: v.patches,
                publics: v.publics,
                relax: v.relax,
            },
        )
    }
}

/// What handing back the encoding of an instruction does: the bytes are
/// appended, and an instruction that refers to a label through a memory
/// operand files the pending patch for its imm32 slot.
pub open spec fn encoded_step(v: AsmView, instruction: Instruction, b: Seq<u8>) -> Result<
    AsmView,
    EmitError,
> {
    if total_max_len(v.frags) + b.len() > MAX_CODE_BYTES {
        Err(EmitError::OutOfCapacity)
    } else {
        match patch_label_of(instruction) {
            Some(label) => Ok(
                AsmView {
                    frags: append_bytes_view(v.frags, b),
                    patches: add_patch(
                        v.patches,
                        label,
                        PatchableImm32Instruction {
                            instruction_position: landing_pos(v.frags),
                            instruction_length: b.len() as u32,
                            imm32_offset: (b.len() - 4 - imm_suffix_of(instruction)) as u32,
                        },
                    ),
                    defs: v.defs,
                    publics: v.publics,
                    relax: v.relax,
                },
            ),
            None => Ok(
                AsmView {
                    frags: append_bytes_view(v.frags, b),
                    defs: v.defs,
                    patches: v.patches,
                    publics: v.publics,
                    relax: v.relax,
                },
            ),
        }
    }
}

/// Decides the encoder call for `add`/`sub`/`cmp`/`xor` of an immediate
/// with a register.
fn group1_reg_imm(op: Group1Op, dst: GPR, v: i32) -> (r: Result<EncoderCall, EmitError>)
    ensures
        r == group1_reg_imm_call(op, dst, v),
{
    let rs = Immediate::new(v).real_size();
    let acc = dst.index_value() == 0;
    if acc && dst.kind().equals(GPRKind::Bit8) && rs.equals(Size::Bit8) {
        Ok(EncoderCall::Group1ALImm8 { op, value: v as i8 })
    } else if acc && dst.kind().equals(GPRKind::Bit16) && rs.bits() <= 16 {
        Ok(EncoderCall::Group1AXImm16 { op, value: v as i16 })
    } else if acc && dst.kind().equals(GPRKind::Bit32) {
        Ok(EncoderCall::Group1EAXImm32 { op, value: v })
    } else if acc && dst.kind().equals(GPRKind::Bit64) {
        Ok(EncoderCall::Group1RAXImm32 { op, value: v })
    } else if dst.size().bits() < rs.bits() {
        Err(EmitError::OperandSizeMismatch)
    } else {
        Ok(EncoderCall::Group1RmImm { op, size: dst.size(), rm: RegOrMem::Reg(dst), value: v })
    }
}

/// Decides the encoder call for `mov` of an immediate into a register.
fn mov_reg_imm(dst: GPR, v: i32) -> (r: Result<EncoderCall, EmitError>)
    ensures
        r == mov_reg_imm_call(dst, v),
{
    if dst.size().bits() < Immediate::new(v).real_size().bits() {
        Err(EmitError::OperandSizeMismatch)
    } else {
        Ok(EncoderCall::MovRegImm { size: dst.size(), dst, value: v })
    }
}

/// Decides the encoder call for `add`/`sub`/`cmp`/`xor` of two registers.
fn group1_reg_reg(op: Group1Op, dst: GPR, src: GPR) -> (r: Result<Option<EncoderCall>, EmitError>)
    ensures
        r == group1_reg_reg_call(op, dst, src),
{
    if !dst.size().equals(src.size()) {
        Err(EmitError::OperandSizeMismatch)
    } else {
        Ok(Some(EncoderCall::Group1RmReg { op, size: dst.size(), rm: RegOrMem::Reg(dst), reg: src }))
    }
}

/// Decides which encoder call an instruction needs, if any, validating
/// its operands on the way.
pub fn instruction_encoder_call(instruction: &Instruction) -> (r: Result<
    Option<EncoderCall>,
    EmitError,
>)
    ensures
        r == instr_encoder_call(*instruction),
{
    match instruction {
        Instruction::Nop { .. } => Ok(None),
        Instruction::SetPrivate_Label { .. } => Ok(None),
        Instruction::SetPublic_Label { .. } => Ok(None),
        Instruction::Ret => Ok(None),
        Instruction::Cpuid => Ok(None),
        Instruction::Syscall => Ok(None),
        Instruction::Lock => Ok(None),
        Instruction::Jump_Label { .. } => Ok(None),
        Instruction::CondJump_Label { .. } => Ok(None),
        Instruction::Call_Label { .. } => Ok(None),
        Instruction::Push_Imm { .. } => Ok(None),
        Instruction::Int_Imm { src } => {
            let v = src.value();
            if 0 <= v && v <= 255 {
                Ok(None)
            } else {
                Err(EmitError::OperandSizeMismatch)
            }
        },
        Instruction::Mov_RegImm64 { dst, src } => {
            if src.real_size().equals(Size::Bit64) {
                if !dst.size().equals(Size::Bit64) {
                    Err(EmitError::OperandSizeMismatch)
                } else {
                    Ok(Some(EncoderCall::MovRegImm64 { dst: *dst, value: src.value() }))
                }
            } else {
                match mov_reg_imm(*dst, src.value() as i32) {
                    Ok(c) => Ok(Some(c)),
                    Err(e) => Err(e),
                }
            }
        },
        Instruction::Mov_RegImm { dst, src } => match mov_reg_imm(*dst, src.value()) {
            Ok(c) => Ok(Some(c)),
            Err(e) => Err(e),
        },
        Instruction::Mov_MemImm { dst, src } => Ok(
            Some(
                EncoderCall::MovRmImm {
                    size: src.real_size(),
                    rm: RegOrMem::Mem(dst.enc_form()),
                    value: src.value(),
                },
            ),
        ),
        Instruction::Mov_RegReg { dst, src } => {
            if !dst.size().equals(src.size()) {
                Err(EmitError::OperandSizeMismatch)
            } else {
                Ok(
                    Some(
                        EncoderCall::MovRmReg {
                            size: dst.size(),
                            rm: RegOrMem::Reg(*dst),
                            reg: *src,
                        },
                    ),
                )
            }
        },
        Instruction::Mov_MemReg { dst, src } => Ok(
            Some(
                EncoderCall::MovRmReg {
                    size: src.size(),
                    rm: RegOrMem::Mem(dst.enc_form()),
                    reg: *src,
                },
            ),
        ),
        Instruction::Mov_RegMem { dst, src } => Ok(
            Some(
                EncoderCall::MovRegRm {
                    size: dst.size(),
                    reg: *dst,
                    rm: RegOrMem::Mem(src.enc_form()),
                },
            ),
        ),
        Instruction::Add_RegImm { dst, src } => match group1_reg_imm(
            Group1Op::Add,
            *dst,
            src.value(),
        ) {
            Ok(c) => Ok(Some(c)),
            Err(e) => Err(e),
        },
        Instruction::Sub_RegImm { dst, src } => match group1_reg_imm(
            Group1Op::Sub,
            *dst,
            src.value(),
        ) {
            Ok(c) => Ok(Some(c)),
            Err(e) => Err(e),
        },
        Instruction::Cmp_RegImm { dst, src } => match group1_reg_imm(
            Group1Op::Cmp,
            *dst,
            src.value(),
        ) {
            Ok(c) => Ok(Some(c)),
            Err(e) => Err(e),
        },
        Instruction::Xor_RegImm { dst, src } => match group1_reg_imm(
            Group1Op::Xor,
            *dst,
            src.value(),
        ) {
            Ok(c) => Ok(Some(c)),
            Err(e) => Err(e),
        },
        Instruction::Add_RegReg { dst, src } => group1_reg_reg(Group1Op::Add, *dst, *src),
        Instruction::Sub_RegReg { dst, src } => group1_reg_reg(Group1Op::Sub, *dst, *src),
        Instruction::Cmp_RegReg { dst, src } => group1_reg_reg(Group1Op::Cmp, *dst, *src),
        Instruction::Xor_RegReg { dst, src } => group1_reg_reg(Group1Op::Xor, *dst, *src),
        Instruction::Add_MemImm { dst, src } => Ok(
            Some(
                EncoderCall::Group1RmImm {
                    op: Group1Op::Add,
                    size: src.real_size(),
                    rm: RegOrMem::Mem(dst.enc_form()),
                    value: src.value(),
                },
            ),
        ),
        Instruction::Sub_MemImm { dst, src } => Ok(
            Some(
                EncoderCall::Group1RmImm {
                    op: Group1Op::Sub,
                    size: src.real_size(),
                    rm: RegOrMem::Mem(dst.enc_form()),
                    value: src.value(),
                },
            ),
        ),
        Instruction::Cmp_MemImm { dst, src } => Ok(
            Some(
                EncoderCall::Group1RmImm {
                    op: Group1Op::Cmp,
                    size: src.real_size(),
                    rm: RegOrMem::Mem(dst.enc_form()),
                    value: src.value(),
                },
            ),
        ),
        Instruction::Xor_MemImm { dst, src } => Ok(
            Some(
                EncoderCall::Group1RmImm {
                    op: Group1Op::Xor,
                    size: src.real_size(),
                    rm: RegOrMem::Mem(dst.enc_form()),
                    value: src.value(),
                },
            ),
        ),
        Instruction::Add_MemReg { dst, src } => Ok(
            Some(
                EncoderCall::Group1RmReg {
                    op: Group1Op::Add,
                    size: src.size(),
                    rm: RegOrMem::Mem(dst.enc_form()),
                    reg: *src,
                },
            ),
        ),
        Instruction::Sub_MemReg { dst, src } => Ok(
            Some(
                EncoderCall::Group1RmReg {
                    op: Group1Op::Sub,
                    size: src.size(),
                    rm: RegOrMem::Mem(dst.enc_form()),
                    reg: *src,
                },
            ),
        ),
        Instruction::Cmp_MemReg { dst, src } => Ok(
            Some(
                EncoderCall::Group1RmReg {
                    op: Group1Op::Cmp,
                    size: src.size(),
                    rm: RegOrMem::Mem(dst.enc_form()),
                    reg: *src,
                },
            ),
        ),
        Instruction::Xor_MemReg { dst, src } => Ok(
            Some(
                EncoderCall::Group1RmReg {
                    op: Group1Op::Xor,
                    size: src.size(),
                    rm: RegOrMem::Mem(dst.enc_form()),
                    reg: *src,
                },
            ),
        ),
        Instruction::Add_RegMem { dst, src } => Ok(
            Some(
                EncoderCall::Group1RegRm {
                    op: Group1Op::Add,
                    size: dst.size(),
                    reg: *dst,
                    rm: RegOrMem::Mem(src.enc_form()),
                },
            ),
        ),
        Instruction::Sub_RegMem { dst, src } => Ok(
            Some(
                EncoderCall::Group1RegRm {
                    op: Group1Op::Sub,
                    size: dst.size(),
                    reg: *dst,
                    rm: RegOrMem::Mem(src.enc_form()),
                },
            ),
        ),
        Instruction::Cmp_RegMem { dst, src } => Ok(
            Some(
                EncoderCall::Group1RegRm {
                    op: Group1Op::Cmp,
                    size: dst.size(),
                    reg: *dst,
                    rm: RegOrMem::Mem(src.enc_form()),
                },
            ),
        ),
        Instruction::Xor_RegMem { dst, src } => Ok(
            Some(
                EncoderCall::Group1RegRm {
                    op: Group1Op::Xor,
                    size: dst.size(),
                    reg: *dst,
                    rm: RegOrMem::Mem(src.enc_form()),
                },
            ),
        ),
        Instruction::Jump_Reg { dst } => Ok(Some(EncoderCall::JmpRm64 { rm: RegOrMem::Reg(*dst) })),
        Instruction::Jump_Mem { dst } => Ok(
            Some(EncoderCall::JmpRm64 { rm: RegOrMem::Mem(dst.enc_form()) }),
        ),
        Instruction::Call_Reg { dst } => Ok(
            Some(EncoderCall::CallRm64 { rm: RegOrMem::Reg(*dst) }),
        ),
        Instruction::Call_Mem { dst } => Ok(
            Some(EncoderCall::CallRm64 { rm: RegOrMem::Mem(dst.enc_form()) }),
        ),
        Instruction::Push_Reg { src } => {
            if !src.size().equals(Size::Bit64) {
                Err(EmitError::OperandSizeMismatch)
            } else {
                Ok(Some(EncoderCall::PushReg64 { reg: *src }))
            }
        },
        Instruction::Push_Mem { src } => Ok(
            Some(EncoderCall::PushRm64 { rm: RegOrMem::Mem(src.enc_form()) }),
        ),
        Instruction::Pop_Reg { src } => {
            if !src.size().equals(Size::Bit64) {
                Err(EmitError::OperandSizeMismatch)
            } else {
                Ok(Some(EncoderCall::PopReg64 { reg: *src }))
            }
        },
        Instruction::Pop_Mem { src } => Ok(
            Some(EncoderCall::PopRm64 { rm: RegOrMem::Mem(src.enc_form()) }),
        ),
    }
}

impl X86_64Assembler {
    /// Emits one instruction.
    ///
    /// Label definitions, label-targeted jumps and calls, and the
    /// instructions whose encodings the assembler knows are materialized
    /// at once and answered with `Emitted`.  Instructions that need the
    /// instruction encoder are validated, left unmaterialized, and
    /// answered with `NeedsEncoding`; the caller runs the encoder call
    /// and hands the bytes back through
    /// [`emit_encoded`](X86_64Assembler::emit_encoded).
    pub fn emit(&mut self, instruction: Instruction) -> (r: Result<EmitStatus, EmitError>)
        requires
            old(self).wf(),
        ensures
            final(self).wf(),
            match emit_step(old(self)@, instruction) {
                Ok((v2, st)) => r == Ok::<EmitStatus, EmitError>(st) && final(self)@ == v2,
                Err(e) => r == Err::<EmitStatus, EmitError>(e) && final(self)@ == old(self)@,
            },
    {
        match instruction_encoder_call(&instruction) {
            Err(e) => Err(e),
            Ok(Some(call)) => Ok(EmitStatus::NeedsEncoding(call)),
            Ok(None) => {
                match self.emit_internal(instruction) {
                    Ok(()) => Ok(EmitStatus::Emitted),
                    Err(e) => Err(e),
                }
            },
        }
    }

    /// Materializes one instruction the assembler handles itself.
    fn emit_internal(&mut self, instruction: Instruction) -> (r: Result<(), EmitError>)
        requires
            old(self).wf(),
            instr_encoder_call(instruction) == Ok::<Option<EncoderCall>, EmitError>(None),
        ensures
            final(self).wf(),
            match internal_step(old(self)@, instruction) {
                Ok(v2) => r == Ok::<(), EmitError>(()) && final(self)@ == v2,
                Err(e) => r == Err::<(), EmitError>(e) && final(self)@ == old(self)@,
            },
    {
        let ghost v0 = self@;
        match instruction {
            Instruction::SetPrivate_Label { label } => {
                match self.insert_label(label) {
                    Ok(()) => {
                        proof {
                            assert(self@ =~= internal_step(v0, instruction).unwrap());
                        }
                        Ok(())
                    },
                    Err(e) => Err(e),
                }
            },
            Instruction::SetPublic_Label { label } => {
                match self.insert_label(label) {
                    Ok(()) => {
                        self.public_labels.push(label);
                        proof {
                            let defs2 = self.defs();
                            lemma_bytes_len_bounded(*old(self), v0.frags.len() - 1);
                            assert forall|i: int|
                                0 <= i < self.public_labels@.len() implies match find_label(
                                defs2,
                                #[trigger] self.public_labels@[i],
                            ) {
                                Some(p) => def_in_code(self.frags(), p),
                                None => false,
                            } by {
                                lemma_find_label_push(
                                    v0.defs,
                                    label,
                                    view_cur_pos(v0.frags),
                                    self.public_labels@[i],
                                );
                            }
                            assert forall|i: int, j: int|
                                0 <= i < j < self.public_labels@.len() implies self.public_labels@[i]
                                != self.public_labels@[j] by {
                                if j == self.public_labels@.len() - 1 {
                                    assert(find_label(
                                        v0.defs,
                                        old(self).public_labels@[i],
                                    ) is Some);
                                }
                            }
                            assert(self@ =~= internal_step(v0, instruction).unwrap());
                        }
                        Ok(())
                    },
                    Err(e) => Err(e),
                }
            },
            Instruction::Jump_Label { dst } => {
                let variant = if self.with_relaxation {
                    RelaxationVariant::Short
                } else {
                    RelaxationVariant::Long
                };
                match self.push_fragment(Fragment::Relaxable_Jump { variant, label: dst }) {
                    Ok(()) => {
                        proof {
                            assert(self@ =~= internal_step(v0, instruction).unwrap());
                        }
                        Ok(())
                    },
                    Err(e) => Err(e),
                }
            },
            Instruction::CondJump_Label { condition, dst } => {
                let variant = if self.with_relaxation {
                    RelaxationVariant::Short
                } else {
                    RelaxationVariant::Long
                };
                match self.push_fragment(
                    Fragment::Relaxable_CondJump { variant, condition, label: dst },
                ) {
                    Ok(()) => {
                        proof {
                            assert(self@ =~= internal_step(v0, instruction).unwrap());
                        }
                        Ok(())
                    },
                    Err(e) => Err(e),
                }
            },
            Instruction::Call_Label { dst } => {
                let bytes = build_call_placeholder();
                match self.append_with_patch(&bytes, dst, 1) {
                    Ok(()) => {
                        proof {
                            assert(self@ =~= internal_step(v0, instruction).unwrap());
                        }
                        Ok(())
                    },
                    Err(e) => Err(e),
                }
            },
            Instruction::Nop { length } => self.emit_nop(length),
            Instruction::Ret => self.emit_plain_bytes(build_ret(), Ghost(instruction)),
            Instruction::Cpuid => self.emit_plain_bytes(build_cpuid(), Ghost(instruction)),
            Instruction::Syscall => self.emit_plain_bytes(build_syscall(), Ghost(instruction)),
            Instruction::Lock => self.emit_plain_bytes(build_lock(), Ghost(instruction)),
            Instruction::Int_Imm { src } => self.emit_plain_bytes(
                build_int(src.value() as u8),
                Ghost(instruction),
            ),
            Instruction::Push_Imm { src } => self.emit_plain_bytes(
                build_push_imm(src.value()),
                Ghost(instruction),
            ),
            _ => {
                proof {
                    assert(false);
                }
                Err(EmitError::OperandSizeMismatch)
            },
        }
    }

    /// Appends the known encoding of an internally handled instruction.
    fn emit_plain_bytes(&mut self, bytes: Vec<u8>, instruction: Ghost<Instruction>) -> (r: Result<
        (),
        EmitError,
    >)
        requires
            old(self).wf(),
            instr_encoder_call(instruction@) == Ok::<Option<EncoderCall>, EmitError>(None),
            bytes@ == internal_bytes(instruction@),
            !(instruction@ is SetPrivate_Label),
            !(instruction@ is SetPublic_Label),
            !(instruction@ is Jump_Label),
            !(instruction@ is CondJump_Label),
            !(instruction@ is Call_Label),
        ensures
            final(self).wf(),
            match internal_step(old(self)@, instruction@) {
                Ok(v2) => r == Ok::<(), EmitError>(()) && final(self)@ == v2,
                Err(e) => r == Err::<(), EmitError>(e) && final(self)@ == old(self)@,
            },
    {
        let ghost v0 = self@;
        match self.append_code(&bytes) {
            Ok(()) => {
                proof {
                    assert(self@ =~= internal_step(v0, instruction@).unwrap());
                }
                Ok(())
            },
            Err(e) => Err(e),
        }
    }

    /// Emits a `nop` run of exactly `length` bytes: as many nine-byte
    /// forms as fit, then one shorter form for the rest.
    fn emit_nop(&mut self, length: u32) -> (r: Result<(), EmitError>)
        requires
            old(self).wf(),
        ensures
            final(self).wf(),
            match internal_step(old(self)@, Instruction::Nop { length }) {
                Ok(v2) => r == Ok::<(), EmitError>(()) && final(self)@ == v2,
                Err(e) => r == Err::<(), EmitError>(e) && final(self)@ == old(self)@,
            },
    {
        proof {
            lemma_nop_run_len(length as int);
        }
        if (length as i64) > MAX_CODE_BYTES - self.max_total {
            return Err(EmitError::OutOfCapacity);
        }
        let ghost v0 = self@;
        let ghost s0 = self.frags();
        let ghost total: int = length as int;
        let mut remaining = length;
        let ghost mut done: Seq<u8> = Seq::empty();
        proof {
            assert(append_bytes_view(s0, done) =~= s0);
            assert(done + nop_run(remaining as int) =~= nop_run(total));
        }
        while remaining >= 9
            invariant
                self.wf(),
                self@.defs == v0.defs,
                self@.patches == v0.patches,
                self@.publics == v0.publics,
                self@.relax == v0.relax,
                s0 == v0.frags,
                s0.len() >= 1,
                remaining <= total,
                total_max_len(s0) + total <= MAX_CODE_BYTES,
                done.len() == total - remaining,
                done + nop_run(remaining as int) == nop_run(total),
                self@.frags == append_bytes_view(s0, done),
            decreases remaining,
        {
            let chunk = build_nop_unit(9);
            proof {
                lemma_append_total(s0, done);
            }
            self.append_code_must(&chunk);
            proof {
                lemma_append_concat(s0, done, chunk@);
                lemma_nop_run_len(remaining - 9);
                assert((done + chunk@) + nop_run(remaining - 9) =~= done + (chunk@ + nop_run(
                    remaining - 9,
                )));
                assert(chunk@ + nop_run(remaining - 9) =~= nop_run(remaining as int));
            }
            remaining = remaining - 9;
            proof {
                done = done + chunk@;
            }
        }
        if remaining > 0 {
            let chunk = build_nop_unit(remaining);
            proof {
                lemma_append_total(s0, done);
                lemma_nop_run_len(remaining as int);
            }
            self.append_code_must(&chunk);
            proof {
                lemma_append_concat(s0, done, chunk@);
                assert(chunk@ =~= nop_run(remaining as int));
                done = done + chunk@;
            }
        }
        proof {
            if remaining == 0 {
                assert(done + nop_run(0) =~= done);
            }
            assert(done =~= nop_run(total));
            assert(self@ =~= internal_step(v0, Instruction::Nop { length }).unwrap());
        }
        Ok(())
    }

    /// Appends an opaque run of already-encoded bytes.
    pub fn emit_bytes(&mut self, bytes: &Vec<u8>) -> (r: Result<(), EmitError>)
        requires
            old(self).wf(),
        ensures
            final(self).wf(),
            match bytes_step(old(self)@, bytes@) {
                Ok(v2) => r == Ok::<(), EmitError>(()) && final(self)@ == v2,
                Err(e) => r == Err::<(), EmitError>(e) && final(self)@ == old(self)@,
            },
    {
        let ghost v0 = self@;
        match self.append_code(bytes) {
            Ok(()) => {
                proof {
                    assert(self@ =~= bytes_step(v0, bytes@).unwrap());
                }
                Ok(())
            },
            Err(e) => Err(e),
        }
    }

    /// Hands back the encoder's bytes for an instruction that `emit`
    /// answered with `NeedsEncoding`: the bytes are appended, and an
    /// instruction that refers to a label through a memory operand files
    /// the pending patch for its RIP-relative imm32 slot.
    pub fn emit_encoded(&mut self, instruction: &Instruction, encoding: &Vec<u8>) -> (r: Result<
        (),
        EmitError,
    >)
        requires
            old(self).wf(),
            instr_encoder_call(*instruction) matches Ok(Some(_)),
            encoding@.len() <= u32::MAX,
            patch_label_of(*instruction) is Some ==> 4 + imm_suffix_of(*instruction)
                <= encoding@.len(),
        ensures
            final(self).wf(),
            match encoded_step(old(self)@, *instruction, encoding@) {
                Ok(v2) => r == Ok::<(), EmitError>(()) && final(self)@ == v2,
                Err(e) => r == Err::<(), EmitError>(e) && final(self)@ == old(self)@,
            },
    {
        let ghost v0 = self@;
        let label_opt = instruction_patch_label(instruction);
        match label_opt {
            Some(label) => {
                let suffix = instruction_imm_suffix(instruction);
                let imm32_offset = (encoding.len() - 4 - suffix) as u32;
                match self.append_with_patch(encoding, label, imm32_offset) {
                    Ok(()) => {
                        proof {
                            assert(self@ =~= encoded_step(v0, *instruction, encoding@).unwrap());
                        }
                        Ok(())
                    },
                    Err(e) => Err(e),
                }
            },
            None => {
                match self.append_code(encoding) {
                    Ok(()) => {
                        proof {
                            assert(self@ =~= encoded_step(v0, *instruction, encoding@).unwrap());
                        }
                        Ok(())
                    },
                    Err(e) => Err(e),
                }
            },
        }
    }
}

/// Reads the label a just-encoded instruction's imm32 slot refers to.
fn instruction_patch_label(instruction: &Instruction) -> (r: Option<Label>)
    ensures
        r == patch_label_of(*instruction),
{
    match instruction {
        Instruction::Mov_MemImm { dst, .. } => dst.get_label(),
        Instruction::Add_MemImm { dst, .. } => dst.get_label(),
        Instruction::Sub_MemImm { dst, .. } => dst.get_label(),
        Instruction::Cmp_MemImm { dst, .. } => dst.get_label(),
        Instruction::Xor_MemImm { dst, .. } => dst.get_label(),
        Instruction::Mov_MemReg { dst, .. } => dst.get_label(),
        Instruction::Add_MemReg { dst, .. } => dst.get_label(),
        Instruction::Sub_MemReg { dst, .. } => dst.get_label(),
        Instruction::Cmp_MemReg { dst, .. } => dst.get_label(),
        Instruction::Xor_MemReg { dst, .. } => dst.get_label(),
        Instruction::Mov_RegMem { src, .. } => src.get_label(),
        Instruction::Add_RegMem { src, .. } => src.get_label(),
        Instruction::Sub_RegMem { src, .. } => src.get_label(),
        Instruction::Cmp_RegMem { src, .. } => src.get_label(),
        Instruction::Xor_RegMem { src, .. } => src.get_label(),
        Instruction::Push_Mem { src } => src.get_label(),
        Instruction::Pop_Mem { src } => src.get_label(),
        _ => None,
    }
}

/// Reads how many immediate bytes trail an instruction's imm32 slot.
fn instruction_imm_suffix(instruction: &Instruction) -> (r: usize)
    ensures
        r == imm_suffix_of(*instruction),
{
    match instruction {
        Instruction::Mov_MemImm { src, .. } => imm_width_of(src.value()),
        Instruction::Add_MemImm { src, .. } => imm_width_of(src.value()),
        Instruction::Sub_MemImm { src, .. } => imm_width_of(src.value()),
        Instruction::Cmp_MemImm { src, .. } => imm_width_of(src.value()),
        Instruction::Xor_MemImm { src, .. } => imm_width_of(src.value()),
        _ => 0,
    }
}

/// Reads the byte width of an immediate's narrowest form.
fn imm_width_of(v: i32) -> (r: usize)
    ensures
        r == imm_width(v),
{
    match Immediate::new(v).real_size() {
        Size::Bit8 => 1,
        Size::Bit16 => 2,
        Size::Bit32 => 4,
        Size::Bit64 => 8,
    }
}

/// The byte width of a 32-bit immediate's narrowest form.
pub fn byte_size_of_immediate(imm: &Immediate) -> (r: i32)
    ensures
        r == imm_width(imm.value),
{
    match imm.real_size() {
        Size::Bit8 => 1,
        Size::Bit16 => 2,
        Size::Bit32 => 4,
        Size::Bit64 => 8,
    }
}

/// The offset from the *end* of an encoded instruction to its
/// RIP-relative imm32 slot: four bytes back, plus the width of a
/// trailing immediate where the instruction carries one.
pub fn get_instruction_label_offset(instruction: &Instruction) -> (r: i32)
    ensures
        r == -4 - imm_suffix_of(*instruction),
{
    -(4 + instruction_imm_suffix(instruction) as i32)
}

} // verus!
