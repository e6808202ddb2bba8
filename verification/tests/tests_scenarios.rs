use osom_asm_x86_64::assembler::AssembleError;
use osom_asm_x86_64::assembler::EmitError;
use osom_asm_x86_64::assembler::EmitStatus;
use osom_asm_x86_64::assembler::X86_64Assembler;
use osom_asm_x86_64::assembler::X86_64AssemblerBuilder;
use osom_asm_x86_64::models::Condition;
use osom_asm_x86_64::models::GPR;
use osom_asm_x86_64::models::Immediate;
use osom_asm_x86_64::models::Instruction;
use osom_asm_x86_64::models::Label;
use osom_asm_x86_64::models::Memory;

fn emit_with(assembler: &mut X86_64Assembler, instruction: Instruction, encoding: &[u8]) {
    match assembler.emit(instruction).unwrap() {
        EmitStatus::Emitted => {}
        EmitStatus::NeedsEncoding(_) => {
            assembler
                .emit_encoded(&instruction, &encoding.to_vec())
                .unwrap();
        }
    }
}

#[test]
fn test_nop_lengths() {
    for n in 1..=32u32 {
        let mut assembler = X86_64AssemblerBuilder::new().build();
        assembler.emit(Instruction::Nop { length: n }).unwrap();
        let mut final_code = Vec::new();
        let result = assembler.assemble(&mut final_code).unwrap();
        assert_eq!(final_code.len() as u32, n, "nop length {n}");
        assert_eq!(result.emitted_bytes() as u32, n);
    }
}

#[test]
fn test_emitting_twice_is_identical() {
    fn build_once() -> Vec<u8> {
        let mut assembler = X86_64AssemblerBuilder::new().build();
        let label = Label::new(20);
        assembler.emit(Instruction::Jump_Label { dst: label }).unwrap();
        emit_with(
            &mut assembler,
            Instruction::Xor_RegReg {
                dst: GPR::RAX(),
                src: GPR::RAX(),
            },
            &[0x48, 0x31, 0xC0],
        );
        assembler
            .emit(Instruction::SetPrivate_Label { label })
            .unwrap();
        emit_with(
            &mut assembler,
            Instruction::Mov_RegMem {
                dst: GPR::RDX(),
                src: Memory::label(label),
            },
            &[0x48, 0x8B, 0x15, 0x00, 0x00, 0x00, 0x00],
        );
        assembler.emit(Instruction::Ret).unwrap();
        let mut final_code = Vec::new();
        assembler.assemble(&mut final_code).unwrap();
        final_code
    }
    assert_eq!(build_once(), build_once());
}

#[test]
fn test_long_range_forces_promotion() {
    // A forward jump over more than 127 bytes must take the long form
    // even with relaxation on.
    let mut assembler = X86_64AssemblerBuilder::new().build();
    let label = Label::new(21);
    assembler.emit(Instruction::Jump_Label { dst: label }).unwrap();
    assembler.emit(Instruction::Nop { length: 200 }).unwrap();
    assembler
        .emit(Instruction::SetPrivate_Label { label })
        .unwrap();
    assembler.emit(Instruction::Ret).unwrap();
    let mut final_code = Vec::new();
    let result = assembler.assemble(&mut final_code).unwrap();
    assert_eq!(result.emitted_bytes(), 5 + 200 + 1);
    assert_eq!(final_code[0], 0xE9);
    assert_eq!(&final_code[1..5], &200i32.to_le_bytes());
}

#[test]
fn test_short_jump_boundary() {
    // Exactly 127 bytes of distance still fits the short form.
    let mut assembler = X86_64AssemblerBuilder::new().build();
    let label = Label::new(22);
    assembler.emit(Instruction::Jump_Label { dst: label }).unwrap();
    assembler.emit(Instruction::Nop { length: 127 }).unwrap();
    assembler
        .emit(Instruction::SetPrivate_Label { label })
        .unwrap();
    assembler.emit(Instruction::Ret).unwrap();
    let mut final_code = Vec::new();
    let result = assembler.assemble(&mut final_code).unwrap();
    assert_eq!(result.emitted_bytes(), 2 + 127 + 1);
    assert_eq!(final_code[0], 0xEB);
    assert_eq!(final_code[1], 127);
}

#[test]
fn test_cascading_promotion() {
    // Two jumps just at the edge: promoting the first pushes the second
    // out of short range as well.
    let mut assembler = X86_64AssemblerBuilder::new().build();
    let first = Label::new(23);
    let second = Label::new(24);
    assembler.emit(Instruction::Jump_Label { dst: first }).unwrap();
    assembler.emit(Instruction::Jump_Label { dst: second }).unwrap();
    assembler.emit(Instruction::Nop { length: 124 }).unwrap();
    assembler
        .emit(Instruction::SetPrivate_Label { label: second })
        .unwrap();
    assembler.emit(Instruction::Nop { length: 2 }).unwrap();
    assembler
        .emit(Instruction::SetPrivate_Label { label: first })
        .unwrap();
    assembler.emit(Instruction::Ret).unwrap();
    let mut final_code = Vec::new();
    let result = assembler.assemble(&mut final_code).unwrap();
    // first jump: distance past the second jump and 126 nops: long;
    // second jump: once the first grew, 127 bytes away: still short.
    assert_eq!(final_code[0], 0xE9);
    assert_eq!(final_code[5], 0xEB);
    assert_eq!(result.emitted_bytes() as usize, final_code.len());
}

#[test]
fn test_label_defined_twice() {
    let mut assembler = X86_64AssemblerBuilder::new().build();
    let label = Label::new(25);
    assembler
        .emit(Instruction::SetPrivate_Label { label })
        .unwrap();
    let err = assembler
        .emit(Instruction::SetPublic_Label { label })
        .unwrap_err();
    assert_eq!(err, EmitError::LabelAlreadyDefined(label));
}

#[test]
fn test_label_not_set() {
    let mut assembler = X86_64AssemblerBuilder::new().build();
    let label = Label::new(26);
    assembler.emit(Instruction::Jump_Label { dst: label }).unwrap();
    let mut final_code = Vec::new();
    let err = assembler.assemble(&mut final_code).unwrap_err();
    assert_eq!(err, AssembleError::LabelNotSet(label));
}

#[test]
fn test_label_not_set_unrelaxed() {
    let mut assembler = X86_64AssemblerBuilder::new().with_relaxation(false).build();
    let label = Label::new(27);
    assembler.emit(Instruction::Jump_Label { dst: label }).unwrap();
    let mut final_code = Vec::new();
    let err = assembler.assemble(&mut final_code).unwrap_err();
    assert_eq!(err, AssembleError::LabelNotSet(label));
}

#[test]
fn test_operand_size_mismatch() {
    let mut assembler = X86_64AssemblerBuilder::new().build();
    let err = assembler
        .emit(Instruction::Int_Imm {
            src: Immediate::new(256),
        })
        .unwrap_err();
    assert_eq!(err, EmitError::OperandSizeMismatch);
    let err = assembler
        .emit(Instruction::Push_Reg { src: GPR::EAX() })
        .unwrap_err();
    assert_eq!(err, EmitError::OperandSizeMismatch);
    let err = assembler
        .emit(Instruction::Mov_RegReg {
            dst: GPR::RAX(),
            src: GPR::EAX(),
        })
        .unwrap_err();
    assert_eq!(err, EmitError::OperandSizeMismatch);
    let err = assembler
        .emit(Instruction::Mov_RegImm {
            dst: GPR::AL(),
            src: Immediate::new(1000),
        })
        .unwrap_err();
    assert_eq!(err, EmitError::OperandSizeMismatch);
}

#[test]
fn test_displacement_out_of_range() {
    // A patched RIP-relative reference to a predefined label that lies
    // too far below the code cannot fit an i32.
    let far = Label::new(28);
    let predefined = vec![(far, i32::MIN)];
    let mut assembler = X86_64AssemblerBuilder::new()
        .with_predefined_labels(&predefined)
        .build();
    emit_with(
        &mut assembler,
        Instruction::Mov_RegMem {
            dst: GPR::RDX(),
            src: Memory::label(far),
        },
        &[0x48, 0x8B, 0x15, 0x00, 0x00, 0x00, 0x00],
    );
    assembler.emit(Instruction::Ret).unwrap();
    let mut final_code = Vec::new();
    let err = assembler.assemble(&mut final_code).unwrap_err();
    assert_eq!(err, AssembleError::DisplacementOutOfRange);
}

#[test]
fn test_internal_inconsistency_far_long_jump() {
    // A long jump to a predefined label beyond the i32 range is caught
    // at emission.
    let far = Label::new(29);
    let predefined = vec![(far, i32::MIN)];
    let mut assembler = X86_64AssemblerBuilder::new()
        .with_relaxation(false)
        .with_predefined_labels(&predefined)
        .build();
    assembler.emit(Instruction::Nop { length: 16 }).unwrap();
    assembler.emit(Instruction::Jump_Label { dst: far }).unwrap();
    let mut final_code = Vec::new();
    let err = assembler.assemble(&mut final_code).unwrap_err();
    assert_eq!(err, AssembleError::InternalInconsistency);
}

#[test]
fn test_predefined_label_cannot_be_redefined() {
    let label = Label::new(30);
    let predefined = vec![(label, 8)];
    let mut assembler = X86_64AssemblerBuilder::new()
        .with_predefined_labels(&predefined)
        .build();
    let err = assembler
        .emit(Instruction::SetPrivate_Label { label })
        .unwrap_err();
    assert_eq!(err, EmitError::LabelAlreadyDefined(label));
}

#[test]
fn test_emission_data_accessors() {
    let mut assembler = X86_64AssemblerBuilder::new().build();
    let entry = Label::new(31);
    assembler
        .emit(Instruction::SetPublic_Label { label: entry })
        .unwrap();
    assembler.emit(Instruction::Ret).unwrap();
    let mut final_code = Vec::new();
    let result = assembler.assemble(&mut final_code).unwrap();
    assert_eq!(result.emitted_bytes(), 1);
    assert_eq!(result.public_labels_positions()[0], (entry, 0));
    let parts = result.deconstruct();
    assert_eq!(parts.emitted_bytes, 1);
    assert_eq!(parts.public_labels_positions[0], (entry, 0));
}

#[test]
fn test_label_after_jump_sits_past_it() {
    // A label defined right after a relaxable jump marks the position
    // after the jump's encoding.
    let mut assembler = X86_64AssemblerBuilder::new().build();
    let over = Label::new(32);
    let here = Label::new(33);
    assembler.emit(Instruction::Jump_Label { dst: over }).unwrap();
    assembler
        .emit(Instruction::SetPublic_Label { label: here })
        .unwrap();
    assembler.emit(Instruction::Nop { length: 1 }).unwrap();
    assembler
        .emit(Instruction::SetPrivate_Label { label: over })
        .unwrap();
    assembler.emit(Instruction::Ret).unwrap();
    let mut final_code = Vec::new();
    let result = assembler.assemble(&mut final_code).unwrap();
    assert_eq!(final_code, vec![0xEB, 0x01, 0x90, 0xC3]);
    assert_eq!(result.public_labels_positions()[0], (here, 2));
}
