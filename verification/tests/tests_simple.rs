use osom_asm_x86_64::assembler::EmitStatus;
use osom_asm_x86_64::assembler::X86_64Assembler;
use osom_asm_x86_64::assembler::X86_64AssemblerBuilder;
use osom_asm_x86_64::models::Condition;
use osom_asm_x86_64::models::GPR;
use osom_asm_x86_64::models::Immediate;
use osom_asm_x86_64::models::Instruction;
use osom_asm_x86_64::models::Label;
use osom_asm_x86_64::models::Memory;
use osom_asm_x86_64::models::Scale;

/// Emits an instruction, running the encoder call through the given
/// pre-encoded bytes when the assembler asks for one.
fn emit_with(assembler: &mut X86_64Assembler, instruction: Instruction, encoding: &[u8]) {
    match assembler.emit(instruction).unwrap() {
        EmitStatus::Emitted => {}
        EmitStatus::NeedsEncoding(_) => {
            assembler
                .emit_encoded(&instruction, &encoding.to_vec())
                .unwrap();
        }
    }
}

#[test]
fn test_simple_mov() {
    let mut assembler = X86_64AssemblerBuilder::new().with_relaxation(false).build();
    emit_with(
        &mut assembler,
        Instruction::Mov_RegImm {
            dst: GPR::RAX(),
            src: Immediate::new(0),
        },
        &[0x48, 0xC7, 0xC0, 0x00, 0x00, 0x00, 0x00],
    );
    assembler.emit(Instruction::Ret).unwrap();

    let mut final_code = Vec::new();
    let result = assembler.assemble(&mut final_code).unwrap();
    let expected = &[0x48, 0xC7, 0xC0, 0x00, 0x00, 0x00, 0x00, 0xC3];
    assert_eq!(final_code.as_slice(), expected);
    assert_eq!(result.emitted_bytes(), expected.len() as i32);
}

#[test]
fn test_jmp_backward_relaxed() {
    let mut assembler = X86_64AssemblerBuilder::new().with_relaxation(true).build();
    let label = Label::new(1);
    assembler
        .emit(Instruction::SetPrivate_Label { label })
        .unwrap();
    emit_with(
        &mut assembler,
        Instruction::Xor_RegReg {
            dst: GPR::RAX(),
            src: GPR::RAX(),
        },
        &[0x48, 0x31, 0xC0],
    );
    assembler.emit(Instruction::Jump_Label { dst: label }).unwrap();
    assembler.emit(Instruction::Ret).unwrap();

    let mut final_code = Vec::new();
    let result = assembler.assemble(&mut final_code).unwrap();
    let expected = &[0x48, 0x31, 0xC0, 0xEB, 0xFB, 0xC3];
    assert_eq!(final_code.as_slice(), expected);
    assert_eq!(result.emitted_bytes(), expected.len() as i32);
}

#[test]
fn test_jmp_backward_unrelaxed() {
    let mut assembler = X86_64AssemblerBuilder::new().with_relaxation(false).build();
    let label = Label::new(2);
    assembler
        .emit(Instruction::SetPrivate_Label { label })
        .unwrap();
    emit_with(
        &mut assembler,
        Instruction::Xor_RegReg {
            dst: GPR::RAX(),
            src: GPR::RAX(),
        },
        &[0x48, 0x31, 0xC0],
    );
    assembler.emit(Instruction::Jump_Label { dst: label }).unwrap();
    assembler.emit(Instruction::Ret).unwrap();

    let mut final_code = Vec::new();
    let result = assembler.assemble(&mut final_code).unwrap();
    let expected = &[0x48, 0x31, 0xC0, 0xE9, 0xF8, 0xFF, 0xFF, 0xFF, 0xC3];
    assert_eq!(final_code.as_slice(), expected);
    assert_eq!(result.emitted_bytes(), expected.len() as i32);
}

#[test]
fn test_jmp_forward_relaxed() {
    let mut assembler = X86_64AssemblerBuilder::new().with_relaxation(true).build();
    let label = Label::new(3);
    assembler.emit(Instruction::Jump_Label { dst: label }).unwrap();
    emit_with(
        &mut assembler,
        Instruction::Xor_RegReg {
            dst: GPR::RAX(),
            src: GPR::RAX(),
        },
        &[0x48, 0x31, 0xC0],
    );
    assembler
        .emit(Instruction::SetPrivate_Label { label })
        .unwrap();
    assembler.emit(Instruction::Ret).unwrap();

    let mut final_code = Vec::new();
    let result = assembler.assemble(&mut final_code).unwrap();
    let expected = &[0xEB, 0x03, 0x48, 0x31, 0xC0, 0xC3];
    assert_eq!(final_code.as_slice(), expected);
    assert_eq!(result.emitted_bytes(), expected.len() as i32);
}

#[test]
fn test_jmp_cond_forward_relaxed() {
    let mut assembler = X86_64AssemblerBuilder::new().with_relaxation(true).build();
    let label = Label::new(4);
    assembler
        .emit(Instruction::CondJump_Label {
            condition: Condition::Above,
            dst: label,
        })
        .unwrap();
    emit_with(
        &mut assembler,
        Instruction::Xor_RegReg {
            dst: GPR::RAX(),
            src: GPR::RAX(),
        },
        &[0x48, 0x31, 0xC0],
    );
    assembler
        .emit(Instruction::SetPrivate_Label { label })
        .unwrap();
    assembler.emit(Instruction::Ret).unwrap();

    let mut final_code = Vec::new();
    let result = assembler.assemble(&mut final_code).unwrap();
    let expected = &[0x77, 0x03, 0x48, 0x31, 0xC0, 0xC3];
    assert_eq!(final_code.as_slice(), expected);
    assert_eq!(result.emitted_bytes(), expected.len() as i32);
}

#[test]
fn test_jmp_cond_forward_unrelaxed() {
    let mut assembler = X86_64AssemblerBuilder::new().with_relaxation(false).build();
    let label = Label::new(5);
    assembler
        .emit(Instruction::CondJump_Label {
            condition: Condition::Above,
            dst: label,
        })
        .unwrap();
    emit_with(
        &mut assembler,
        Instruction::Xor_RegReg {
            dst: GPR::RAX(),
            src: GPR::RAX(),
        },
        &[0x48, 0x31, 0xC0],
    );
    assembler
        .emit(Instruction::SetPrivate_Label { label })
        .unwrap();
    assembler.emit(Instruction::Ret).unwrap();

    let mut final_code = Vec::new();
    let result = assembler.assemble(&mut final_code).unwrap();
    let expected = &[0x0F, 0x87, 0x03, 0x00, 0x00, 0x00, 0x48, 0x31, 0xC0, 0xC3];
    assert_eq!(final_code.as_slice(), expected);
    assert_eq!(result.emitted_bytes(), expected.len() as i32);
}

#[test]
fn test_int_imm() {
    let mut assembler = X86_64AssemblerBuilder::new().build();
    for v in [0, 1, 2, 3, 4, 5, 6, 254, 255] {
        assembler
            .emit(Instruction::Int_Imm {
                src: Immediate::new(v),
            })
            .unwrap();
    }
    assembler.emit(Instruction::Ret).unwrap();
    let mut final_code = Vec::new();
    let result = assembler.assemble(&mut final_code).unwrap();
    let expected = &[
        0xCD, 0x00, 0xF1, 0xCD, 0x02, 0xCC, 0xCD, 0x04, 0xCD, 0x05, 0xCD, 0x06, 0xCD, 0xFE,
        0xCD, 0xFF, 0xC3,
    ];
    assert_eq!(final_code.as_slice(), expected);
    assert_eq!(result.emitted_bytes(), expected.len() as i32);
}

#[test]
fn test_push_pop_mem() {
    let mut assembler = X86_64AssemblerBuilder::new().build();
    let label = Label::new(6);
    let mem = Memory::scaled(GPR::R10(), Scale::Scale2, Immediate::new(17)).unwrap();
    emit_with(
        &mut assembler,
        Instruction::Push_Mem {
            src: Memory::label(label),
        },
        &[0xFF, 0x35, 0x00, 0x00, 0x00, 0x00],
    );
    emit_with(
        &mut assembler,
        Instruction::Pop_Mem { src: mem },
        &[0x42, 0x8F, 0x04, 0x55, 0x11, 0x00, 0x00, 0x00],
    );
    assembler
        .emit(Instruction::SetPrivate_Label { label })
        .unwrap();
    assembler.emit(Instruction::Ret).unwrap();
    let mut final_code = Vec::new();
    let result = assembler.assemble(&mut final_code).unwrap();
    let expected = &[
        0xFF, 0x35, 0x08, 0x00, 0x00, 0x00, 0x42, 0x8F, 0x04, 0x55, 0x11, 0x00, 0x00, 0x00,
        0xC3,
    ];
    assert_eq!(final_code.as_slice(), expected);
    assert_eq!(result.emitted_bytes(), expected.len() as i32);
}

#[test]
fn test_predefined_labels() {
    let predefined_label = Label::new(7);
    let predefined_label_position = vec![(predefined_label, -15)];
    let mut assembler = X86_64AssemblerBuilder::new()
        .with_predefined_labels(&predefined_label_position)
        .build();

    assembler
        .emit(Instruction::Jump_Label {
            dst: predefined_label,
        })
        .unwrap();
    assembler.emit(Instruction::Ret).unwrap();

    let mut final_code = Vec::new();
    let result = assembler.assemble(&mut final_code).unwrap();
    assert!(result.public_labels_positions().is_empty());
    let expected = &[0xEB, 0xEF, 0xC3];
    assert_eq!(final_code.as_slice(), expected);
    assert_eq!(result.emitted_bytes(), expected.len() as i32);
}

#[test]
fn test_syscall_and_lock() {
    let mut assembler = X86_64AssemblerBuilder::new().build();

    assembler.emit(Instruction::Lock).unwrap();
    emit_with(
        &mut assembler,
        Instruction::Add_MemImm {
            dst: Memory::based(GPR::RAX(), Immediate::new(0)).unwrap(),
            src: Immediate::new(1),
        },
        &[0x80, 0x00, 0x01],
    );
    assembler.emit(Instruction::Syscall).unwrap();
    assembler.emit(Instruction::Ret).unwrap();

    let mut final_code = Vec::new();
    let result = assembler.assemble(&mut final_code).unwrap();
    assert!(result.public_labels_positions().is_empty());
    let expected = &[0xF0, 0x80, 0x00, 0x01, 0x0F, 0x05, 0xC3];
    assert_eq!(final_code.as_slice(), expected);
    assert_eq!(result.emitted_bytes(), expected.len() as i32);
}
