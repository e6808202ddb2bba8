use osom_asm_x86_64::assembler::EmitStatus;
use osom_asm_x86_64::assembler::X86_64Assembler;
use osom_asm_x86_64::assembler::X86_64AssemblerBuilder;
use osom_asm_x86_64::models::GPR;
use osom_asm_x86_64::models::Immediate;
use osom_asm_x86_64::models::Instruction;
use osom_asm_x86_64::models::Label;
use osom_asm_x86_64::models::Memory;

fn emit_with(assembler: &mut X86_64Assembler, instruction: Instruction, encoding: &[u8]) {
    match assembler.emit(instruction).unwrap() {
        EmitStatus::Emitted => {}
        EmitStatus::NeedsEncoding(_) => {
            assembler
                .emit_encoded(&instruction, &encoding.to_vec())
                .unwrap();
        }
    }
}

#[test]
fn test_patchable_mov() {
    let expected = &[
        0x48, 0x31, 0xC0, 0x48, 0x8B, 0x15, 0xF6, 0xFF, 0xFF, 0xFF, 0xC3,
    ];
    let mut assembler = X86_64AssemblerBuilder::new().with_relaxation(true).build();
    let label = Label::new(10);
    assembler
        .emit(Instruction::SetPrivate_Label { label })
        .unwrap();
    emit_with(
        &mut assembler,
        Instruction::Xor_RegReg {
            dst: GPR::RAX(),
            src: GPR::RAX(),
        },
        &[0x48, 0x31, 0xC0],
    );
    emit_with(
        &mut assembler,
        Instruction::Mov_RegMem {
            dst: GPR::RDX(),
            src: Memory::label(label),
        },
        &[0x48, 0x8B, 0x15, 0x00, 0x00, 0x00, 0x00],
    );
    assembler.emit(Instruction::Ret).unwrap();

    let mut final_code = Vec::new();
    let result = assembler.assemble(&mut final_code).unwrap();
    assert_eq!(final_code.as_slice(), expected);
    assert_eq!(result.emitted_bytes(), expected.len() as i32);
}

#[test]
fn test_patchable_mov_forward() {
    let expected = &[
        0x48, 0x8B, 0x15, 0x01, 0x00, 0x00, 0x00, 0xC3, 0x48, 0xC7, 0xC0, 0x01, 0x00, 0x00,
        0x00, 0x01, 0x02, 0x03,
    ];
    let mut assembler = X86_64AssemblerBuilder::new().with_relaxation(true).build();
    let label = Label::new(11);
    emit_with(
        &mut assembler,
        Instruction::Mov_RegMem {
            dst: GPR::RDX(),
            src: Memory::label(label),
        },
        &[0x48, 0x8B, 0x15, 0x00, 0x00, 0x00, 0x00],
    );
    assembler.emit(Instruction::Ret).unwrap();
    assembler
        .emit(Instruction::SetPrivate_Label { label })
        .unwrap();
    emit_with(
        &mut assembler,
        Instruction::Mov_RegImm {
            dst: GPR::RAX(),
            src: Immediate::new(1),
        },
        &[0x48, 0xC7, 0xC0, 0x01, 0x00, 0x00, 0x00],
    );
    assembler.emit_bytes(&vec![1, 2, 3]).unwrap();

    let mut final_code = Vec::new();
    let result = assembler.assemble(&mut final_code).unwrap();
    assert_eq!(final_code.as_slice(), expected);
    assert_eq!(result.emitted_bytes(), expected.len() as i32);
}

#[test]
fn test_call_label_patch() {
    // An inner routine, then a public entry that calls back to it.
    let mut assembler = X86_64AssemblerBuilder::new().build();
    let inner = Label::new(12);
    let entry = Label::new(13);
    assembler
        .emit(Instruction::SetPrivate_Label { label: inner })
        .unwrap();
    emit_with(
        &mut assembler,
        Instruction::Xor_RegReg {
            dst: GPR::RAX(),
            src: GPR::RAX(),
        },
        &[0x48, 0x31, 0xC0],
    );
    assembler.emit(Instruction::Ret).unwrap();
    assembler
        .emit(Instruction::SetPublic_Label { label: entry })
        .unwrap();
    assembler.emit(Instruction::Call_Label { dst: inner }).unwrap();
    assembler.emit(Instruction::Ret).unwrap();

    let mut final_code = Vec::new();
    let result = assembler.assemble(&mut final_code).unwrap();
    // entry sits right after `xor rax,rax; ret`, at offset 4, and the
    // call's displacement is 0 - 9 = -9.
    let expected = &[
        0x48, 0x31, 0xC0, 0xC3, 0xE8, 0xF7, 0xFF, 0xFF, 0xFF, 0xC3,
    ];
    assert_eq!(final_code.as_slice(), expected);
    assert_eq!(result.emitted_bytes(), expected.len() as i32);
    let positions = result.public_labels_positions();
    assert_eq!(positions.len(), 1);
    assert_eq!(positions[0], (entry, 4));
}
