use osom_asm_x86_64::assembler::EmitError;
use osom_asm_x86_64::assembler::EmitStatus;
use osom_asm_x86_64::assembler::EncoderCall;
use osom_asm_x86_64::assembler::Group1Op;
use osom_asm_x86_64::assembler::RegOrMem;
use osom_asm_x86_64::assembler::X86_64AssemblerBuilder;
use osom_asm_x86_64::assembler::byte_size_of_immediate;
use osom_asm_x86_64::assembler::get_instruction_label_offset;
use osom_asm_x86_64::models::GPR;
use osom_asm_x86_64::models::GPRKind;
use osom_asm_x86_64::models::Immediate;
use osom_asm_x86_64::models::Immediate64;
use osom_asm_x86_64::models::Instruction;
use osom_asm_x86_64::models::Label;
use osom_asm_x86_64::models::Memory;
use osom_asm_x86_64::models::NewGPRError;
use osom_asm_x86_64::models::NewMemoryError;
use osom_asm_x86_64::models::Scale;
use osom_asm_x86_64::models::Size;

#[test]
fn test_gpr_new() {
    let r = GPR::new(GPRKind::Bit64, 3).unwrap();
    assert_eq!(r, GPR::RBX());
    assert_eq!(r.size(), Size::Bit64);
    assert_eq!(r.kind(), GPRKind::Bit64);
    assert_eq!(
        GPR::new(GPRKind::Bit8High, 2).unwrap_err(),
        NewGPRError::InvalidBit8HighIndex
    );
    assert_eq!(
        GPR::new(GPRKind::Bit32, 16).unwrap_err(),
        NewGPRError::IndexOutOfRange
    );
    assert_eq!(GPR::new(GPRKind::Bit8High, 4).unwrap(), GPR::AH());
}

#[test]
fn test_immediate_real_size() {
    assert_eq!(Immediate::new(0).real_size(), Size::Bit8);
    assert_eq!(Immediate::new(127).real_size(), Size::Bit8);
    assert_eq!(Immediate::new(-128).real_size(), Size::Bit8);
    assert_eq!(Immediate::new(128).real_size(), Size::Bit16);
    assert_eq!(Immediate::new(-32768).real_size(), Size::Bit16);
    assert_eq!(Immediate::new(32768).real_size(), Size::Bit32);
    assert_eq!(Immediate::new(i32::MIN).real_size(), Size::Bit32);
    assert_eq!(Immediate::new(42).value(), 42);
}

#[test]
fn test_immediate64_real_size() {
    assert_eq!(Immediate64::new(1).real_size(), Size::Bit8);
    assert_eq!(Immediate64::new(1000).real_size(), Size::Bit16);
    assert_eq!(Immediate64::new(100_000).real_size(), Size::Bit32);
    assert_eq!(Immediate64::new(1 << 40).real_size(), Size::Bit64);
    assert_eq!(Immediate64::new(i64::MIN).real_size(), Size::Bit64);
    assert_eq!(Immediate64::new(-7).value(), -7);
}

#[test]
fn test_memory_constructors() {
    assert!(Memory::based(GPR::RAX(), Immediate::new(4)).is_ok());
    assert_eq!(
        Memory::based(GPR::EAX(), Immediate::new(4)).unwrap_err(),
        NewMemoryError::GPRNotBit64
    );
    assert_eq!(
        Memory::scaled(GPR::RSP(), Scale::Scale2, Immediate::new(0)).unwrap_err(),
        NewMemoryError::RSPNotAllowedAsIndex
    );
    assert_eq!(
        Memory::scaled(GPR::ECX(), Scale::Scale2, Immediate::new(0)).unwrap_err(),
        NewMemoryError::GPRNotBit64
    );
    assert!(Memory::based_scaled(GPR::RAX(), GPR::RCX(), Scale::Scale8, Immediate::new(1)).is_ok());
    assert_eq!(
        Memory::based_scaled(GPR::RAX(), GPR::RSP(), Scale::Scale8, Immediate::new(1))
            .unwrap_err(),
        NewMemoryError::RSPNotAllowedAsIndex
    );
    let l = Label::new(40);
    assert_eq!(Memory::label(l).get_label(), Some(l));
    assert_eq!(
        Memory::based(GPR::RAX(), Immediate::new(0)).unwrap().get_label(),
        None
    );
}

#[test]
fn test_instruction_label_offset() {
    let mem = Memory::label(Label::new(41));
    assert_eq!(
        get_instruction_label_offset(&Instruction::Mov_RegMem {
            dst: GPR::RDX(),
            src: mem,
        }),
        -4
    );
    assert_eq!(
        get_instruction_label_offset(&Instruction::Mov_MemImm {
            dst: mem,
            src: Immediate::new(5),
        }),
        -5
    );
    assert_eq!(
        get_instruction_label_offset(&Instruction::Mov_MemImm {
            dst: mem,
            src: Immediate::new(70000),
        }),
        -8
    );
    assert_eq!(byte_size_of_immediate(&Immediate::new(5)), 1);
    assert_eq!(byte_size_of_immediate(&Immediate::new(500)), 2);
    assert_eq!(byte_size_of_immediate(&Immediate::new(70000)), 4);
}

fn needs(status: EmitStatus) -> EncoderCall {
    match status {
        EmitStatus::NeedsEncoding(call) => call,
        EmitStatus::Emitted => panic!("expected an encoder call"),
    }
}

#[test]
fn test_dispatch_group1_accumulator_forms() {
    let mut assembler = X86_64AssemblerBuilder::new().build();
    let call = needs(
        assembler
            .emit(Instruction::Add_RegImm {
                dst: GPR::AL(),
                src: Immediate::new(5),
            })
            .unwrap(),
    );
    assert_eq!(call, EncoderCall::Group1ALImm8 { op: Group1Op::Add, value: 5 });

    let call = needs(
        assembler
            .emit(Instruction::Sub_RegImm {
                dst: GPR::AX(),
                src: Immediate::new(300),
            })
            .unwrap(),
    );
    assert_eq!(call, EncoderCall::Group1AXImm16 { op: Group1Op::Sub, value: 300 });

    let call = needs(
        assembler
            .emit(Instruction::Cmp_RegImm {
                dst: GPR::EAX(),
                src: Immediate::new(100_000),
            })
            .unwrap(),
    );
    assert_eq!(call, EncoderCall::Group1EAXImm32 { op: Group1Op::Cmp, value: 100_000 });

    let call = needs(
        assembler
            .emit(Instruction::Xor_RegImm {
                dst: GPR::RAX(),
                src: Immediate::new(7),
            })
            .unwrap(),
    );
    assert_eq!(call, EncoderCall::Group1RAXImm32 { op: Group1Op::Xor, value: 7 });

    // `AL` with a wider immediate falls off the dedicated form and is
    // rejected by the width check.
    assert_eq!(
        assembler
            .emit(Instruction::Add_RegImm {
                dst: GPR::AL(),
                src: Immediate::new(300),
            })
            .unwrap_err(),
        EmitError::OperandSizeMismatch
    );
}

#[test]
fn test_dispatch_generic_forms() {
    let mut assembler = X86_64AssemblerBuilder::new().build();
    let call = needs(
        assembler
            .emit(Instruction::Add_RegImm {
                dst: GPR::RDI(),
                src: Immediate::new(1),
            })
            .unwrap(),
    );
    assert_eq!(
        call,
        EncoderCall::Group1RmImm {
            op: Group1Op::Add,
            size: Size::Bit64,
            rm: RegOrMem::Reg(GPR::RDI()),
            value: 1,
        }
    );

    let call = needs(
        assembler
            .emit(Instruction::Mov_RegReg {
                dst: GPR::ECX(),
                src: GPR::EDX(),
            })
            .unwrap(),
    );
    assert_eq!(
        call,
        EncoderCall::MovRmReg {
            size: Size::Bit32,
            rm: RegOrMem::Reg(GPR::ECX()),
            reg: GPR::EDX(),
        }
    );

    let call = needs(
        assembler
            .emit(Instruction::Mov_RegImm64 {
                dst: GPR::RAX(),
                src: Immediate64::new(1 << 40),
            })
            .unwrap(),
    );
    assert_eq!(call, EncoderCall::MovRegImm64 { dst: GPR::RAX(), value: 1 << 40 });

    // A 64-bit immediate that fits 32 bits takes the shorter mov form.
    let call = needs(
        assembler
            .emit(Instruction::Mov_RegImm64 {
                dst: GPR::RAX(),
                src: Immediate64::new(12),
            })
            .unwrap(),
    );
    assert_eq!(
        call,
        EncoderCall::MovRegImm { size: Size::Bit64, dst: GPR::RAX(), value: 12 }
    );
}
