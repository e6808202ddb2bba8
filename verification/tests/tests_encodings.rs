//! Cross-checks the assembler's own instruction encodings against the
//! encoder crate's output.

use osom_asm_x86_64::assembler::encodings::build_call_placeholder;
use osom_asm_x86_64::assembler::encodings::build_cpuid;
use osom_asm_x86_64::assembler::encodings::build_int;
use osom_asm_x86_64::assembler::encodings::build_jcc_long;
use osom_asm_x86_64::assembler::encodings::build_jcc_short;
use osom_asm_x86_64::assembler::encodings::build_jmp_long;
use osom_asm_x86_64::assembler::encodings::build_jmp_short;
use osom_asm_x86_64::assembler::encodings::build_lock;
use osom_asm_x86_64::assembler::encodings::build_nop_unit;
use osom_asm_x86_64::assembler::encodings::build_push_imm;
use osom_asm_x86_64::assembler::encodings::build_ret;
use osom_asm_x86_64::assembler::encodings::build_syscall;
use osom_asm_x86_64::models::Condition;

use osom_encoders_x86_64::encoders as enc;
use osom_encoders_x86_64::models as enc_models;

#[test]
fn test_singleton_encodings_match_encoder() {
    assert_eq!(build_ret().as_slice(), enc::ret::encode_ret().as_slice());
    assert_eq!(
        build_cpuid().as_slice(),
        enc::singleton::encode_cpuid().as_slice()
    );
    assert_eq!(
        build_syscall().as_slice(),
        enc::singleton::encode_syscall().as_slice()
    );
    assert_eq!(
        build_lock().as_slice(),
        enc::singleton::encode_lock().as_slice()
    );
}

#[test]
fn test_nop_encodings_match_encoder() {
    for k in 1..=9u8 {
        assert_eq!(
            build_nop_unit(k as u32).as_slice(),
            enc::miscellaneous::encode_nop_with_length(k).as_slice(),
            "nop length {k}"
        );
    }
}

#[test]
fn test_int_encodings_match_encoder() {
    assert_eq!(build_int(1).as_slice(), enc::int::encode_int_1().as_slice());
    assert_eq!(build_int(3).as_slice(), enc::int::encode_int_3().as_slice());
    for v in [0u8, 2, 4, 5, 6, 127, 128, 254, 255] {
        assert_eq!(
            build_int(v).as_slice(),
            enc::int::encode_int_imm8(enc_models::Immediate8::from_u8(v)).as_slice(),
            "int {v}"
        );
    }
}

#[test]
fn test_push_imm_encodings_match_encoder() {
    for v in [0i32, 1, -1, 127, -128] {
        assert_eq!(
            build_push_imm(v).as_slice(),
            enc::push::encode_push_imm8(enc_models::Immediate8::from_i8(v as i8)).as_slice(),
            "push imm8 {v}"
        );
    }
    for v in [128i32, -129, 32767, -32768] {
        assert_eq!(
            build_push_imm(v).as_slice(),
            enc::push::encode_push_imm16(enc_models::Immediate16::from_i16(v as i16)).as_slice(),
            "push imm16 {v}"
        );
    }
    for v in [32768i32, -32769, i32::MAX, i32::MIN] {
        assert_eq!(
            build_push_imm(v).as_slice(),
            enc::push::encode_push_imm32(enc_models::Immediate32::from_i32(v)).as_slice(),
            "push imm32 {v}"
        );
    }
}

#[test]
fn test_call_placeholder_matches_encoder() {
    assert_eq!(
        build_call_placeholder().as_slice(),
        enc::call::encode_call_imm32(enc_models::Immediate32::from_i32(0)).as_slice()
    );
}

#[test]
fn test_jmp_encodings_match_encoder() {
    for d in [0i8, 1, -1, 127, -128] {
        assert_eq!(
            build_jmp_short(d).as_slice(),
            enc::jmp::encode_jmp_imm8(enc_models::Immediate8::from_i8(d)).as_slice(),
            "jmp short {d}"
        );
    }
    for d in [0i32, 1, -1, 128, -129, i32::MAX, i32::MIN] {
        assert_eq!(
            build_jmp_long(d).as_slice(),
            enc::jmp::encode_jmp_imm32(enc_models::Immediate32::from_i32(d)).as_slice(),
            "jmp long {d}"
        );
    }
}

fn enc_jcc_short(c: Condition, d: i8) -> Vec<u8> {
    let imm = enc_models::Immediate8::from_i8(d);
    let encoded = match c {
        Condition::Equal => enc::jcc::encode_jcc_E_imm8(imm),
        Condition::NotEqual => enc::jcc::encode_jcc_NE_imm8(imm),
        Condition::Above => enc::jcc::encode_jcc_A_imm8(imm),
        Condition::AboveOrEqual => enc::jcc::encode_jcc_AE_imm8(imm),
        Condition::Below => enc::jcc::encode_jcc_B_imm8(imm),
        Condition::BelowOrEqual => enc::jcc::encode_jcc_BE_imm8(imm),
        Condition::Greater => enc::jcc::encode_jcc_G_imm8(imm),
        Condition::GreaterOrEqual => enc::jcc::encode_jcc_GE_imm8(imm),
        Condition::Less => enc::jcc::encode_jcc_L_imm8(imm),
        Condition::LessOrEqual => enc::jcc::encode_jcc_LE_imm8(imm),
        Condition::Overflow => enc::jcc::encode_jcc_O_imm8(imm),
        Condition::NotOverflow => enc::jcc::encode_jcc_NO_imm8(imm),
        Condition::Parity => enc::jcc::encode_jcc_P_imm8(imm),
        Condition::NotParity => enc::jcc::encode_jcc_NP_imm8(imm),
        Condition::ParityOdd => enc::jcc::encode_jcc_PO_imm8(imm),
        Condition::ParityEven => enc::jcc::encode_jcc_PE_imm8(imm),
        Condition::Sign => enc::jcc::encode_jcc_S_imm8(imm),
        Condition::NotSign => enc::jcc::encode_jcc_NS_imm8(imm),
        Condition::Carry => enc::jcc::encode_jcc_C_imm8(imm),
        Condition::NotCarry => enc::jcc::encode_jcc_NC_imm8(imm),
    };
    encoded.as_slice().to_vec()
}

fn enc_jcc_long(c: Condition, d: i32) -> Vec<u8> {
    let imm = enc_models::Immediate32::from_i32(d);
    let encoded = match c {
        Condition::Equal => enc::jcc::encode_jcc_E_imm32(imm),
        Condition::NotEqual => enc::jcc::encode_jcc_NE_imm32(imm),
        Condition::Above => enc::jcc::encode_jcc_A_imm32(imm),
        Condition::AboveOrEqual => enc::jcc::encode_jcc_AE_imm32(imm),
        Condition::Below => enc::jcc::encode_jcc_B_imm32(imm),
        Condition::BelowOrEqual => enc::jcc::encode_jcc_BE_imm32(imm),
        Condition::Greater => enc::jcc::encode_jcc_G_imm32(imm),
        Condition::GreaterOrEqual => enc::jcc::encode_jcc_GE_imm32(imm),
        Condition::Less => enc::jcc::encode_jcc_L_imm32(imm),
        Condition::LessOrEqual => enc::jcc::encode_jcc_LE_imm32(imm),
        Condition::Overflow => enc::jcc::encode_jcc_O_imm32(imm),
        Condition::NotOverflow => enc::jcc::encode_jcc_NO_imm32(imm),
        Condition::Parity => enc::jcc::encode_jcc_P_imm32(imm),
        Condition::NotParity => enc::jcc::encode_jcc_NP_imm32(imm),
        Condition::ParityOdd => enc::jcc::encode_jcc_PO_imm32(imm),
        Condition::ParityEven => enc::jcc::encode_jcc_PE_imm32(imm),
        Condition::Sign => enc::jcc::encode_jcc_S_imm32(imm),
        Condition::NotSign => enc::jcc::encode_jcc_NS_imm32(imm),
        Condition::Carry => enc::jcc::encode_jcc_C_imm32(imm),
        Condition::NotCarry => enc::jcc::encode_jcc_NC_imm32(imm),
    };
    encoded.as_slice().to_vec()
}

#[test]
fn test_jcc_encodings_match_encoder() {
    let conditions = [
        Condition::Equal,
        Condition::NotEqual,
        Condition::Above,
        Condition::AboveOrEqual,
        Condition::Below,
        Condition::BelowOrEqual,
        Condition::Greater,
        Condition::GreaterOrEqual,
        Condition::Less,
        Condition::LessOrEqual,
        Condition::Overflow,
        Condition::NotOverflow,
        Condition::Parity,
        Condition::NotParity,
        Condition::ParityOdd,
        Condition::ParityEven,
        Condition::Sign,
        Condition::NotSign,
        Condition::Carry,
        Condition::NotCarry,
    ];
    for c in conditions {
        for d in [0i8, 5, -5, 127, -128] {
            assert_eq!(build_jcc_short(c, d), enc_jcc_short(c, d), "jcc short {c:?}");
        }
        for d in [0i32, 300, -300, i32::MAX, i32::MIN] {
            assert_eq!(build_jcc_long(c, d), enc_jcc_long(c, d), "jcc long {c:?}");
        }
    }
}
