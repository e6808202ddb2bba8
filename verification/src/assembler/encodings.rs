//! The byte-level encodings the assembler produces itself: the
//! relaxable jump forms, `call`, and the small fixed instructions, each
//! as a specification-level byte sequence with a verified builder.

use vstd::prelude::*;

use crate::models::condition::Condition;
use crate::models::immediate::Immediate;
use crate::models::size::Size;

verus! {

/// The little-endian bytes of a 16-bit value.
pub open spec fn le16(v: u16) -> Seq<u8> {
    seq![(v & 0xFF) as u8, ((v >> 8) & 0xFF) as u8]
}

/// The little-endian bytes of a 32-bit value.
pub open spec fn le32(v: u32) -> Seq<u8> {
    seq![
        (v & 0xFF) as u8,
        ((v >> 8) & 0xFF) as u8,
        ((v >> 16) & 0xFF) as u8,
        ((v >> 24) & 0xFF) as u8,
    ]
}

/// `ret`.
pub open spec fn ret_bytes() -> Seq<u8> {
    seq![0xC3u8]
}

/// `cpuid`.
pub open spec fn cpuid_bytes() -> Seq<u8> {
    seq![0x0Fu8, 0xA2u8]
}

/// `syscall`.
pub open spec fn syscall_bytes() -> Seq<u8> {
    seq![0x0Fu8, 0x05u8]
}

/// The `lock` prefix.
pub open spec fn lock_bytes() -> Seq<u8> {
    seq![0xF0u8]
}

/// Intel's recommended `nop` encoding of each length from 1 to 9 bytes.
pub open spec fn nop_unit(k: int) -> Seq<u8> {
    if k == 1 {
        seq![0x90u8]
    } else if k == 2 {
        seq![0x66u8, 0x90u8]
    } else if k == 3 {
        seq![0x0Fu8, 0x1Fu8, 0x00u8]
    } else if k == 4 {
        seq![0x0Fu8, 0x1Fu8, 0x40u8, 0x00u8]
    } else if k == 5 {
        seq![0x0Fu8, 0x1Fu8, 0x44u8, 0x00u8, 0x00u8]
    } else if k == 6 {
        seq![0x66u8, 0x0Fu8, 0x1Fu8, 0x44u8, 0x00u8, 0x00u8]
    } else if k == 7 {
        seq![0x0Fu8, 0x1Fu8, 0x80u8, 0x00u8, 0x00u8, 0x00u8, 0x00u8]
    } else if k == 8 {
        seq![0x0Fu8, 0x1Fu8, 0x84u8, 0x00u8, 0x00u8, 0x00u8, 0x00u8, 0x00u8]
    } else {
        seq![0x66u8, 0x0Fu8, 0x1Fu8, 0x84u8, 0x00u8, 0x00u8, 0x00u8, 0x00u8, 0x00u8]
    }
}

/// A run of `nop`-equivalent instructions totalling exactly `n` bytes:
/// as many nine-byte forms as fit, then one shorter form for the rest.
pub open spec fn nop_run(n: int) -> Seq<u8>
    decreases n,
{
    if n <= 0 {
        Seq::empty()
    } else if n >= 9 {
        nop_unit(9) + nop_run(n - 9)
    } else {
        nop_unit(n)
    }
}

/// A `nop` run of `n` bytes is exactly `n` bytes long.
pub proof fn lemma_nop_run_len(n: int)
    requires
        n >= 0,
    ensures
        nop_run(n).len() == n,
    decreases n,
{
    if n >= 9 {
        lemma_nop_run_len(n - 9);
    }
}

/// `int imm8`, with the dedicated forms for vectors 1 and 3.
pub open spec fn int_bytes(v: u8) -> Seq<u8> {
    if v == 1 {
        seq![0xF1u8]
    } else if v == 3 {
        seq![0xCCu8]
    } else {
        seq![0xCDu8, v]
    }
}

/// `push imm`, in the narrowest form that holds the value.
pub open spec fn push_imm_bytes(v: i32) -> Seq<u8> {
    if Immediate::spec_real_size(v) == Size::Bit8 {
        seq![0x6Au8, v as u8]
    } else if Immediate::spec_real_size(v) == Size::Bit16 {
        seq![0x66u8, 0x68u8] + le16(v as u16)
    } else {
        seq![0x68u8] + le32(v as u32)
    }
}

/// `call rel32` with an empty displacement; the displacement is patched
/// once the target's position is known.
pub open spec fn call_placeholder_bytes() -> Seq<u8> {
    seq![0xE8u8, 0x00u8, 0x00u8, 0x00u8, 0x00u8]
}

/// `jmp rel8`.
pub open spec fn jmp_short_bytes(d: i8) -> Seq<u8> {
    seq![0xEBu8, d as u8]
}

/// `jmp rel32`.
pub open spec fn jmp_long_bytes(d: i32) -> Seq<u8> {
    seq![0xE9u8] + le32(d as u32)
}

/// The opcode of the short conditional jump for each condition; the long
/// form's second opcode byte is this value plus `0x10`.
pub open spec fn jcc_opcode(c: Condition) -> u8 {
    match c {
        Condition::Equal => 0x74u8,
        Condition::NotEqual => 0x75u8,
        Condition::Above => 0x77u8,
        Condition::AboveOrEqual => 0x73u8,
        Condition::Below => 0x72u8,
        Condition::BelowOrEqual => 0x76u8,
        Condition::Greater => 0x7Fu8,
        Condition::GreaterOrEqual => 0x7Du8,
        Condition::Less => 0x7Cu8,
        Condition::LessOrEqual => 0x7Eu8,
        Condition::Overflow => 0x70u8,
        Condition::NotOverflow => 0x71u8,
        Condition::Parity => 0x7Au8,
        Condition::NotParity => 0x7Bu8,
        Condition::ParityOdd => 0x7Bu8,
        Condition::ParityEven => 0x7Au8,
        Condition::Sign => 0x78u8,
        Condition::NotSign => 0x79u8,
        Condition::Carry => 0x72u8,
        Condition::NotCarry => 0x73u8,
    }
}

/// `jcc rel8`.
pub open spec fn jcc_short_bytes(c: Condition, d: i8) -> Seq<u8> {
    seq![jcc_opcode(c), d as u8]
}

/// `jcc rel32`.
pub open spec fn jcc_long_bytes(c: Condition, d: i32) -> Seq<u8> {
    seq![0x0Fu8, (jcc_opcode(c) + 0x10) as u8] + le32(d as u32)
}

/// Appends the little-endian bytes of a 16-bit value.
pub fn push_le16(out: &mut Vec<u8>, v: u16)
    ensures
        final(out)@ == old(out)@ + le16(v),
{
    out.push((v & 0xFF) as u8);
    out.push(((v >> 8) & 0xFF) as u8);
    proof {
        assert(out@ =~= old(out)@ + le16(v));
    }
}

/// Appends the little-endian bytes of a 32-bit value.
pub fn push_le32(out: &mut Vec<u8>, v: u32)
    ensures
        final(out)@ == old(out)@ + le32(v),
{
    out.push((v & 0xFF) as u8);
    out.push(((v >> 8) & 0xFF) as u8);
    out.push(((v >> 16) & 0xFF) as u8);
    out.push(((v >> 24) & 0xFF) as u8);
    proof {
        assert(out@ =~= old(out)@ + le32(v));
    }
}

/// Builds `ret`.
pub fn build_ret() -> (r: Vec<u8>)
    ensures
        r@ == ret_bytes(),
{
    let mut out: Vec<u8> = Vec::new();
    out.push(0xC3);
    proof {
        assert(out@ =~= ret_bytes());
    }
    out
}

/// Builds `cpuid`.
pub fn build_cpuid() -> (r: Vec<u8>)
    ensures
        r@ == cpuid_bytes(),
{
    let mut out: Vec<u8> = Vec::new();
    out.push(0x0F);
    out.push(0xA2);
    proof {
        assert(out@ =~= cpuid_bytes());
    }
    out
}

/// Builds `syscall`.
pub fn build_syscall() -> (r: Vec<u8>)
    ensures
        r@ == syscall_bytes(),
{
    let mut out: Vec<u8> = Vec::new();
    out.push(0x0F);
    out.push(0x05);
    proof {
        assert(out@ =~= syscall_bytes());
    }
    out
}

/// Builds the `lock` prefix.
pub fn build_lock() -> (r: Vec<u8>)
    ensures
        r@ == lock_bytes(),
{
    let mut out: Vec<u8> = Vec::new();
    out.push(0xF0);
    proof {
        assert(out@ =~= lock_bytes());
    }
    out
}

/// Builds `int` for the given vector.
pub fn build_int(v: u8) -> (r: Vec<u8>)
    ensures
        r@ == int_bytes(v),
{
    let mut out: Vec<u8> = Vec::new();
    if v == 1 {
        out.push(0xF1);
    } else if v == 3 {
        out.push(0xCC);
    } else {
        out.push(0xCD);
        out.push(v);
    }
    proof {
        assert(out@ =~= int_bytes(v));
    }
    out
}

/// Builds `push imm` in the narrowest form that holds the value.
pub fn build_push_imm(v: i32) -> (r: Vec<u8>)
    ensures
        r@ == push_imm_bytes(v),
{
    let mut out: Vec<u8> = Vec::new();
    let size = Immediate::new(v).real_size();
    if size.equals(Size::Bit8) {
        out.push(0x6A);
        out.push(v as u8);
    } else if size.equals(Size::Bit16) {
        out.push(0x66);
        out.push(0x68);
        push_le16(&mut out, v as u16);
    } else {
        out.push(0x68);
        push_le32(&mut out, v as u32);
    }
    proof {
        assert(out@ =~= push_imm_bytes(v));
    }
    out
}

/// Builds `call rel32` with an empty displacement.
pub fn build_call_placeholder() -> (r: Vec<u8>)
    ensures
        r@ == call_placeholder_bytes(),
{
    let mut out: Vec<u8> = Vec::new();
    out.push(0xE8);
    out.push(0x00);
    out.push(0x00);
    out.push(0x00);
    out.push(0x00);
    proof {
        assert(out@ =~= call_placeholder_bytes());
    }
    out
}

/// Builds one `nop`-equivalent instruction of the given length.
pub fn build_nop_unit(k: u32) -> (r: Vec<u8>)
    requires
        1 <= k <= 9,
    ensures
        r@ == nop_unit(k as int),
{
    let mut out: Vec<u8> = Vec::new();
    if k == 1 {
        out.push(0x90);
    } else if k == 2 {
        out.push(0x66);
        out.push(0x90);
    } else if k == 3 {
        out.push(0x0F);
        out.push(0x1F);
        out.push(0x00);
    } else if k == 4 {
        out.push(0x0F);
        out.push(0x1F);
        out.push(0x40);
        out.push(0x00);
    } else if k == 5 {
        out.push(0x0F);
        out.push(0x1F);
        out.push(0x44);
        out.push(0x00);
        out.push(0x00);
    } else if k == 6 {
        out.push(0x66);
        out.push(0x0F);
        out.push(0x1F);
        out.push(0x44);
        out.push(0x00);
        out.push(0x00);
    } else if k == 7 {
        out.push(0x0F);
        out.push(0x1F);
        out.push(0x80);
        out.push(0x00);
        out.push(0x00);
        out.push(0x00);
        out.push(0x00);
    } else if k == 8 {
        out.push(0x0F);
        out.push(0x1F);
        out.push(0x84);
        out.push(0x00);
        out.push(0x00);
        out.push(0x00);
        out.push(0x00);
        out.push(0x00);
    } else {
        out.push(0x66);
        out.push(0x0F);
        out.push(0x1F);
        out.push(0x84);
        out.push(0x00);
        out.push(0x00);
        out.push(0x00);
        out.push(0x00);
        out.push(0x00);
    }
    proof {
        assert(out@ =~= nop_unit(k as int));
    }
    out
}

/// Builds `jmp rel8`.
pub fn build_jmp_short(d: i8) -> (r: Vec<u8>)
    ensures
        r@ == jmp_short_bytes(d),
{
    let mut out: Vec<u8> = Vec::new();
    out.push(0xEB);
    out.push(d as u8);
    proof {
        assert(out@ =~= jmp_short_bytes(d));
    }
    out
}

/// Builds `jmp rel32`.
pub fn build_jmp_long(d: i32) -> (r: Vec<u8>)
    ensures
        r@ == jmp_long_bytes(d),
{
    let mut out: Vec<u8> = Vec::new();
    out.push(0xE9);
    push_le32(&mut out, d as u32);
    proof {
        assert(out@ =~= jmp_long_bytes(d));
    }
    out
}

/// Looks up the short-form opcode of a conditional jump.
pub fn jcc_opcode_of(c: Condition) -> (r: u8)
    ensures
        r == jcc_opcode(c),
{
    match c {
        Condition::Equal => 0x74,
        Condition::NotEqual => 0x75,
        Condition::Above => 0x77,
        Condition::AboveOrEqual => 0x73,
        Condition::Below => 0x72,
        Condition::BelowOrEqual => 0x76,
        Condition::Greater => 0x7F,
        Condition::GreaterOrEqual => 0x7D,
        Condition::Less => 0x7C,
        Condition::LessOrEqual => 0x7E,
        Condition::Overflow => 0x70,
        Condition::NotOverflow => 0x71,
        Condition::Parity => 0x7A,
        Condition::NotParity => 0x7B,
        Condition::ParityOdd => 0x7B,
        Condition::ParityEven => 0x7A,
        Condition::Sign => 0x78,
        Condition::NotSign => 0x79,
        Condition::Carry => 0x72,
        Condition::NotCarry => 0x73,
    }
}

/// Builds `jcc rel8`.
pub fn build_jcc_short(c: Condition, d: i8) -> (r: Vec<u8>)
    ensures
        r@ == jcc_short_bytes(c, d),
{
    let mut out: Vec<u8> = Vec::new();
    out.push(jcc_opcode_of(c));
    out.push(d as u8);
    proof {
        assert(out@ =~= jcc_short_bytes(c, d));
    }
    out
}

/// Builds `jcc rel32`.
pub fn build_jcc_long(c: Condition, d: i32) -> (r: Vec<u8>)
    ensures
        r@ == jcc_long_bytes(c, d),
{
    let mut out: Vec<u8> = Vec::new();
    out.push(0x0F);
    out.push(jcc_opcode_of(c) + 0x10);
    push_le32(&mut out, d as u32);
    proof {
        assert(out@ =~= jcc_long_bytes(c, d));
    }
    out
}

} // verus!
