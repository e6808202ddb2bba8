//! An in-process x86-64 assembler.
//!
//! Callers feed typed pseudo-instructions to an [`assembler::X86_64Assembler`],
//! which stores them as a sequence of fragments: opaque runs of already-encoded
//! bytes interleaved with small descriptors for jumps whose final width is not
//! yet known.  Assembling resolves label positions, chooses short or long jump
//! encodings by a fixed-point relaxation pass, patches RIP-relative immediate
//! slots inside the encoded bytes, and writes the finished machine code to a
//! byte sink.

pub mod helpers;
pub mod inline_vec;
pub mod models;
pub mod assembler;
