//! Models for building x86-64 instructions.

pub mod size;
pub mod condition;
pub mod gpr_kind;
pub mod gpr;
pub mod gpr_consts;
pub mod scale;
pub mod immediate;
pub mod immediate64;
pub mod label;
pub mod memory;
pub mod instruction;

pub use size::Size;
pub use condition::Condition;
pub use gpr_kind::GPRKind;
pub use gpr::GPR;
pub use gpr::NewGPRError;
pub use scale::Scale;
pub use immediate::Immediate;
pub use immediate64::Immediate64;
pub use label::Label;
pub use memory::Memory;
pub use memory::MemForm;
pub use memory::MemOffsetForm;
pub use memory::NewMemoryError;
pub use instruction::Instruction;
