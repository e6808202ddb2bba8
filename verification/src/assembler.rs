//! The assembler: fragment storage, instruction intake, relaxation,
//! label resolution, patching and final emission.

pub mod errors;
pub mod fragment;
pub mod label_map;
pub mod encodings;
pub mod state;
pub mod intake;
pub mod relax;
pub mod passes;
pub mod emission_data;
pub mod builder;
pub mod laws;

pub use state::X86_64Assembler;
pub use state::FragmentRelativePosition;
pub use state::PatchableImm32Instruction;

pub use builder::X86_64AssemblerBuilder;
pub use emission_data::EmissionData;
pub use emission_data::DeconstructedEmissionData;
pub use intake::EmitStatus;
pub use intake::byte_size_of_immediate;
pub use intake::get_instruction_label_offset;
pub use intake::EncoderCall;
pub use intake::Group1Op;
pub use intake::RegOrMem;
pub use errors::EmitError;
pub use errors::AssembleError;
pub use fragment::Fragment;
pub use fragment::FragmentOrderId;
pub use fragment::RelaxationVariant;
