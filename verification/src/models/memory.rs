use vstd::prelude::*;

use super::gpr::GPR;
use super::gpr_kind::GPRKind;
use super::immediate::Immediate;
use super::label::Label;
use super::scale::Scale;
use super::size::Size;

verus! {

/// The shapes a memory operand can take.
#[derive(Debug, Clone, Copy, PartialEq, Eq, Structural)]
pub enum MemoryRepr {
    Based { base: GPR, offset: Immediate },
    Scaled { index: GPR, scale: Scale, offset: Immediate },
    BasedScaled { base: GPR, index: GPR, scale: Scale, offset: Immediate },
    Label { label: Label },
}

/// A general x86-64 memory operand.
#[derive(Debug, Clone, Copy, PartialEq, Eq, Structural)]
pub struct Memory {
    pub repr: MemoryRepr,
}

/// Errors returned during memory operand creation.
#[derive(Debug, Clone, Copy, PartialEq, Eq, Structural)]
pub enum NewMemoryError {
    /// The base or index register is not 64-bit.
    GPRNotBit64,
    /// The `RSP` register is not allowed as an index register.
    RSPNotAllowedAsIndex,
}

/// The displacement field of an encoded memory operand, with its width
/// already chosen.
#[derive(Debug, Clone, Copy, PartialEq, Eq, Structural)]
pub enum MemOffsetForm {
    Absent,
    Bit8(i8),
    Bit32(i32),
}

/// A memory operand with every encoding decision already made: which
/// addressing form to use and how wide its displacement field is.
#[derive(Debug, Clone, Copy, PartialEq, Eq, Structural)]
pub enum MemForm {
    Based { base: GPR, offset: MemOffsetForm },
    Scaled { index: GPR, scale: Scale, offset: MemOffsetForm },
    BasedScaled { base: GPR, index: GPR, scale: Scale, offset: MemOffsetForm },
    /// The displacement is left empty; it is patched once the label's
    /// position is known.
    RelativeToRip,
}

impl MemOffsetForm {
    /// The chosen width for a displacement value: absent when zero, one
    /// byte when the value fits a signed byte, else four bytes.
    pub open spec fn spec_of(v: i32) -> MemOffsetForm {
        if v == 0 {
            MemOffsetForm::Absent
        } else if i8::MIN <= v <= i8::MAX {
            MemOffsetForm::Bit8(v as i8)
        } else {
            MemOffsetForm::Bit32(v)
        }
    }

    /// Chooses the width of a displacement value.
    pub fn of(v: i32) -> (r: MemOffsetForm)
        ensures
            r == MemOffsetForm::spec_of(v),
    {
        if v == 0 {
            MemOffsetForm::Absent
        } else if i8::MIN as i32 <= v && v <= i8::MAX as i32 {
            MemOffsetForm::Bit8(v as i8)
        } else {
            MemOffsetForm::Bit32(v)
        }
    }
}

impl Memory {
    /// A memory operand addressed through a base register plus offset.
    pub fn based(base: GPR, offset: Immediate) -> (r: Result<Self, NewMemoryError>)
        ensures
            match r {
                Ok(m) => {
                    &&& base.spec_size() == Size::Bit64
                    &&& m.repr == (MemoryRepr::Based { base, offset })
                },
                Err(e) => {
                    &&& e == NewMemoryError::GPRNotBit64
                    &&& base.spec_size() != Size::Bit64
                },
            },
    {
        if !base.size().equals(Size::Bit64) {
            return Err(NewMemoryError::GPRNotBit64);
        }
        Ok(Memory { repr: MemoryRepr::Based { base, offset } })
    }

    /// A memory operand addressed through a scaled index register plus
    /// offset.
    pub fn scaled(index: GPR, scale: Scale, offset: Immediate) -> (r: Result<
        Self,
        NewMemoryError,
    >)
        ensures
            match r {
                Ok(m) => {
                    &&& index.spec_size() == Size::Bit64
                    &&& !(index.kind == GPRKind::Bit64 && index.index == 4)
                    &&& m.repr == (MemoryRepr::Scaled { index, scale, offset })
                },
                Err(NewMemoryError::GPRNotBit64) => index.spec_size() != Size::Bit64,
                Err(NewMemoryError::RSPNotAllowedAsIndex) => {
                    &&& index.spec_size() == Size::Bit64
                    &&& index.kind == GPRKind::Bit64 && index.index == 4
                },
            },
    {
        if !index.size().equals(Size::Bit64) {
            return Err(NewMemoryError::GPRNotBit64);
        }
        if index.kind().equals(GPRKind::Bit64) && index.index_value() == 4 {
            return Err(NewMemoryError::RSPNotAllowedAsIndex);
        }
        Ok(Memory { repr: MemoryRepr::Scaled { index, scale, offset } })
    }

    /// A memory operand addressed through a base register, a scaled index
    /// register and an offset.
    pub fn based_scaled(base: GPR, index: GPR, scale: Scale, offset: Immediate) -> (r: Result<
        Self,
        NewMemoryError,
    >)
        ensures
            match r {
                Ok(m) => {
                    &&& base.spec_size() == Size::Bit64
                    &&& index.spec_size() == Size::Bit64
                    &&& !(index.kind == GPRKind::Bit64 && index.index == 4)
                    &&& m.repr == (MemoryRepr::BasedScaled { base, index, scale, offset })
                },
                Err(NewMemoryError::GPRNotBit64) => base.spec_size() != Size::Bit64
                    || index.spec_size() != Size::Bit64,
                Err(NewMemoryError::RSPNotAllowedAsIndex) => {
                    &&& base.spec_size() == Size::Bit64
                    &&& index.spec_size() == Size::Bit64
                    &&& index.kind == GPRKind::Bit64 && index.index == 4
                },
            },
    {
        if !base.size().equals(Size::Bit64) {
            return Err(NewMemoryError::GPRNotBit64);
        }
        if !index.size().equals(Size::Bit64) {
            return Err(NewMemoryError::GPRNotBit64);
        }
        if index.kind().equals(GPRKind::Bit64) && index.index_value() == 4 {
            return Err(NewMemoryError::RSPNotAllowedAsIndex);
        }
        Ok(Memory { repr: MemoryRepr::BasedScaled { base, index, scale, offset } })
    }

    /// A memory operand that refers to the position of a label; it is
    /// encoded as a RIP-relative address and patched during assembly.
    pub fn label(label: Label) -> (r: Self)
        ensures
            r.repr == (MemoryRepr::Label { label }),
    {
        Memory { repr: MemoryRepr::Label { label } }
    }

    /// The label this operand refers to, if it is a label operand.
    pub open spec fn spec_get_label(&self) -> Option<Label> {
        match self.repr {
            MemoryRepr::Label { label } => Some(label),
            _ => None,
        }
    }

    /// The label this operand refers to, if it is a label operand.
    #[verifier::when_used_as_spec(spec_get_label)]
    pub fn get_label(&self) -> (r: Option<Label>)
        ensures
            r == self.spec_get_label(),
    {
        match self.repr {
            MemoryRepr::Label { label } => Some(label),
            _ => None,
        }
    }

    /// The fully decided encoding form of this operand.
    pub open spec fn spec_enc_form(self) -> MemForm {
        match self.repr {
            MemoryRepr::Based { base, offset } => MemForm::Based {
                base,
                offset: MemOffsetForm::spec_of(offset.spec_value()),
            },
            MemoryRepr::Scaled { index, scale, offset } => MemForm::Scaled {
                index,
                scale,
                offset: MemOffsetForm::spec_of(offset.spec_value()),
            },
            MemoryRepr::BasedScaled { base, index, scale, offset } => MemForm::BasedScaled {
                base,
                index,
                scale,
                offset: MemOffsetForm::spec_of(offset.spec_value()),
            },
            MemoryRepr::Label { .. } => MemForm::RelativeToRip,
        }
    }

    /// Decides the encoding form of this operand: which addressing mode it
    /// uses and how wide its displacement field is.
    pub fn enc_form(&self) -> (r: MemForm)
        ensures
            r == self.spec_enc_form(),
    {
        match self.repr {
            MemoryRepr::Based { base, offset } => MemForm::Based {
                base,
                offset: MemOffsetForm::of(offset.value()),
            },
            MemoryRepr::Scaled { index, scale, offset } => MemForm::Scaled {
                index,
                scale,
                offset: MemOffsetForm::of(offset.value()),
            },
            MemoryRepr::BasedScaled { base, index, scale, offset } => MemForm::BasedScaled {
                base,
                index,
                scale,
                offset: MemOffsetForm::of(offset.value()),
            },
            MemoryRepr::Label { .. } => MemForm::RelativeToRip,
        }
    }
}

} // verus!
