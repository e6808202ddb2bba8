use vstd::prelude::*;

use super::size::Size;

verus! {

/// Thin wrapper around a 64-bit signed immediate value.
#[derive(Debug, Clone, Copy, PartialEq, Eq, Structural)]
pub struct Immediate64 {
    pub value: i64,
}

impl Immediate64 {
    /// The narrowest signed width that can hold `v`.
    pub open spec fn spec_real_size(v: i64) -> Size {
        if i8::MIN <= v <= i8::MAX {
            Size::Bit8
        } else if i16::MIN <= v <= i16::MAX {
            Size::Bit16
        } else if i32::MIN <= v <= i32::MAX {
            Size::Bit32
        } else {
            Size::Bit64
        }
    }

    /// Wraps a 64-bit value.
    pub fn new(value: i64) -> (r: Self)
        ensures
            r.value == value,
    {
        Immediate64 { value }
    }

    /// The narrowest signed width that can hold the value.
    pub fn real_size(self) -> (r: Size)
        ensures
            r == Self::spec_real_size(self.value),
    {
        if i8::MIN as i64 <= self.value && self.value <= i8::MAX as i64 {
            Size::Bit8
        } else if i16::MIN as i64 <= self.value && self.value <= i16::MAX as i64 {
            Size::Bit16
        } else if i32::MIN as i64 <= self.value && self.value <= i32::MAX as i64 {
            Size::Bit32
        } else {
            Size::Bit64
        }
    }

    /// The wrapped value, as a spec value.
    pub open spec fn spec_value(self) -> i64 {
        self.value
    }

    /// The wrapped value.
    #[verifier::when_used_as_spec(spec_value)]
    pub fn value(self) -> (r: i64)
        ensures
            r == self.value,
    {
        self.value
    }
}

} // verus!
