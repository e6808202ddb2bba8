use vstd::prelude::*;

use super::size::Size;

verus! {

/// Thin wrapper around a 32-bit signed immediate value.
#[derive(Debug, Clone, Copy, PartialEq, Eq, Structural)]
pub struct Immediate {
    pub value: i32,
}

impl Immediate {
    /// The narrowest signed width that can hold `v`.
    pub open spec fn spec_real_size(v: i32) -> Size {
        if i8::MIN <= v <= i8::MAX {
            Size::Bit8
        } else if i16::MIN <= v <= i16::MAX {
            Size::Bit16
        } else {
            Size::Bit32
        }
    }

    /// Wraps a 32-bit value.
    pub fn new(value: i32) -> (r: Self)
        ensures
            r.value == value,
    {
        Immediate { value }
    }

    /// The narrowest signed width that can hold the value.
    pub fn real_size(self) -> (r: Size)
        ensures
            r == Self::spec_real_size(self.value),
    {
        if i8::MIN as i32 <= self.value && self.value <= i8::MAX as i32 {
            Size::Bit8
        } else if i16::MIN as i32 <= self.value && self.value <= i16::MAX as i32 {
            Size::Bit16
        } else {
            Size::Bit32
        }
    }

    /// The wrapped value, as a spec value.
    pub open spec fn spec_value(self) -> i32 {
        self.value
    }

    /// The wrapped value.
    #[verifier::when_used_as_spec(spec_value)]
    pub fn value(self) -> (r: i32)
        ensures
            r == self.value,
    {
        self.value
    }
}

} // verus!
