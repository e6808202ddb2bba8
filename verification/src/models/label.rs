use vstd::prelude::*;

verus! {

/// A place in x86-64 code that other instructions can refer to.
///
/// A label is an opaque 32-bit handle; two labels refer to the same place
/// exactly when their identifiers are equal.  Identifiers are chosen by the
/// caller; a caller that wants fresh labels draws them from a counter of its
/// own.
#[derive(Debug, Clone, Copy, PartialEq, Eq, Structural)]
pub struct Label {
    pub value: u32,
}

impl Label {
    /// Builds the label with the given identifier.
    pub fn new(value: u32) -> (r: Self)
        ensures
            r.value == value,
    {
        Label { value }
    }

    /// The identifier, as a spec value.
    pub open spec fn spec_value(self) -> u32 {
        self.value
    }

    /// The identifier.
    #[verifier::when_used_as_spec(spec_value)]
    pub fn value(self) -> (r: u32)
        ensures
            r == self.value,
    {
        self.value
    }
}

} // verus!
