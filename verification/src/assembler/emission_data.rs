//! The summary an assembly run reports back.

use vstd::prelude::*;

use crate::models::label::Label;

verus! {

/// The summary of one assembly as a plain struct with free fields.
#[derive(Debug)]
pub struct DeconstructedEmissionData {
    pub emitted_bytes: i32,
    pub public_labels_positions: Vec<(Label, i32)>,
}

/// The summary of one assembly: how many bytes were written, and where
/// each public label ended up, relative to the beginning of the emitted
/// code.
#[derive(Debug)]
pub struct EmissionData {
    emitted_bytes: i32,
    public_labels_positions: Vec<(Label, i32)>,
}

impl EmissionData {
    /// The number of bytes emitted, as a spec value.
    pub closed spec fn spec_emitted_bytes(self) -> i32 {
        self.emitted_bytes
    }

    /// The public label table, as a spec value.
    pub closed spec fn spec_positions(self) -> Seq<(Label, i32)> {
        self.public_labels_positions@
    }

    /// Packs an assembly summary.
    pub fn new(emitted_bytes: i32, public_labels_positions: Vec<(Label, i32)>) -> (r: Self)
        ensures
            r.spec_emitted_bytes() == emitted_bytes,
            r.spec_positions() == public_labels_positions@,
    {
        EmissionData { emitted_bytes, public_labels_positions }
    }

    /// Releases the internal data into a free struct.
    pub fn deconstruct(self) -> (r: DeconstructedEmissionData)
        ensures
            r.emitted_bytes == self.spec_emitted_bytes(),
            r.public_labels_positions@ == self.spec_positions(),
    {
        DeconstructedEmissionData {
            emitted_bytes: self.emitted_bytes,
            public_labels_positions: self.public_labels_positions,
        }
    }

    /// The positions of the public labels in the emitted code, relative
    /// to its beginning, not to the sink it was written to.
    pub fn public_labels_positions(&self) -> (r: &Vec<(Label, i32)>)
        ensures
            r@ == self.spec_positions(),
    {
        &self.public_labels_positions
    }

    /// The number of bytes emitted.
    pub fn emitted_bytes(&self) -> (r: i32)
        ensures
            r == self.spec_emitted_bytes(),
    {
        self.emitted_bytes
    }
}

} // verus!
