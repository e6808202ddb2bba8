//! The builder that configures and creates an assembler.

use vstd::prelude::*;

use crate::models::label::Label;
use super::state::predef_defs;
use super::state::X86_64Assembler;

verus! {

/// Builder for the [`X86_64Assembler`].
pub struct X86_64AssemblerBuilder {
    with_relaxation: bool,
    predefined_labels: Vec<(Label, i32)>,
}

impl X86_64AssemblerBuilder {
    /// The relaxation switch, as a spec value.
    pub closed spec fn spec_relax(self) -> bool {
        self.with_relaxation
    }

    /// The predefined label table, as a spec value.
    pub closed spec fn spec_predefined(self) -> Seq<(Label, i32)> {
        self.predefined_labels@
    }

    /// Creates a builder with the default settings: relaxation on and no
    /// predefined labels.
    pub fn new() -> (r: Self)
        ensures
            r.spec_relax() == true,
            r.spec_predefined() == Seq::<(Label, i32)>::empty(),
    {
        X86_64AssemblerBuilder { with_relaxation: true, predefined_labels: Vec::new() }
    }

    /// Toggles the relaxation algorithm: with it on, label-targeted
    /// jumps get the short encoding whenever the distance allows; the
    /// algorithm is quadratic in the worst case.
    pub fn with_relaxation(self, with_relaxation: bool) -> (r: Self)
        ensures
            r.spec_relax() == with_relaxation,
            r.spec_predefined() == self.spec_predefined(),
    {
        X86_64AssemblerBuilder { with_relaxation, predefined_labels: self.predefined_labels }
    }

    /// Sets the predefined labels: positions relative to the beginning
    /// of the code to be emitted, fixed before anything is emitted.
    /// Negative positions let the generated code jump to code that lies
    /// before it.
    pub fn with_predefined_labels(self, predefined_labels: &Vec<(Label, i32)>) -> (r: Self)
        ensures
            r.spec_relax() == self.spec_relax(),
            r.spec_predefined() == predefined_labels@,
    {
        let mut copied: Vec<(Label, i32)> = Vec::new();
        let n = predefined_labels.len();
        let mut i: usize = 0;
        while i < n
            invariant
                i <= n,
                n == predefined_labels@.len(),
                copied@ == predefined_labels@.take(i as int),
            decreases n - i,
        {
            copied.push(predefined_labels[i]);
            proof {
                assert(predefined_labels@.take(i + 1) =~= predefined_labels@.take(i as int).push(
                    predefined_labels@[i as int],
                ));
            }
            i += 1;
        }
        proof {
            assert(predefined_labels@.take(n as int) =~= predefined_labels@);
        }
        X86_64AssemblerBuilder { with_relaxation: self.with_relaxation, predefined_labels: copied }
    }

    /// Builds the assembler with the chosen settings.
    pub fn build(self) -> (r: X86_64Assembler)
        ensures
            r.wf(),
            r.with_relaxation == self.spec_relax(),
            r.frags() == seq![
                super::fragment::FragView::Bytes { data: Seq::<u8>::empty() },
            ],
            r.defs() == predef_defs(self.spec_predefined()),
            r.patch_lists() == Seq::<
                (Label, Seq<super::state::PatchableImm32Instruction>),
            >::empty(),
            r.public_labels@ == Seq::<Label>::empty(),
    {
        X86_64Assembler::new(self.with_relaxation, &self.predefined_labels)
    }
}

impl Default for X86_64AssemblerBuilder {
    fn default() -> (r: Self)
        ensures
            r.spec_relax() == true,
            r.spec_predefined() == Seq::<(Label, i32)>::empty(),
    {
        X86_64AssemblerBuilder::new()
    }
}

} // verus!
