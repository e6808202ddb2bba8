//! The assembler's state: the fragment sequence, label definitions,
//! pending patches and public labels, with the well-formedness
//! invariant every operation preserves and the primitive mutations the
//! intake is built from.

use vstd::prelude::*;

use crate::inline_vec::InlineVec;
use crate::models::label::Label;
use super::errors::EmitError;
use super::fragment::Fragment;
use super::fragment::FragmentOrderId;
use super::fragment::FragView;
use super::fragment::LONG_JUMP_LEN;
use super::fragment::LONG_COND_JUMP_LEN;
use super::fragment::prefix_max_len;
use super::fragment::total_max_len;
use super::fragment::total_len;
use super::fragment::lemma_total_push;
use super::fragment::lemma_total_update_last;
use super::fragment::lemma_len_le_total;
use super::label_map::find_label;
use super::label_map::find_index;
use super::label_map::unique_labels;
use super::label_map::lemma_find_label_push;
use super::label_map::lemma_find_label_index;
use super::label_map::lemma_find_label_absent;

verus! {

/// The assembled code must fit a signed 32-bit offset, with some slack
/// held back so that position arithmetic never comes near the boundary.
pub const MAX_CODE_BYTES: i64 = 2147481599;

/// A location inside a specific fragment's payload: for a byte-run
/// fragment, an offset into its bytes; for predefined labels, an offset
/// relative to the start of the emitted code, attached to the first
/// fragment.
#[derive(Debug, Clone, Copy, PartialEq, Eq, Structural)]
pub struct FragmentRelativePosition {
    pub fragment_id: FragmentOrderId,
    pub in_fragment_offset: i32,
}

/// A record of an already-encoded instruction whose RIP-relative 32-bit
/// immediate slot has to be patched once label positions are known.
#[derive(Debug, Clone, Copy, PartialEq, Eq, Structural)]
pub struct PatchableImm32Instruction {
    /// Where the instruction's first byte lies.
    pub instruction_position: FragmentRelativePosition,
    /// The full encoded length of the instruction.
    pub instruction_length: u32,
    /// How many bytes into the instruction its imm32 slot starts.
    pub imm32_offset: u32,
}

impl PatchableImm32Instruction {
    /// The record points into a byte-run fragment, its instruction lies
    /// within that fragment's bytes, and its imm32 slot lies within the
    /// instruction.
    pub open spec fn wf(self, s: Seq<FragView>) -> bool {
        let fid = self.instruction_position.fragment_id.value as int;
        &&& 0 <= fid < s.len()
        &&& s[fid].is_bytes()
        &&& 0 <= self.instruction_position.in_fragment_offset
        &&& 4 <= self.instruction_length
        &&& self.imm32_offset + 4 <= self.instruction_length
        &&& self.instruction_position.in_fragment_offset + self.instruction_length
            <= s[fid].bytes().len()
    }
}

/// Every per-label patch container is internally consistent.
pub open spec fn patch_containers_wf(
    entries: Seq<(Label, InlineVec<PatchableImm32Instruction, 5>)>,
) -> bool {
    forall|i: int| 0 <= i < entries.len() ==> (#[trigger] entries[i]).1.wf()
}

/// Every pending patch points into an existing byte-run fragment and
/// stays within its bytes.
pub open spec fn patches_in_range(
    pl: Seq<(Label, Seq<PatchableImm32Instruction>)>,
    s: Seq<FragView>,
) -> bool {
    forall|i: int, j: int|
        0 <= i < pl.len() && 0 <= j < pl[i].1.len() ==> (#[trigger] pl[i].1[j]).wf(s)
}

/// No two pending patches' instruction ranges overlap within a fragment,
/// so patch writes never touch each other's bytes.
pub open spec fn patches_disjoint(pl: Seq<(Label, Seq<PatchableImm32Instruction>)>) -> bool {
    forall|i1: int, j1: int, i2: int, j2: int|
        {
            (0 <= i1 < pl.len() && 0 <= j1 < pl[i1].1.len() && 0 <= i2 < pl.len() && 0 <= j2
                < pl[i2].1.len() && (i1 != i2 || j1 != j2) && (
            #[trigger] pl[i1].1[j1]).instruction_position.fragment_id == (
            #[trigger] pl[i2].1[j2]).instruction_position.fragment_id) ==> (
            pl[i1].1[j1].instruction_position.in_fragment_offset + pl[i1].1[j1].instruction_length
                <= pl[i2].1[j2].instruction_position.in_fragment_offset
                || pl[i2].1[j2].instruction_position.in_fragment_offset
                + pl[i2].1[j2].instruction_length
                <= pl[i1].1[j1].instruction_position.in_fragment_offset)
        }
}

/// The abstract state of an assembler: its fragments, label definitions,
/// pending patches, public labels and the relaxation switch.
#[verifier::ext_equal]
pub struct AsmView {
    pub frags: Seq<FragView>,
    pub defs: Seq<(Label, FragmentRelativePosition)>,
    pub patches: Seq<(Label, Seq<PatchableImm32Instruction>)>,
    pub publics: Seq<Label>,
    pub relax: bool,
}

/// The pending patches after one more patch is filed under a label: the
/// label's list grows at its first entry, or a fresh one-element list is
/// appended for a new label.
pub open spec fn add_patch(
    pl: Seq<(Label, Seq<PatchableImm32Instruction>)>,
    label: Label,
    p: PatchableImm32Instruction,
) -> Seq<(Label, Seq<PatchableImm32Instruction>)>
    decreases pl.len(),
{
    if pl.len() == 0 {
        seq![(label, seq![p])]
    } else if pl[0].0 == label {
        seq![(pl[0].0, pl[0].1.push(p))] + pl.drop_first()
    } else {
        seq![pl[0]] + add_patch(pl.drop_first(), label, p)
    }
}

/// Filing a patch under the first entry of its label is `add_patch`.
pub proof fn lemma_add_patch_update(
    pl: Seq<(Label, Seq<PatchableImm32Instruction>)>,
    label: Label,
    p: PatchableImm32Instruction,
    i: int,
)
    requires
        0 <= i < pl.len(),
        pl[i].0 == label,
        forall|j: int| 0 <= j < i ==> pl[j].0 != label,
    ensures
        add_patch(pl, label, p) == pl.update(i, (label, pl[i].1.push(p))),
    decreases i,
{
    if i == 0 {
        assert(add_patch(pl, label, p) =~= pl.update(0, (label, pl[0].1.push(p))));
    } else {
        lemma_add_patch_update(pl.drop_first(), label, p, i - 1);
        assert(seq![pl[0]] + pl.drop_first().update(i - 1, (label, pl[i].1.push(p))) =~= pl.update(
            i,
            (label, pl[i].1.push(p)),
        ));
    }
}

/// Filing a patch under an unknown label appends a fresh list.
pub proof fn lemma_add_patch_append(
    pl: Seq<(Label, Seq<PatchableImm32Instruction>)>,
    label: Label,
    p: PatchableImm32Instruction,
)
    requires
        forall|j: int| 0 <= j < pl.len() ==> pl[j].0 != label,
    ensures
        add_patch(pl, label, p) == pl.push((label, seq![p])),
    decreases pl.len(),
{
    if pl.len() == 0 {
        assert(add_patch(pl, label, p) =~= pl.push((label, seq![p])));
    } else {
        lemma_add_patch_append(pl.drop_first(), label, p);
        assert(seq![pl[0]] + pl.drop_first().push((label, seq![p])) =~= pl.push(
            (label, seq![p]),
        ));
    }
}

/// A label definition that lies inside the assembled code: it points at
/// an existing fragment, and within a byte-run fragment at an offset no
/// larger than its byte count; a definition at a relaxable fragment sits
/// at its start.
pub open spec fn def_in_code(s: Seq<FragView>, p: FragmentRelativePosition) -> bool {
    let fid = p.fragment_id.value as int;
    &&& 0 <= fid < s.len()
    &&& 0 <= p.in_fragment_offset
    &&& s[fid].is_bytes() ==> p.in_fragment_offset <= s[fid].bytes().len()
    &&& !s[fid].is_bytes() ==> p.in_fragment_offset == 0
}

/// Every public label's definition lies inside the assembled code.
pub open spec fn publics_in_code(
    publics: Seq<Label>,
    defs: Seq<(Label, FragmentRelativePosition)>,
    s: Seq<FragView>,
) -> bool {
    forall|i: int|
        0 <= i < publics.len() ==> match find_label(defs, #[trigger] publics[i]) {
            Some(p) => def_in_code(s, p),
            None => false,
        }
}

/// The position an emitted label definition records: the tail fragment,
/// and within a byte-run tail the offset just past its bytes.
pub open spec fn view_cur_pos(s: Seq<FragView>) -> FragmentRelativePosition {
    FragmentRelativePosition {
        fragment_id: FragmentOrderId { value: (s.len() - 1) as u32 },
        in_fragment_offset: if s.last().is_bytes() {
            s.last().bytes().len() as i32
        } else {
            0
        },
    }
}

/// Where the first byte of a newly appended nonempty run lands: at the
/// end of a byte-run tail, or at the start of the fresh fragment that a
/// non-byte tail forces open.
pub open spec fn landing_pos(s: Seq<FragView>) -> FragmentRelativePosition {
    if s.last().is_bytes() {
        FragmentRelativePosition {
            fragment_id: FragmentOrderId { value: (s.len() - 1) as u32 },
            in_fragment_offset: s.last().bytes().len() as i32,
        }
    } else {
        FragmentRelativePosition {
            fragment_id: FragmentOrderId { value: s.len() as u32 },
            in_fragment_offset: 0,
        }
    }
}

/// The main x86-64 assembler.
///
/// Instructions are materialized into a sequence of fragments; jumps to
/// labels are kept symbolic until [`assemble`](X86_64Assembler::assemble)
/// resolves label positions, chooses jump widths and patches RIP-relative
/// immediate slots.  Relaxation, the choice of short jump forms where the
/// distance allows it, is switchable because its cost is quadratic in the
/// number of jumps.
pub struct X86_64Assembler {
    pub fragments: Vec<Fragment>,
    pub label_offsets: Vec<(Label, FragmentRelativePosition)>,
    pub patchable_addresses: Vec<(Label, InlineVec<PatchableImm32Instruction, 5>)>,
    pub public_labels: Vec<Label>,
    pub max_total: i64,
    pub with_relaxation: bool,
}

impl View for X86_64Assembler {
    type V = AsmView;

    open spec fn view(&self) -> AsmView {
        AsmView {
            frags: self.frags(),
            defs: self.defs(),
            patches: self.patch_lists(),
            publics: self.public_labels@,
            relax: self.with_relaxation,
        }
    }
}

impl X86_64Assembler {
    /// The abstract fragment sequence.
    pub open spec fn frags(self) -> Seq<FragView> {
        self.fragments@.map_values(|f: Fragment| f@)
    }

    /// The label definitions, predefined labels included.
    pub open spec fn defs(self) -> Seq<(Label, FragmentRelativePosition)> {
        self.label_offsets@
    }

    /// The pending patches, as a sequence of per-label lists.
    pub open spec fn patch_lists(self) -> Seq<(Label, Seq<PatchableImm32Instruction>)> {
        self.patchable_addresses@.map_values(
            |e: (Label, InlineVec<PatchableImm32Instruction, 5>)| (e.0, e.1@),
        )
    }

    /// All pending patches lie in byte-run fragments, within bounds, and
    /// no two instruction ranges overlap, so every patch write lands in
    /// its own instruction's imm32 slot.
    pub open spec fn patches_wf(self) -> bool {
        &&& unique_labels(self.patch_lists())
        &&& patch_containers_wf(self.patchable_addresses@)
        &&& patches_in_range(self.patch_lists(), self.frags())
        &&& patches_disjoint(self.patch_lists())
    }

    /// The assembler's internal consistency: the fragment sequence starts
    /// with a byte run, the running size bound is exact and within range,
    /// label keys are unique and point at existing fragments, pending
    /// patches are sound, and public labels are distinct and defined.
    pub open spec fn wf(self) -> bool {
        let s = self.frags();
        &&& 1 <= s.len()
        &&& s[0].is_bytes()
        &&& forall|i: int| 1 <= i < s.len() ==> (#[trigger] s[i]).max_len() >= 1
        &&& self.max_total == total_max_len(s)
        &&& 0 <= self.max_total <= MAX_CODE_BYTES
        &&& s.len() <= u32::MAX
        &&& unique_labels(self.defs())
        &&& forall|i: int|
            0 <= i < self.defs().len() ==> (#[trigger] self.defs()[i]).1.fragment_id.value
                < s.len()
        &&& self.patches_wf()
        &&& publics_in_code(self.public_labels@, self.defs(), s)
        &&& forall|i: int, j: int|
            0 <= i < j < self.public_labels@.len() ==> self.public_labels@[i]
                != self.public_labels@[j]
    }

    /// The position an emitted label definition records right now: the
    /// tail fragment, and within a byte-run tail the offset just past its
    /// bytes.
    pub open spec fn spec_current_position(self) -> FragmentRelativePosition {
        view_cur_pos(self.frags())
    }

    /// Reads the position a label defined now would get.
    pub fn current_position(&self) -> (r: FragmentRelativePosition)
        requires
            self.wf(),
        ensures
            r == self.spec_current_position(),
    {
        let idx = self.fragments.len() - 1;
        let offset: i32 = match &self.fragments[idx] {
            Fragment::Bytes { data } => {
                proof {
                    lemma_bytes_len_bounded(*self, idx as int);
                }
                data.len() as i32
            },
            _ => 0,
        };
        FragmentRelativePosition {
            fragment_id: FragmentOrderId::from_index(idx as u32),
            in_fragment_offset: offset,
        }
    }
}

/// The fragment sequence after a run of encoded bytes is appended: a
/// byte-run tail grows; any other tail is left behind and a fresh
/// byte-run fragment opens.
pub open spec fn append_bytes_view(s: Seq<FragView>, b: Seq<u8>) -> Seq<FragView> {
    if b.len() == 0 {
        s
    } else if s.last().is_bytes() {
        s.update(s.len() - 1, FragView::Bytes { data: s.last().bytes() + b })
    } else {
        s.push(FragView::Bytes { data: b })
    }
}

/// Appends all bytes of `src` to `dst`.
pub fn append_bytes(dst: &mut Vec<u8>, src: &Vec<u8>)
    ensures
        final(dst)@ == old(dst)@ + src@,
{
    let n = src.len();
    let mut i: usize = 0;
    proof {
        assert(old(dst)@ + src@.take(0) =~= old(dst)@);
    }
    while i < n
        invariant
            i <= n,
            n == src@.len(),
            dst@ == old(dst)@ + src@.take(i as int),
        decreases n - i,
    {
        dst.push(src[i]);
        proof {
            assert(src@.take(i + 1) =~= src@.take(i as int).push(src@[i as int]));
        }
        i += 1;
    }
    proof {
        assert(src@.take(n as int) =~= src@);
    }
}

impl X86_64Assembler {
    /// Appends encoded bytes at the tail of the fragment sequence.
    ///
    /// The call is transactional: if the bytes would push the code past
    /// the signed 32-bit size bound, nothing changes and the caller gets
    /// `OutOfCapacity`.
    pub fn append_code(&mut self, bytes: &Vec<u8>) -> (r: Result<(), EmitError>)
        requires
            old(self).wf(),
        ensures
            final(self).wf(),
            final(self).with_relaxation == old(self).with_relaxation,
            final(self).defs() == old(self).defs(),
            final(self).patch_lists() == old(self).patch_lists(),
            final(self).public_labels@ == old(self).public_labels@,
            match r {
                Ok(()) => {
                    &&& total_max_len(old(self).frags()) + bytes@.len() <= MAX_CODE_BYTES
                    &&& final(self).frags() == append_bytes_view(old(self).frags(), bytes@)
                },
                Err(e) => {
                    &&& e == EmitError::OutOfCapacity
                    &&& total_max_len(old(self).frags()) + bytes@.len() > MAX_CODE_BYTES
                    &&& *final(self) == *old(self)
                },
            },
    {
        if bytes.len() == 0 {
            assert(final(self).frags() =~= append_bytes_view(old(self).frags(), bytes@));
            return Ok(());
        }
        let remaining = MAX_CODE_BYTES - self.max_total;
        if bytes.len() > remaining as usize {
            return Err(EmitError::OutOfCapacity);
        }
        let ghost s = self.frags();
        let tail = self.fragments.pop().unwrap();
        match tail {
            Fragment::Bytes { mut data } => {
                proof {
                    lemma_bytes_len_bounded(*old(self), s.len() - 1);
                }
                append_bytes(&mut data, bytes);
                self.fragments.push(Fragment::Bytes { data });
                proof {
                    assert(self.frags() =~= s.update(
                        s.len() - 1,
                        FragView::Bytes { data: s.last().bytes() + bytes@ },
                    ));
                    lemma_total_update_last(
                        s,
                        FragView::Bytes { data: s.last().bytes() + bytes@ },
                    );
                }
            },
            other => {
                self.fragments.push(other);
                let mut data: Vec<u8> = Vec::new();
                append_bytes(&mut data, bytes);
                self.fragments.push(Fragment::Bytes { data });
                proof {
                    assert(self.frags() =~= s.push(FragView::Bytes { data: bytes@ }));
                    lemma_total_push(s, FragView::Bytes { data: bytes@ });
                }
            },
        }
        self.max_total = self.max_total + bytes.len() as i64;
        proof {
            let t = self.frags();
            assert(t == append_bytes_view(s, bytes@));
            lemma_len_le_total(t);
            let pl = self.patch_lists();
            assert(pl == old(self).patch_lists());
            assert forall|i: int, j: int|
                0 <= i < pl.len() && 0 <= j < pl[i].1.len() implies (#[trigger] pl[i].1[j]).wf(
                t,
            ) by {
                assert(pl[i].1[j].wf(s));
                let fid = pl[i].1[j].instruction_position.fragment_id.value as int;
                if fid < s.len() - 1 {
                    assert(t[fid] == s[fid]);
                } else {
                    assert(fid == s.len() - 1);
                }
            }
        }
        Ok(())
    }

    /// Appends a fresh fragment after the tail.
    ///
    /// The size bound accounts for the new fragment's largest possible
    /// length; if it would be exceeded, nothing changes and the caller
    /// gets `OutOfCapacity`.
    pub fn push_fragment(&mut self, fragment: Fragment) -> (r: Result<(), EmitError>)
        requires
            old(self).wf(),
            !fragment@.is_bytes(),
    ensures
            final(self).wf(),
            final(self).with_relaxation == old(self).with_relaxation,
            final(self).defs() == old(self).defs(),
            final(self).patch_lists() == old(self).patch_lists(),
            final(self).public_labels@ == old(self).public_labels@,
            match r {
                Ok(()) => {
                    &&& total_max_len(old(self).frags()) + fragment@.max_len() <= MAX_CODE_BYTES
                    &&& final(self).frags() == old(self).frags().push(fragment@)
                },
                Err(e) => {
                    &&& e == EmitError::OutOfCapacity
                    &&& total_max_len(old(self).frags()) + fragment@.max_len() > MAX_CODE_BYTES
                    &&& *final(self) == *old(self)
                },
            },
    {
        let add: i64 = match &fragment {
            Fragment::Bytes { .. } => 0,
            Fragment::Relaxable_Jump { .. } => LONG_JUMP_LEN as i64,
            Fragment::Relaxable_CondJump { .. } => LONG_COND_JUMP_LEN as i64,
        };
        if add > MAX_CODE_BYTES - self.max_total {
            return Err(EmitError::OutOfCapacity);
        }
        let ghost s = self.frags();
        self.fragments.push(fragment);
        self.max_total = self.max_total + add;
        proof {
            assert(self.frags() =~= s.push(fragment@));
            lemma_total_push(s, fragment@);
            lemma_len_le_total(self.frags());
            let t = self.frags();
            let pl = self.patch_lists();
            assert(pl == old(self).patch_lists());
            assert forall|i: int, j: int|
                0 <= i < pl.len() && 0 <= j < pl[i].1.len() implies (#[trigger] pl[i].1[j]).wf(
                t,
            ) by {
                assert(pl[i].1[j].wf(s));
                let fid = pl[i].1[j].instruction_position.fragment_id.value as int;
                assert(t[fid] == s[fid]);
            }
        }
        Ok(())
    }

    /// Records the definition of a label at the current position; a label
    /// can be defined only once, predefined labels included.
    pub fn insert_label(&mut self, label: Label) -> (r: Result<(), EmitError>)
        requires
            old(self).wf(),
        ensures
            final(self).wf(),
            final(self).frags() == old(self).frags(),
            final(self).max_total == old(self).max_total,
            final(self).with_relaxation == old(self).with_relaxation,
            final(self).patch_lists() == old(self).patch_lists(),
            final(self).public_labels@ == old(self).public_labels@,
            match r {
                Ok(()) => {
                    &&& find_label(old(self).defs(), label) is None
                    &&& final(self).defs() == old(self).defs().push(
                        (label, old(self).spec_current_position()),
                    )
                },
                Err(e) => {
                    &&& e == EmitError::LabelAlreadyDefined(label)
                    &&& find_label(old(self).defs(), label) is Some
                    &&& *final(self) == *old(self)
                },
            },
    {
        match find_index(&self.label_offsets, label) {
            Some(_) => Err(EmitError::LabelAlreadyDefined(label)),
            None => {
                let position = self.current_position();
                self.label_offsets.push((label, position));
                proof {
                    let defs0 = old(self).defs();
                    assert forall|i: int|
                        0 <= i < self.public_labels@.len() implies match find_label(
                        self.defs(),
                        #[trigger] self.public_labels@[i],
                    ) {
                        Some(p) => def_in_code(self.frags(), p),
                        None => false,
                    } by {
                        lemma_find_label_push(
                            defs0,
                            label,
                            old(self).spec_current_position(),
                            self.public_labels@[i],
                        );
                    }
                }
                Ok(())
            },
        }
    }
}

/// The label definitions a predefined-label table induces: each first
/// occurrence of a label, in order, bound to its offset relative to the
/// start of the code, attached to the first fragment.
pub open spec fn predef_defs(pairs: Seq<(Label, i32)>) -> Seq<(Label, FragmentRelativePosition)>
    decreases pairs.len(),
{
    if pairs.len() == 0 {
        Seq::empty()
    } else {
        let prev = predef_defs(pairs.drop_last());
        let entry = pairs.last();
        if find_label(prev, entry.0) is Some {
            prev
        } else {
            prev.push(
                (
                    entry.0,
                    FragmentRelativePosition {
                        fragment_id: FragmentOrderId { value: 0 },
                        in_fragment_offset: entry.1,
                    },
                ),
            )
        }
    }
}

impl X86_64Assembler {
    /// Creates a new assembler holding one empty byte-run fragment, the
    /// given predefined labels, and no pending work.
    pub fn new(with_relaxation: bool, predefined_labels: &Vec<(Label, i32)>) -> (r: Self)
        ensures
            r.wf(),
            r.with_relaxation == with_relaxation,
            r.frags() == seq![FragView::Bytes { data: Seq::<u8>::empty() }],
            r.defs() == predef_defs(predefined_labels@),
            r.patch_lists() == Seq::<(Label, Seq<PatchableImm32Instruction>)>::empty(),
            r.public_labels@ == Seq::<Label>::empty(),
    {
        let mut fragments: Vec<Fragment> = Vec::new();
        fragments.push(Fragment::Bytes { data: Vec::new() });
        let mut label_offsets: Vec<(Label, FragmentRelativePosition)> = Vec::new();
        let n = predefined_labels.len();
        let mut i: usize = 0;
        while i < n
            invariant
                i <= n,
                n == predefined_labels@.len(),
                label_offsets@ == predef_defs(predefined_labels@.take(i as int)),
                unique_labels(label_offsets@),
                forall|k: int|
                    0 <= k < label_offsets@.len() ==> (
                    #[trigger] label_offsets@[k]).1.fragment_id.value == 0,
            decreases n - i,
        {
            let (label, offset) = predefined_labels[i];
            let ghost before = label_offsets@;
            match find_index(&label_offsets, label) {
                Some(_) => {},
                None => {
                    label_offsets.push(
                        (
                            label,
                            FragmentRelativePosition {
                                fragment_id: FragmentOrderId::from_index(0),
                                in_fragment_offset: offset,
                            },
                        ),
                    );
                },
            }
            proof {
                assert(predefined_labels@.take(i + 1).drop_last() =~= predefined_labels@.take(
                    i as int,
                ));
                assert(predefined_labels@.take(i + 1).last() == predefined_labels@[i as int]);
            }
            i += 1;
        }
        proof {
            assert(predefined_labels@.take(n as int) =~= predefined_labels@);
        }
        let r = X86_64Assembler {
            fragments,
            label_offsets,
            patchable_addresses: Vec::new(),
            public_labels: Vec::new(),
            max_total: 0,
            with_relaxation,
        };
        proof {
            assert(r.frags() =~= seq![FragView::Bytes { data: Seq::<u8>::empty() }]);
            assert(r.patch_lists() =~= Seq::<(Label, Seq<PatchableImm32Instruction>)>::empty());
            reveal_with_fuel(prefix_max_len, 3);
            assert(total_max_len(r.frags()) == 0);
            assert forall|i: int| 0 <= i < r.defs().len() implies (
            #[trigger] r.defs()[i]).1.fragment_id.value < r.frags().len() by {
                assert(label_offsets@[i].1.fragment_id.value == 0);
            }
        }
        r
    }

    /// Records a pending patch for the given label.  The caller hands in
    /// a record lying past every pending patch of its fragment, which the
    /// growing byte runs guarantee, so all pending patches stay disjoint.
    pub fn push_patch(&mut self, label: Label, patch: PatchableImm32Instruction)
        requires
            old(self).wf(),
            patch.wf(old(self).frags()),
            forall|i: int, j: int|
                (0 <= i < old(self).patch_lists().len() && 0 <= j < old(self).patch_lists()[i].1.len()
                    && (#[trigger] old(self).patch_lists()[i].1[j]).instruction_position.fragment_id
                    == patch.instruction_position.fragment_id) ==> old(
                    self,
                ).patch_lists()[i].1[j].instruction_position.in_fragment_offset + old(
                    self,
                ).patch_lists()[i].1[j].instruction_length
                    <= patch.instruction_position.in_fragment_offset,
        ensures
            final(self).wf(),
            final(self).frags() == old(self).frags(),
            final(self).defs() == old(self).defs(),
            final(self).public_labels@ == old(self).public_labels@,
            final(self).max_total == old(self).max_total,
            final(self).with_relaxation == old(self).with_relaxation,
            ({
                let pl = old(self).patch_lists();
                let pl2 = final(self).patch_lists();
                if find_label(pl, label) is Some {
                    exists|i: int|
                        0 <= i < pl.len() && pl[i].0 == label && pl2 == pl.update(
                            i,
                            (label, pl[i].1.push(patch)),
                        )
                } else {
                    pl2 == pl.push((label, seq![patch]))
                }
            }),
    {
        let ghost pl = self.patch_lists();
        match find_index(&self.patchable_addresses, label) {
            Some(i) => {
                let (entry_label, mut list) = self.patchable_addresses.remove(i);
                list.push(patch);
                self.patchable_addresses.insert(i, (entry_label, list));
                proof {
                    lemma_find_label_index(pl, label, i as int);
                    let pl2 = self.patch_lists();
                    assert(pl2 =~= pl.update(i as int, (label, pl[i as int].1.push(patch))));
                    lemma_patches_still_disjoint_update(pl, i as int, patch, *old(self));
                    assert(unique_labels(pl2)) by {
                        assert forall|a: int, b: int| 0 <= a < b < pl2.len() implies pl2[a].0
                            != pl2[b].0 by {
                            assert(pl[a].0 == pl2[a].0);
                            assert(pl[b].0 == pl2[b].0);
                        }
                    }
                }
            },
            None => {
                let mut list: InlineVec<PatchableImm32Instruction, 5> = InlineVec::new();
                list.push(patch);
                self.patchable_addresses.push((label, list));
                proof {
                    assert forall|j: int| 0 <= j < pl.len() implies pl[j].0 != label by {
                        assert(old(self).patchable_addresses@[j].0 != label);
                    }
                    lemma_find_label_absent(pl, label);
                    let pl2 = self.patch_lists();
                    assert(pl2 =~= pl.push((label, seq![patch])));
                    lemma_patches_still_disjoint_push(pl, label, patch, *old(self));
                }
            },
        }
    }
}

/// Appending bytes grows both the current and the largest total by
/// exactly their count.
pub proof fn lemma_append_total(s: Seq<FragView>, b: Seq<u8>)
    requires
        s.len() >= 1,
    ensures
        total_len(append_bytes_view(s, b)) == total_len(s) + b.len(),
        total_max_len(append_bytes_view(s, b)) == total_max_len(s) + b.len(),
{
    if b.len() == 0 {
    } else if s.last().is_bytes() {
        lemma_total_update_last(s, FragView::Bytes { data: s.last().bytes() + b });
    } else {
        lemma_total_push(s, FragView::Bytes { data: b });
    }
}

/// Two consecutive byte appends equal one append of the concatenation.
pub proof fn lemma_append_concat(s: Seq<FragView>, a: Seq<u8>, b: Seq<u8>)
    requires
        s.len() >= 1,
    ensures
        append_bytes_view(append_bytes_view(s, a), b) == append_bytes_view(s, a + b),
{
    if a.len() == 0 {
        assert(a + b =~= b);
    } else if b.len() == 0 {
        assert(a + b =~= a);
    } else {
        let t = append_bytes_view(s, a);
        if s.last().is_bytes() {
            assert(t.last().bytes() == s.last().bytes() + a);
            assert((s.last().bytes() + a) + b =~= s.last().bytes() + (a + b));
            assert(append_bytes_view(t, b) =~= append_bytes_view(s, a + b));
        } else {
            assert(t.last() == FragView::Bytes { data: a });
            assert(append_bytes_view(t, b) =~= append_bytes_view(s, a + b));
        }
    }
}

impl X86_64Assembler {
    /// Appends encoded bytes known to fit the size bound.
    pub fn append_code_must(&mut self, bytes: &Vec<u8>)
        requires
            old(self).wf(),
            total_max_len(old(self).frags()) + bytes@.len() <= MAX_CODE_BYTES,
        ensures
            final(self).wf(),
            final(self).with_relaxation == old(self).with_relaxation,
            final(self).defs() == old(self).defs(),
            final(self).patch_lists() == old(self).patch_lists(),
            final(self).public_labels@ == old(self).public_labels@,
            final(self).frags() == append_bytes_view(old(self).frags(), bytes@),
    {
        let r = self.append_code(bytes);
        proof {
            assert(r is Ok);
        }
    }

    /// Appends the encoding of an instruction whose RIP-relative imm32
    /// slot still has to be patched, and files the pending patch for its
    /// target label.
    pub fn append_with_patch(&mut self, bytes: &Vec<u8>, label: Label, imm32_offset: u32) -> (r:
        Result<(), EmitError>)
        requires
            old(self).wf(),
            4 <= bytes@.len() <= u32::MAX,
            imm32_offset + 4 <= bytes@.len(),
        ensures
            final(self).wf(),
            final(self).with_relaxation == old(self).with_relaxation,
            final(self).defs() == old(self).defs(),
            final(self).public_labels@ == old(self).public_labels@,
            match r {
                Ok(()) => {
                    &&& total_max_len(old(self).frags()) + bytes@.len() <= MAX_CODE_BYTES
                    &&& final(self).frags() == append_bytes_view(old(self).frags(), bytes@)
                    &&& final(self).patch_lists() == add_patch(
                        old(self).patch_lists(),
                        label,
                        PatchableImm32Instruction {
                            instruction_position: landing_pos(old(self).frags()),
                            instruction_length: bytes@.len() as u32,
                            imm32_offset,
                        },
                    )
                },
                Err(e) => {
                    &&& e == EmitError::OutOfCapacity
                    &&& total_max_len(old(self).frags()) + bytes@.len() > MAX_CODE_BYTES
                    &&& *final(self) == *old(self)
                },
            },
    {
        let ghost s = self.frags();
        let idx = self.fragments.len() - 1;
        let bytes_tail = match &self.fragments[idx] {
            Fragment::Bytes { .. } => true,
            _ => false,
        };
        let position = if bytes_tail {
            self.current_position()
        } else {
            FragmentRelativePosition {
                fragment_id: FragmentOrderId::from_index(self.fragments.len() as u32),
                in_fragment_offset: 0,
            }
        };
        proof {
            assert(position == landing_pos(s));
        }
        match self.append_code(bytes) {
            Ok(()) => {},
            Err(e) => {
                return Err(e);
            },
        }
        let patch = PatchableImm32Instruction {
            instruction_position: position,
            instruction_length: bytes.len() as u32,
            imm32_offset,
        };
        proof {
            let t = self.frags();
            let fid = position.fragment_id.value as int;
            if s.last().is_bytes() {
                lemma_bytes_len_bounded(*old(self), s.len() - 1);
                assert(t[fid].bytes() == s.last().bytes() + bytes@);
            } else {
                assert(t[fid] == FragView::Bytes { data: bytes@ });
            }
            assert(patch.wf(t));
            lemma_bytes_len_bounded(*self, fid);
            let pl = self.patch_lists();
            assert forall|i: int, j: int|
                (0 <= i < pl.len() && 0 <= j < pl[i].1.len() && (
                #[trigger] pl[i].1[j]).instruction_position.fragment_id
                    == patch.instruction_position.fragment_id) implies pl[i].1[j].instruction_position.in_fragment_offset
                + pl[i].1[j].instruction_length
                <= patch.instruction_position.in_fragment_offset by {
                assert(old(self).patch_lists()[i].1[j].wf(s));
            }
        }
        let ghost pl_before = self.patch_lists();
        self.push_patch(label, patch);
        proof {
            if find_label(pl_before, label) is Some {
                let i = choose|i: int|
                    0 <= i < pl_before.len() && pl_before[i].0 == label && self.patch_lists()
                        == pl_before.update(i, (label, pl_before[i].1.push(patch)));
                lemma_first_index_of_label(pl_before, label, i);
                lemma_add_patch_update(pl_before, label, patch, i);
            } else {
                assert forall|j: int| 0 <= j < pl_before.len() implies pl_before[j].0
                    != label by {
                    if pl_before[j].0 == label {
                        lemma_find_label_index_exists(pl_before, label, j);
                    }
                }
                lemma_add_patch_append(pl_before, label, patch);
            }
        }
        Ok(())
    }
}

/// In a unique-keyed list, an entry's index is the first index of its
/// label.
proof fn lemma_first_index_of_label(
    pl: Seq<(Label, Seq<PatchableImm32Instruction>)>,
    label: Label,
    i: int,
)
    requires
        0 <= i < pl.len(),
        pl[i].0 == label,
        unique_labels(pl),
    ensures
        forall|j: int| 0 <= j < i ==> pl[j].0 != label,
{
}

/// If some entry carries a label, the label has a binding.
proof fn lemma_find_label_index_exists(
    pl: Seq<(Label, Seq<PatchableImm32Instruction>)>,
    label: Label,
    j: int,
)
    requires
        0 <= j < pl.len(),
        pl[j].0 == label,
    ensures
        find_label(pl, label) is Some,
    decreases j,
{
    if j > 0 && pl[0].0 != label {
        lemma_find_label_index_exists(pl.drop_first(), label, j - 1);
    }
}

/// After extending the list at `i` with a patch lying past every pending
/// patch of its fragment, the pending patches are still sound.
proof fn lemma_patches_still_disjoint_update(
    pl: Seq<(Label, Seq<PatchableImm32Instruction>)>,
    i: int,
    patch: PatchableImm32Instruction,
    a: X86_64Assembler,
)
    requires
        a.wf(),
        0 <= i < pl.len(),
        pl == a.patch_lists(),
        patch.wf(a.frags()),
        forall|x: int, y: int|
            (0 <= x < pl.len() && 0 <= y < pl[x].1.len() && (
            #[trigger] pl[x].1[y]).instruction_position.fragment_id
                == patch.instruction_position.fragment_id)
                ==> pl[x].1[y].instruction_position.in_fragment_offset
                + pl[x].1[y].instruction_length <= patch.instruction_position.in_fragment_offset,
    ensures
        patches_in_range(pl.update(i, (pl[i].0, pl[i].1.push(patch))), a.frags()),
        patches_disjoint(pl.update(i, (pl[i].0, pl[i].1.push(patch)))),
{
    let pl2 = pl.update(i, (pl[i].0, pl[i].1.push(patch)));
    assert forall|x: int, y: int|
        0 <= x < pl2.len() && 0 <= y < pl2[x].1.len() implies (#[trigger] pl2[x].1[y]).wf(
        a.frags(),
    ) by {
        if x == i && y == pl[i].1.len() {
        } else {
            assert(pl2[x].1[y] == pl[x].1[y]);
        }
    }
    assert forall|x1: int, y1: int, x2: int, y2: int|
        (0 <= x1 < pl2.len() && 0 <= y1 < pl2[x1].1.len() && 0 <= x2 < pl2.len() && 0 <= y2
            < pl2[x2].1.len() && (x1 != x2 || y1 != y2) && (
        #[trigger] pl2[x1].1[y1]).instruction_position.fragment_id == (
        #[trigger] pl2[x2].1[y2]).instruction_position.fragment_id) implies (
    pl2[x1].1[y1].instruction_position.in_fragment_offset + pl2[x1].1[y1].instruction_length
        <= pl2[x2].1[y2].instruction_position.in_fragment_offset
        || pl2[x2].1[y2].instruction_position.in_fragment_offset
        + pl2[x2].1[y2].instruction_length
        <= pl2[x1].1[y1].instruction_position.in_fragment_offset) by {
        let new1 = x1 == i && y1 == pl[i].1.len();
        let new2 = x2 == i && y2 == pl[i].1.len();
        if new1 && !new2 {
            assert(pl2[x2].1[y2] == pl[x2].1[y2]);
        } else if !new1 && new2 {
            assert(pl2[x1].1[y1] == pl[x1].1[y1]);
        } else if !new1 && !new2 {
            assert(pl2[x1].1[y1] == pl[x1].1[y1]);
            assert(pl2[x2].1[y2] == pl[x2].1[y2]);
        }
    }
}

/// After appending a fresh per-label list holding one patch lying past
/// every pending patch of its fragment, the pending patches are still
/// sound.
proof fn lemma_patches_still_disjoint_push(
    pl: Seq<(Label, Seq<PatchableImm32Instruction>)>,
    label: Label,
    patch: PatchableImm32Instruction,
    a: X86_64Assembler,
)
    requires
        a.wf(),
        pl == a.patch_lists(),
        patch.wf(a.frags()),
        forall|x: int, y: int|
            (0 <= x < pl.len() && 0 <= y < pl[x].1.len() && (
            #[trigger] pl[x].1[y]).instruction_position.fragment_id
                == patch.instruction_position.fragment_id)
                ==> pl[x].1[y].instruction_position.in_fragment_offset
                + pl[x].1[y].instruction_length <= patch.instruction_position.in_fragment_offset,
    ensures
        patches_in_range(pl.push((label, seq![patch])), a.frags()),
        patches_disjoint(pl.push((label, seq![patch]))),
{
    let pl2 = pl.push((label, seq![patch]));
    assert forall|x: int, y: int|
        0 <= x < pl2.len() && 0 <= y < pl2[x].1.len() implies (#[trigger] pl2[x].1[y]).wf(
        a.frags(),
    ) by {
        if x < pl.len() {
            assert(pl2[x].1[y] == pl[x].1[y]);
        } else {
            assert(pl2[x].1[y] == patch);
        }
    }
    assert forall|x1: int, y1: int, x2: int, y2: int|
        (0 <= x1 < pl2.len() && 0 <= y1 < pl2[x1].1.len() && 0 <= x2 < pl2.len() && 0 <= y2
            < pl2[x2].1.len() && (x1 != x2 || y1 != y2) && (
        #[trigger] pl2[x1].1[y1]).instruction_position.fragment_id == (
        #[trigger] pl2[x2].1[y2]).instruction_position.fragment_id) implies (
    pl2[x1].1[y1].instruction_position.in_fragment_offset + pl2[x1].1[y1].instruction_length
        <= pl2[x2].1[y2].instruction_position.in_fragment_offset
        || pl2[x2].1[y2].instruction_position.in_fragment_offset
        + pl2[x2].1[y2].instruction_length
        <= pl2[x1].1[y1].instruction_position.in_fragment_offset) by {
        if x1 < pl.len() && x2 < pl.len() {
            assert(pl2[x1].1[y1] == pl[x1].1[y1]);
            assert(pl2[x2].1[y2] == pl[x2].1[y2]);
        } else if x1 < pl.len() {
            assert(pl2[x1].1[y1] == pl[x1].1[y1]);
            assert(pl2[x2].1[y2] == patch);
        } else if x2 < pl.len() {
            assert(pl2[x1].1[y1] == patch);
            assert(pl2[x2].1[y2] == pl[x2].1[y2]);
        }
    }
}

/// Any single fragment's length is bounded by the whole size bound, so a
/// byte run's length fits an `i32`.
pub proof fn lemma_bytes_len_bounded(a: X86_64Assembler, i: int)
    requires
        a.wf(),
        0 <= i < a.frags().len(),
    ensures
        a.frags()[i].len() <= MAX_CODE_BYTES,
        a.frags()[i].max_len() <= MAX_CODE_BYTES,
{
    let s = a.frags();
    lemma_prefix_single_le(s, i);
}

/// One fragment's largest length never exceeds the total bound.
pub proof fn lemma_prefix_single_le(s: Seq<FragView>, i: int)
    requires
        0 <= i < s.len(),
    ensures
        s[i].len() <= total_max_len(s),
        s[i].max_len() <= total_max_len(s),
    decreases s.len(),
{
    lemma_max_len_ge_len(s[i]);
    lemma_prefix_max_len_parts(s, i);
}

/// A fragment's current length never exceeds its largest length.
pub proof fn lemma_max_len_ge_len(f: FragView)
    ensures
        f.len() <= f.max_len(),
        f.max_len() >= 0,
        f.len() >= 0,
{
}

/// A prefix-max sum splits around any single index.
pub proof fn lemma_prefix_max_len_parts(s: Seq<FragView>, i: int)
    requires
        0 <= i < s.len(),
    ensures
        prefix_max_len(s, i) >= 0,
        prefix_max_len(s, i) + s[i].max_len() <= total_max_len(s),
    decreases s.len() - i,
{
    lemma_prefix_max_len_nonneg(s, i);
    lemma_prefix_max_len_tail(s, i + 1, s.len() as int);
}

/// Prefix-max sums are nonnegative.
pub proof fn lemma_prefix_max_len_nonneg(s: Seq<FragView>, k: int)
    requires
        0 <= k <= s.len(),
    ensures
        prefix_max_len(s, k) >= 0,
    decreases k,
{
    if k > 0 {
        lemma_max_len_ge_len(s[k - 1]);
        lemma_prefix_max_len_nonneg(s, k - 1);
    }
}

/// Prefix-max sums are monotone.
pub proof fn lemma_prefix_max_len_tail(s: Seq<FragView>, k1: int, k2: int)
    requires
        0 <= k1 <= k2 <= s.len(),
    ensures
        prefix_max_len(s, k1) <= prefix_max_len(s, k2),
    decreases k2 - k1,
{
    if k1 < k2 {
        lemma_max_len_ge_len(s[k2 - 1]);
        lemma_prefix_max_len_tail(s, k1, k2 - 1);
    }
}

} // verus!
