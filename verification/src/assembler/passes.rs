//! The assembly passes: initial offsets, relaxation to the fixed
//! point, label resolution, in-place patching of RIP-relative imm32
//! slots, the final emission walk, and `assemble`, which runs them in
//! order.

use vstd::prelude::*;

use crate::models::label::Label;
use super::errors::AssembleError;
use super::fragment::Fragment;
use super::fragment::FragView;
use super::fragment::RelaxationVariant;
use super::fragment::prefix_len;
use super::fragment::total_len;
use super::fragment::total_max_len;
use super::fragment::lemma_prefix_len_le_max;
use super::fragment::lemma_prefix_len_update;
use super::fragment::lemma_prefix_max_len_update;
use super::label_map::find_index;
use super::label_map::find_label;
use super::relax::count_short;
use super::relax::def_pos;
use super::relax::first_unset_from;
use super::relax::label_pos;
use super::relax::lemma_count_short_nonneg;
use super::relax::lemma_scan_upto_count;
use super::relax::needs_promotion;
use super::relax::relax_fix;
use super::relax::relax_stable;
use super::relax::scan;
use super::relax::scan_step;
use super::relax::scan_upto;
use super::relax::short_disp;
use super::relax::shorts_defined;
use super::relax::promotes;
use super::relax::promote1;
use super::relax::lemma_promotes_shorts_defined;
use super::state::lemma_bytes_len_bounded;
use super::state::lemma_prefix_max_len_tail;
use super::state::X86_64Assembler;
use super::state::MAX_CODE_BYTES;
use super::encodings::le32;
use super::encodings::jmp_short_bytes;
use super::encodings::jmp_long_bytes;
use super::encodings::jcc_short_bytes;
use super::encodings::jcc_long_bytes;
use super::encodings::build_jmp_short;
use super::encodings::build_jmp_long;
use super::encodings::build_jcc_short;
use super::encodings::build_jcc_long;
use super::emission_data::EmissionData;
use super::fragment::SHORT_JUMP_LEN;
use super::fragment::LONG_JUMP_LEN;
use super::fragment::SHORT_COND_JUMP_LEN;
use super::fragment::LONG_COND_JUMP_LEN;

verus! {

/// When no short fragment's target is missing, there is no first missing
/// one.
proof fn lemma_first_unset_none(
    s: Seq<FragView>,
    defs: Seq<(Label, super::state::FragmentRelativePosition)>,
    i: int,
)
    requires
        forall|j: int|
            i <= j < s.len() && (#[trigger] s[j]).is_short() ==> find_label(
                defs,
                s[j].target(),
            ) is Some,
    ensures
        first_unset_from(s, defs, i) is None,
    decreases s.len() - i,
{
    if 0 <= i < s.len() {
        lemma_first_unset_none(s, defs, i + 1);
    }
}

/// The first short fragment with a missing target names the label the
/// relaxation pass reports.
proof fn lemma_first_unset_hit(
    s: Seq<FragView>,
    defs: Seq<(Label, super::state::FragmentRelativePosition)>,
    i: int,
)
    requires
        0 <= i < s.len(),
        s[i].is_short(),
        find_label(defs, s[i].target()) is None,
        forall|j: int|
            0 <= j < i && (#[trigger] s[j]).is_short() ==> find_label(defs, s[j].target()) is Some,
    ensures
        first_unset_from(s, defs, 0) == Some(s[i].target()),
{
    lemma_first_unset_hit_from(s, defs, 0, i);
}

proof fn lemma_first_unset_hit_from(
    s: Seq<FragView>,
    defs: Seq<(Label, super::state::FragmentRelativePosition)>,
    k: int,
    i: int,
)
    requires
        0 <= k <= i < s.len(),
        s[i].is_short(),
        find_label(defs, s[i].target()) is None,
        forall|j: int|
            k <= j < i && (#[trigger] s[j]).is_short() ==> find_label(defs, s[j].target()) is Some,
    ensures
        first_unset_from(s, defs, k) == Some(s[i].target()),
    decreases i - k,
{
    if k < i {
        lemma_first_unset_hit_from(s, defs, k + 1, i);
    }
}

impl X86_64Assembler {
    /// Computes the byte position at which each fragment's encoding
    /// starts under the current variants.
    pub fn calculate_initial_offsets(&self) -> (r: Vec<i64>)
        requires
            self.wf(),
        ensures
            r@.len() == self.frags().len(),
            forall|k: int| 0 <= k < r@.len() ==> r@[k] == prefix_len(self.frags(), k),
    {
        let ghost s = self.frags();
        let n = self.fragments.len();
        let mut offsets: Vec<i64> = Vec::new();
        let mut acc: i64 = 0;
        let mut i: usize = 0;
        while i < n
            invariant
                self.wf(),
                s == self.frags(),
                i <= n,
                n == s.len(),
                offsets@.len() == i,
                forall|k: int| 0 <= k < i ==> offsets@[k] == prefix_len(s, k),
                acc == prefix_len(s, i as int),
            decreases n - i,
        {
            offsets.push(acc);
            proof {
                lemma_bytes_len_bounded(*self, i as int);
                lemma_prefix_len_le_max(s, i + 1);
                lemma_prefix_max_len_tail(s, i + 1, s.len() as int);
                lemma_prefix_nonneg(s, i as int);
            }
            let dl = self.fragments[i].data_length();
            acc = acc + dl as i64;
            i += 1;
        }
        offsets
    }

    /// Resolves a label to its current absolute byte position.
    fn lookup_label_pos(&self, offsets: &Vec<i64>, label: Label) -> (r: Option<i64>)
        requires
            self.wf(),
            offsets@.len() == self.frags().len(),
            forall|k: int| 0 <= k < offsets@.len() ==> offsets@[k] == prefix_len(self.frags(), k),
        ensures
            match r {
                Some(p) => {
                    &&& label_pos(self.frags(), self.defs(), label) == Some(p as int)
                    &&& -0x8000_0000 <= p <= 0x1_0000_0010
                },
                None => label_pos(self.frags(), self.defs(), label) is None,
            },
    {
        match find_index(&self.label_offsets, label) {
            None => None,
            Some(i) => {
                let p = self.label_offsets[i].1;
                let fid = p.fragment_id.index() as usize;
                proof {
                    lemma_bytes_len_bounded(*self, fid as int);
                }
                let extra: i64 = match &self.fragments[fid] {
                    Fragment::Bytes { .. } => 0,
                    f => f.data_length() as i64,
                };
                proof {
                    lemma_prefix_nonneg(self.frags(), fid as int);
                    lemma_prefix_len_le_max(self.frags(), fid as int);
                    lemma_prefix_max_len_tail(self.frags(), fid as int, self.frags().len() as int);
                }
                Some(offsets[fid] + extra + p.in_fragment_offset as i64)
            },
        }
    }

    /// Runs relaxation to its fixed point: every pass grows each short
    /// jump whose displacement, measured against the positions the pass
    /// has produced so far, does not fit a signed byte; passes repeat
    /// until one changes nothing.
    ///
    /// Assemblers of this shape often test a shifted displacement
    /// against a small safety margin; for the two-byte short forms such
    /// a test accepts exactly the displacements that fit a signed byte,
    /// which is the analytic test used here.
    pub fn relax_fragments(&mut self, offsets: &mut Vec<i64>) -> (r: Result<(), AssembleError>)
        requires
            old(self).wf(),
            old(offsets)@.len() == old(self).frags().len(),
            forall|k: int|
                0 <= k < old(offsets)@.len() ==> old(offsets)@[k] == prefix_len(
                    old(self).frags(),
                    k,
                ),
        ensures
            final(self).wf(),
            final(self).defs() == old(self).defs(),
            final(self).patch_lists() == old(self).patch_lists(),
            final(self).public_labels@ == old(self).public_labels@,
            final(self).with_relaxation == old(self).with_relaxation,
            match r {
                Ok(()) => {
                    &&& shorts_defined(old(self).frags(), old(self).defs())
                    &&& first_unset_from(old(self).frags(), old(self).defs(), 0) is None
                    &&& final(self).frags() == relax_fix(old(self).frags(), old(self).defs())
                    &&& final(offsets)@.len() == final(self).frags().len()
                    &&& forall|k: int|
                        0 <= k < final(offsets)@.len() ==> final(offsets)@[k] == prefix_len(
                            final(self).frags(),
                            k,
                        )
                },
                Err(AssembleError::LabelNotSet(l)) => {
                    &&& first_unset_from(old(self).frags(), old(self).defs(), 0) == Some(l)
                    &&& *final(self) == *old(self)
                    &&& final(offsets)@ == old(offsets)@
                },
                _ => false,
            },
    {
        let ghost s0 = self.frags();
        let ghost defs = self.defs();
        let n = self.fragments.len();

        // First make sure every short jump's target is defined; jumps
        // already long are only resolved later, at emission.
        let mut i: usize = 0;
        while i < n
            invariant
                self.wf(),
                s0 == self.frags(),
                defs == self.defs(),
                i <= n,
                n == s0.len(),
                forall|j: int|
                    0 <= j < i && (#[trigger] s0[j]).is_short() ==> find_label(
                        defs,
                        s0[j].target(),
                    ) is Some,
            decreases n - i,
        {
            let short_target: Option<Label> = match &self.fragments[i] {
                Fragment::Relaxable_Jump { variant: RelaxationVariant::Short, label } => Some(
                    *label,
                ),
                Fragment::Relaxable_CondJump {
                    variant: RelaxationVariant::Short,
                    label,
                    ..
                } => Some(*label),
                _ => None,
            };
            if let Some(target) = short_target {
                if find_index(&self.label_offsets, target).is_none() {
                    proof {
                        lemma_first_unset_hit(s0, defs, i as int);
                    }
                    return Err(AssembleError::LabelNotSet(target));
                }
            }
            i += 1;
        }
        proof {
            lemma_first_unset_none(s0, defs, 0);
        }

        // The fixed-point loop.
        let mut again = true;
        while again
            invariant
                self.wf(),
                defs == self.defs(),
                self.patch_lists() == old(self).patch_lists(),
                self.public_labels@ == old(self).public_labels@,
                self.with_relaxation == old(self).with_relaxation,
                n == self.frags().len(),
                shorts_defined(self.frags(), defs),
                relax_fix(self.frags(), defs) == relax_fix(s0, defs),
                offsets@.len() == n,
                forall|k: int| 0 <= k < n ==> offsets@[k] == prefix_len(self.frags(), k),
                !again ==> scan(self.frags(), defs) == self.frags(),
            decreases count_short(self.frags()) + if again {
                1int
            } else {
                0int
            },
        {
            let ghost sp = self.frags();
            let mut changed = false;
            let mut i: usize = 0;
            while i < n
                invariant
                    self.wf(),
                    defs == self.defs(),
                    self.patch_lists() == old(self).patch_lists(),
                    self.public_labels@ == old(self).public_labels@,
                    self.with_relaxation == old(self).with_relaxation,
                    i <= n,
                    n == self.frags().len(),
                    n == sp.len(),
                    shorts_defined(sp, defs),
                    self.frags() == scan_upto(sp, defs, i as int),
                    changed == (self.frags() != sp),
                    offsets@.len() == n,
                    forall|k: int| 0 <= k < n ==> offsets@[k] == prefix_len(self.frags(), k),
                decreases n - i,
            {
                proof {
                    lemma_scan_upto_count(sp, defs, i as int);
                }
                let ghost cur = self.frags();
                let short_target: Option<Label> = match &self.fragments[i] {
                    Fragment::Relaxable_Jump { variant: RelaxationVariant::Short, label } => Some(
                        *label,
                    ),
                    Fragment::Relaxable_CondJump {
                        variant: RelaxationVariant::Short,
                        label,
                        ..
                    } => Some(*label),
                    _ => None,
                };
                match short_target {
                    None => {
                        proof {
                            assert(!cur[i as int].is_short());
                            assert(scan_step(cur, defs, i as int) == cur);
                            assert(scan_upto(sp, defs, i + 1) == cur);
                        }
                    },
                    Some(target) => {
                        proof {
                            assert(cur[i as int].is_short());
                            assert(cur[i as int].target() == target);
                            lemma_shorts_defined_scan(sp, cur, defs, i as int);
                        }
                        let lp = match self.lookup_label_pos(offsets, target) {
                            Some(x) => x,
                            None => {
                                proof {
                                    assert(false);
                                }
                                return Err(AssembleError::LabelNotSet(target));
                            },
                        };
                        proof {
                            lemma_offsets_bounded(cur, i as int);
                        }
                        let disp = lp - (offsets[i] + 2);
                        proof {
                            assert(cur[i as int].len() == 2);
                            assert(disp == short_disp(cur, defs, i as int));
                        }
                        if disp < -128 || disp > 127 {
                            proof {
                                assert(needs_promotion(cur, defs, i as int));
                            }
                            let (new_frag, delta): (Fragment, i64) = match &self.fragments[i] {
                                Fragment::Relaxable_Jump { label, .. } => (
                                    Fragment::Relaxable_Jump {
                                        variant: RelaxationVariant::Long,
                                        label: *label,
                                    },
                                    3,
                                ),
                                Fragment::Relaxable_CondJump { condition, label, .. } => (
                                    Fragment::Relaxable_CondJump {
                                        variant: RelaxationVariant::Long,
                                        condition: *condition,
                                        label: *label,
                                    },
                                    4,
                                ),
                                Fragment::Bytes { .. } => {
                                    proof {
                                        assert(false);
                                    }
                                    (Fragment::Bytes { data: Vec::new() }, 0)
                                },
                            };
                            let ghost pre_asm = *self;
                            let _old_frag = self.fragments.remove(i);
                            self.fragments.insert(i, new_frag);
                            proof {
                                assert(new_frag@ == cur[i as int].promoted());
                                assert(self.frags() =~= cur.update(i as int, cur[i as int].promoted()));
                                assert(self.frags() == scan_upto(sp, defs, i + 1));
                                lemma_promote_wf(pre_asm, *self, i as int);
                            }
                            changed = true;
                            let ghost upd = cur.update(i as int, cur[i as int].promoted());
                            proof {
                                assert forall|k: int| 0 <= k < i + 1 implies offsets@[k]
                                    == prefix_len(upd, k) by {
                                    lemma_prefix_len_update(
                                        cur,
                                        i as int,
                                        cur[i as int].promoted(),
                                        k,
                                    );
                                }
                                assert(self.frags() == upd);
                                assert(total_max_len(upd) <= MAX_CODE_BYTES);
                            }
                            let mut j: usize = i + 1;
                            while j < n
                                invariant
                                    i < j <= n,
                                    n == cur.len(),
                                    0 <= (i as int) < cur.len(),
                                    cur[i as int].is_short(),
                                    upd == cur.update(i as int, cur[i as int].promoted()),
                                    delta == cur[i as int].promoted().len() - cur[i as int].len(),
                                    total_max_len(upd) <= MAX_CODE_BYTES,
                                    offsets@.len() == n,
                                    forall|k: int| 0 <= k < j ==> offsets@[k] == prefix_len(upd, k),
                                    forall|k: int|
                                        j <= k < n ==> offsets@[k] == prefix_len(cur, k),
                                decreases n - j,
                            {
                                proof {
                                    lemma_prefix_len_update(
                                        cur,
                                        i as int,
                                        cur[i as int].promoted(),
                                        j as int,
                                    );
                                    lemma_offsets_bounded(cur, j as int);
                                    lemma_offsets_bounded(upd, j + 1);
                                }
                                let v = offsets[j];
                                offsets[j] = v + delta;
                                j += 1;
                            }
                            proof {
                                assert(self.frags() == upd);
                            }
                        } else {
                            proof {
                                assert(!needs_promotion(cur, defs, i as int));
                                assert(scan_step(cur, defs, i as int) == cur);
                                assert(scan_upto(sp, defs, i + 1) == cur);
                            }
                        }
                    },
                }
                i += 1;
            }
            proof {
                assert(self.frags() == scan(sp, defs));
                lemma_scan_upto_count(sp, defs, n as int);
                assert(promotes(sp, self.frags()));
                lemma_promotes_shorts_defined(sp, self.frags(), defs);
                lemma_count_short_nonneg(self.frags());
                lemma_count_short_nonneg(sp);
                if changed {
                    assert(scan(sp, defs) != sp);
                    assert(relax_fix(sp, defs) == relax_fix(scan(sp, defs), defs));
                    assert(count_short(self.frags()) < count_short(sp));
                } else {
                    assert(self.frags() == sp);
                }
            }
            again = changed;
        }
        proof {
            assert(scan(self.frags(), defs) == self.frags());
            assert(relax_fix(self.frags(), defs) == self.frags());
        }
        Ok(())
    }
}

/// The label table the definitions induce under the current variants:
/// each label with its absolute byte position.
pub open spec fn labels_of(
    s: Seq<FragView>,
    defs: Seq<(Label, super::state::FragmentRelativePosition)>,
) -> Seq<(Label, i64)> {
    Seq::new(defs.len(), |k: int| (defs[k].0, def_pos(s, defs[k].1) as i64))
}

/// Whether byte `k` of fragment `f` lies in the imm32 slot of the patch.
pub open spec fn in_slot(p: super::state::PatchableImm32Instruction, f: int, k: int) -> bool {
    &&& p.instruction_position.fragment_id.value == f
    &&& p.instruction_position.in_fragment_offset + p.imm32_offset <= k
        < p.instruction_position.in_fragment_offset + p.imm32_offset + 4
}

/// The displacement a patch stores: from the end of its instruction to
/// its label's position.
pub open spec fn patch_disp(
    s: Seq<FragView>,
    p: super::state::PatchableImm32Instruction,
    lp: int,
) -> int {
    lp - (prefix_len(s, p.instruction_position.fragment_id.value as int)
        + p.instruction_position.in_fragment_offset + p.instruction_length)
}

impl X86_64Assembler {
    /// Resolves every defined label to its absolute byte position.
    pub fn calculate_labels_map(&self, offsets: &Vec<i64>) -> (r: Vec<(Label, i64)>)
        requires
            self.wf(),
            offsets@.len() == self.frags().len(),
            forall|k: int| 0 <= k < offsets@.len() ==> offsets@[k] == prefix_len(self.frags(), k),
        ensures
            r@ == labels_of(self.frags(), self.defs()),
            forall|k: int|
                0 <= k < r@.len() ==> -0x8000_0000 <= (#[trigger] r@[k]).1 <= 0x1_0000_0010
                    && r@[k].1 == def_pos(self.frags(), self.defs()[k].1),
    {
        let ghost s = self.frags();
        let ghost defs = self.defs();
        let n = self.label_offsets.len();
        let mut result: Vec<(Label, i64)> = Vec::new();
        let mut i: usize = 0;
        while i < n
            invariant
                self.wf(),
                s == self.frags(),
                defs == self.defs(),
                i <= n,
                n == defs.len(),
                offsets@.len() == s.len(),
                forall|k: int| 0 <= k < offsets@.len() ==> offsets@[k] == prefix_len(s, k),
                result@.len() == i,
                forall|k: int|
                    0 <= k < i ==> (#[trigger] result@[k]).0 == defs[k].0 && result@[k].1
                        == def_pos(s, defs[k].1) && -0x8000_0000 <= result@[k].1
                        <= 0x1_0000_0010,
            decreases n - i,
        {
            let (label, p) = self.label_offsets[i];
            proof {
                assert(self.defs()[i as int].1.fragment_id.value < s.len());
            }
            let fid = p.fragment_id.index() as usize;
            proof {
                lemma_bytes_len_bounded(*self, fid as int);
                lemma_offsets_bounded(s, fid as int);
            }
            let extra: i64 = match &self.fragments[fid] {
                Fragment::Bytes { .. } => 0,
                f => f.data_length() as i64,
            };
            let pos = offsets[fid] + extra + p.in_fragment_offset as i64;
            result.push((label, pos));
            i += 1;
        }
        proof {
            assert(result@ =~= labels_of(s, defs));
        }
        result
    }

    /// Overwrites four bytes inside a byte-run fragment with a
    /// little-endian 32-bit value.
    fn patch_write(&mut self, fid: usize, slot: usize, value: u32)
        requires
            old(self).wf(),
            fid < old(self).frags().len(),
            old(self).frags()[fid as int].is_bytes(),
            slot + 4 <= old(self).frags()[fid as int].bytes().len(),
        ensures
            final(self).wf(),
            final(self).defs() == old(self).defs(),
            final(self).patch_lists() == old(self).patch_lists(),
            final(self).public_labels@ == old(self).public_labels@,
            final(self).with_relaxation == old(self).with_relaxation,
            final(self).max_total == old(self).max_total,
            final(self).frags().len() == old(self).frags().len(),
            forall|f: int|
                0 <= f < old(self).frags().len() && f != fid ==> final(self).frags()[f] == old(self).frags()[f],
            final(self).frags()[fid as int].is_bytes(),
            final(self).frags()[fid as int].bytes().len() == old(self).frags()[fid as int].bytes().len(),
            forall|k: int|
                0 <= k < old(self).frags()[fid as int].bytes().len() ==> final(self).frags()[fid as int].bytes()[k] == if slot <= k < slot + 4 {
                    le32(value)[k - slot]
                } else {
                    old(self).frags()[fid as int].bytes()[k]
                },
    {
        let ghost s = self.frags();
        proof {
            lemma_bytes_len_bounded(*self, fid as int);
        }
        let frag = self.fragments.remove(fid);
        match frag {
            Fragment::Bytes { mut data } => {
                data[slot] = (value & 0xFF) as u8;
                data[slot + 1] = ((value >> 8) & 0xFF) as u8;
                data[slot + 2] = ((value >> 16) & 0xFF) as u8;
                data[slot + 3] = ((value >> 24) & 0xFF) as u8;
                self.fragments.insert(fid, Fragment::Bytes { data });
            },
            other => {
                self.fragments.insert(fid, other);
                proof {
                    assert(false);
                }
            },
        }
        proof {
            let t = self.frags();
            assert(t =~= s.update(fid as int, t[fid as int]));
            assert(t[fid as int].max_len() == s[fid as int].max_len());
            lemma_prefix_max_len_update(s, fid as int, t[fid as int], s.len() as int);
            let pl = self.patch_lists();
            assert(pl == old(self).patch_lists());
            assert forall|a: int, b: int|
                0 <= a < pl.len() && 0 <= b < pl[a].1.len() implies (#[trigger] pl[a].1[b]).wf(
                t,
            ) by {
                assert(pl[a].1[b].wf(s));
                let pfid = pl[a].1[b].instruction_position.fragment_id.value as int;
                if pfid != fid {
                    assert(t[pfid] == s[pfid]);
                }
            }
            assert forall|k: int|
                0 <= k < self.public_labels@.len() implies match find_label(
                self.defs(),
                #[trigger] self.public_labels@[k],
            ) {
                Some(p) => super::state::def_in_code(t, p),
                None => false,
            } by {
                assert(match find_label(old(self).defs(), old(self).public_labels@[k]) {
                    Some(p) => super::state::def_in_code(s, p),
                    None => false,
                });
            }
        }
    }
}

/// The two fragment sequences have the same layout: non-byte fragments
/// are identical and byte runs have equal lengths, so every position
/// computed against one holds against the other.
pub open spec fn shapes_eq(s: Seq<FragView>, t: Seq<FragView>) -> bool {
    &&& t.len() == s.len()
    &&& forall|f: int| 0 <= f < s.len() && !(#[trigger] s[f]).is_bytes() ==> t[f] == s[f]
    &&& forall|f: int|
        0 <= f < s.len() && (#[trigger] s[f]).is_bytes() ==> t[f].is_bytes() && t[f].bytes().len()
            == s[f].bytes().len()
}

/// Equal layouts give equal positions.
pub proof fn lemma_prefix_len_shapes(s: Seq<FragView>, t: Seq<FragView>, k: int)
    requires
        shapes_eq(s, t),
        0 <= k <= s.len(),
    ensures
        prefix_len(t, k) == prefix_len(s, k),
    decreases k,
{
    if k > 0 {
        lemma_prefix_len_shapes(s, t, k - 1);
        assert(t[k - 1].len() == s[k - 1].len());
    }
}

impl X86_64Assembler {
    /// Writes every pending RIP-relative displacement into its imm32
    /// slot: for each recorded instruction, the little-endian distance
    /// from the instruction's end to its label's position.
    pub fn patch_addresses(&mut self, labels: &Vec<(Label, i64)>, offsets: &Vec<i64>) -> (r:
        Result<(), AssembleError>)
        requires
            old(self).wf(),
            offsets@.len() == old(self).frags().len(),
            forall|k: int|
                0 <= k < offsets@.len() ==> offsets@[k] == prefix_len(old(self).frags(), k),
            forall|k: int|
                0 <= k < labels@.len() ==> -0x8000_0000 <= (#[trigger] labels@[k]).1
                    <= 0x1_0000_0010,
        ensures
            final(self).wf(),
            final(self).defs() == old(self).defs(),
            final(self).patch_lists() == old(self).patch_lists(),
            final(self).public_labels@ == old(self).public_labels@,
            final(self).with_relaxation == old(self).with_relaxation,
            final(self).max_total == old(self).max_total,
            shapes_eq(old(self).frags(), final(self).frags()),
            match r {
                Ok(()) => {
                    let s = old(self).frags();
                    let t = final(self).frags();
                    let pl = old(self).patch_lists();
                    &&& forall|a: int|
                        0 <= a < pl.len() ==> find_label(labels@, (#[trigger] pl[a]).0) is Some
                    &&& forall|a: int, b: int|
                        0 <= a < pl.len() && 0 <= b < pl[a].1.len() ==> {
                            let lp = find_label(labels@, pl[a].0)->Some_0 as int;
                            -0x8000_0000 <= patch_disp(s, (#[trigger] pl[a].1[b]), lp)
                                <= 0x7FFF_FFFF
                        }
                    &&& forall|a: int, b: int|
                        0 <= a < pl.len() && 0 <= b < pl[a].1.len() ==> {
                            let p = #[trigger] pl[a].1[b];
                            let lp = find_label(labels@, pl[a].0)->Some_0 as int;
                            let fid = p.instruction_position.fragment_id.value as int;
                            let slot = p.instruction_position.in_fragment_offset
                                + p.imm32_offset;
                            t[fid].bytes().subrange(slot, slot + 4) == le32(
                                patch_disp(s, p, lp) as u32,
                            )
                        }
                    &&& forall|f: int, k: int|
                        (0 <= f < s.len() && s[f].is_bytes() && 0 <= k < s[f].bytes().len() && (
                        forall|a: int, b: int|
                            0 <= a < pl.len() && 0 <= b < pl[a].1.len() ==> !in_slot(
                                #[trigger] pl[a].1[b],
                                f,
                                k,
                            ))) ==> (#[trigger] t[f].bytes()[k]) == s[f].bytes()[k]
                },
                Err(AssembleError::LabelNotSet(l)) => {
                    let pl = old(self).patch_lists();
                    exists|a: int|
                        0 <= a < pl.len() && (#[trigger] pl[a]).0 == l && find_label(
                            labels@,
                            l,
                        ) is None
                },
                Err(AssembleError::DisplacementOutOfRange) => {
                    let s = old(self).frags();
                    let pl = old(self).patch_lists();
                    exists|a: int, b: int|
                        0 <= a < pl.len() && 0 <= b < (#[trigger] pl[a]).1.len() && find_label(
                            labels@,
                            pl[a].0,
                        ) is Some && !(-0x8000_0000 <= patch_disp(
                            s,
                            #[trigger] pl[a].1[b],
                            find_label(labels@, pl[a].0)->Some_0 as int,
                        ) <= 0x7FFF_FFFF)
                },
                _ => false,
            },
    {
        let ghost s = self.frags();
        let ghost pl = self.patch_lists();
        let n = self.patchable_addresses.len();
        let mut i: usize = 0;
        while i < n
            invariant
                self.wf(),
                n == pl.len(),
                pl == self.patch_lists(),
                pl == old(self).patch_lists(),
                self.defs() == old(self).defs(),
                self.public_labels@ == old(self).public_labels@,
                self.with_relaxation == old(self).with_relaxation,
                self.max_total == old(self).max_total,
                s == old(self).frags(),
                total_max_len(s) <= MAX_CODE_BYTES,
                shapes_eq(s, self.frags()),
                i <= n,
                offsets@.len() == s.len(),
                forall|k: int| 0 <= k < offsets@.len() ==> offsets@[k] == prefix_len(s, k),
                forall|k: int|
                    0 <= k < labels@.len() ==> -0x8000_0000 <= (#[trigger] labels@[k]).1
                        <= 0x1_0000_0010,
                forall|a: int|
                    0 <= a < i ==> find_label(labels@, (#[trigger] pl[a]).0) is Some,
                forall|a: int, b: int|
                    0 <= a < i && 0 <= b < pl[a].1.len() ==> {
                        let lp = find_label(labels@, pl[a].0)->Some_0 as int;
                        -0x8000_0000 <= patch_disp(s, (#[trigger] pl[a].1[b]), lp) <= 0x7FFF_FFFF
                    },
                forall|a: int, b: int|
                    0 <= a < i && 0 <= b < pl[a].1.len() ==> {
                        let p = #[trigger] pl[a].1[b];
                        let lp = find_label(labels@, pl[a].0)->Some_0 as int;
                        let fid = p.instruction_position.fragment_id.value as int;
                        let slot = p.instruction_position.in_fragment_offset + p.imm32_offset;
                        self.frags()[fid].bytes().subrange(slot, slot + 4) == le32(
                            patch_disp(s, p, lp) as u32,
                        )
                    },
                forall|f: int, k: int|
                    (0 <= f < s.len() && s[f].is_bytes() && 0 <= k < s[f].bytes().len() && (
                    forall|a: int, b: int|
                        0 <= a < i && 0 <= b < pl[a].1.len() ==> !in_slot(
                            #[trigger] pl[a].1[b],
                            f,
                            k,
                        ))) ==> (#[trigger] self.frags()[f].bytes()[k]) == s[f].bytes()[k],
            decreases n - i,
        {
            let label = self.patchable_addresses[i].0;
            let lp: i64 = match find_index(labels, label) {
                Some(idx) => labels[idx].1,
                None => {
                    proof {
                        assert(pl[i as int].0 == label);
                    }
                    return Err(AssembleError::LabelNotSet(label));
                },
            };
            let m = self.patchable_addresses[i].1.len();
            let mut j: usize = 0;
            while j < m
                invariant
                    self.wf(),
                    n == pl.len(),
                    pl == self.patch_lists(),
                    pl == old(self).patch_lists(),
                    self.defs() == old(self).defs(),
                    self.public_labels@ == old(self).public_labels@,
                    self.with_relaxation == old(self).with_relaxation,
                    self.max_total == old(self).max_total,
                    s == old(self).frags(),
                    total_max_len(s) <= MAX_CODE_BYTES,
                    shapes_eq(s, self.frags()),
                    i < n,
                    j <= m,
                    m == pl[i as int].1.len(),
                    pl[i as int].0 == label,
                    find_label(labels@, label) == Some(lp),
                    -0x8000_0000 <= lp <= 0x1_0000_0010,
                    offsets@.len() == s.len(),
                    forall|k: int| 0 <= k < offsets@.len() ==> offsets@[k] == prefix_len(s, k),
                    forall|a: int|
                        0 <= a < i ==> find_label(labels@, (#[trigger] pl[a]).0) is Some,
                    forall|a: int, b: int|
                        (0 <= a < i && 0 <= b < pl[a].1.len()) || (a == i && 0 <= b < j) ==> {
                            let lp2 = find_label(labels@, pl[a].0)->Some_0 as int;
                            -0x8000_0000 <= patch_disp(s, (#[trigger] pl[a].1[b]), lp2)
                                <= 0x7FFF_FFFF
                        },
                    forall|a: int, b: int|
                        (0 <= a < i && 0 <= b < pl[a].1.len()) || (a == i && 0 <= b < j) ==> {
                            let p = #[trigger] pl[a].1[b];
                            let lp2 = find_label(labels@, pl[a].0)->Some_0 as int;
                            let fid = p.instruction_position.fragment_id.value as int;
                            let slot = p.instruction_position.in_fragment_offset + p.imm32_offset;
                            self.frags()[fid].bytes().subrange(slot, slot + 4) == le32(
                                patch_disp(s, p, lp2) as u32,
                            )
                        },
                    forall|f: int, k: int|
                        (0 <= f < s.len() && s[f].is_bytes() && 0 <= k < s[f].bytes().len() && (
                        forall|a: int, b: int|
                            (0 <= a < i && 0 <= b < pl[a].1.len()) || (a == i && 0 <= b < j)
                                ==> !in_slot(#[trigger] pl[a].1[b], f, k))) ==> (
                        #[trigger] self.frags()[f].bytes()[k]) == s[f].bytes()[k],
                decreases m - j,
            {
                let p = *self.patchable_addresses[i].1.get(j);
                proof {
                    assert(self.patch_lists()[i as int].1[j as int] == p);
                    assert(p.wf(self.frags()));
                    assert(p.wf(s)) by {
                        let fid = p.instruction_position.fragment_id.value as int;
                        assert(shapes_eq(s, self.frags()));
                        assert(s[fid].is_bytes());
                    }
                }
                let fid = p.instruction_position.fragment_id.index() as usize;
                proof {
                    lemma_offsets_bounded(s, fid as int);
                    super::state::lemma_prefix_single_le(s, fid as int);
                }
                let instr_end: i64 = offsets[fid] + p.instruction_position.in_fragment_offset
                    as i64 + p.instruction_length as i64;
                let disp = lp - instr_end;
                proof {
                    assert(disp == patch_disp(s, p, lp as int));
                }
                if disp < -0x8000_0000i64 || disp > 0x7FFF_FFFFi64 {
                    return Err(AssembleError::DisplacementOutOfRange);
                }
                let slot = (p.instruction_position.in_fragment_offset as u32 + p.imm32_offset)
                    as usize;
                let ghost before = self.frags();
                self.patch_write(fid, slot, #[verifier::truncate] (disp as u32));
                proof {
                    lemma_patch_step(*old(self), before, *self, pl, s, i as int, j as int, labels@, lp as int);
                }
                j += 1;
            }
            i += 1;
        }
        Ok(())
    }
}

/// After one patch write, every already-written slot keeps its value and
/// every byte outside the processed slots is still original: the write
/// stayed inside its own instruction's slot, and pending patches never
/// overlap.
proof fn lemma_patch_step(
    orig: X86_64Assembler,
    before: Seq<FragView>,
    post: X86_64Assembler,
    pl: Seq<(Label, Seq<super::state::PatchableImm32Instruction>)>,
    s: Seq<FragView>,
    i: int,
    j: int,
    labels: Seq<(Label, i64)>,
    lp: int,
)
    requires
        post.wf(),
        pl == post.patch_lists(),
        0 <= i < pl.len(),
        0 <= j < pl[i].1.len(),
        shapes_eq(s, before),
        shapes_eq(s, post.frags()),
        find_label(labels, pl[i].0) == Some(lp as i64),
        -0x8000_0000 <= lp <= 0x1_0000_0010,
        patches_disjoint_holds(pl),
        pl[i].1[j].wf(s),
        // the write: only fragment fid changed, and only inside the slot
        ({
            let p = pl[i].1[j];
            let fid = p.instruction_position.fragment_id.value as int;
            let slot = p.instruction_position.in_fragment_offset + p.imm32_offset;
            &&& forall|f: int| 0 <= f < s.len() && f != fid ==> post.frags()[f] == before[f]
            &&& forall|k: int|
                0 <= k < s[fid].bytes().len() ==> post.frags()[fid].bytes()[k] == if slot <= k
                    < slot + 4 {
                    le32(patch_disp(s, p, lp) as u32)[k - slot]
                } else {
                    before[fid].bytes()[k]
                }
        }),
        // already-written slots hold in `before`
        forall|a: int, b: int|
            (0 <= a < i && 0 <= b < pl[a].1.len()) || (a == i && 0 <= b < j) ==> {
                let p = #[trigger] pl[a].1[b];
                let lp2 = find_label(labels, pl[a].0)->Some_0 as int;
                let fid = p.instruction_position.fragment_id.value as int;
                let slot = p.instruction_position.in_fragment_offset + p.imm32_offset;
                before[fid].bytes().subrange(slot, slot + 4) == le32(patch_disp(s, p, lp2) as u32)
            },
        forall|a: int, b: int|
            0 <= a < pl.len() && 0 <= b < pl[a].1.len() ==> (#[trigger] pl[a].1[b]).wf(s),
        forall|f: int, k: int|
            (0 <= f < s.len() && s[f].is_bytes() && 0 <= k < s[f].bytes().len() && (forall|
                a: int,
                b: int,
            |
                (0 <= a < i && 0 <= b < pl[a].1.len()) || (a == i && 0 <= b < j) ==> !in_slot(
                    #[trigger] pl[a].1[b],
                    f,
                    k,
                ))) ==> (#[trigger] before[f].bytes()[k]) == s[f].bytes()[k],
    ensures
        forall|a: int, b: int|
            (0 <= a < i && 0 <= b < pl[a].1.len()) || (a == i && 0 <= b < j + 1) ==> {
                let p = #[trigger] pl[a].1[b];
                let lp2 = find_label(labels, pl[a].0)->Some_0 as int;
                let fid = p.instruction_position.fragment_id.value as int;
                let slot = p.instruction_position.in_fragment_offset + p.imm32_offset;
                post.frags()[fid].bytes().subrange(slot, slot + 4) == le32(patch_disp(s, p, lp2) as u32)
            },
        forall|f: int, k: int|
            (0 <= f < s.len() && s[f].is_bytes() && 0 <= k < s[f].bytes().len() && (forall|
                a: int,
                b: int,
            |
                (0 <= a < i && 0 <= b < pl[a].1.len()) || (a == i && 0 <= b < j + 1)
                    ==> !in_slot(#[trigger] pl[a].1[b], f, k))) ==> (
        #[trigger] post.frags()[f].bytes()[k]) == s[f].bytes()[k],
{
    let pnew = pl[i].1[j];
    let nfid = pnew.instruction_position.fragment_id.value as int;
    let nslot = pnew.instruction_position.in_fragment_offset + pnew.imm32_offset;
    assert forall|a: int, b: int|
        (0 <= a < i && 0 <= b < pl[a].1.len()) || (a == i && 0 <= b < j + 1) implies {
        let p = #[trigger] pl[a].1[b];
        let lp2 = find_label(labels, pl[a].0)->Some_0 as int;
        let fid = p.instruction_position.fragment_id.value as int;
        let slot = p.instruction_position.in_fragment_offset + p.imm32_offset;
        post.frags()[fid].bytes().subrange(slot, slot + 4) == le32(patch_disp(s, p, lp2) as u32)
    } by {
        let p = pl[a].1[b];
        let lp2 = find_label(labels, pl[a].0)->Some_0 as int;
        let fid = p.instruction_position.fragment_id.value as int;
        let slot = p.instruction_position.in_fragment_offset + p.imm32_offset;
        if a == i && b == j {
            assert(post.frags()[fid].bytes().subrange(slot, slot + 4) =~= le32(
                patch_disp(s, p, lp2) as u32,
            ));
        } else {
            assert(p.wf(s));
            if fid == nfid {
                // disjoint instructions give disjoint slots
                assert(p.instruction_position.in_fragment_offset + p.instruction_length
                    <= pnew.instruction_position.in_fragment_offset
                    || pnew.instruction_position.in_fragment_offset
                    + pnew.instruction_length <= p.instruction_position.in_fragment_offset);
                assert(slot + 4 <= nslot || nslot + 4 <= slot);
                assert(post.frags()[fid].bytes().subrange(slot, slot + 4) =~= before[fid].bytes().subrange(
                    slot,
                    slot + 4,
                ));
            } else {
                assert(post.frags()[fid] == before[fid]);
                assert(post.frags()[fid].bytes().subrange(slot, slot + 4) =~= before[fid].bytes().subrange(
                    slot,
                    slot + 4,
                ));
            }
        }
    }
    assert forall|f: int, k: int|
        (0 <= f < s.len() && s[f].is_bytes() && 0 <= k < s[f].bytes().len() && (forall|
            a: int,
            b: int,
        |
            (0 <= a < i && 0 <= b < pl[a].1.len()) || (a == i && 0 <= b < j + 1) ==> !in_slot(
                #[trigger] pl[a].1[b],
                f,
                k,
            ))) implies (#[trigger] post.frags()[f].bytes()[k]) == s[f].bytes()[k] by {
        assert(!in_slot(pl[i].1[j], f, k));
        assert(before[f].bytes()[k] == s[f].bytes()[k]) by {
            assert forall|a: int, b: int|
                (0 <= a < i && 0 <= b < pl[a].1.len()) || (a == i && 0 <= b < j) implies !in_slot(
                #[trigger] pl[a].1[b],
                f,
                k,
            ) by {}
        }
        if f == nfid {
            assert(!(nslot <= k < nslot + 4));
        }
    }
}

/// The disjointness of pending patches, restated for the patch pass.
pub open spec fn patches_disjoint_holds(
    pl: Seq<(Label, Seq<super::state::PatchableImm32Instruction>)>,
) -> bool {
    super::state::patches_disjoint(pl)
}

/// The bytes one fragment contributes to the output: a byte run as it
/// stands; a relaxable jump encoded with its chosen width, displacing
/// from the end of its encoding to its target's position.
pub open spec fn frag_out(s: Seq<FragView>, labels: Seq<(Label, i64)>, i: int) -> Seq<u8> {
    match s[i] {
        FragView::Bytes { data } => data,
        FragView::Jump { variant, target } => match find_label(labels, target) {
            Some(lp) => if variant == RelaxationVariant::Short {
                jmp_short_bytes((lp - (prefix_len(s, i) + SHORT_JUMP_LEN)) as i8)
            } else {
                jmp_long_bytes((lp - (prefix_len(s, i) + LONG_JUMP_LEN)) as i32)
            },
            None => Seq::empty(),
        },
        FragView::CondJump { variant, cond, target } => match find_label(labels, target) {
            Some(lp) => if variant == RelaxationVariant::Short {
                jcc_short_bytes(cond, (lp - (prefix_len(s, i) + SHORT_COND_JUMP_LEN)) as i8)
            } else {
                jcc_long_bytes(cond, (lp - (prefix_len(s, i) + LONG_COND_JUMP_LEN)) as i32)
            },
            None => Seq::empty(),
        },
    }
}

/// The output stream of the first `i` fragments.
pub open spec fn stream_upto(s: Seq<FragView>, labels: Seq<(Label, i64)>, i: int) -> Seq<u8>
    decreases i,
{
    if i <= 0 {
        Seq::empty()
    } else {
        stream_upto(s, labels, i - 1) + frag_out(s, labels, i - 1)
    }
}

/// Whether a relaxable fragment's chosen width holds its displacement
/// against the label table.
pub open spec fn jump_fits(s: Seq<FragView>, labels: Seq<(Label, i64)>, i: int) -> bool {
    match find_label(labels, s[i].target()) {
        Some(lp) => {
            let d = lp - (prefix_len(s, i) + s[i].len());
            if s[i].is_short() {
                -128 <= d <= 127
            } else {
                -0x8000_0000 <= d <= 0x7FFF_FFFF
            }
        },
        None => false,
    }
}

impl X86_64Assembler {
    /// Walks the fragments in order and writes the finished machine code
    /// to the sink, then reports the byte count and the public labels'
    /// final positions.
    pub fn emit_fragments(
        &self,
        labels: &Vec<(Label, i64)>,
        offsets: &Vec<i64>,
        out: &mut Vec<u8>,
    ) -> (r: Result<EmissionData, AssembleError>)
        requires
            self.wf(),
            offsets@.len() == self.frags().len(),
            forall|k: int| 0 <= k < offsets@.len() ==> offsets@[k] == prefix_len(self.frags(), k),
            forall|k: int|
                0 <= k < labels@.len() ==> -0x8000_0000 <= (#[trigger] labels@[k]).1
                    <= 0x1_0000_0010,
            // relaxation's promise: every remaining short form fits
            forall|i: int|
                0 <= i < self.frags().len() && (#[trigger] self.frags()[i]).is_short()
                    ==> match find_label(labels@, self.frags()[i].target()) {
                    Some(lp) => -128 <= lp - (prefix_len(self.frags(), i) + 2) <= 127,
                    None => false,
                },
            // every public label resolves to a position inside the code
            forall|k: int|
                0 <= k < self.public_labels@.len() ==> match find_label(
                    labels@,
                    #[trigger] self.public_labels@[k],
                ) {
                    Some(v) => 0 <= v <= MAX_CODE_BYTES,
                    None => false,
                },
        ensures
            match r {
                Ok(ed) => {
                    let s = self.frags();
                    &&& forall|i: int|
                        0 <= i < s.len() && !(#[trigger] s[i]).is_bytes() ==> jump_fits(
                            s,
                            labels@,
                            i,
                        )
                    &&& final(out)@ == old(out)@ + stream_upto(s, labels@, s.len() as int)
                    &&& ed.spec_emitted_bytes() == total_len(s)
                    &&& ed.spec_positions().len() == self.public_labels@.len()
                    &&& forall|k: int|
                        0 <= k < self.public_labels@.len() ==> (#[trigger] ed.spec_positions()[k]).0
                            == self.public_labels@[k] && ed.spec_positions()[k].1 == find_label(
                            labels@,
                            self.public_labels@[k],
                        )->Some_0
                },
                Err(AssembleError::LabelNotSet(l)) => {
                    let s = self.frags();
                    exists|i: int|
                        0 <= i < s.len() && !(#[trigger] s[i]).is_bytes() && s[i].target() == l
                            && find_label(labels@, l) is None
                },
                Err(AssembleError::InternalInconsistency) => {
                    let s = self.frags();
                    exists|i: int|
                        0 <= i < s.len() && !(#[trigger] s[i]).is_bytes() && !jump_fits(
                            s,
                            labels@,
                            i,
                        ) && find_label(labels@, s[i].target()) is Some
                },
                _ => false,
            },
    {
        let ghost s = self.frags();
        let n = self.fragments.len();
        let mut emitted: i64 = 0;
        let mut i: usize = 0;
        while i < n
            invariant
                self.wf(),
                s == self.frags(),
                i <= n,
                n == s.len(),
                offsets@.len() == n,
                forall|k: int| 0 <= k < n ==> offsets@[k] == prefix_len(s, k),
                forall|k: int|
                    0 <= k < labels@.len() ==> -0x8000_0000 <= (#[trigger] labels@[k]).1
                        <= 0x1_0000_0010,
                forall|q: int|
                    0 <= q < n && (#[trigger] s[q]).is_short() ==> match find_label(
                        labels@,
                        s[q].target(),
                    ) {
                        Some(lp) => -128 <= lp - (prefix_len(s, q) + 2) <= 127,
                        None => false,
                    },
                forall|q: int|
                    0 <= q < i && !(#[trigger] s[q]).is_bytes() ==> jump_fits(s, labels@, q),
                out@ == old(out)@ + stream_upto(s, labels@, i as int),
                emitted == prefix_len(s, i as int),
            decreases n - i,
        {
            proof {
                lemma_bytes_len_bounded(*self, i as int);
                lemma_offsets_bounded(s, i + 1);
                lemma_offsets_bounded(s, i as int);
            }
            match &self.fragments[i] {
                Fragment::Bytes { data } => {
                    super::state::append_bytes(out, data);
                    emitted = emitted + data.len() as i64;
                },
                Fragment::Relaxable_Jump { variant, label } => {
                    let lp: i64 = match find_index(labels, *label) {
                        Some(idx) => labels[idx].1,
                        None => {
                            return Err(AssembleError::LabelNotSet(*label));
                        },
                    };
                    match variant {
                        RelaxationVariant::Short => {
                            let d = lp - (offsets[i] + 2);
                            if d < -128 || d > 127 {
                                // relaxation guarantees this cannot fire
                                return Err(AssembleError::InternalInconsistency);
                            }
                            let b = build_jmp_short(d as i8);
                            super::state::append_bytes(out, &b);
                            emitted = emitted + 2;
                        },
                        RelaxationVariant::Long => {
                            let d = lp - (offsets[i] + 5);
                            if d < -0x8000_0000i64 || d > 0x7FFF_FFFFi64 {
                                return Err(AssembleError::InternalInconsistency);
                            }
                            let b = build_jmp_long(d as i32);
                            super::state::append_bytes(out, &b);
                            emitted = emitted + 5;
                        },
                    }
                },
                Fragment::Relaxable_CondJump { variant, condition, label } => {
                    let lp: i64 = match find_index(labels, *label) {
                        Some(idx) => labels[idx].1,
                        None => {
                            return Err(AssembleError::LabelNotSet(*label));
                        },
                    };
                    match variant {
                        RelaxationVariant::Short => {
                            let d = lp - (offsets[i] + 2);
                            if d < -128 || d > 127 {
                                return Err(AssembleError::InternalInconsistency);
                            }
                            let b = build_jcc_short(*condition, d as i8);
                            super::state::append_bytes(out, &b);
                            emitted = emitted + 2;
                        },
                        RelaxationVariant::Long => {
                            let d = lp - (offsets[i] + 6);
                            if d < -0x8000_0000i64 || d > 0x7FFF_FFFFi64 {
                                return Err(AssembleError::InternalInconsistency);
                            }
                            let b = build_jcc_long(*condition, d as i32);
                            super::state::append_bytes(out, &b);
                            emitted = emitted + 6;
                        },
                    }
                },
            }
            proof {
                assert(out@ =~= old(out)@ + stream_upto(s, labels@, i + 1));
            }
            i += 1;
        }
        let mut positions: Vec<(Label, i32)> = Vec::new();
        let m = self.public_labels.len();
        let mut k: usize = 0;
        while k < m
            invariant
                self.wf(),
                s == self.frags(),
                k <= m,
                m == self.public_labels@.len(),
                forall|q: int|
                    0 <= q < m ==> match find_label(labels@, #[trigger] self.public_labels@[q]) {
                        Some(v) => 0 <= v <= MAX_CODE_BYTES,
                        None => false,
                    },
                positions@.len() == k,
                forall|q: int|
                    0 <= q < k ==> (#[trigger] positions@[q]).0 == self.public_labels@[q]
                        && positions@[q].1 == find_label(
                        labels@,
                        self.public_labels@[q],
                    )->Some_0,
            decreases m - k,
        {
            let label = self.public_labels[k];
            let v: i64 = match find_index(labels, label) {
                Some(idx) => labels[idx].1,
                None => {
                    proof {
                        assert(false);
                    }
                    0
                },
            };
            positions.push((label, v as i32));
            k += 1;
        }
        proof {
            lemma_offsets_bounded(s, s.len() as int);
        }
        Ok(EmissionData::new(emitted as i32, positions))
    }
}

/// Looking a label up in the resolved table is looking it up in the
/// definitions and taking its position.
pub proof fn lemma_find_labels_of(
    s: Seq<FragView>,
    defs: Seq<(Label, super::state::FragmentRelativePosition)>,
    q: Label,
)
    ensures
        find_label(labels_of(s, defs), q) == match find_label(defs, q) {
            Some(p) => Some(def_pos(s, p) as i64),
            None => None::<i64>,
        },
    decreases defs.len(),
{
    reveal_with_fuel(find_label, 2);
    if defs.len() > 0 {
        assert(labels_of(s, defs).drop_first() =~= labels_of(s, defs.drop_first()));
        lemma_find_labels_of(s, defs.drop_first(), q);
    }
}

/// A definition inside the code resolves to a position inside the code.
pub proof fn lemma_def_pos_in_code(s: Seq<FragView>, p: super::state::FragmentRelativePosition)
    requires
        super::state::def_in_code(s, p),
    ensures
        0 <= def_pos(s, p) <= total_len(s),
{
    let fid = p.fragment_id.value as int;
    lemma_prefix_nonneg(s, fid);
    assert(prefix_len(s, fid + 1) == prefix_len(s, fid) + s[fid].len());
    super::fragment::lemma_prefix_len_monotone(s, fid + 1, s.len() as int);
}

/// A patched fragment sequence: the layout of the relaxed fragments,
/// with every pending patch's imm32 slot holding its displacement and
/// every other byte untouched.
pub open spec fn patched_ok(
    s: Seq<FragView>,
    t: Seq<FragView>,
    pl: Seq<(Label, Seq<super::state::PatchableImm32Instruction>)>,
    labels: Seq<(Label, i64)>,
) -> bool {
    &&& shapes_eq(s, t)
    &&& forall|a: int| 0 <= a < pl.len() ==> find_label(labels, (#[trigger] pl[a]).0) is Some
    &&& forall|a: int, b: int|
        0 <= a < pl.len() && 0 <= b < pl[a].1.len() ==> {
            let lp = find_label(labels, pl[a].0)->Some_0 as int;
            -0x8000_0000 <= patch_disp(s, (#[trigger] pl[a].1[b]), lp) <= 0x7FFF_FFFF
        }
    &&& forall|a: int, b: int|
        0 <= a < pl.len() && 0 <= b < pl[a].1.len() ==> {
            let p = #[trigger] pl[a].1[b];
            let lp = find_label(labels, pl[a].0)->Some_0 as int;
            let fid = p.instruction_position.fragment_id.value as int;
            let slot = p.instruction_position.in_fragment_offset + p.imm32_offset;
            t[fid].bytes().subrange(slot, slot + 4) == le32(patch_disp(s, p, lp) as u32)
        }
    &&& forall|f: int, k: int|
        (0 <= f < s.len() && s[f].is_bytes() && 0 <= k < s[f].bytes().len() && (forall|
            a: int,
            b: int,
        |
            0 <= a < pl.len() && 0 <= b < pl[a].1.len() ==> !in_slot(
                #[trigger] pl[a].1[b],
                f,
                k,
            ))) ==> (#[trigger] t[f].bytes()[k]) == s[f].bytes()[k]
}

impl X86_64Assembler {
    /// Finalizes the emitted code and writes the raw machine code to the
    /// sink.
    ///
    /// Four ordered passes run: initial offsets are computed, relaxation
    /// chooses every jump's final width, every label is resolved to its
    /// final position, the pending RIP-relative slots are patched, and
    /// the fragments are walked and written out.  On success the output
    /// is exactly the relaxed, patched fragment stream, every remaining
    /// short jump fits a signed byte, and every public label's reported
    /// position is its absolute offset in the stream.
    pub fn assemble(self, out: &mut Vec<u8>) -> (r: Result<EmissionData, AssembleError>)
        requires
            self.wf(),
        ensures
            match r {
                Ok(ed) => {
                    let s1 = relax_fix(self.frags(), self.defs());
                    let lm = labels_of(s1, self.defs());
                    &&& shorts_defined(self.frags(), self.defs())
                    &&& promotes(self.frags(), s1)
                    &&& relax_stable(s1, self.defs())
                    &&& exists|s2: Seq<FragView>|
                        {
                            &&& #[trigger] patched_ok(s1, s2, self.patch_lists(), lm)
                            &&& final(out)@ == old(out)@ + stream_upto(s2, lm, s2.len() as int)
                            &&& forall|i: int|
                                0 <= i < s2.len() && !(#[trigger] s2[i]).is_bytes() ==> jump_fits(
                                    s2,
                                    lm,
                                    i,
                                )
                        }
                    &&& ed.spec_emitted_bytes() == total_len(s1)
                    &&& ed.spec_positions().len() == self.public_labels@.len()
                    &&& forall|k: int|
                        0 <= k < self.public_labels@.len() ==> (#[trigger] ed.spec_positions()[k]).0
                            == self.public_labels@[k] && ed.spec_positions()[k].1 == def_pos(
                            s1,
                            find_label(self.defs(), self.public_labels@[k])->Some_0,
                        )
                },
                Err(AssembleError::LabelNotSet(l)) => {
                    &&& find_label(self.defs(), l) is None
                    &&& (exists|i: int|
                        0 <= i < self.frags().len() && !(#[trigger] self.frags()[i]).is_bytes()
                            && self.frags()[i].target() == l) || (exists|a: int|
                        0 <= a < self.patch_lists().len() && (#[trigger] self.patch_lists()[a]).0
                            == l)
                },
                Err(AssembleError::DisplacementOutOfRange) => {
                    let s1 = relax_fix(self.frags(), self.defs());
                    let lm = labels_of(s1, self.defs());
                    exists|a: int, b: int|
                        0 <= a < self.patch_lists().len() && 0 <= b < (
                        #[trigger] self.patch_lists()[a]).1.len() && find_label(
                            lm,
                            self.patch_lists()[a].0,
                        ) is Some && !(-0x8000_0000 <= patch_disp(
                            s1,
                            #[trigger] self.patch_lists()[a].1[b],
                            find_label(lm, self.patch_lists()[a].0)->Some_0 as int,
                        ) <= 0x7FFF_FFFF)
                },
                Err(AssembleError::InternalInconsistency) => {
                    let s1 = relax_fix(self.frags(), self.defs());
                    let lm = labels_of(s1, self.defs());
                    exists|i: int|
                        0 <= i < s1.len() && !(#[trigger] s1[i]).is_bytes() && find_label(
                            lm,
                            s1[i].target(),
                        ) is Some && !jump_fits(s1, lm, i)
                },
            },
    {
        let mut this = self;
        let ghost s0 = this.frags();
        let ghost defs = this.defs();
        let ghost pl = this.patch_lists();
        let mut offsets = this.calculate_initial_offsets();
        match this.relax_fragments(&mut offsets) {
            Ok(()) => {},
            Err(e) => {
                proof {
                    if let AssembleError::LabelNotSet(l) = e {
                        super::relax::lemma_first_unset_witness(s0, defs, 0, l);
                        let j = choose|j: int|
                            0 <= j < s0.len() && (#[trigger] s0[j]).is_short() && s0[j].target()
                                == l && find_label(defs, l) is None;
                        assert(!s0[j].is_bytes());
                    }
                }
                return Err(e);
            },
        }
        let ghost s1 = this.frags();
        proof {
            super::relax::lemma_relax_fix_props(s0, defs);
        }
        let labels = this.calculate_labels_map(&offsets);
        match this.patch_addresses(&labels, &offsets) {
            Ok(()) => {},
            Err(e) => {
                proof {
                    assert(labels@ == labels_of(s1, defs));
                    if let AssembleError::LabelNotSet(l) = e {
                        let a = choose|a: int|
                            0 <= a < pl.len() && (#[trigger] pl[a]).0 == l && find_label(
                                labels@,
                                l,
                            ) is None;
                        lemma_find_labels_of(s1, defs, l);
                        assert(find_label(defs, l) is None);
                        assert(self.patch_lists()[a].0 == l);
                    }
                }
                return Err(e);
            },
        }
        let ghost s2 = this.frags();
        proof {
            // offsets still hold against the patched layout
            assert forall|k: int| 0 <= k < offsets@.len() implies offsets@[k] == prefix_len(
                s2,
                k,
            ) by {
                lemma_prefix_len_shapes(s1, s2, k);
            }
            // the relaxed shorts still fit against the label table
            assert forall|i: int|
                0 <= i < s2.len() && (#[trigger] s2[i]).is_short() implies match find_label(
                labels@,
                s2[i].target(),
            ) {
                Some(lp) => -128 <= lp - (prefix_len(s2, i) + 2) <= 127,
                None => false,
            } by {
                assert(s2[i] == s1[i]);
                assert(relax_stable(s1, defs));
                assert(find_label(defs, s1[i].target()) is Some);
                lemma_find_labels_of(s1, defs, s1[i].target());
                let p = find_label(defs, s1[i].target())->Some_0;
                assert(-128 <= short_disp(s1, defs, i) <= 127);
                assert(s1[i].len() == 2);
                lemma_prefix_len_shapes(s1, s2, i);
                lemma_offsets_bounded(s1, s1.len() as int);
                lemma_offsets_bounded(s1, i);
            }
            // public labels resolve to positions inside the code
            assert forall|k: int|
                0 <= k < this.public_labels@.len() implies match find_label(
                labels@,
                #[trigger] this.public_labels@[k],
            ) {
                Some(v) => 0 <= v <= MAX_CODE_BYTES,
                None => false,
            } by {
                let q = this.public_labels@[k];
                lemma_find_labels_of(s1, defs, q);
                let p = find_label(defs, q)->Some_0;
                assert(super::state::def_in_code(s1, p));
                lemma_def_pos_in_code(s1, p);
                lemma_offsets_bounded(s1, s1.len() as int);
            }
        }
        let result = this.emit_fragments(&labels, &offsets, out);
        proof {
            assert(labels@ == labels_of(s1, defs));
            if result is Err {
                let e = result->Err_0;
                if let AssembleError::LabelNotSet(l) = e {
                    let i = choose|i: int|
                        0 <= i < s2.len() && !(#[trigger] s2[i]).is_bytes() && s2[i].target() == l
                            && find_label(labels@, l) is None;
                    assert(s1[i] == s2[i]);
                    assert(promote1(s0[i], s1[i]));
                    assert(!s0[i].is_bytes() && s0[i].target() == l);
                    lemma_find_labels_of(s1, defs, l);
                    assert(find_label(defs, l) is None);
                }
                if e == AssembleError::InternalInconsistency {
                    let i = choose|i: int|
                        0 <= i < s2.len() && !(#[trigger] s2[i]).is_bytes() && !jump_fits(
                            s2,
                            labels@,
                            i,
                        ) && find_label(labels@, s2[i].target()) is Some;
                    assert(s1[i] == s2[i]);
                    lemma_prefix_len_shapes(s1, s2, i);
                    assert(!jump_fits(s1, labels@, i));
                }
            }
            if result is Ok {
                assert(patched_ok(s1, s2, pl, labels@));
                assert forall|k: int|
                    0 <= k < this.public_labels@.len() implies find_label(
                    labels@,
                    #[trigger] this.public_labels@[k],
                )->Some_0 == def_pos(s1, find_label(defs, this.public_labels@[k])->Some_0) by {
                    lemma_find_labels_of(s1, defs, this.public_labels@[k]);
                    let p = find_label(defs, this.public_labels@[k])->Some_0;
                    lemma_def_pos_in_code(s1, p);
                }
                assert(total_len(s2) == total_len(s1)) by {
                    lemma_prefix_len_shapes(s1, s2, s1.len() as int);
                }
            }
        }
        result
    }
}

/// Prefix sums are nonnegative.
proof fn lemma_prefix_nonneg(s: Seq<FragView>, k: int)
    ensures
        prefix_len(s, k) >= 0,
    decreases k,
{
    if k > 0 {
        lemma_prefix_nonneg(s, k - 1);
    }
}

/// A fragment that a pass has not reached keeps its shortness and target
/// from the pass's start, so its target is defined.
proof fn lemma_shorts_defined_scan(
    sp: Seq<FragView>,
    cur: Seq<FragView>,
    defs: Seq<(Label, super::state::FragmentRelativePosition)>,
    i: int,
)
    requires
        shorts_defined(sp, defs),
        cur == scan_upto(sp, defs, i),
        0 <= i < sp.len(),
        cur[i].is_short(),
    ensures
        find_label(defs, cur[i].target()) is Some,
{
    lemma_scan_upto_count(sp, defs, i);
    assert(cur[i] == sp[i]);
}

/// An offset read during the bump stays within the total size bound.
proof fn lemma_offsets_bounded(s: Seq<FragView>, k: int)
    requires
        0 <= k <= s.len(),
    ensures
        prefix_len(s, k) <= total_max_len(s),
        prefix_len(s, k) >= 0,
{
    lemma_prefix_nonneg(s, k);
    lemma_prefix_len_le_max(s, k);
    lemma_prefix_max_len_tail(s, k, s.len() as int);
}

/// Promoting one short jump preserves the assembler's consistency: the
/// fragment keeps its largest length and its non-byte kind, and every
/// byte run is untouched.
proof fn lemma_promote_wf(pre: X86_64Assembler, post: X86_64Assembler, i: int)
    requires
        pre.wf(),
        0 <= i < pre.frags().len(),
        pre.frags()[i].is_short(),
        post.frags() == pre.frags().update(i, pre.frags()[i].promoted()),
        post.label_offsets == pre.label_offsets,
        post.patchable_addresses == pre.patchable_addresses,
        post.public_labels == pre.public_labels,
        post.max_total == pre.max_total,
        post.with_relaxation == pre.with_relaxation,
    ensures
        post.wf(),
{
    let s = pre.frags();
    let t = post.frags();
    assert(s[i].promoted().max_len() == s[i].max_len());
    lemma_prefix_max_len_update(s, i, s[i].promoted(), s.len() as int);
    assert(total_max_len(t) == total_max_len(s));
    assert(t[0].is_bytes()) by {
        assert(!s[i].is_bytes());
    }
    assert forall|k: int| 1 <= k < t.len() implies (#[trigger] t[k]).max_len() >= 1 by {
        assert(s[k].max_len() >= 1);
    }
    let pl = post.patch_lists();
    assert(pl == pre.patch_lists());
    assert forall|a: int, b: int|
        0 <= a < pl.len() && 0 <= b < pl[a].1.len() implies (#[trigger] pl[a].1[b]).wf(t) by {
        assert(pl[a].1[b].wf(s));
        let fid = pl[a].1[b].instruction_position.fragment_id.value as int;
        assert(s[fid].is_bytes());
        assert(fid != i);
        assert(t[fid] == s[fid]);
    }
    assert forall|k: int|
        0 <= k < post.public_labels@.len() implies match find_label(
        post.defs(),
        #[trigger] post.public_labels@[k],
    ) {
        Some(p) => super::state::def_in_code(t, p),
        None => false,
    } by {
        assert(match find_label(pre.defs(), pre.public_labels@[k]) {
            Some(p) => super::state::def_in_code(s, p),
            None => false,
        });
        let p = find_label(pre.defs(), pre.public_labels@[k]).unwrap();
        let fid = p.fragment_id.value as int;
        if fid != i {
            assert(t[fid] == s[fid]);
        }
    }
}

} // verus!
