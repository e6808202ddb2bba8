//! Global properties of the assembler, stated and proved over the
//! specification model: the relaxation pass bound and its idempotence,
//! the stream-position correspondence, and the uniqueness of the
//! patched code.

use vstd::prelude::*;

use crate::models::label::Label;
use super::fragment::FragView;
use super::label_map::find_label;
use super::passes::patched_ok;
use super::passes::stream_upto;
use super::passes::frag_out;
use super::relax::count_short;
use super::relax::lemma_count_short_nonneg;
use super::relax::lemma_scan_upto_count;
use super::relax::relax_fix;
use super::relax::scan;
use super::state::FragmentRelativePosition;
use super::state::PatchableImm32Instruction;
use super::state::patches_in_range;

verus! {

/// How many relaxation passes change something before the fixed point
/// is reached.
pub open spec fn relax_rounds(
    s: Seq<FragView>,
    defs: Seq<(Label, FragmentRelativePosition)>,
) -> int
    decreases count_short(s) via relax_rounds_decreases
{
    if scan(s, defs) == s {
        0
    } else {
        1 + relax_rounds(scan(s, defs), defs)
    }
}

#[via_fn]
proof fn relax_rounds_decreases(s: Seq<FragView>, defs: Seq<(Label, FragmentRelativePosition)>) {
    lemma_count_short_nonneg(s);
    if scan(s, defs) != s {
        lemma_scan_upto_count(s, defs, s.len() as int);
        lemma_count_short_nonneg(scan(s, defs));
    }
}

/// The number of relaxable fragments.
pub open spec fn count_relaxable(s: Seq<FragView>) -> int
    decreases s.len(),
{
    if s.len() == 0 {
        0
    } else {
        count_relaxable(s.drop_last()) + if s.last().is_bytes() {
            0int
        } else {
            1int
        }
    }
}

/// At most as many fragments are short as are relaxable at all.
pub proof fn lemma_count_short_le_relaxable(s: Seq<FragView>)
    ensures
        count_short(s) <= count_relaxable(s),
    decreases s.len(),
{
    if s.len() > 0 {
        lemma_count_short_le_relaxable(s.drop_last());
    }
}

/// Relaxation terminates after at most as many changing passes as there
/// are relaxable fragments: every changing pass grows at least one
/// short jump, a jump grows at most once, and at most all relaxable
/// fragments start short.
pub proof fn lemma_relaxation_round_bound(
    s: Seq<FragView>,
    defs: Seq<(Label, FragmentRelativePosition)>,
)
    ensures
        0 <= relax_rounds(s, defs) <= count_short(s),
        count_short(s) <= count_relaxable(s),
    decreases count_short(s),
{
    lemma_count_short_nonneg(s);
    lemma_count_short_le_relaxable(s);
    if scan(s, defs) != s {
        lemma_scan_upto_count(s, defs, s.len() as int);
        lemma_count_short_nonneg(scan(s, defs));
        lemma_relaxation_round_bound(scan(s, defs), defs);
    }
}

/// The relaxation fixed point passes a scan unchanged.
pub proof fn lemma_scan_of_fix(s: Seq<FragView>, defs: Seq<(Label, FragmentRelativePosition)>)
    ensures
        scan(relax_fix(s, defs), defs) == relax_fix(s, defs),
    decreases count_short(s),
{
    lemma_count_short_nonneg(s);
    if scan(s, defs) != s {
        lemma_scan_upto_count(s, defs, s.len() as int);
        lemma_count_short_nonneg(scan(s, defs));
        lemma_scan_of_fix(scan(s, defs), defs);
    }
}

/// Running relaxation on an already relaxed state is a no-op: the fixed
/// point is idempotent.
pub proof fn lemma_relaxation_idempotent(
    s: Seq<FragView>,
    defs: Seq<(Label, FragmentRelativePosition)>,
)
    ensures
        relax_fix(relax_fix(s, defs), defs) == relax_fix(s, defs),
{
    lemma_scan_of_fix(s, defs);
}

/// Every fragment contributes exactly its chosen length to the stream,
/// so a fragment's byte position in the emitted output is its prefix
/// sum; with it, every resolved label position is the absolute offset of
/// its definition in the emitted stream.
pub proof fn lemma_stream_position(s: Seq<FragView>, labels: Seq<(Label, i64)>, k: int)
    requires
        0 <= k <= s.len(),
        forall|i: int|
            0 <= i < s.len() && !(#[trigger] s[i]).is_bytes() ==> find_label(
                labels,
                s[i].target(),
            ) is Some,
    ensures
        stream_upto(s, labels, k).len() == super::fragment::prefix_len(s, k),
    decreases k,
{
    if k > 0 {
        lemma_stream_position(s, labels, k - 1);
        assert(super::passes::frag_out(s, labels, k - 1).len() == s[k - 1].len());
    }
}

/// The patched fragment sequence is uniquely determined: every byte
/// either lies in exactly one pending patch's imm32 slot, whose value
/// the patch fixes, or is carried over unchanged.  Together with the
/// emission stream being a function of the patched fragments, assembling
/// the same instruction sequence twice gives byte-identical output.
pub proof fn lemma_patched_unique(
    s: Seq<FragView>,
    t1: Seq<FragView>,
    t2: Seq<FragView>,
    pl: Seq<(Label, Seq<PatchableImm32Instruction>)>,
    labels: Seq<(Label, i64)>,
)
    requires
        patches_in_range(pl, s),
        patched_ok(s, t1, pl, labels),
        patched_ok(s, t2, pl, labels),
    ensures
        t1 == t2,
{
    assert forall|f: int| 0 <= f < s.len() implies t1[f] == t2[f] by {
        if s[f].is_bytes() {
            assert forall|k: int| 0 <= k < s[f].bytes().len() implies t1[f].bytes()[k]
                == t2[f].bytes()[k] by {
                if exists|a: int, b: int|
                    0 <= a < pl.len() && 0 <= b < pl[a].1.len() && super::passes::in_slot(
                        #[trigger] pl[a].1[b],
                        f,
                        k,
                    ) {
                    let (a, b) = choose|a: int, b: int|
                        0 <= a < pl.len() && 0 <= b < pl[a].1.len() && super::passes::in_slot(
                            #[trigger] pl[a].1[b],
                            f,
                            k,
                        );
                    let p = pl[a].1[b];
                    let lp = find_label(labels, pl[a].0)->Some_0 as int;
                    let slot = p.instruction_position.in_fragment_offset + p.imm32_offset;
                    assert(t1[f].bytes().subrange(slot, slot + 4) == super::encodings::le32(
                        super::passes::patch_disp(s, p, lp) as u32,
                    ));
                    assert(t2[f].bytes().subrange(slot, slot + 4) == super::encodings::le32(
                        super::passes::patch_disp(s, p, lp) as u32,
                    ));
                    assert(p.wf(s));
                    assert(t1[f].bytes().subrange(slot, slot + 4)[k - slot] == t1[f].bytes()[k]);
                    assert(t2[f].bytes().subrange(slot, slot + 4)[k - slot] == t2[f].bytes()[k]);
                } else {
                    assert(t1[f].bytes()[k] == s[f].bytes()[k]);
                    assert(t2[f].bytes()[k] == s[f].bytes()[k]);
                }
            }
            assert(t1[f].bytes() =~= t2[f].bytes());
            assert(t1[f].is_bytes() && t2[f].is_bytes());
            assert(t1[f] == FragView::Bytes { data: t1[f].bytes() });
            assert(t2[f] == FragView::Bytes { data: t2[f].bytes() });
        } else {
            assert(t1[f] == s[f]);
            assert(t2[f] == s[f]);
        }
    }
    assert(t1 =~= t2);
}

/// Assembling is deterministic: for one assembler state, any two
/// patched fragment sequences that satisfy `assemble`'s success
/// contract are equal, and so are the byte streams emitted from them.
/// Since every `emit` call's effect on the state is itself a function
/// of the previous state and the instruction, emitting the same
/// instruction sequence twice into two fresh assemblers and assembling
/// both produces byte-identical output.
pub proof fn lemma_assemble_deterministic(
    a: super::state::X86_64Assembler,
    s2a: Seq<FragView>,
    s2b: Seq<FragView>,
)
    requires
        a.wf(),
        patched_ok(
            relax_fix(a.frags(), a.defs()),
            s2a,
            a.patch_lists(),
            super::passes::labels_of(relax_fix(a.frags(), a.defs()), a.defs()),
        ),
        patched_ok(
            relax_fix(a.frags(), a.defs()),
            s2b,
            a.patch_lists(),
            super::passes::labels_of(relax_fix(a.frags(), a.defs()), a.defs()),
        ),
    ensures
        s2a == s2b,
        stream_upto(
            s2a,
            super::passes::labels_of(relax_fix(a.frags(), a.defs()), a.defs()),
            s2a.len() as int,
        ) == stream_upto(
            s2b,
            super::passes::labels_of(relax_fix(a.frags(), a.defs()), a.defs()),
            s2b.len() as int,
        ),
{
    let s0 = a.frags();
    let defs = a.defs();
    let s1 = relax_fix(s0, defs);
    let pl = a.patch_lists();
    super::relax::lemma_relax_fix_props(s0, defs);
    assert(patches_in_range(pl, s1)) by {
        assert forall|x: int, y: int|
            0 <= x < pl.len() && 0 <= y < pl[x].1.len() implies (#[trigger] pl[x].1[y]).wf(
            s1,
        ) by {
            assert(pl[x].1[y].wf(s0));
            let fid = pl[x].1[y].instruction_position.fragment_id.value as int;
            assert(super::relax::promote1(s0[fid], s1[fid]));
            assert(s1[fid] == s0[fid]);
        }
    }
    lemma_patched_unique(s1, s2a, s2b, pl, super::passes::labels_of(s1, defs));
}

} // verus!
