//! The relaxation theory: label positions, the promotion test, the
//! scan and its fixed point, and the lemmas that give termination,
//! stability and idempotence.

use vstd::prelude::*;

use crate::models::label::Label;
use super::fragment::FragView;
use super::fragment::prefix_len;
use super::state::FragmentRelativePosition;
use super::label_map::find_label;

verus! {

/// How far into a fragment the encoded bytes preceding a label definition
/// reach: zero for a byte-run host, the full encoding for a relaxable
/// host, where a label defined right after a jump sits at its end.
pub open spec fn host_extra(f: FragView) -> int {
    if f.is_bytes() {
        0
    } else {
        f.len()
    }
}

/// The absolute byte position a label definition resolves to under the
/// current variants.
pub open spec fn def_pos(s: Seq<FragView>, p: FragmentRelativePosition) -> int {
    let fid = p.fragment_id.value as int;
    prefix_len(s, fid) + host_extra(s[fid]) + p.in_fragment_offset
}

/// The absolute byte position of a label, if it is defined.
pub open spec fn label_pos(
    s: Seq<FragView>,
    defs: Seq<(Label, FragmentRelativePosition)>,
    l: Label,
) -> Option<int> {
    match find_label(defs, l) {
        Some(p) => Some(def_pos(s, p)),
        None => None,
    }
}

/// The displacement a short relaxable fragment at `i` would need: from
/// the end of its two-byte encoding to its target.
pub open spec fn short_disp(
    s: Seq<FragView>,
    defs: Seq<(Label, FragmentRelativePosition)>,
    i: int,
) -> int {
    match find_label(defs, s[i].target()) {
        Some(p) => def_pos(s, p) - (prefix_len(s, i) + s[i].len()),
        None => 0,
    }
}

/// Whether the short fragment at `i` has to grow: its target is known
/// and the displacement does not fit a signed byte.
pub open spec fn needs_promotion(
    s: Seq<FragView>,
    defs: Seq<(Label, FragmentRelativePosition)>,
    i: int,
) -> bool {
    &&& s[i].is_short()
    &&& find_label(defs, s[i].target()) is Some
    &&& !(-128 <= short_disp(s, defs, i) <= 127)
}

/// Every short relaxable fragment's target label is defined.
pub open spec fn shorts_defined(
    s: Seq<FragView>,
    defs: Seq<(Label, FragmentRelativePosition)>,
) -> bool {
    forall|i: int|
        0 <= i < s.len() && (#[trigger] s[i]).is_short() ==> find_label(defs, s[i].target()) is Some
}

/// Relaxation's goal: every remaining short fragment's displacement,
/// measured against the current positions, fits a signed byte.
pub open spec fn relax_stable(
    s: Seq<FragView>,
    defs: Seq<(Label, FragmentRelativePosition)>,
) -> bool {
    forall|i: int|
        0 <= i < s.len() && (#[trigger] s[i]).is_short() ==> find_label(defs, s[i].target()) is Some
            && -128 <= short_disp(s, defs, i) <= 127
}

/// One fragment is the other, possibly with its short form grown long.
pub open spec fn promote1(x: FragView, y: FragView) -> bool {
    y == x || (x.is_short() && y == x.promoted())
}

/// `b` differs from `a` only by growing short jumps long.
pub open spec fn promotes(a: Seq<FragView>, b: Seq<FragView>) -> bool {
    a.len() == b.len() && forall|i: int| 0 <= i < a.len() ==> promote1(#[trigger] a[i], b[i])
}

/// One relaxation step: fragment `i` grows if it has to.
pub open spec fn scan_step(
    s: Seq<FragView>,
    defs: Seq<(Label, FragmentRelativePosition)>,
    i: int,
) -> Seq<FragView> {
    if 0 <= i < s.len() && needs_promotion(s, defs, i) {
        s.update(i, s[i].promoted())
    } else {
        s
    }
}

/// One relaxation pass over the first `i` fragments, each step measuring
/// against the state the steps before it left behind.
pub open spec fn scan_upto(
    s: Seq<FragView>,
    defs: Seq<(Label, FragmentRelativePosition)>,
    i: int,
) -> Seq<FragView>
    decreases i,
{
    if i <= 0 {
        s
    } else {
        scan_step(scan_upto(s, defs, i - 1), defs, i - 1)
    }
}

/// One full relaxation pass.
pub open spec fn scan(
    s: Seq<FragView>,
    defs: Seq<(Label, FragmentRelativePosition)>,
) -> Seq<FragView> {
    scan_upto(s, defs, s.len() as int)
}

/// The number of short relaxable fragments.
pub open spec fn count_short(s: Seq<FragView>) -> int
    decreases s.len(),
{
    if s.len() == 0 {
        0
    } else {
        count_short(s.drop_last()) + if s.last().is_short() {
            1int
        } else {
            0int
        }
    }
}

/// The relaxation fixed point: passes run until one changes nothing.
pub open spec fn relax_fix(
    s: Seq<FragView>,
    defs: Seq<(Label, FragmentRelativePosition)>,
) -> Seq<FragView>
    decreases count_short(s) via relax_fix_decreases
{
    if scan(s, defs) == s {
        s
    } else {
        relax_fix(scan(s, defs), defs)
    }
}

#[via_fn]
proof fn relax_fix_decreases(s: Seq<FragView>, defs: Seq<(Label, FragmentRelativePosition)>) {
    lemma_count_short_nonneg(s);
    if scan(s, defs) != s {
        lemma_scan_upto_count(s, defs, s.len() as int);
        lemma_count_short_nonneg(scan(s, defs));
    }
}

/// The target label of the first short fragment that has none, if any.
pub open spec fn first_unset_from(
    s: Seq<FragView>,
    defs: Seq<(Label, FragmentRelativePosition)>,
    i: int,
) -> Option<Label>
    decreases s.len() - i,
{
    if i < 0 || i >= s.len() {
        None
    } else if s[i].is_short() && find_label(defs, s[i].target()) is None {
        Some(s[i].target())
    } else {
        first_unset_from(s, defs, i + 1)
    }
}

/// A reported missing label belongs to some short fragment.
pub proof fn lemma_first_unset_witness(
    s: Seq<FragView>,
    defs: Seq<(Label, FragmentRelativePosition)>,
    i: int,
    l: Label,
)
    requires
        first_unset_from(s, defs, i) == Some(l),
    ensures
        exists|j: int|
            0 <= j < s.len() && (#[trigger] s[j]).is_short() && s[j].target() == l && find_label(
                defs,
                l,
            ) is None,
    decreases s.len() - i,
{
    if 0 <= i < s.len() {
        if s[i].is_short() && find_label(defs, s[i].target()) is None {
            assert(s[i].is_short() && s[i].target() == l);
        } else {
            lemma_first_unset_witness(s, defs, i + 1, l);
        }
    }
}

/// Short counts are nonnegative.
pub proof fn lemma_count_short_nonneg(s: Seq<FragView>)
    ensures
        count_short(s) >= 0,
    decreases s.len(),
{
    if s.len() > 0 {
        lemma_count_short_nonneg(s.drop_last());
    }
}

/// Growing one short fragment lowers the short count by one.
pub proof fn lemma_count_short_promote(s: Seq<FragView>, i: int)
    requires
        0 <= i < s.len(),
        s[i].is_short(),
    ensures
        count_short(s.update(i, s[i].promoted())) == count_short(s) - 1,
    decreases s.len(),
{
    let t = s.update(i, s[i].promoted());
    if i == s.len() - 1 {
        assert(t.drop_last() =~= s.drop_last());
    } else {
        assert(t.drop_last() =~= s.drop_last().update(i, s[i].promoted()));
        lemma_count_short_promote(s.drop_last(), i);
    }
}

/// A pass leaves the length alone, touches only the first `i` fragments,
/// only promotes, and never raises the short count; a pass that changed
/// something lowered it.
pub proof fn lemma_scan_upto_count(
    s: Seq<FragView>,
    defs: Seq<(Label, FragmentRelativePosition)>,
    i: int,
)
    ensures
        scan_upto(s, defs, i).len() == s.len(),
        forall|j: int| (0 <= j < s.len() && j >= i) ==> scan_upto(s, defs, i)[j] == s[j],
        forall|j: int| 0 <= j < s.len() ==> promote1(#[trigger] s[j], scan_upto(s, defs, i)[j]),
        count_short(scan_upto(s, defs, i)) <= count_short(s),
        scan_upto(s, defs, i) != s ==> count_short(scan_upto(s, defs, i)) < count_short(s),
    decreases i,
{
    if i <= 0 {
    } else {
        lemma_scan_upto_count(s, defs, i - 1);
        let prev = scan_upto(s, defs, i - 1);
        let cur = scan_step(prev, defs, i - 1);
        if 0 <= i - 1 < prev.len() && needs_promotion(prev, defs, i - 1) {
            lemma_count_short_promote(prev, i - 1);
            assert(cur[i - 1] == prev[i - 1].promoted());
            assert(prev[i - 1] == s[i - 1]);
            assert(cur != s) by {
                assert(cur[i - 1] != s[i - 1]);
            }
        } else {
            assert(cur == prev);
        }
    }
}

/// A stable state passes every scan unchanged.
pub proof fn lemma_stable_scan_fixed(
    s: Seq<FragView>,
    defs: Seq<(Label, FragmentRelativePosition)>,
    i: int,
)
    requires
        relax_stable(s, defs),
    ensures
        scan_upto(s, defs, i) == s,
    decreases i,
{
    if i > 0 {
        lemma_stable_scan_fixed(s, defs, i - 1);
    }
}

/// A state no scan changes has no fragment left to promote.
pub proof fn lemma_scan_fixed_no_promotion(
    s: Seq<FragView>,
    defs: Seq<(Label, FragmentRelativePosition)>,
    i: int,
)
    requires
        scan_upto(s, defs, i) == s,
        0 <= i <= s.len(),
    ensures
        forall|j: int| 0 <= j < i ==> !needs_promotion(s, defs, j),
    decreases i,
{
    if i > 0 {
        let prev = scan_upto(s, defs, i - 1);
        lemma_scan_upto_count(s, defs, i - 1);
        if prev != s {
            lemma_scan_upto_count(prev, defs, 0);
            assert(scan_step(prev, defs, i - 1)[i - 1] == s[i - 1]);
            if 0 <= i - 1 < prev.len() && needs_promotion(prev, defs, i - 1) {
                assert(scan_step(prev, defs, i - 1) =~= prev.update(i - 1, prev[i - 1].promoted()));
                assert(forall|j: int|
                    0 <= j < s.len() && j != i - 1 ==> prev[j] == scan_step(prev, defs, i - 1)[j]);
                assert(prev =~= s);
            } else {
                assert(prev =~= s);
            }
        }
        lemma_scan_fixed_no_promotion(s, defs, i - 1);
        if needs_promotion(s, defs, i - 1) {
            assert(scan_step(prev, defs, i - 1)[i - 1] == prev[i - 1].promoted());
            assert(s[i - 1].is_short());
            assert(s[i - 1].promoted() != s[i - 1]);
        }
    }
}

/// Promotion keeps every short fragment's target defined.
pub proof fn lemma_promotes_shorts_defined(
    a: Seq<FragView>,
    b: Seq<FragView>,
    defs: Seq<(Label, FragmentRelativePosition)>,
)
    requires
        promotes(a, b),
        shorts_defined(a, defs),
    ensures
        shorts_defined(b, defs),
{
    assert forall|i: int|
        0 <= i < b.len() && (#[trigger] b[i]).is_short() implies find_label(
        defs,
        b[i].target(),
    ) is Some by {
        assert(promote1(a[i], b[i]));
    }
}

/// Promotion composes.
pub proof fn lemma_promotes_trans(a: Seq<FragView>, b: Seq<FragView>, c: Seq<FragView>)
    requires
        promotes(a, b),
        promotes(b, c),
    ensures
        promotes(a, c),
{
    assert forall|i: int| 0 <= i < a.len() implies promote1(#[trigger] a[i], c[i]) by {
        assert(promote1(a[i], b[i]));
        assert(promote1(b[i], c[i]));
    }
}

/// The fixed point only promotes, reaches a stable state whenever every
/// short target is defined, and leaves an already stable state alone.
pub proof fn lemma_relax_fix_props(
    s: Seq<FragView>,
    defs: Seq<(Label, FragmentRelativePosition)>,
)
    ensures
        promotes(s, relax_fix(s, defs)),
        shorts_defined(s, defs) ==> relax_stable(relax_fix(s, defs), defs),
        relax_stable(s, defs) ==> relax_fix(s, defs) == s,
    decreases count_short(s),
{
    lemma_count_short_nonneg(s);
    lemma_scan_upto_count(s, defs, s.len() as int);
    if scan(s, defs) == s {
        assert(promotes(s, s));
        lemma_scan_fixed_no_promotion(s, defs, s.len() as int);
        if shorts_defined(s, defs) {
            assert forall|i: int|
                0 <= i < s.len() && (#[trigger] s[i]).is_short() implies find_label(
                defs,
                s[i].target(),
            ) is Some && -128 <= short_disp(s, defs, i) <= 127 by {
                assert(!needs_promotion(s, defs, i));
            }
        }
    } else {
        let t = scan(s, defs);
        lemma_count_short_nonneg(t);
        lemma_relax_fix_props(t, defs);
        lemma_promotes_trans(s, t, relax_fix(t, defs));
        if shorts_defined(s, defs) {
            lemma_promotes_shorts_defined(s, t, defs);
        }
        if relax_stable(s, defs) {
            lemma_stable_scan_fixed(s, defs, s.len() as int);
        }
    }
}

} // verus!
