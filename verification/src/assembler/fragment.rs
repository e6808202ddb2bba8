//! Fragments: the units of the intermediate representation, their
//! abstract values, and the prefix-sum arithmetic over their lengths
//! that underlies every position computation.

use vstd::prelude::*;

use crate::models::condition::Condition;
use crate::models::label::Label;

verus! {

/// Stable identity of a fragment within one assembler: its index in the
/// fragment sequence.
#[derive(Debug, Clone, Copy, PartialEq, Eq, Structural)]
pub struct FragmentOrderId {
    pub value: u32,
}

impl FragmentOrderId {
    /// Builds the identity of the fragment at the given index.
    pub fn from_index(offset: u32) -> (r: Self)
        ensures
            r.value == offset,
    {
        FragmentOrderId { value: offset }
    }

    /// The index of the fragment.
    pub fn index(self) -> (r: u32)
        ensures
            r == self.value,
    {
        self.value
    }
}

/// The width a relaxable jump is currently encoded with.
#[derive(Debug, Clone, Copy, PartialEq, Eq, Structural)]
pub enum RelaxationVariant {
    Short,
    Long,
}

/// One unit of the intermediate representation: either an opaque run of
/// already-encoded bytes, or the descriptor of a single jump whose final
/// width is chosen during assembly.
#[derive(Debug)]
pub enum Fragment {
    Bytes { data: Vec<u8> },
    Relaxable_Jump { variant: RelaxationVariant, label: Label },
    Relaxable_CondJump { variant: RelaxationVariant, condition: Condition, label: Label },
}

/// The abstract value of a fragment.
pub enum FragView {
    Bytes { data: Seq<u8> },
    Jump { variant: RelaxationVariant, target: Label },
    CondJump { variant: RelaxationVariant, cond: Condition, target: Label },
}

impl View for Fragment {
    type V = FragView;

    open spec fn view(&self) -> FragView {
        match self {
            Fragment::Bytes { data } => FragView::Bytes { data: data@ },
            Fragment::Relaxable_Jump { variant, label } => FragView::Jump {
                variant: *variant,
                target: *label,
            },
            Fragment::Relaxable_CondJump { variant, condition, label } => FragView::CondJump {
                variant: *variant,
                cond: *condition,
                target: *label,
            },
        }
    }
}

/// The encoded lengths of the four relaxable jump forms: a short jump is
/// `EB ib`, a long jump `E9 id`, a short conditional jump `7x ib` and a
/// long conditional jump `0F 8x id`.
pub const SHORT_JUMP_LEN: u32 = 2;

pub const LONG_JUMP_LEN: u32 = 5;

pub const SHORT_COND_JUMP_LEN: u32 = 2;

pub const LONG_COND_JUMP_LEN: u32 = 6;

impl FragView {
    /// The number of bytes this fragment occupies in the output under its
    /// current variant.
    pub open spec fn len(self) -> int {
        match self {
            FragView::Bytes { data } => data.len() as int,
            FragView::Jump { variant, .. } => if variant == RelaxationVariant::Short {
                SHORT_JUMP_LEN as int
            } else {
                LONG_JUMP_LEN as int
            },
            FragView::CondJump { variant, .. } => if variant == RelaxationVariant::Short {
                SHORT_COND_JUMP_LEN as int
            } else {
                LONG_COND_JUMP_LEN as int
            },
        }
    }

    /// The largest number of bytes this fragment can come to occupy: a
    /// byte run never changes, and a relaxable jump can only grow to its
    /// long form.
    pub open spec fn max_len(self) -> int {
        match self {
            FragView::Bytes { data } => data.len() as int,
            FragView::Jump { .. } => LONG_JUMP_LEN as int,
            FragView::CondJump { .. } => LONG_COND_JUMP_LEN as int,
        }
    }

    /// Whether this is a run of already-encoded bytes.
    pub open spec fn is_bytes(self) -> bool {
        match self {
            FragView::Bytes { .. } => true,
            _ => false,
        }
    }

    /// The bytes of a byte-run fragment.
    pub open spec fn bytes(self) -> Seq<u8> {
        match self {
            FragView::Bytes { data } => data,
            _ => Seq::empty(),
        }
    }

    /// Whether this is a relaxable jump currently in its short form.
    pub open spec fn is_short(self) -> bool {
        match self {
            FragView::Bytes { .. } => false,
            FragView::Jump { variant, .. } => variant == RelaxationVariant::Short,
            FragView::CondJump { variant, .. } => variant == RelaxationVariant::Short,
        }
    }

    /// The target label of a relaxable jump.
    pub open spec fn target(self) -> Label {
        match self {
            FragView::Bytes { .. } => Label { value: 0 },
            FragView::Jump { target, .. } => target,
            FragView::CondJump { target, .. } => target,
        }
    }

    /// The same descriptor with the long variant chosen.
    pub open spec fn promoted(self) -> FragView {
        match self {
            FragView::Bytes { data } => FragView::Bytes { data },
            FragView::Jump { target, .. } => FragView::Jump {
                variant: RelaxationVariant::Long,
                target,
            },
            FragView::CondJump { cond, target, .. } => FragView::CondJump {
                variant: RelaxationVariant::Long,
                cond,
                target,
            },
        }
    }
}

impl Fragment {
    /// The number of bytes the fragment occupies in the output: the run
    /// length for a byte run, the encoded length of the current variant
    /// for a relaxable jump.
    pub fn data_length(&self) -> (r: u32)
        requires
            self@.len() <= u32::MAX,
        ensures
            r == self@.len(),
    {
        match self {
            Fragment::Bytes { data } => data.len() as u32,
            Fragment::Relaxable_Jump { variant, .. } => match variant {
                RelaxationVariant::Short => SHORT_JUMP_LEN,
                RelaxationVariant::Long => LONG_JUMP_LEN,
            },
            Fragment::Relaxable_CondJump { variant, .. } => match variant {
                RelaxationVariant::Short => SHORT_COND_JUMP_LEN,
                RelaxationVariant::Long => LONG_COND_JUMP_LEN,
            },
        }
    }
}

/// The byte position at which fragment `k`'s encoding starts: the sum of
/// the lengths of the fragments before it.
pub open spec fn prefix_len(s: Seq<FragView>, k: int) -> int
    decreases k,
{
    if k <= 0 {
        0
    } else {
        prefix_len(s, k - 1) + s[k - 1].len()
    }
}

/// The total length of the output under the current variants.
pub open spec fn total_len(s: Seq<FragView>) -> int {
    prefix_len(s, s.len() as int)
}

/// The sum of the largest lengths the first `k` fragments can reach.
pub open spec fn prefix_max_len(s: Seq<FragView>, k: int) -> int
    decreases k,
{
    if k <= 0 {
        0
    } else {
        prefix_max_len(s, k - 1) + s[k - 1].max_len()
    }
}

/// The largest total length the output can reach once every relaxable
/// jump has grown to its long form.
pub open spec fn total_max_len(s: Seq<FragView>) -> int {
    prefix_max_len(s, s.len() as int)
}

/// Fragment lengths are nonnegative, so prefix sums are monotone.
pub proof fn lemma_prefix_len_monotone(s: Seq<FragView>, k1: int, k2: int)
    requires
        0 <= k1 <= k2 <= s.len(),
    ensures
        prefix_len(s, k1) <= prefix_len(s, k2),
    decreases k2 - k1,
{
    if k1 < k2 {
        lemma_prefix_len_monotone(s, k1, k2 - 1);
    }
}

/// Every fragment's current length stays within its largest length.
pub proof fn lemma_prefix_len_le_max(s: Seq<FragView>, k: int)
    requires
        0 <= k <= s.len(),
    ensures
        prefix_len(s, k) <= prefix_max_len(s, k),
    decreases k,
{
    if k > 0 {
        lemma_prefix_len_le_max(s, k - 1);
    }
}

/// A prefix sum only reads the fragments before `k`, so it is stable
/// under any change at or past `k`.
pub proof fn lemma_prefix_len_agree(s1: Seq<FragView>, s2: Seq<FragView>, k: int)
    requires
        0 <= k,
        k <= s1.len(),
        k <= s2.len(),
        forall|j: int| 0 <= j < k ==> s1[j] == s2[j],
    ensures
        prefix_len(s1, k) == prefix_len(s2, k),
        prefix_max_len(s1, k) == prefix_max_len(s2, k),
    decreases k,
{
    if k > 0 {
        lemma_prefix_len_agree(s1, s2, k - 1);
    }
}

/// How a prefix-max sum changes when one fragment is replaced.
pub proof fn lemma_prefix_max_len_update(s: Seq<FragView>, i: int, f: FragView, k: int)
    requires
        0 <= i < s.len(),
        0 <= k <= s.len(),
    ensures
        k <= i ==> prefix_max_len(s.update(i, f), k) == prefix_max_len(s, k),
        k > i ==> prefix_max_len(s.update(i, f), k) == prefix_max_len(s, k) + f.max_len()
            - s[i].max_len(),
    decreases k,
{
    if k > 0 {
        lemma_prefix_max_len_update(s, i, f, k - 1);
    }
}

/// Appending a fragment adds exactly its length to the totals.
pub proof fn lemma_total_push(s: Seq<FragView>, f: FragView)
    ensures
        total_len(s.push(f)) == total_len(s) + f.len(),
        total_max_len(s.push(f)) == total_max_len(s) + f.max_len(),
{
    let t = s.push(f);
    lemma_prefix_len_agree(s, t, s.len() as int);
    assert(t[t.len() - 1] == f);
}

/// Replacing the last fragment shifts the totals by the change in its
/// length.
pub proof fn lemma_total_update_last(s: Seq<FragView>, f: FragView)
    requires
        s.len() >= 1,
    ensures
        total_len(s.update(s.len() - 1, f)) == total_len(s) + f.len() - s[s.len() - 1].len(),
        total_max_len(s.update(s.len() - 1, f)) == total_max_len(s) + f.max_len() - s[s.len()
            - 1].max_len(),
{
    lemma_prefix_len_update(s, s.len() - 1, f, s.len() as int);
    lemma_prefix_max_len_update(s, s.len() - 1, f, s.len() as int);
}

/// In a sequence whose later fragments each take at least one byte, the
/// total upper size bounds the number of fragments.
pub proof fn lemma_len_le_total(s: Seq<FragView>)
    requires
        forall|i: int| 1 <= i < s.len() ==> (#[trigger] s[i]).max_len() >= 1,
    ensures
        s.len() <= total_max_len(s) + 1,
    decreases s.len(),
{
    if s.len() >= 1 {
        let s0 = s.drop_last();
        assert(s =~= s0.push(s.last()));
        lemma_total_push(s0, s.last());
        lemma_len_le_total(s0);
        if s.len() >= 2 {
            assert(s[s.len() - 1].max_len() >= 1);
        }
    }
}

/// How a prefix sum changes when one fragment is replaced: sums up to the
/// replaced fragment are unchanged, sums past it shift by the change in
/// that fragment's length.
pub proof fn lemma_prefix_len_update(s: Seq<FragView>, i: int, f: FragView, k: int)
    requires
        0 <= i < s.len(),
        0 <= k <= s.len(),
    ensures
        k <= i ==> prefix_len(s.update(i, f), k) == prefix_len(s, k),
        k > i ==> prefix_len(s.update(i, f), k) == prefix_len(s, k) + f.len() - s[i].len(),
    decreases k,
{
    if k > 0 {
        lemma_prefix_len_update(s, i, f, k - 1);
    }
}

} // verus!
