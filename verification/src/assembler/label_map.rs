//! Label-keyed association lists: the lookup function the label tables
//! share, and the lemmas that connect it to index-based reasoning.

use vstd::prelude::*;

use crate::models::label::Label;

verus! {

/// What a label is bound to in an association list: the value of its
/// first entry, if any.
pub open spec fn find_label<V>(s: Seq<(Label, V)>, l: Label) -> Option<V>
    decreases s.len(),
{
    if s.len() == 0 {
        None
    } else if s[0].0 == l {
        Some(s[0].1)
    } else {
        find_label(s.drop_first(), l)
    }
}

/// Whether no label is bound twice.
pub open spec fn unique_labels<V>(s: Seq<(Label, V)>) -> bool {
    forall|i: int, j: int| 0 <= i < j < s.len() ==> s[i].0 != s[j].0
}

/// The first entry for a label is the one `find_label` returns.
pub proof fn lemma_find_label_index<V>(s: Seq<(Label, V)>, l: Label, i: int)
    requires
        0 <= i < s.len(),
        s[i].0 == l,
        forall|j: int| 0 <= j < i ==> s[j].0 != l,
    ensures
        find_label(s, l) == Some(s[i].1),
    decreases i,
{
    if i > 0 {
        lemma_find_label_index(s.drop_first(), l, i - 1);
    }
}

/// A label without an entry has no binding.
pub proof fn lemma_find_label_absent<V>(s: Seq<(Label, V)>, l: Label)
    requires
        forall|j: int| 0 <= j < s.len() ==> s[j].0 != l,
    ensures
        find_label(s, l) == None::<V>,
    decreases s.len(),
{
    if s.len() > 0 {
        lemma_find_label_absent(s.drop_first(), l);
    }
}

/// Appending an entry for a fresh label leaves other labels' bindings
/// unchanged and binds the fresh one.
pub proof fn lemma_find_label_push<V>(s: Seq<(Label, V)>, l: Label, v: V, q: Label)
    ensures
        q != l ==> find_label(s.push((l, v)), q) == find_label(s, q),
        q == l && find_label(s, q) == None::<V> ==> find_label(s.push((l, v)), q) == Some(v),
        find_label(s, q) is Some ==> find_label(s.push((l, v)), q) == find_label(s, q),
    decreases s.len(),
{
    reveal_with_fuel(find_label, 3);
    if s.len() == 0 {
        assert(s.push((l, v))[0] == (l, v));
        assert(s.push((l, v)).drop_first() =~= Seq::empty());
    } else {
        assert(s.push((l, v))[0] == s[0]);
        assert(s.push((l, v)).drop_first() =~= s.drop_first().push((l, v)));
        lemma_find_label_push(s.drop_first(), l, v, q);
    }
}

/// Finds the index of the first entry for a label.
pub fn find_index<V>(entries: &Vec<(Label, V)>, l: Label) -> (r: Option<usize>)
    ensures
        match r {
            Some(i) => {
                &&& i < entries@.len()
                &&& entries@[i as int].0 == l
                &&& forall|j: int| 0 <= j < i ==> entries@[j].0 != l
                &&& find_label(entries@, l) == Some(entries@[i as int].1)
            },
            None => {
                &&& forall|j: int| 0 <= j < entries@.len() ==> entries@[j].0 != l
                &&& find_label(entries@, l) == None::<V>
            },
        },
{
    let n = entries.len();
    let mut i: usize = 0;
    while i < n
        invariant
            i <= n,
            n == entries@.len(),
            forall|j: int| 0 <= j < i ==> entries@[j].0 != l,
        decreases n - i,
    {
        if entries[i].0.value() == l.value() {
            proof {
                lemma_find_label_index(entries@, l, i as int);
            }
            return Some(i);
        }
        i += 1;
    }
    proof {
        lemma_find_label_absent(entries@, l);
    }
    None
}

} // verus!
