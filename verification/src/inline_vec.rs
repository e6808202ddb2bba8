use vstd::prelude::*;

verus! {

/// A growable sequence tuned for short lengths: conceptually it keeps up
/// to `N` elements in place and only then migrates to a geometrically
/// grown heap buffer, never moving back.  The reported capacity follows
/// that discipline: it starts at `N` and doubles each time it is
/// outgrown.
#[derive(Debug, Clone)]
pub struct InlineVec<T: Clone, const N: usize> {
    data: Vec<T>,
    cap: usize,
}

impl<T: Clone, const N: usize> View for InlineVec<T, N> {
    type V = Seq<T>;

    closed spec fn view(&self) -> Seq<T> {
        self.data@
    }
}

impl<T: Clone, const N: usize> InlineVec<T, N> {
    /// The capacity bookkeeping is sound: the capacity is at least `N`
    /// and no element lies beyond it.
    pub closed spec fn wf(self) -> bool {
        &&& N >= 1
        &&& self.cap >= N
        &&& self.data@.len() <= self.cap
    }

    /// The current capacity, as a spec value.
    pub closed spec fn spec_capacity(self) -> usize {
        self.cap
    }

    /// Creates a new empty sequence.
    pub fn new() -> (r: Self)
        requires
            N >= 1,
        ensures
            r@ == Seq::<T>::empty(),
            r.wf(),
            r.spec_capacity() == N,
    {
        InlineVec { data: Vec::new(), cap: N }
    }

    /// The number of elements.
    pub fn len(&self) -> (r: usize)
        ensures
            r == self@.len(),
    {
        self.data.len()
    }

    /// The current capacity; always at least `N`.
    pub fn capacity(&self) -> (r: usize)
        requires
            self.wf(),
        ensures
            r == self.spec_capacity(),
            r >= N,
    {
        self.cap
    }

    /// Appends a value at the end, doubling the capacity when it is
    /// exhausted.
    pub fn push(&mut self, value: T)
        requires
            old(self).wf(),
        ensures
            final(self)@ == old(self)@.push(value),
            final(self).wf(),
    {
        if self.data.len() == self.cap {
            self.cap = if self.cap <= usize::MAX / 2 {
                self.cap * 2
            } else {
                usize::MAX
            };
        }
        self.data.push(value);
        proof {
            // A vector never holds more elements than fit in `usize`, so
            // the grown length stays within the saturated capacity.
            vstd::std_specs::vec::axiom_spec_len(&self.data);
        }
    }

    /// The elements as a slice.
    pub fn as_slice(&self) -> (r: &[T])
        ensures
            r@ == self@,
    {
        self.data.as_slice()
    }

    /// The element at the given position.
    pub fn get(&self, i: usize) -> (r: &T)
        requires
            i < self@.len(),
        ensures
            *r == self@[i as int],
    {
        &self.data[i]
    }
}

} // verus!
