use vstd::prelude::*;

verus! {

/// A byte slice wrapped for comparison in diagnostics and tests.
pub struct TmpSlice<'a> {
    pub data: &'a [u8],
}

impl<'a> TmpSlice<'a> {
    /// Wraps a byte slice.
    pub fn new(data: &'a [u8]) -> (r: Self)
        ensures
            r.data@ == data@,
    {
        TmpSlice { data }
    }

    /// Whether the two slices hold the same bytes.
    pub fn equals(&self, other: &TmpSlice<'_>) -> (r: bool)
        ensures
            r == (self.data@ == other.data@),
    {
        if self.data.len() != other.data.len() {
            proof {
                assert(self.data@.len() != other.data@.len());
            }
            return false;
        }
        let n = self.data.len();
        let mut i: usize = 0;
        while i < n
            invariant
                i <= n,
                n == self.data@.len(),
                n == other.data@.len(),
                forall|j: int| 0 <= j < i ==> self.data@[j] == other.data@[j],
            decreases n - i,
        {
            if self.data[i] != other.data[i] {
                return false;
            }
            i += 1;
        }
        proof {
            assert(self.data@ =~= other.data@);
        }
        true
    }
}

/// Calls the passed function and hands back its result.
pub fn call<T: FnOnce() -> R, R>(f: T) -> (r: R)
    requires
        call_requires(f, ()),
    ensures
        call_ensures(f, (), r),
{
    f()
}

} // verus!
