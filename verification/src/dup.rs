//! Copies of values.

use vstd::prelude::*;

verus! {

/// A value that can be copied into one with the same contents.
pub trait Dup: DeepView + Sized {
    /// A copy with the same contents.
    fn dup(&self) -> (r: Self)
        ensures
            r.deep_view() == self.deep_view(),
    ;
}

impl Dup for String {
    fn dup(&self) -> (r: Self)
        ensures
            r == *self,
    {
        self.clone()
    }
}

impl Dup for bool {
    fn dup(&self) -> (r: Self) {
        *self
    }
}

impl Dup for u8 {
    fn dup(&self) -> (r: Self) {
        *self
    }
}

impl Dup for u16 {
    fn dup(&self) -> (r: Self) {
        *self
    }
}

impl Dup for u32 {
    fn dup(&self) -> (r: Self) {
        *self
    }
}

impl Dup for u64 {
    fn dup(&self) -> (r: Self) {
        *self
    }
}

impl Dup for u128 {
    fn dup(&self) -> (r: Self) {
        *self
    }
}

impl Dup for usize {
    fn dup(&self) -> (r: Self) {
        *self
    }
}

impl Dup for i64 {
    fn dup(&self) -> (r: Self) {
        *self
    }
}

impl<T: Dup> Dup for Option<T> {
    fn dup(&self) -> (r: Self) {
        match self {
            Some(v) => Some(v.dup()),
            None => None,
        }
    }
}

impl<T: Dup> Dup for Vec<T> {
    fn dup(&self) -> (r: Self) {
        let mut out: Vec<T> = Vec::new();
        let mut i: usize = 0;
        while i < self.len()
            invariant
                i <= self@.len(),
                out@.len() == i,
                forall|j: int| 0 <= j < i ==> (#[trigger] out@[j]).deep_view() == self@[j].deep_view(),
            decreases self@.len() - i,
        {
            out.push(self[i].dup());
            i = i + 1;
        }
        proof {
            assert(out.deep_view() =~= self.deep_view());
        }
        out
    }
}

impl<A: Dup, B: Dup> Dup for (A, B) {
    fn dup(&self) -> (r: Self) {
        (self.0.dup(), self.1.dup())
    }
}

} // verus!
