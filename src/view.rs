//! Read-only windows onto part of a storage's bits, borrowed without copying.
use vstd::prelude::*;
use crate::storage::BorrowBits;

verus! {

/// The bits `[start, start + len)` of a borrowed storage.
pub struct BitView<'a, T: BorrowBits> {
    inner: &'a T,
    start: usize,
    len: usize,
}

impl<'a, T: BorrowBits> BitView<'a, T> {
    #[verifier::type_invariant]
    spec fn in_bounds(self) -> bool {
        &&& self.start + self.len <= self.inner.bits_view().len()
        &&& self.start + self.len <= usize::MAX
    }

    /// A view of the bits `[start, start + len)` of `inner`.
    pub fn new(inner: &'a T, start: usize, len: usize) -> (r: BitView<'a, T>)
        requires
            start + len <= inner.bits_view().len(),
            start + len <= usize::MAX,
        ensures
            r.bits_view() == inner.bits_view().subrange(start as int, start + len),
    {
        BitView { inner, start, len }
    }

    /// Copies the viewed bits out, in order.
    pub fn to_bools(&self) -> (r: Vec<bool>)
        ensures
            r@ == self.bits_view(),
    {
        proof {
            use_type_invariant(self);
        }
        let mut r: Vec<bool> = Vec::new();
        let mut i: usize = 0;
        while i < self.len
            invariant
                i <= self.len,
                self.start + self.len <= self.inner.bits_view().len(),
                self.start + self.len <= usize::MAX,
                r@ == self.inner.bits_view().subrange(self.start as int, self.start + i),
            decreases self.len - i,
        {
            let b = self.inner.bit_at(self.start + i);
            r.push(b);
            i = i + 1;
            assert(r@ =~= self.inner.bits_view().subrange(self.start as int, self.start + i));
        }
        r
    }
}

impl<'a, T: BorrowBits> BorrowBits for BitView<'a, T> {
    closed spec fn bits_view(&self) -> Seq<bool> {
        self.inner.bits_view().subrange(self.start as int, self.start + self.len)
    }

    fn bit_len(&self) -> (r: usize) {
        proof {
            use_type_invariant(self);
        }
        self.len
    }

    fn bit_at(&self, i: usize) -> (r: bool) {
        proof {
            use_type_invariant(self);
        }
        self.inner.bit_at(self.start + i)
    }
}

} // verus!
