//! Consumable bit buffers: a window of unconsumed bits that shrinks from the front.
use vstd::prelude::*;
use crate::bits::{bytes_to_bits, set_byte_bit};
use crate::storage::{BorrowBits, BorrowBitsMut};
use crate::view::BitView;

verus! {

/// A buffer of bits that are consumed from the front. Its bit view is the window
/// of bits not consumed yet.
pub trait BitBuf: BorrowBits + Sized {
    /// Drops the first `count` bits of the window.
    fn advance(&mut self, count: usize)
        requires
            count <= old(self).bits_view().len(),
        ensures
            final(self).bits_view() == old(self).bits_view().skip(count as int),
    ;

    /// The number of bits not consumed yet.
    fn remaining(&self) -> (r: usize)
        ensures
            r == self.bits_view().len(),
    ;

    /// A view of exactly the bits not consumed yet.
    fn chunk(&self) -> (r: BitView<'_, Self>)
        ensures
            r.bits_view() == self.bits_view(),
    ;
}

/// Builds bytes that hold `bits` most significant bit first, the last byte padded
/// with zero bits.
fn pack_bools(bits: &[bool]) -> (r: Vec<u8>)
    requires
        bits@.len() + 8 <= usize::MAX,
    ensures
        r@.len() == (bits@.len() + 7) / 8,
        bytes_to_bits(r@).take(bits@.len() as int) == bits@,
{
    let n = bits.len();
    let nbytes: usize = (n + 7) / 8;
    let mut r: Vec<u8> = Vec::new();
    let mut k: usize = 0;
    while k < nbytes
        invariant
            k <= nbytes,
            r@.len() == k,
            forall|m: int| 0 <= m < k ==> r@[m] == 0u8,
        decreases nbytes - k,
    {
        r.push(0u8);
        k = k + 1;
    }
    assert(n <= nbytes * 8 <= n + 7) by (nonlinear_arith)
        requires nbytes == (n + 7) / 8;
    let mut i: usize = 0;
    while i < n
        invariant
            i <= n,
            n == bits@.len(),
            n <= nbytes * 8 <= n + 7,
            r@.len() == nbytes,
            forall|m: int| 0 <= m < i ==> r.bits_view()[m] == bits@[m],
        decreases n - i,
    {
        let ghost before = r.bits_view();
        r.set_bit_at(i, bits[i]);
        assert(r.bits_view() == before.update(i as int, bits@[i as int]));
        i = i + 1;
    }
    assert(bytes_to_bits(r@).take(n as int) =~= bits@);
    r
}

/// An immutable bit buffer: bytes, and the window `[bit_start, bit_start + bit_len)`
/// of their bits not consumed yet.
pub struct Bits {
    inner: Vec<u8>,
    bit_start: usize,
    bit_len: usize,
}

impl Bits {
    #[verifier::type_invariant]
    spec fn in_bounds(self) -> bool {
        &&& self.bit_start + self.bit_len <= self.inner@.len() * 8
        &&& self.inner@.len() * 8 <= usize::MAX
    }

    /// A buffer holding a copy of `bits`, none of them consumed.
    pub fn copy_from_slice(bits: &[bool]) -> (r: Bits)
        requires
            bits@.len() + 8 <= usize::MAX,
        ensures
            r.bits_view() == bits@,
    {
        let inner = pack_bools(bits);
        proof {
            let n = bits@.len();
            assert(inner@.len() * 8 <= n + 7) by (nonlinear_arith)
                requires inner@.len() == (n + 7) / 8;
        }
        Bits { inner, bit_start: 0, bit_len: bits.len() }
    }

    /// Moves the start of the window forward by `count` bits.
    fn inc_start(&mut self, count: usize)
        requires
            count <= old(self).bits_view().len(),
        ensures
            final(self).bits_view() == old(self).bits_view().skip(count as int),
    {
        proof {
            use_type_invariant(&*self);
        }
        self.bit_len = self.bit_len - count;
        self.bit_start = self.bit_start + count;
        assert(self.bits_view() =~= old(self).bits_view().skip(count as int));
    }
}

impl BorrowBits for Bits {
    closed spec fn bits_view(&self) -> Seq<bool> {
        bytes_to_bits(self.inner@).subrange(
            self.bit_start as int,
            self.bit_start + self.bit_len,
        )
    }

    fn bit_len(&self) -> (r: usize) {
        proof {
            use_type_invariant(self);
        }
        self.bit_len
    }

    fn bit_at(&self, i: usize) -> (r: bool) {
        proof {
            use_type_invariant(self);
        }
        self.inner.bit_at(self.bit_start + i)
    }
}

impl BitBuf for Bits {
    fn advance(&mut self, count: usize) {
        self.inc_start(count);
    }

    fn remaining(&self) -> (r: usize) {
        proof {
            use_type_invariant(self);
        }
        self.bit_len
    }

    fn chunk(&self) -> (r: BitView<'_, Bits>) {
        proof {
            use_type_invariant(self);
        }
        let r = BitView::new(self, 0, self.bit_len);
        assert(r.bits_view() =~= self.bits_view());
        r
    }
}

/// A mutable bit buffer: bytes, and the window `[bit_start, bit_start + bit_len)`
/// of their bits not consumed yet, which can be written in place.
pub struct BitsMut {
    inner: Vec<u8>,
    bit_start: usize,
    bit_len: usize,
}

impl BitsMut {
    #[verifier::type_invariant]
    spec fn in_bounds(self) -> bool {
        &&& self.bit_start + self.bit_len <= self.inner@.len() * 8
        &&& self.inner@.len() * 8 <= usize::MAX
    }

    /// A buffer holding a copy of `bits`, none of them consumed.
    pub fn copy_from_slice(bits: &[bool]) -> (r: BitsMut)
        requires
            bits@.len() + 8 <= usize::MAX,
        ensures
            r.bits_view() == bits@,
    {
        let inner = pack_bools(bits);
        proof {
            let n = bits@.len();
            assert(inner@.len() * 8 <= n + 7) by (nonlinear_arith)
                requires inner@.len() == (n + 7) / 8;
        }
        BitsMut { inner, bit_start: 0, bit_len: bits.len() }
    }

    /// The number of bits not consumed yet.
    pub fn len(&self) -> (r: usize)
        ensures
            r == self.bits_view().len(),
    {
        proof {
            use_type_invariant(self);
        }
        self.bit_len
    }

    /// Consumes the first `count` bits: the window starts `count` bits later.
    pub fn advance_mut(&mut self, count: usize)
        requires
            count <= old(self).bits_view().len(),
        ensures
            final(self).bits_view() == old(self).bits_view().skip(count as int),
    {
        proof {
            use_type_invariant(&*self);
        }
        self.bit_len = self.bit_len - count;
        self.bit_start = self.bit_start + count;
        assert(self.bits_view() =~= old(self).bits_view().skip(count as int));
    }
}

impl BorrowBits for BitsMut {
    closed spec fn bits_view(&self) -> Seq<bool> {
        bytes_to_bits(self.inner@).subrange(
            self.bit_start as int,
            self.bit_start + self.bit_len,
        )
    }

    fn bit_len(&self) -> (r: usize) {
        proof {
            use_type_invariant(self);
        }
        self.bit_len
    }

    fn bit_at(&self, i: usize) -> (r: bool) {
        proof {
            use_type_invariant(self);
        }
        self.inner.bit_at(self.bit_start + i)
    }
}

impl BorrowBitsMut for BitsMut {
    fn set_bit_at(&mut self, i: usize, v: bool) {
        proof {
            use_type_invariant(&*self);
        }
        let k: usize = self.bit_start + i;
        let n: usize = self.inner.len();
        assert(k / 8 < n) by (nonlinear_arith)
            requires k < n * 8;
        let b = set_byte_bit(self.inner[k / 8], (k % 8) as u8, v);
        self.inner[k / 8] = b;
        assert(self.bits_view() =~= old(self).bits_view().update(i as int, v));
    }
}

impl BitBuf for BitsMut {
    fn advance(&mut self, count: usize) {
        self.advance_mut(count);
    }

    fn remaining(&self) -> (r: usize) {
        self.len()
    }

    fn chunk(&self) -> (r: BitView<'_, BitsMut>) {
        proof {
            use_type_invariant(self);
        }
        let r = BitView::new(self, 0, self.bit_len);
        assert(r.bits_view() =~= self.bits_view());
        r
    }
}

} // verus!
