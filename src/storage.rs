//! Storage that can present itself as a sequence of bits.
use vstd::prelude::*;
use crate::bits::{bytes_to_bits, get_byte_bit, set_byte_bit};
use bitvec::order::Msb0;
use bitvec::vec::BitVec;

verus! {

/// Storage that offers a read-only bit-level view of its whole content.
pub trait BorrowBits {
    /// The bits of the storage, in order.
    spec fn bits_view(&self) -> Seq<bool>;

    /// The number of bits in the view.
    fn bit_len(&self) -> (r: usize)
        requires
            self.bits_view().len() <= usize::MAX,
        ensures
            r == self.bits_view().len(),
    ;

    /// The bit at index `i`.
    fn bit_at(&self, i: usize) -> (r: bool)
        requires
            i < self.bits_view().len(),
        ensures
            r == self.bits_view()[i as int],
    ;
}

/// Storage that also offers a mutable bit-level view of itself.
pub trait BorrowBitsMut: BorrowBits {
    /// Sets the bit at index `i` to `v`, leaving every other bit as it was.
    fn set_bit_at(&mut self, i: usize, v: bool)
        requires
            i < old(self).bits_view().len(),
        ensures
            final(self).bits_view() == old(self).bits_view().update(i as int, v),
    ;
}

impl BorrowBits for Vec<u8> {
    open spec fn bits_view(&self) -> Seq<bool> {
        bytes_to_bits(self@)
    }

    fn bit_len(&self) -> (r: usize) {
        self.len() * 8
    }

    fn bit_at(&self, i: usize) -> (r: bool) {
        assert(i / 8 < self@.len()) by (nonlinear_arith)
            requires i < self@.len() * 8;
        get_byte_bit(self[i / 8], (i % 8) as u8)
    }
}

/// A bit-packed, growable vector of bits, most significant bit of each byte first.
#[verifier::external_body]
pub struct PackedBits {
    bits: BitVec<u8, Msb0>,
}

/// The bits that a bit-packed vector holds, in order.
pub uninterp spec fn packed_bits(v: PackedBits) -> Seq<bool>;

/// Relies on `bitvec::vec::BitVec::from_vec`: every bit of every byte, in MSB-first
/// order. It panics where the bit count exceeds `usize::MAX >> 3`, which the bound
/// below excludes.
#[verifier::external_body]
fn packed_from_vec(bytes: Vec<u8>) -> (r: PackedBits)
    requires
        bytes@.len() * 8 <= usize::MAX / 8,
    ensures
        packed_bits(r) == bytes_to_bits(bytes@),
{
    PackedBits { bits: BitVec::from_vec(bytes) }
}

/// Relies on `bitvec::vec::BitVec::repeat`: `len` copies of `bit`. It panics where
/// `len` exceeds `usize::MAX >> 3`, which the bound below excludes.
#[verifier::external_body]
fn packed_repeat(bit: bool, len: usize) -> (r: PackedBits)
    requires
        len <= usize::MAX / 8,
    ensures
        packed_bits(r) == Seq::new(len as nat, |i: int| bit),
{
    PackedBits { bits: BitVec::repeat(bit, len) }
}

impl PackedBits {
    /// A packed vector holding the bits of `bytes`, most significant bit of each
    /// byte first.
    pub fn from_vec(bytes: Vec<u8>) -> (r: PackedBits)
        requires
            bytes@.len() * 8 <= usize::MAX / 8,
        ensures
            r.bits_view() == bytes_to_bits(bytes@),
    {
        packed_from_vec(bytes)
    }

    /// A packed vector of `len` copies of `bit`.
    pub fn repeat(bit: bool, len: usize) -> (r: PackedBits)
        requires
            len <= usize::MAX / 8,
        ensures
            r.bits_view() == Seq::new(len as nat, |i: int| bit),
    {
        packed_repeat(bit, len)
    }
}

/// Relies on `bitvec::vec::BitVec::len`: the number of bits held.
#[verifier::external_body]
fn packed_len(v: &PackedBits) -> (r: usize)
    ensures
        r == packed_bits(*v).len(),
{
    v.bits.len()
}

/// Relies on indexing a `bitvec::slice::BitSlice`: the bit at `i`.
#[verifier::external_body]
fn packed_get(v: &PackedBits, i: usize) -> (r: bool)
    requires
        i < packed_bits(*v).len(),
    ensures
        r == packed_bits(*v)[i as int],
{
    v.bits[i]
}

/// Relies on `bitvec::slice::BitSlice::set`: writes one bit and leaves the others.
#[verifier::external_body]
fn packed_set(v: &mut PackedBits, i: usize, b: bool)
    requires
        i < packed_bits(*old(v)).len(),
    ensures
        packed_bits(*final(v)) == packed_bits(*old(v)).update(i as int, b),
{
    v.bits.set(i, b)
}

impl BorrowBits for PackedBits {
    open spec fn bits_view(&self) -> Seq<bool> {
        packed_bits(*self)
    }

    fn bit_len(&self) -> (r: usize) {
        packed_len(self)
    }

    fn bit_at(&self, i: usize) -> (r: bool) {
        packed_get(self, i)
    }
}

impl BorrowBitsMut for PackedBits {
    fn set_bit_at(&mut self, i: usize, v: bool) {
        packed_set(self, i, v)
    }
}

impl BorrowBitsMut for Vec<u8> {
    fn set_bit_at(&mut self, i: usize, v: bool) {
        let n: usize = self.len();
        assert(i / 8 < n) by (nonlinear_arith)
            requires i < n * 8;
        let k: usize = i / 8;
        let b = set_byte_bit(self[k], (i % 8) as u8, v);
        self.set(k, b);
        assert(self.bits_view() =~= old(self).bits_view().update(i as int, v));
    }
}

impl<'a> BorrowBits for &'a [u8] {
    open spec fn bits_view(&self) -> Seq<bool> {
        bytes_to_bits(self@)
    }

    fn bit_len(&self) -> (r: usize) {
        self.len() * 8
    }

    fn bit_at(&self, i: usize) -> (r: bool) {
        let n: usize = self.len();
        assert(i / 8 < n) by (nonlinear_arith)
            requires i < n * 8;
        get_byte_bit(self[i / 8], (i % 8) as u8)
    }
}

impl<'a> BorrowBits for &'a mut [u8] {
    open spec fn bits_view(&self) -> Seq<bool> {
        bytes_to_bits((**self)@)
    }

    fn bit_len(&self) -> (r: usize) {
        self.len() * 8
    }

    fn bit_at(&self, i: usize) -> (r: bool) {
        let n: usize = self.len();
        assert(i / 8 < n) by (nonlinear_arith)
            requires i < n * 8;
        get_byte_bit(self[i / 8], (i % 8) as u8)
    }
}

impl<'a> BorrowBitsMut for &'a mut [u8] {
    fn set_bit_at(&mut self, i: usize, v: bool) {
        let n: usize = self.len();
        assert(i / 8 < n) by (nonlinear_arith)
            requires i < n * 8;
        let k: usize = i / 8;
        let b = set_byte_bit(self[k], (i % 8) as u8, v);
        self[k] = b;
        assert(self.bits_view() =~= old(self).bits_view().update(i as int, v));
    }
}

impl BorrowBits for Vec<bool> {
    open spec fn bits_view(&self) -> Seq<bool> {
        self@
    }

    fn bit_len(&self) -> (r: usize) {
        self.len()
    }

    fn bit_at(&self, i: usize) -> (r: bool) {
        self[i]
    }
}

impl BorrowBitsMut for Vec<bool> {
    fn set_bit_at(&mut self, i: usize, v: bool) {
        self.set(i, v);
    }
}

} // verus!
