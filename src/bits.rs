//! The bit-level model of storage: MSB-first bit sequences over bytes.
use vstd::prelude::*;

verus! {

/// Bit `j` (0 is the most significant) of the byte `b`.
pub open spec fn byte_bit(b: u8, j: int) -> bool {
    (b >> ((7 - j) as u8)) & 1u8 == 1u8
}

/// The bits of a byte sequence, most significant bit of each byte first.
pub open spec fn bytes_to_bits(s: Seq<u8>) -> Seq<bool> {
    Seq::new((s.len() * 8) as nat, |i: int| byte_bit(s[i / 8], i % 8))
}

/// Reads bit `j` of `b`, most significant first.
pub fn get_byte_bit(b: u8, j: u8) -> (r: bool)
    requires
        j < 8,
    ensures
        r == byte_bit(b, j as int),
{
    (b >> (7 - j)) & 1u8 == 1u8
}

/// Returns `b` with bit `j` (most significant first) set to `v`.
pub fn set_byte_bit(b: u8, j: u8, v: bool) -> (r: u8)
    requires
        j < 8,
    ensures
        byte_bit(r, j as int) == v,
        forall|k: int| 0 <= k < 8 && k != j ==> byte_bit(r, k) == byte_bit(b, k),
{
    let mask: u8 = 1u8 << (7 - j);
    let r: u8 = if v { b | mask } else { b & !mask };
    assert(byte_bit(r, j as int) == v) by (bit_vector)
        requires mask == 1u8 << ((7 - j) as u8), j < 8, r == (if v { b | mask } else { b & !mask });
    assert forall|k: int| 0 <= k < 8 && k != j implies byte_bit(r, k) == byte_bit(b, k) by {
        let kk: u8 = k as u8;
        assert((r >> ((7 - kk) as u8)) & 1u8 == (b >> ((7 - kk) as u8)) & 1u8) by (bit_vector)
            requires mask == 1u8 << ((7 - j) as u8), j < 8, kk < 8, kk != j,
                r == (if v { b | mask } else { b & !mask });
    }
    r
}

/// Bit `k` of `s`, or `false` where `k` lies outside `s`.
pub open spec fn bit_or_zero(s: Seq<bool>, k: int) -> bool {
    0 <= k < s.len() && s[k]
}

/// The byte `0` has no bit set.
pub proof fn lemma_zero_byte_bits()
    ensures
        forall|j: int| 0 <= j < 8 ==> !byte_bit(0u8, j),
{
    assert forall|j: int| 0 <= j < 8 implies !byte_bit(0u8, j) by {
        let jj: u8 = j as u8;
        assert((0u8 >> ((7 - jj) as u8)) & 1u8 == 0u8) by (bit_vector)
            requires jj < 8;
    }
}

} // verus!
