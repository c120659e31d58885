//! A cursor over bit-addressable storage, with byte- and bit-granular seeking,
//! reading and writing.
use vstd::prelude::*;
use crate::bits::{bytes_to_bits, bit_or_zero, byte_bit, lemma_zero_byte_bits, set_byte_bit, get_byte_bit};
use crate::storage::{BorrowBits, BorrowBitsMut};
use crate::view::BitView;

verus! {

/// Where a seek is measured from.
#[derive(Clone, Copy, Debug, PartialEq, Eq)]
pub enum SeekFrom {
    /// An absolute offset from the start.
    Start(u64),
    /// An offset from the end of the storage.
    End(i64),
    /// An offset from the current position.
    Current(i64),
}

/// Why a seek was refused.
#[derive(Clone, Copy, Debug, PartialEq, Eq)]
pub enum SeekError {
    /// The target position would be negative or would not fit in a `u64`.
    InvalidInput,
}

/// The absolute target of a seek from bit position `pos` over `len` bits, or `None`
/// where it would be negative or overflow.
pub open spec fn bit_seek_target(pos: u64, len: nat, from: SeekFrom) -> Option<u64> {
    match from {
        SeekFrom::Start(n) => Some(n),
        SeekFrom::End(n) => offset_target(len as int, n as int),
        SeekFrom::Current(n) => offset_target(pos as int, n as int),
    }
}

/// `base + n`, where that lies in `0..=u64::MAX`.
pub open spec fn offset_target(base: int, n: int) -> Option<u64> {
    if 0 <= base + n <= u64::MAX {
        Some((base + n) as u64)
    } else {
        None
    }
}

/// The bit-granular seek that a byte-granular seek stands for: the offset times 8,
/// or `None` where that product does not fit.
pub open spec fn scaled_seek(from: SeekFrom) -> Option<SeekFrom> {
    match from {
        SeekFrom::Start(n) => if n * 8 <= u64::MAX {
            Some(SeekFrom::Start((n * 8) as u64))
        } else {
            None
        },
        SeekFrom::End(n) => if i64::MIN <= n * 8 <= i64::MAX {
            Some(SeekFrom::End((n * 8) as i64))
        } else {
            None
        },
        SeekFrom::Current(n) => if i64::MIN <= n * 8 <= i64::MAX {
            Some(SeekFrom::Current((n * 8) as i64))
        } else {
            None
        },
    }
}

/// The bit position that a byte-granular seek moves to, or `None` where it fails.
pub open spec fn byte_seek_target(pos: u64, len: nat, from: SeekFrom) -> Option<u64> {
    match scaled_seek(from) {
        Some(f) => bit_seek_target(pos, len, f),
        None => None,
    }
}

/// The number of bits from position `pos` to the end of `len` bits; none past the end.
pub open spec fn bits_after(pos: u64, len: nat) -> nat {
    if pos < len {
        (len - pos) as nat
    } else {
        0
    }
}

/// The smaller of two counts.
pub open spec fn min_nat(a: nat, b: nat) -> nat {
    if a <= b {
        a
    } else {
        b
    }
}

/// A cursor over the bits of `inner`, at a bit position counted from the start.
#[derive(Debug, Default, PartialEq, Eq)]
pub struct BitCursor<T> {
    inner: T,
    pos: u64,
}

impl<T> BitCursor<T> {
    /// The wrapped storage.
    pub closed spec fn storage(&self) -> T {
        self.inner
    }

    /// The position, in bits from the start.
    pub closed spec fn pos(&self) -> u64 {
        self.pos
    }

    /// Creates a cursor at position 0 over `inner`.
    pub fn new(inner: T) -> (r: BitCursor<T>)
        ensures
            r.storage() == inner,
            r.pos() == 0,
    {
        BitCursor { inner, pos: 0 }
    }

    /// A mutable reference to the storage; the position is kept.
    pub fn get_mut(&mut self) -> (r: &mut T)
        ensures
            *r == old(self).storage(),
            final(self).storage() == *final(r),
            final(self).pos() == old(self).pos(),
    {
        &mut self.inner
    }

    /// A reference to the storage.
    pub fn get_ref(&self) -> (r: &T)
        ensures
            *r == self.storage(),
    {
        &self.inner
    }

    /// Consumes the cursor and hands back the storage.
    pub fn into_inner(self) -> (r: T)
        ensures
            r == self.storage(),
    {
        self.inner
    }

    /// The position, in bits from the start.
    pub fn position(&self) -> (r: u64)
        ensures
            r == self.pos(),
    {
        self.pos
    }

    /// Sets the position, in bits from the start, without any bounds check.
    pub fn set_position(&mut self, pos: u64)
        ensures
            final(self).pos() == pos,
            final(self).storage() == old(self).storage(),
    {
        self.pos = pos;
    }
}

impl<T: Clone> Clone for BitCursor<T> {
    /// A cursor over a clone of the storage, at the same position.
    fn clone(&self) -> (r: Self)
        ensures
            r.pos() == self.pos(),
    {
        BitCursor { inner: self.inner.clone(), pos: self.pos }
    }
}

impl<T: BorrowBits> BitCursor<T> {
    /// The bits of the wrapped storage.
    pub open spec fn bits(&self) -> Seq<bool> {
        self.storage().bits_view()
    }

    /// Splits the storage's bits at the cursor position into the bits before it and
    /// the bits from it on, each a view borrowed from the storage.
    pub fn split(&self) -> (r: (BitView<'_, T>, BitView<'_, T>))
        requires
            self.pos() <= self.bits().len(),
            self.bits().len() <= usize::MAX,
        ensures
            r.0.bits_view() == self.bits().take(self.pos() as int),
            r.1.bits_view() == self.bits().skip(self.pos() as int),
    {
        let len = self.inner.bit_len();
        let mid = self.pos as usize;
        (BitView::new(&self.inner, 0, mid), BitView::new(&self.inner, mid, len - mid))
    }

    /// Moves the position by whole bits: to `n` for `Start(n)`, or by `n` from the
    /// end or from the current position. A target that would be negative or would
    /// not fit in a `u64` is refused and the position is kept. Returns the new
    /// position.
    pub fn bit_seek(&mut self, from: SeekFrom) -> (r: Result<u64, SeekError>)
        requires
            old(self).bits().len() <= usize::MAX,
        ensures
            final(self).storage() == old(self).storage(),
            match bit_seek_target(old(self).pos(), old(self).bits().len(), from) {
                Some(t) => r == Ok::<u64, SeekError>(t) && final(self).pos() == t,
                None => r == Err::<u64, SeekError>(SeekError::InvalidInput)
                    && final(self).pos() == old(self).pos(),
            },
    {
        let (base, offset) = match from {
            SeekFrom::Start(n) => {
                self.pos = n;
                return Ok(n);
            },
            SeekFrom::End(n) => (self.inner.bit_len() as u64, n),
            SeekFrom::Current(n) => (self.pos, n),
        };
        match base.checked_add_signed(offset) {
            Some(n) => {
                self.pos = n;
                Ok(n)
            },
            None => Err(SeekError::InvalidInput),
        }
    }

    /// Moves the position by whole bytes, that is by eight times the offset in bits,
    /// as `bit_seek` does. An offset whose product by eight does not fit its type
    /// is refused like a negative target. Returns the new position in whole bytes
    /// (bits divided by 8, rounded down).
    pub fn seek(&mut self, from: SeekFrom) -> (r: Result<u64, SeekError>)
        requires
            old(self).bits().len() <= usize::MAX,
        ensures
            final(self).storage() == old(self).storage(),
            match byte_seek_target(old(self).pos(), old(self).bits().len(), from) {
                Some(t) => r == Ok::<u64, SeekError>(t / 8) && final(self).pos() == t,
                None => r == Err::<u64, SeekError>(SeekError::InvalidInput)
                    && final(self).pos() == old(self).pos(),
            },
    {
        let scaled = match from {
            SeekFrom::Start(n) => match n.checked_mul(8) {
                Some(m) => SeekFrom::Start(m),
                None => return Err(SeekError::InvalidInput),
            },
            SeekFrom::End(n) => match n.checked_mul(8) {
                Some(m) => SeekFrom::End(m),
                None => return Err(SeekError::InvalidInput),
            },
            SeekFrom::Current(n) => match n.checked_mul(8) {
                Some(m) => SeekFrom::Current(m),
                None => return Err(SeekError::InvalidInput),
            },
        };
        match self.bit_seek(scaled) {
            Ok(p) => Ok(p / 8),
            Err(e) => Err(e),
        }
    }

    /// Reads bytes from the position on: the bits are taken in groups of eight,
    /// each packed most significant bit first into one byte, a last short group
    /// padded with zero bits. As many groups as `buf` has room for are read.
    /// Returns their count; the position moves by eight bits for each.
    pub fn read(&mut self, buf: &mut [u8]) -> (r: usize)
        requires
            old(self).bits().len() + 8 <= usize::MAX,
        ensures
            final(self).storage() == old(self).storage(),
            r == min_nat(
                (bits_after(old(self).pos(), old(self).bits().len()) + 7) as nat / 8,
                old(buf)@.len(),
            ),
            final(self).pos() == old(self).pos() + 8 * r,
            final(buf)@.len() == old(buf)@.len(),
            forall|i: int, j: int|
                0 <= i < r && 0 <= j < 8 ==> #[trigger] byte_bit(final(buf)@[i], j)
                    == bit_or_zero(old(self).bits(), old(self).pos() + 8 * i + j),
            forall|i: int| r <= i < old(buf)@.len() ==> final(buf)@[i] == old(buf)@[i],
    {
        let len = self.inner.bit_len();
        if self.pos >= len as u64 {
            return 0;
        }
        let pos = self.pos as usize;
        let groups: usize = (len - pos + 7) / 8;
        let n: usize = if groups <= buf.len() { groups } else { buf.len() };
        let mut i: usize = 0;
        while i < n
            invariant
                i <= n,
                n <= buf@.len(),
                n * 8 <= len - pos + 7,
                pos < len,
                len + 8 <= usize::MAX,
                len == self.bits().len(),
                pos == self.pos(),
                buf@.len() == old(buf)@.len(),
                forall|ii: int, j: int|
                    0 <= ii < i && 0 <= j < 8 ==> #[trigger] byte_bit(buf@[ii], j)
                        == bit_or_zero(self.bits(), pos + 8 * ii + j),
                forall|ii: int| i <= ii < buf@.len() ==> buf@[ii] == old(buf)@[ii],
            decreases n - i,
        {
            let mut byte: u8 = 0;
            let mut j: u8 = 0;
            proof {
                lemma_zero_byte_bits();
            }
            assert(pos + 8 * i + 8 <= len + 8) by (nonlinear_arith)
                requires i < n, n * 8 <= len - pos + 7;
            while j < 8
                invariant
                    j <= 8,
                    i < n,
                    pos + 8 * i + 8 <= len + 8,
                    len + 8 <= usize::MAX,
                    len == self.bits().len(),
                    forall|jj: int| 0 <= jj < j ==> byte_bit(byte, jj)
                        == bit_or_zero(self.bits(), pos + 8 * i + jj),
                    forall|jj: int| j <= jj < 8 ==> !byte_bit(byte, jj),
                decreases 8 - j,
            {
                let k: usize = pos + 8 * i + j as usize;
                let v = k < len && self.inner.bit_at(k);
                byte = set_byte_bit(byte, j, v);
                j = j + 1;
            }
            buf[i] = byte;
            i = i + 1;
        }
        self.pos = self.pos + (n * 8) as u64;
        n
    }

    /// Copies bits from the position on into `dest`, as many as both have: the
    /// count is the smaller of `dest`'s length and the bits left after the
    /// position. Returns that count; the position moves by it.
    pub fn read_bits<D: BorrowBitsMut>(&mut self, dest: &mut D) -> (r: usize)
        requires
            old(self).bits().len() <= usize::MAX,
            old(dest).bits_view().len() <= usize::MAX,
        ensures
            final(self).storage() == old(self).storage(),
            r == min_nat(
                old(dest).bits_view().len(),
                bits_after(old(self).pos(), old(self).bits().len()),
            ),
            final(self).pos() == old(self).pos() + r,
            final(dest).bits_view() == overwrite(
                old(dest).bits_view(),
                0,
                bits_from(old(self).bits(), old(self).pos() as int, r as nat),
            ),
    {
        let len = self.inner.bit_len();
        let room = dest.bit_len();
        if self.pos >= len as u64 {
            assert(dest.bits_view() =~= overwrite(dest.bits_view(), 0, bits_from(self.bits(), self.pos() as int, 0)));
            return 0;
        }
        let pos = self.pos as usize;
        let n: usize = if room <= len - pos { room } else { len - pos };
        let mut i: usize = 0;
        while i < n
            invariant
                i <= n,
                n <= room,
                pos + n <= len,
                len == self.bits().len(),
                pos == self.pos(),
                room == old(dest).bits_view().len(),
                dest.bits_view().len() == room,
                dest.bits_view() =~= overwrite(
                    old(dest).bits_view(),
                    0,
                    bits_from(self.bits(), pos as int, i as nat),
                ),
            decreases n - i,
        {
            let b = self.inner.bit_at(pos + i);
            dest.set_bit_at(i, b);
            i = i + 1;
            assert(dest.bits_view() =~= overwrite(
                old(dest).bits_view(),
                0,
                bits_from(self.bits(), pos as int, i as nat),
            ));
        }
        self.pos = self.pos + n as u64;
        n
    }
}

/// The `n` bits of `s` from index `at` on.
pub open spec fn bits_from(s: Seq<bool>, at: int, n: nat) -> Seq<bool> {
    Seq::new(n, |k: int| s[at + k])
}

/// `s` with the bits from index `at` on replaced by `src`, its length kept.
pub open spec fn overwrite(s: Seq<bool>, at: int, src: Seq<bool>) -> Seq<bool> {
    Seq::new(s.len(), |k: int| if at <= k < at + src.len() { src[k - at] } else { s[k] })
}

/// Copies the first `n` bits of `source` into `dst` from index `at` on.
fn copy_bits<T: BorrowBitsMut, S: BorrowBits>(dst: &mut T, at: usize, n: usize, source: &S)
    requires
        at + n <= old(dst).bits_view().len(),
        old(dst).bits_view().len() <= usize::MAX,
        n <= source.bits_view().len(),
    ensures
        final(dst).bits_view() == overwrite(
            old(dst).bits_view(),
            at as int,
            source.bits_view().take(n as int),
        ),
{
    let mut i: usize = 0;
    while i < n
        invariant
            i <= n,
            at + n <= old(dst).bits_view().len(),
            old(dst).bits_view().len() <= usize::MAX,
            n <= source.bits_view().len(),
            dst.bits_view() =~= overwrite(
                old(dst).bits_view(),
                at as int,
                source.bits_view().take(i as int),
            ),
        decreases n - i,
    {
        let b = source.bit_at(i);
        dst.set_bit_at(at + i, b);
        i = i + 1;
        assert(dst.bits_view() =~= overwrite(
            old(dst).bits_view(),
            at as int,
            source.bits_view().take(i as int),
        ));
    }
}

impl<T: BorrowBitsMut> BitCursor<T> {
    /// Copies the bits of `source` into the storage from the position on, as many as
    /// both have: the count is the smaller of `source`'s length and the bits left
    /// after the position. Returns that count; the position moves by it.
    pub fn write_bits<S: BorrowBits>(&mut self, source: &S) -> (r: usize)
        requires
            old(self).bits().len() <= usize::MAX,
            source.bits_view().len() <= usize::MAX,
        ensures
            r == min_nat(
                source.bits_view().len(),
                bits_after(old(self).pos(), old(self).bits().len()),
            ),
            final(self).pos() == old(self).pos() + r,
            final(self).bits() == overwrite(
                old(self).bits(),
                old(self).pos() as int,
                source.bits_view().take(r as int),
            ),
    {
        let len = self.inner.bit_len();
        let avail = source.bit_len();
        if self.pos >= len as u64 {
            assert(self.bits() =~= overwrite(self.bits(), self.pos() as int, source.bits_view().take(0)));
            return 0;
        }
        let pos = self.pos as usize;
        let n: usize = if avail <= len - pos { avail } else { len - pos };
        copy_bits(&mut self.inner, pos, n, source);
        self.pos = self.pos + n as u64;
        n
    }

    /// Writes the bytes of `buf` from the position on, each as eight bits, most
    /// significant first, as many whole bytes as fit in the bits left after the
    /// position. Returns their count; the position moves by eight bits for each.
    pub fn write(&mut self, buf: &[u8]) -> (r: usize)
        requires
            old(self).bits().len() <= usize::MAX,
        ensures
            r == min_nat(bits_after(old(self).pos(), old(self).bits().len()) / 8, buf@.len()),
            final(self).pos() == old(self).pos() + 8 * r,
            final(self).bits() == overwrite(
                old(self).bits(),
                old(self).pos() as int,
                bytes_to_bits(buf@.take(r as int)),
            ),
    {
        let len = self.inner.bit_len();
        if self.pos >= len as u64 {
            assert(self.bits() =~= overwrite(self.bits(), self.pos() as int, bytes_to_bits(buf@.take(0))));
            return 0;
        }
        let pos = self.pos as usize;
        let room: usize = (len - pos) / 8;
        let n: usize = if room <= buf.len() { room } else { buf.len() };
        let mut i: usize = 0;
        while i < n
            invariant
                i <= n,
                n <= buf@.len(),
                n * 8 <= len - pos,
                pos == self.pos(),
                self.bits().len() == len,
                self.bits() =~= overwrite(
                    old(self).bits(),
                    pos as int,
                    bytes_to_bits(buf@.take(i as int)),
                ),
            decreases n - i,
        {
            assert(pos + 8 * i + 8 <= len) by (nonlinear_arith)
                requires i < n, n * 8 <= len - pos;
            let mut j: u8 = 0;
            while j < 8
                invariant
                    j <= 8,
                    i < n,
                    n <= buf@.len(),
                    pos + 8 * i + 8 <= len,
                    pos == self.pos(),
                    self.bits().len() == len,
                    self.bits() =~= overwrite(
                        old(self).bits(),
                        pos as int,
                        bytes_to_bits(buf@.take(i as int)) + Seq::new(
                            j as nat,
                            |jj: int| byte_bit(buf@[i as int], jj),
                        ),
                    ),
                decreases 8 - j,
            {
                let v = get_byte_bit(buf[i], j);
                self.inner.set_bit_at(pos + 8 * i + j as usize, v);
                j = j + 1;
                assert(self.bits() =~= overwrite(
                    old(self).bits(),
                    pos as int,
                    bytes_to_bits(buf@.take(i as int)) + Seq::new(
                        j as nat,
                        |jj: int| byte_bit(buf@[i as int], jj),
                    ),
                ));
            }
            i = i + 1;
            assert(bytes_to_bits(buf@.take(i as int)) =~= bytes_to_bits(buf@.take(i - 1))
                + Seq::new(8, |jj: int| byte_bit(buf@[i - 1], jj)));
        }
        self.pos = self.pos + (n * 8) as u64;
        n
    }

    /// Nothing is buffered, so there is nothing to flush.
    pub fn flush(&mut self)
        ensures
            *final(self) == *old(self),
    {
    }
}

/// The storage of a cursor split at a bit index `mid` into the bits before it and
/// the bits from it on. Each write through the methods below goes to one half
/// only; the fields are open so that contracts can follow the borrowed storage.
pub struct SplitMut<'a, T> {
    pub inner: &'a mut T,
    pub mid: usize,
}

impl<'a, T: BorrowBitsMut> SplitMut<'a, T> {
    /// The bits before the split index.
    pub open spec fn before(&self) -> Seq<bool> {
        (*self.inner).bits_view().take(self.mid as int)
    }

    /// The bits from the split index on.
    pub open spec fn after(&self) -> Seq<bool> {
        (*self.inner).bits_view().skip(self.mid as int)
    }

    /// Copies bits of `source` into the front of the first half, as many as both
    /// have. The second half is left as it was. Returns the count.
    pub fn write_bits_before<S: BorrowBits>(&mut self, source: &S) -> (r: usize)
        requires
            old(self).mid <= old(self).inner.bits_view().len(),
            old(self).inner.bits_view().len() <= usize::MAX,
            source.bits_view().len() <= usize::MAX,
        ensures
            r == min_nat(source.bits_view().len(), old(self).mid as nat),
            final(self).mid == old(self).mid,
            *final(final(self).inner) == *final(old(self).inner),
            final(self).inner.bits_view().len() == old(self).inner.bits_view().len(),
            final(self).before() == overwrite(
                old(self).before(),
                0,
                source.bits_view().take(r as int),
            ),
            final(self).after() == old(self).after(),
    {
        let avail = source.bit_len();
        let n: usize = if avail <= self.mid { avail } else { self.mid };
        copy_bits(self.inner, 0, n, source);
        assert(self.before() =~= overwrite(
            old(self).before(),
            0,
            source.bits_view().take(n as int),
        ));
        assert(self.after() =~= old(self).after());
        n
    }

    /// Copies bits of `source` into the front of the second half, as many as both
    /// have. The first half is left as it was. Returns the count.
    pub fn write_bits_after<S: BorrowBits>(&mut self, source: &S) -> (r: usize)
        requires
            old(self).mid <= old(self).inner.bits_view().len(),
            old(self).inner.bits_view().len() <= usize::MAX,
            source.bits_view().len() <= usize::MAX,
        ensures
            r == min_nat(
                source.bits_view().len(),
                (old(self).inner.bits_view().len() - old(self).mid) as nat,
            ),
            final(self).mid == old(self).mid,
            *final(final(self).inner) == *final(old(self).inner),
            final(self).inner.bits_view().len() == old(self).inner.bits_view().len(),
            final(self).after() == overwrite(
                old(self).after(),
                0,
                source.bits_view().take(r as int),
            ),
            final(self).before() == old(self).before(),
    {
        let avail = source.bit_len();
        let room = self.inner.bit_len() - self.mid;
        let n: usize = if avail <= room { avail } else { room };
        copy_bits(self.inner, self.mid, n, source);
        assert(self.after() =~= overwrite(
            old(self).after(),
            0,
            source.bits_view().take(n as int),
        ));
        assert(self.before() =~= old(self).before());
        n
    }
}

impl<T: BorrowBitsMut> BitCursor<T> {
    /// Splits the storage at the cursor position into two halves that can be
    /// written independently: the bits before the position and the bits from it on.
    pub fn split_mut(&mut self) -> (r: SplitMut<'_, T>)
        requires
            old(self).pos() <= old(self).bits().len(),
            old(self).bits().len() <= usize::MAX,
        ensures
            *r.inner == old(self).storage(),
            r.mid == old(self).pos(),
            final(self).storage() == *final(r.inner),
            final(self).pos() == old(self).pos(),
    {
        SplitMut { inner: &mut self.inner, mid: self.pos as usize }
    }
}

} // verus!
