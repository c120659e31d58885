//! Laws that relate the cursor's operations to one another, stated over the
//! models that their contracts use.
use vstd::prelude::*;
use crate::cursor::{
    bit_seek_target, bits_after, bits_from, byte_seek_target, min_nat, overwrite, SeekFrom,
};

verus! {

/// Writing bits at a position and then reading as many bits back from the same
/// position gives back exactly the bits written, whatever the position.
pub proof fn lemma_write_read_round_trip(s: Seq<bool>, pos: u64, src: Seq<bool>, dest: Seq<bool>)
    requires
        pos <= s.len(),
        dest.len() == min_nat(src.len(), bits_after(pos, s.len())),
    ensures
        ({
            let n = min_nat(src.len(), bits_after(pos, s.len()));
            let written = overwrite(s, pos as int, src.take(n as int));
            &&& written.len() == s.len()
            &&& min_nat(dest.len(), bits_after(pos, written.len())) == n
            &&& overwrite(dest, 0, bits_from(written, pos as int, n)) == src.take(n as int)
        }),
{
    let n = min_nat(src.len(), bits_after(pos, s.len()));
    let written = overwrite(s, pos as int, src.take(n as int));
    assert(overwrite(dest, 0, bits_from(written, pos as int, n)) =~= src.take(n as int));
}

/// A byte seek to `Start(n)` lands on bit `8 * n`, from where a byte seek to
/// `Current(0)` reports `n` again; a byte seek to `End(0)` over storage of `k`
/// whole bytes reports `k`. A bit seek to `Start(m)` lands on bit `m`, a multiple
/// of 8 or not.
pub proof fn lemma_seek_positions(pos: u64, len: nat, n: u64, k: nat, m: u64)
    requires
        n * 8 <= u64::MAX,
        len == k * 8,
        len <= u64::MAX,
    ensures
        byte_seek_target(pos, len, SeekFrom::Start(n)) == Some((n * 8) as u64),
        byte_seek_target((n * 8) as u64, len, SeekFrom::Current(0)) == Some((n * 8) as u64),
        (n * 8) as u64 / 8 == n,
        byte_seek_target(pos, len, SeekFrom::End(0)) == Some(len as u64),
        len as u64 / 8 == k,
        bit_seek_target(pos, len, SeekFrom::Start(m)) == Some(m),
{
}

/// A seek from the current position or from the end to a negative position is
/// refused.
pub proof fn lemma_negative_seek_refused(pos: u64, len: nat, n: i64)
    ensures
        pos + n < 0 ==> bit_seek_target(pos, len, SeekFrom::Current(n)).is_none(),
        len + n < 0 ==> bit_seek_target(pos, len, SeekFrom::End(n)).is_none(),
{
}

/// The two halves of a split, put back together, are the whole, at every split
/// index from 0 to the length.
pub proof fn lemma_split_partition(s: Seq<bool>, p: nat)
    requires
        p <= s.len(),
    ensures
        s.take(p as int) + s.skip(p as int) == s,
{
    assert(s.take(p as int) + s.skip(p as int) =~= s);
}

/// Writing into the first half of a split changes no bit of the second half:
/// the storage is the old one with the written bits laid over its front.
pub proof fn lemma_write_before_confined(s: Seq<bool>, t: Seq<bool>, mid: nat, a: Seq<bool>)
    requires
        mid <= s.len(),
        t.len() == s.len(),
        a.len() <= mid,
        t.take(mid as int) == overwrite(s.take(mid as int), 0, a),
        t.skip(mid as int) == s.skip(mid as int),
    ensures
        t == overwrite(s, 0, a),
        forall|k: int| mid <= k < s.len() ==> t[k] == s[k],
{
    assert forall|k: int| 0 <= k < s.len() implies t[k] == overwrite(s, 0, a)[k] by {
        if k < mid {
            assert(t[k] == t.take(mid as int)[k]);
        } else {
            assert(t[k] == t.skip(mid as int)[k - mid]);
        }
    }
    assert(t =~= overwrite(s, 0, a));
}

/// Writing into the second half of a split changes no bit of the first half:
/// the storage is the old one with the written bits laid over it from the split
/// index on.
pub proof fn lemma_write_after_confined(s: Seq<bool>, t: Seq<bool>, mid: nat, b: Seq<bool>)
    requires
        mid <= s.len(),
        t.len() == s.len(),
        mid + b.len() <= s.len(),
        t.take(mid as int) == s.take(mid as int),
        t.skip(mid as int) == overwrite(s.skip(mid as int), 0, b),
    ensures
        t == overwrite(s, mid as int, b),
        forall|k: int| 0 <= k < mid ==> t[k] == s[k],
{
    assert forall|k: int| 0 <= k < s.len() implies t[k] == overwrite(s, mid as int, b)[k] by {
        if k < mid {
            assert(t[k] == t.take(mid as int)[k]);
        } else {
            assert(t[k] == t.skip(mid as int)[k - mid]);
        }
    }
    assert(t =~= overwrite(s, mid as int, b));
}

} // verus!
