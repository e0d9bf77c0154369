//! Byte-for-byte framing of the records that syscalls copy into user memory,
//! and the scatter copy over the possibly non-contiguous physical fragments
//! that the external byte-copy service hands back for a user address range.

use vstd::prelude::*;

verus! {

/// Byte `i` (little-endian) of a 64-bit value.
pub open spec fn nth_byte64(v: u64, i: int) -> u8 {
    ((v >> ((i * 8) as u64)) & 0xff) as u8
}

/// Byte `i` (little-endian) of a 32-bit value.
pub open spec fn nth_byte32(v: u32, i: int) -> u8 {
    ((v >> ((i * 8) as u32)) & 0xff) as u8
}

/// The eight little-endian bytes of a 64-bit value.
pub open spec fn u64_bytes(v: u64) -> Seq<u8> {
    Seq::new(8, |i: int| nth_byte64(v, i))
}

/// The four little-endian bytes of a 32-bit value.
pub open spec fn u32_bytes(v: u32) -> Seq<u8> {
    Seq::new(4, |i: int| nth_byte32(v, i))
}

/// Append the eight little-endian bytes of `v`.
pub fn push_u64_bytes(out: &mut Vec<u8>, v: u64)
    ensures
        final(out)@ == old(out)@ + u64_bytes(v),
{
    out.push((v & 0xff) as u8);
    out.push(((v >> 8u64) & 0xff) as u8);
    out.push(((v >> 16u64) & 0xff) as u8);
    out.push(((v >> 24u64) & 0xff) as u8);
    out.push(((v >> 32u64) & 0xff) as u8);
    out.push(((v >> 40u64) & 0xff) as u8);
    out.push(((v >> 48u64) & 0xff) as u8);
    out.push(((v >> 56u64) & 0xff) as u8);
    proof {
        assert(v >> 0u64 == v) by (bit_vector);
        assert(out@ =~= old(out)@ + u64_bytes(v));
    }
}

/// Append the four little-endian bytes of `v`.
pub fn push_u32_bytes(out: &mut Vec<u8>, v: u32)
    ensures
        final(out)@ == old(out)@ + u32_bytes(v),
{
    out.push((v & 0xff) as u8);
    out.push(((v >> 8u32) & 0xff) as u8);
    out.push(((v >> 16u32) & 0xff) as u8);
    out.push(((v >> 24u32) & 0xff) as u8);
    proof {
        assert(v >> 0u32 == v) by (bit_vector);
        assert(out@ =~= old(out)@ + u32_bytes(v));
    }
}

/// The little-endian bytes of a run of 32-bit counters, in order.
pub open spec fn counters_bytes(ts: Seq<u32>) -> Seq<u8>
    decreases ts.len(),
{
    if ts.len() == 0 {
        Seq::empty()
    } else {
        counters_bytes(ts.drop_last()) + u32_bytes(ts.last())
    }
}

/// The concatenation of a fragment list's contents, in order.
pub open spec fn flat(bufs: Seq<Vec<u8>>) -> Seq<u8>
    decreases bufs.len(),
{
    if bufs.len() == 0 {
        Seq::empty()
    } else {
        flat(bufs.drop_last()) + bufs.last()@
    }
}

/// One more fragment on the end concatenates on the right.
pub proof fn lemma_flat_push(bufs: Seq<Vec<u8>>, v: Vec<u8>)
    ensures
        flat(bufs.push(v)) == flat(bufs) + v@,
{
    assert(bufs.push(v).drop_last() =~= bufs);
    assert(flat(bufs.push(v)) == flat(bufs.push(v).drop_last()) + bufs.push(v).last()@);
}

/// Prefixes of the fragment list contribute prefixes of the flattening.
pub proof fn lemma_flat_take_succ(bufs: Seq<Vec<u8>>, b: int)
    requires
        0 <= b < bufs.len(),
    ensures
        flat(bufs.take(b + 1)) == flat(bufs.take(b)) + bufs[b]@,
    decreases bufs.len(),
{
    assert(bufs.take(b + 1) =~= bufs.take(b).push(bufs[b]));
    lemma_flat_push(bufs.take(b), bufs[b]);
}

/// Every prefix of the fragment list flattens to at most the whole length.
pub proof fn lemma_flat_take_len(bufs: Seq<Vec<u8>>, b: int)
    requires
        0 <= b <= bufs.len(),
    ensures
        flat(bufs.take(b)).len() <= flat(bufs).len(),
    decreases bufs.len() - b,
{
    if b == bufs.len() {
        assert(bufs.take(b) =~= bufs);
    } else {
        lemma_flat_take_succ(bufs, b);
        lemma_flat_take_len(bufs, b + 1);
    }
}

/// Write one byte of one fragment.
fn set_byte(bufs: &mut Vec<Vec<u8>>, b: usize, k: usize, v: u8)
    requires
        b < old(bufs)@.len(),
        k < old(bufs)@[b as int]@.len(),
    ensures
        final(bufs)@.len() == old(bufs)@.len(),
        forall|x: int| 0 <= x < old(bufs)@.len() && x != b ==> final(bufs)@[x] == old(bufs)@[x],
        final(bufs)@[b as int]@ == old(bufs)@[b as int]@.update(k as int, v),
{
    let row = &mut bufs[b];
    row.set(k, v);
}

/// Copy `src` byte for byte into the fragments, in order, across fragment
/// boundaries: the scatter half of writing a record into a user address
/// range whose physical backing need not be contiguous. The fragments
/// together must be exactly as long as `src`.
pub fn scatter_copy(buffers: &mut Vec<Vec<u8>>, src: &Vec<u8>)
    requires
        flat(old(buffers)@).len() == src@.len(),
    ensures
        final(buffers)@.len() == old(buffers)@.len(),
        forall|x: int|
            0 <= x < old(buffers)@.len() ==> (#[trigger] final(buffers)@[x])@.len() == old(
                buffers,
            )@[x]@.len(),
        flat(final(buffers)@) == src@,
{
    let slen = src.len();
    let mut idx: usize = 0;
    let mut b: usize = 0;
    while b < buffers.len()
        invariant
            0 <= b <= buffers@.len(),
            buffers@.len() == old(buffers)@.len(),
            forall|x: int|
                0 <= x < buffers@.len() ==> (#[trigger] buffers@[x])@.len() == old(
                    buffers,
                )@[x]@.len(),
            forall|x: int| b <= x < buffers@.len() ==> (#[trigger] buffers@[x]) == old(buffers)@[x],
            flat(old(buffers)@).len() == src@.len(),
            slen == src@.len(),
            idx == flat(buffers@.take(b as int)).len(),
            idx <= src@.len(),
            flat(buffers@.take(b as int)) == src@.take(idx as int),
        decreases buffers@.len() - b,
    {
        let ghost pre = buffers@;
        let ghost idx0 = idx as int;
        let blen = buffers[b].len();
        proof {
            lemma_flat_take_succ(pre, b as int);
            lemma_flat_take_len(pre, b + 1);
            lemma_flat_len(pre, old(buffers)@);
            assert(idx + blen <= slen);
        }
        let mut k: usize = 0;
        while k < blen
            invariant
                0 <= k <= blen,
                b < buffers@.len(),
                idx == idx0 + k,
                slen == src@.len(),
                idx0 + blen <= slen,
                buffers@.len() == pre.len(),
                buffers@.len() == old(buffers)@.len(),
                blen == pre[b as int]@.len(),
                pre[b as int] == old(buffers)@[b as int],
                forall|x: int| 0 <= x < buffers@.len() && x != b ==> buffers@[x] == pre[x],
                forall|x: int|
                    0 <= x < buffers@.len() ==> (#[trigger] buffers@[x])@.len() == old(
                        buffers,
                    )@[x]@.len(),
                forall|x: int|
                    b < x < buffers@.len() ==> (#[trigger] buffers@[x]) == old(buffers)@[x],
                buffers@[b as int]@.len() == blen,
                forall|y: int| 0 <= y < k ==> buffers@[b as int]@[y] == src@[idx0 + y],
                forall|y: int| k <= y < blen ==> buffers@[b as int]@[y] == pre[b as int]@[y],
            decreases blen - k,
        {
            set_byte(buffers, b, k, src[idx]);
            k = k + 1;
            idx = idx + 1;
        }
        proof {
            assert(buffers@.take(b as int) =~= pre.take(b as int));
            lemma_flat_take_succ(buffers@, b as int);
            assert(buffers@[b as int]@ =~= src@.subrange(idx0, idx0 + blen));
            assert(flat(buffers@.take(b + 1)) =~= src@.take(idx0 + blen));
        }
        b = b + 1;
    }
    proof {
        assert(buffers@.take(buffers@.len() as int) =~= buffers@);
        lemma_flat_len(buffers@, old(buffers)@);
        assert(src@.take(src@.len() as int) =~= src@);
        assert(flat(buffers@) == src@);
    }
}

/// Fragment lists of equal shape flatten to equal lengths.
pub proof fn lemma_flat_len(a: Seq<Vec<u8>>, b: Seq<Vec<u8>>)
    requires
        a.len() == b.len(),
        forall|i: int| 0 <= i < a.len() ==> (#[trigger] a[i])@.len() == b[i]@.len(),
    ensures
        flat(a).len() == flat(b).len(),
    decreases a.len(),
{
    if a.len() > 0 {
        lemma_flat_len(a.drop_last(), b.drop_last());
    }
}

} // verus!
