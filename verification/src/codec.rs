//! Little-endian field readers over byte buffers.
//!
//! All on-disk multibyte integers of ext2/3/4 are little-endian; these
//! helpers read one field at a byte offset of a buffer.

use vstd::bytes::u16_from_le_bytes;
use vstd::bytes::u32_from_le_bytes;
use vstd::bytes::u64_from_le_bytes;
use vstd::bytes::spec_u16_from_le_bytes;
use vstd::bytes::spec_u32_from_le_bytes;
use vstd::bytes::spec_u64_from_le_bytes;
use vstd::prelude::*;
use vstd::slice::slice_subrange;

verus! {

broadcast use vstd::slice::axiom_spec_len;

/// Little-endian u16 at byte offset `off`.
pub open spec fn spec_le16_at(s: Seq<u8>, off: int) -> u16 {
    spec_u16_from_le_bytes(s.subrange(off, off + 2))
}

/// Little-endian u32 at byte offset `off`.
pub open spec fn spec_le32_at(s: Seq<u8>, off: int) -> u32 {
    spec_u32_from_le_bytes(s.subrange(off, off + 4))
}

/// Little-endian u64 at byte offset `off`.
pub open spec fn spec_le64_at(s: Seq<u8>, off: int) -> u64 {
    spec_u64_from_le_bytes(s.subrange(off, off + 8))
}

/// Reads the byte at `off`.
pub fn byte_at(buf: &[u8], off: usize) -> (r: u8)
    requires
        off < buf@.len(),
    ensures
        r == buf@[off as int],
{
    buf[off]
}

/// Reads a little-endian u16 at `off`.
pub fn le16_at(buf: &[u8], off: usize) -> (r: u16)
    requires
        off + 2 <= buf@.len(),
    ensures
        r == spec_le16_at(buf@, off as int),
{
    let n = buf.len();
    assert(off + 2 <= n);
    u16_from_le_bytes(slice_subrange(buf, off, off + 2))
}

/// Reads a little-endian u32 at `off`.
pub fn le32_at(buf: &[u8], off: usize) -> (r: u32)
    requires
        off + 4 <= buf@.len(),
    ensures
        r == spec_le32_at(buf@, off as int),
{
    let n = buf.len();
    assert(off + 4 <= n);
    u32_from_le_bytes(slice_subrange(buf, off, off + 4))
}

/// Reads a little-endian u64 at `off`.
pub fn le64_at(buf: &[u8], off: usize) -> (r: u64)
    requires
        off + 8 <= buf@.len(),
    ensures
        r == spec_le64_at(buf@, off as int),
{
    let n = buf.len();
    assert(off + 8 <= n);
    u64_from_le_bytes(slice_subrange(buf, off, off + 8))
}

/// Copies `N` raw bytes starting at `off` into a fixed-size array.
pub fn bytes_at<const N: usize>(buf: &[u8], off: usize) -> (r: [u8; N])
    requires
        off + N <= buf@.len(),
    ensures
        r@ == buf@.subrange(off as int, off + N),
{
    let n = buf.len();
    let mut a: [u8; N] = [0; N];
    let mut k: usize = 0;
    while k < N
        invariant
            n == buf@.len(),
            0 <= k <= N,
            off + N <= buf@.len(),
            a@.len() == N,
            forall|j: int| 0 <= j < k ==> a@[j] == buf@[off + j],
        decreases N - k,
    {
        a[k] = buf[off + k];
        k = k + 1;
    }
    proof {
        assert(a@ =~= buf@.subrange(off as int, off + N));
    }
    a
}

/// Reads `N` consecutive little-endian u32 values starting at `off`.
pub fn le32s_at<const N: usize>(buf: &[u8], off: usize) -> (r: [u32; N])
    requires
        off + 4 * N <= buf@.len(),
    ensures
        r@.len() == N,
        forall|k: int| 0 <= k < N ==> r@[k] == spec_le32_at(buf@, off + 4 * k),
{
    let n = buf.len();
    let mut a: [u32; N] = [0; N];
    let mut k: usize = 0;
    while k < N
        invariant
            n == buf@.len(),
            0 <= k <= N,
            off + 4 * N <= buf@.len(),
            a@.len() == N,
            forall|j: int| 0 <= j < k ==> a@[j] == spec_le32_at(buf@, off + 4 * j),
        decreases N - k,
    {
        a[k] = le32_at(buf, off + 4 * k);
        k = k + 1;
    }
    a
}


/// Joins 32-bit high and low halves into one u64.
#[verifier::allow_in_spec]
pub fn hilo32(hi: u32, lo: u32) -> u64
    returns (((hi as u64) << 32u64) | (lo as u64)),
{
    ((hi as u64) << 32u64) | (lo as u64)
}

/// Joins a 16-bit high half and a 32-bit low half into one u64.
#[verifier::allow_in_spec]
pub fn hilo16(hi: u16, lo: u32) -> u64
    returns (((hi as u64) << 32u64) | (lo as u64)),
{
    ((hi as u64) << 32u64) | (lo as u64)
}


/// The buffer as consecutive little-endian u32 values.
pub open spec fn spec_le32_seq(s: Seq<u8>) -> Seq<u32> {
    Seq::new((s.len() / 4) as nat, |i: int| spec_le32_at(s, 4 * i))
}

/// Reads the whole buffer as consecutive little-endian u32 values.
pub fn le32_entries(buf: &[u8]) -> (r: Vec<u32>)
    ensures
        r@ == spec_le32_seq(buf@),
{
    let n = buf.len();
    let count = n / 4;
    let mut out: Vec<u32> = Vec::new();
    let mut i: usize = 0;
    while i < count
        invariant
            n == buf@.len(),
            count == n / 4,
            0 <= i <= count,
            out@.len() == i,
            forall|j: int| 0 <= j < i ==> out@[j] == spec_le32_at(buf@, 4 * j),
        decreases count - i,
    {
        out.push(le32_at(buf, i * 4));
        i = i + 1;
    }
    proof {
        assert(out@ =~= spec_le32_seq(buf@));
    }
    out
}

} // verus!
