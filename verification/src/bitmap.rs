//! Per-bit addressable read-only view over a byte buffer.
//!
//! Bit order is LSB-first within each byte, matching the ext2/3/4 on-disk
//! bitmap convention: bit `i` is `(buf[i / 8] >> (i % 8)) & 1`.

use vstd::prelude::*;
use vstd::slice::slice_to_vec;

verus! {

/// Value of bit `i` of a byte buffer, LSB-first within each byte.
pub open spec fn spec_bit(bytes: Seq<u8>, i: int) -> bool
    recommends
        0 <= i,
        i / 8 < bytes.len(),
{
    ((bytes[i / 8] >> ((i % 8) as u8)) & 1) == 1
}

/// Lightweight bitmap abstraction over owned bytes.
pub struct Bitmap(Vec<u8>);

impl View for Bitmap {
    type V = Seq<u8>;

    closed spec fn view(&self) -> Seq<u8> {
        self.0@
    }
}

impl Bitmap {
    /// Wraps a copy of the given bytes.
    pub fn from_bytes(bytes: &[u8]) -> (r: Self)
        ensures
            r@ == bytes@,
    {
        Bitmap(slice_to_vec(bytes))
    }

    /// Value of bit `idx`, LSB-first within each byte.
    pub fn check_bit(&self, idx: usize) -> (r: bool)
        requires
            idx / 8 < self@.len(),
        ensures
            r == spec_bit(self@, idx as int),
    {
        let byte = self.0[idx / 8];
        let bit_pos = idx % 8;
        (byte >> (bit_pos as u8)) & 0x01 == 1
    }

    /// All `8 * len` bits in order.
    pub fn check_all(&self) -> (r: Vec<bool>)
        requires
            self@.len() * 8 <= usize::MAX,
        ensures
            r@.len() == self@.len() * 8,
            forall|i: int| 0 <= i < r@.len() ==> r@[i] == spec_bit(self@, i),
    {
        let total = self.0.len() * 8;
        let mut ret: Vec<bool> = Vec::new();
        let mut i: usize = 0;
        while i < total
            invariant
                total == self@.len() * 8,
                0 <= i <= total,
                ret@.len() == i,
                forall|k: int| 0 <= k < i ==> ret@[k] == spec_bit(self@, k),
            decreases total - i,
        {
            ret.push(self.check_bit(i));
            i = i + 1;
        }
        ret
    }
}

} // verus!
