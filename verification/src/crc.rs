//! CRC-32C (Castagnoli) in the ext4 style.
//!
//! Ext4 chains its metadata checksums as `!crc32c(seed ^ !0, bytes)`, where
//! `crc32c` is the plain table-driven CRC-32C update.

use vstd::prelude::*;

verus! {

/// Result of the table-driven CRC-32C update: the running checksum after
/// folding `data` into `seed`.
pub uninterp spec fn crc32c_update(seed: u32, data: Seq<u8>) -> u32;

/// Relies on crc::crc32::update with the Castagnoli table: the result is a
/// function of the seed and the bytes alone, and folding in no bytes returns
/// the seed unchanged (the implementation complements the value on the way in
/// and again on the way out).
#[verifier::external_body]
fn crc32c(seed: u32, buf: &[u8]) -> (r: u32)
    ensures
        r == crc32c_update(seed, buf@),
        buf@.len() == 0 ==> r == seed,
{
    crc::crc32::update(seed, &crc::crc32::CASTAGNOLI_TABLE, buf)
}

/// Ext4-style CRC-32C of `data` folded into `seed`.
pub open spec fn spec_ext4_crc32c(seed: u32, data: Seq<u8>) -> u32 {
    crc32c_update(seed ^ 0xffff_ffffu32, data) ^ 0xffff_ffffu32
}

/// Ext4-style crc32c: `crc32c(seed ^ !0, buf) ^ !0`.  Folding in no bytes
/// returns the seed unchanged.
pub fn ext4_style_crc32c_le(seed: u32, buf: &[u8]) -> (r: u32)
    ensures
        r == spec_ext4_crc32c(seed, buf@),
        buf@.len() == 0 ==> r == seed,
{
    let inner = crc32c(seed ^ 0xffff_ffff, buf);
    let r = inner ^ 0xffff_ffff;
    proof {
        if buf@.len() == 0 {
            assert((seed ^ 0xffff_ffffu32) ^ 0xffff_ffffu32 == seed) by (bit_vector);
        }
    }
    r
}

} // verus!
