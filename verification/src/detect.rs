//! Filesystem detection over a decoded superblock.

use crate::FsType;
use crate::e2fs::SuperBlock;
use vstd::prelude::*;

verus! {

/// A superblock passes the quick ext2/3/4 plausibility check: the magic
/// value is in place and the state, error-policy and revision fields hold
/// values the format defines.
pub open spec fn spec_detect_e2fs(sb: SuperBlock) -> bool {
    &&& sb.s_magic == 0xef53
    &&& sb.s_state != 0
    &&& sb.s_state >> 3 == 0
    &&& sb.s_errors != 0
    &&& sb.s_errors <= 3
    &&& sb.s_rev_level <= 1
}

/// Checks whether the superblock looks like an ext2/3/4 filesystem.
pub fn detect_e2fs(sb: &SuperBlock) -> (r: bool)
    ensures
        r == spec_detect_e2fs(*sb),
{
    if sb.s_magic != 0xef53 {
        return false;
    }
    if sb.s_state == 0 || sb.s_state >> 3 != 0 {
        return false;
    }
    if sb.s_errors == 0 || sb.s_errors > 3 {
        return false;
    }
    if sb.s_rev_level > 1 {
        return false;
    }
    true
}

/// Detects the filesystem family from a decoded superblock.
pub fn detect_fs(sb: &SuperBlock) -> (r: Option<FsType>)
    ensures
        r == (if spec_detect_e2fs(*sb) {
            Some(FsType::Ext2)
        } else {
            None::<FsType>
        }),
{
    if detect_e2fs(sb) {
        Some(FsType::Ext2)
    } else {
        None
    }
}

} // verus!
