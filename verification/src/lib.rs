//! Free-space derivation engine for ext2/3/4 drive images.
//!
//! The library decodes a filesystem's superblock and group-descriptor table,
//! walks allocated inodes through extent trees and legacy indirect-block
//! trees, and maintains a segment-merging usage map that splits a drive into
//! `Free` and `Used` byte ranges.

use vstd::prelude::*;

pub mod array;
pub mod bitmap;
pub mod codec;
pub mod crc;
pub mod detect;
pub mod e2fs;
pub mod fill;
pub mod usage_map;

verus! {

/// Why a scan rejected the filesystem or gave up.  Every error is fatal to
/// the run; the offending entity's identifier (group number, inode index)
/// travels with the variant.
#[derive(Clone, Copy, Debug, PartialEq, Eq, Structural)]
pub enum Error {
    /// The drive read callback failed.
    Io,
    /// An on-disk value pushed a byte-address computation past `u64::MAX`.
    Overflow,
    /// The block-group geometry of the superblock is contradictory.
    InvalidGeometry,
    /// `s_log_block_size` does not fit a 64-bit byte address space.
    BlockSizeTooLarge,
    UnknownStateFlags(u16),
    FilesystemHasErrors,
    FcReplayInProgress,
    UnknownErrorPolicy(u16),
    InvalidErrorPolicy,
    UnknownCreator(u32),
    UnknownRevision(u32),
    UnknownCompatFlags(u32),
    UnsupportedExcludeInode,
    UnsupportedExcludeBitmap,
    UnknownIncompatFlags(u32),
    NeedsRecovery,
    ExternalJournal,
    UnsupportedMetaBg,
    UnsupportedDirData,
    EncryptedFilesystem,
    UnknownRoCompatFlags(u32),
    ReadOnlyFilesystem,
    SharedBlocks,
    ConflictingChecksumFeatures,
    UnsupportedGdtCsum,
    UnknownHashVersion(u8),
    UnknownMountOpts(u32),
    UnknownMiscFlags(u32),
    CorruptSnapshotInodes,
    CorruptExcludeBitmaps,
    UnknownEncryptAlgo(u8),
    InvalidEncryptAlgo,
    /// A descriptor checksum was asked for without a checksum feature.
    MissingChecksumConfig,
    UnknownBgFlags(u64),
    /// The group's inode table is neither fully zeroed nor unused.
    PartialInodeTable(u64),
    UnknownInodeFlags(u64),
    InodeEncrypted(u64),
    UnsupportedInodeImagic(u64),
    UnsupportedInodeSnapfile(u64),
    UnsupportedInodeSnapfileShrunk(u64),
    UnsupportedInodeSnapfileDeleted(u64),
    UnsupportedInodeCompression(u64),
    UnsupportedInodeComprBlk(u64),
    InvalidInodeMode(u64, u16),
    UnsupportedVerity(u64),
    /// An extent tree node's header magic is not `0xf30a`.
    BadExtentMagic,
    /// An extent tree claims more levels than its root header allows.
    ExtentTreeTooDeep,
    /// An inode's 512-byte sector count does not divide into whole blocks.
    InexactBlockCount(u64),
    /// An extent tree node's entries run past the end of its block.
    TruncatedExtentNode,
    /// An on-disk structure points at a byte address past the drive's end.
    AddressBeyondDrive,
}

/// What the library assumes of the drive-read callback: it accepts any
/// request, and a successful read hands back exactly the requested number of
/// bytes.
pub open spec fn reader_ok<F: Fn(u64, u64) -> Result<Vec<u8>, Error>>(f: F) -> bool {
    &&& (forall|off: u64, len: u64| #[trigger] call_requires(f, (off, len)))
    &&& (forall|off: u64, len: u64, r: Result<Vec<u8>, Error>|
        #[trigger] call_ensures(f, (off, len), r) ==> (r is Ok ==> r->Ok_0@.len() == len))
}

/// Overrides that downgrade two specific filesystem-state rejections.
#[derive(Clone, Copy, Debug, PartialEq, Eq, Structural)]
pub struct Config {
    /// Permit the `recover` incompat flag.
    pub ignore_recovery: bool,
    /// Permit the `readonly` ro_compat flag.
    pub ignore_readonly: bool,
}

/// Supported filesystem types.
#[derive(Clone, Copy, Debug, PartialEq, Eq, Structural)]
pub enum FsType {
    Ext2,
    Ext3,
    Ext4,
}

} // verus!
