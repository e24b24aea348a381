//! Ext2/3/4 on-disk structures and the free-space scan.
//!
//! Bit-exact fixed-layout decoding of the superblock, group descriptors,
//! feature-flag words, and the per-group traversal that feeds the usage map.

use crate::Config;
use crate::bitmap::Bitmap;
use crate::reader_ok;
use crate::usage_map::lemma_marks_only_used_trans;
use crate::Error;
use crate::array::Array;
use crate::codec::byte_at;
use crate::codec::hilo32;
use crate::codec::bytes_at;
use crate::codec::le16_at;
use crate::codec::le32_at;
use crate::codec::le32s_at;
use crate::codec::le64_at;
use crate::codec::spec_le16_at;
use crate::codec::spec_le32_at;
use crate::codec::spec_le64_at;
use crate::crc::ext4_style_crc32c_le;
use crate::usage_map::AllocStatus;
use crate::usage_map::UsageMap;
use crate::usage_map::marks_only_used;
use crate::crc::spec_ext4_crc32c;
use vstd::bytes::spec_u16_to_le_bytes;
use vstd::bytes::spec_u32_to_le_bytes;
use vstd::bytes::u16_to_le_bytes;
use vstd::bytes::u32_to_le_bytes;
use vstd::prelude::*;

pub mod extent;
pub mod inode;

verus! {

broadcast use vstd::slice::axiom_spec_len;

/// Size of the superblock's fixed layout in bytes.
pub const SUPERBLOCK_STRUCT_SIZE: usize = 1024;

/// Size of the full group-descriptor layout in bytes.
pub const GROUP_DESC_STRUCT_SIZE: usize = 64;

/// Inode size when the revision is not dynamic.
pub const GOOD_OLD_INODE_SIZE: u16 = 128;

/// The Ext2/3/4 superblock structure, in on-disk field order.
#[derive(Clone, Copy, Debug, PartialEq, Eq)]
pub struct SuperBlock {
    pub s_inodes_count: u32,
    pub s_blocks_count_lo: u32,
    pub s_r_blocks_count_lo: u32,
    pub s_free_blocks_count_lo: u32,
    pub s_free_inodes_count: u32,
    pub s_first_data_block: u32,
    pub s_log_block_size: u32,
    pub s_log_cluster_size: u32,
    pub s_blocks_per_group: u32,
    pub s_clusters_per_group: u32,
    pub s_inodes_per_group: u32,
    pub s_mtime: u32,
    pub s_wtime: u32,
    pub s_mnt_count: u16,
    pub s_max_mnt_count: u16,
    pub s_magic: u16,
    pub s_state: u16,
    pub s_errors: u16,
    pub s_minor_rev_level: u16,
    pub s_lastcheck: u32,
    pub s_checkinterval: u32,
    pub s_creator_os: u32,
    pub s_rev_level: u32,
    pub s_def_resuid: u16,
    pub s_def_resgid: u16,
    pub s_first_ino: u32,
    pub s_inode_size: u16,
    pub s_block_group_nr: u16,
    pub s_feature_compat: u32,
    pub s_feature_incompat: u32,
    pub s_feature_ro_compat: u32,
    pub s_uuid: [u8; 16],
    pub s_volume_name: [u8; 16],
    pub s_last_mounted: Array<u8, 64>,
    pub s_algorithm_usage_bitmap: u32,
    pub s_prealloc_blocks: u8,
    pub s_prealloc_dir_blocks: u8,
    pub s_reserved_gdt_blocks: u16,
    pub s_journal_uuid: [u8; 16],
    pub s_journal_inum: u32,
    pub s_journal_dev: u32,
    pub s_last_orphan: u32,
    pub s_hash_seed: [u32; 4],
    pub s_def_hash_version: u8,
    pub s_jnl_backup_type: u8,
    pub s_desc_size: u16,
    pub s_default_mount_opts: u32,
    pub s_first_meta_bg: u32,
    pub s_mkfs_time: u32,
    pub s_jnl_blocks: [u32; 17],
    pub s_blocks_count_hi: u32,
    pub s_r_blocks_count_hi: u32,
    pub s_free_blocks_count_hi: u32,
    pub s_min_extra_isize: u16,
    pub s_want_extra_isize: u16,
    pub s_flags: u32,
    pub s_raid_stride: u16,
    pub s_mmp_update_interval: u16,
    pub s_mmp_block: u64,
    pub s_raid_stripe_width: u32,
    pub s_log_groups_per_flex: u8,
    pub s_checksum_type: u8,
    pub s_encryption_level: u8,
    pub s_reserved_pad: u8,
    pub s_kbytes_written: u64,
    pub s_snapshot_inum: u32,
    pub s_snapshot_id: u32,
    pub s_snapshot_r_blocks_count: u64,
    pub s_snapshot_list: u32,
    pub s_error_count: u32,
    pub s_first_error_time: u32,
    pub s_first_error_ino: u32,
    pub s_first_error_block: u64,
    pub s_first_error_func: [u8; 32],
    pub s_first_error_line: u32,
    pub s_last_error_time: u32,
    pub s_last_error_ino: u32,
    pub s_last_error_line: u32,
    pub s_last_error_block: u64,
    pub s_last_error_func: [u8; 32],
    pub s_mount_opts: Array<u8, 64>,
    pub s_usr_quota_inum: u32,
    pub s_grp_quota_inum: u32,
    pub s_overhead_clusters: u32,
    pub s_backup_bgs: [u32; 2],
    pub s_encrypt_algos: [u8; 4],
    pub s_encrypt_pw_salt: [u8; 16],
    pub s_lpf_ino: u32,
    pub s_prj_quota_inum: u32,
    pub s_checksum_seed: u32,
    pub s_wtime_hi: u8,
    pub s_mtime_hi: u8,
    pub s_mkfs_time_hi: u8,
    pub s_lastcheck_hi: u8,
    pub s_first_error_time_hi: u8,
    pub s_last_error_time_hi: u8,
    pub s_first_error_errcode: u8,
    pub s_last_error_errcode: u8,
    pub s_encoding: u16,
    pub s_encoding_flags: u16,
    pub s_orphan_file_inum: u32,
    pub s_reserved: Array<u32, 94>,
    pub s_checksum: u32,
}

impl SuperBlock {
    /// Decodes the fixed little-endian superblock layout from its first 1024
    /// bytes (the buffer starts at byte 1024 of the drive).
    pub fn decode(buf: &[u8]) -> (r: SuperBlock)
        requires
            buf@.len() >= SUPERBLOCK_STRUCT_SIZE,
        ensures
            r.s_inodes_count == spec_le32_at(buf@, 0),
            r.s_blocks_count_lo == spec_le32_at(buf@, 4),
            r.s_r_blocks_count_lo == spec_le32_at(buf@, 8),
            r.s_free_blocks_count_lo == spec_le32_at(buf@, 12),
            r.s_free_inodes_count == spec_le32_at(buf@, 16),
            r.s_first_data_block == spec_le32_at(buf@, 20),
            r.s_log_block_size == spec_le32_at(buf@, 24),
            r.s_log_cluster_size == spec_le32_at(buf@, 28),
            r.s_blocks_per_group == spec_le32_at(buf@, 32),
            r.s_clusters_per_group == spec_le32_at(buf@, 36),
            r.s_inodes_per_group == spec_le32_at(buf@, 40),
            r.s_mtime == spec_le32_at(buf@, 44),
            r.s_wtime == spec_le32_at(buf@, 48),
            r.s_mnt_count == spec_le16_at(buf@, 52),
            r.s_max_mnt_count == spec_le16_at(buf@, 54),
            r.s_magic == spec_le16_at(buf@, 56),
            r.s_state == spec_le16_at(buf@, 58),
            r.s_errors == spec_le16_at(buf@, 60),
            r.s_minor_rev_level == spec_le16_at(buf@, 62),
            r.s_lastcheck == spec_le32_at(buf@, 64),
            r.s_checkinterval == spec_le32_at(buf@, 68),
            r.s_creator_os == spec_le32_at(buf@, 72),
            r.s_rev_level == spec_le32_at(buf@, 76),
            r.s_def_resuid == spec_le16_at(buf@, 80),
            r.s_def_resgid == spec_le16_at(buf@, 82),
            r.s_first_ino == spec_le32_at(buf@, 84),
            r.s_inode_size == spec_le16_at(buf@, 88),
            r.s_block_group_nr == spec_le16_at(buf@, 90),
            r.s_feature_compat == spec_le32_at(buf@, 92),
            r.s_feature_incompat == spec_le32_at(buf@, 96),
            r.s_feature_ro_compat == spec_le32_at(buf@, 100),
            r.s_uuid@ == buf@.subrange(104, 120),
            r.s_volume_name@ == buf@.subrange(120, 136),
            r.s_last_mounted.0@ == buf@.subrange(136, 200),
            r.s_algorithm_usage_bitmap == spec_le32_at(buf@, 200),
            r.s_prealloc_blocks == buf@[204],
            r.s_prealloc_dir_blocks == buf@[205],
            r.s_reserved_gdt_blocks == spec_le16_at(buf@, 206),
            r.s_journal_uuid@ == buf@.subrange(208, 224),
            r.s_journal_inum == spec_le32_at(buf@, 224),
            r.s_journal_dev == spec_le32_at(buf@, 228),
            r.s_last_orphan == spec_le32_at(buf@, 232),
            forall|k: int| 0 <= k < 4 ==> r.s_hash_seed@[k] == spec_le32_at(buf@, 236 + 4 * k),
            r.s_def_hash_version == buf@[252],
            r.s_jnl_backup_type == buf@[253],
            r.s_desc_size == spec_le16_at(buf@, 254),
            r.s_default_mount_opts == spec_le32_at(buf@, 256),
            r.s_first_meta_bg == spec_le32_at(buf@, 260),
            r.s_mkfs_time == spec_le32_at(buf@, 264),
            forall|k: int| 0 <= k < 17 ==> r.s_jnl_blocks@[k] == spec_le32_at(buf@, 268 + 4 * k),
            r.s_blocks_count_hi == spec_le32_at(buf@, 336),
            r.s_r_blocks_count_hi == spec_le32_at(buf@, 340),
            r.s_free_blocks_count_hi == spec_le32_at(buf@, 344),
            r.s_min_extra_isize == spec_le16_at(buf@, 348),
            r.s_want_extra_isize == spec_le16_at(buf@, 350),
            r.s_flags == spec_le32_at(buf@, 352),
            r.s_raid_stride == spec_le16_at(buf@, 356),
            r.s_mmp_update_interval == spec_le16_at(buf@, 358),
            r.s_mmp_block == spec_le64_at(buf@, 360),
            r.s_raid_stripe_width == spec_le32_at(buf@, 368),
            r.s_log_groups_per_flex == buf@[372],
            r.s_checksum_type == buf@[373],
            r.s_encryption_level == buf@[374],
            r.s_reserved_pad == buf@[375],
            r.s_kbytes_written == spec_le64_at(buf@, 376),
            r.s_snapshot_inum == spec_le32_at(buf@, 384),
            r.s_snapshot_id == spec_le32_at(buf@, 388),
            r.s_snapshot_r_blocks_count == spec_le64_at(buf@, 392),
            r.s_snapshot_list == spec_le32_at(buf@, 400),
            r.s_error_count == spec_le32_at(buf@, 404),
            r.s_first_error_time == spec_le32_at(buf@, 408),
            r.s_first_error_ino == spec_le32_at(buf@, 412),
            r.s_first_error_block == spec_le64_at(buf@, 416),
            r.s_first_error_func@ == buf@.subrange(424, 456),
            r.s_first_error_line == spec_le32_at(buf@, 456),
            r.s_last_error_time == spec_le32_at(buf@, 460),
            r.s_last_error_ino == spec_le32_at(buf@, 464),
            r.s_last_error_line == spec_le32_at(buf@, 468),
            r.s_last_error_block == spec_le64_at(buf@, 472),
            r.s_last_error_func@ == buf@.subrange(480, 512),
            r.s_mount_opts.0@ == buf@.subrange(512, 576),
            r.s_usr_quota_inum == spec_le32_at(buf@, 576),
            r.s_grp_quota_inum == spec_le32_at(buf@, 580),
            r.s_overhead_clusters == spec_le32_at(buf@, 584),
            forall|k: int| 0 <= k < 2 ==> r.s_backup_bgs@[k] == spec_le32_at(buf@, 588 + 4 * k),
            r.s_encrypt_algos@ == buf@.subrange(596, 600),
            r.s_encrypt_pw_salt@ == buf@.subrange(600, 616),
            r.s_lpf_ino == spec_le32_at(buf@, 616),
            r.s_prj_quota_inum == spec_le32_at(buf@, 620),
            r.s_checksum_seed == spec_le32_at(buf@, 624),
            r.s_wtime_hi == buf@[628],
            r.s_mtime_hi == buf@[629],
            r.s_mkfs_time_hi == buf@[630],
            r.s_lastcheck_hi == buf@[631],
            r.s_first_error_time_hi == buf@[632],
            r.s_last_error_time_hi == buf@[633],
            r.s_first_error_errcode == buf@[634],
            r.s_last_error_errcode == buf@[635],
            r.s_encoding == spec_le16_at(buf@, 636),
            r.s_encoding_flags == spec_le16_at(buf@, 638),
            r.s_orphan_file_inum == spec_le32_at(buf@, 640),
            forall|k: int| 0 <= k < 94 ==> r.s_reserved.0@[k] == spec_le32_at(buf@, 644 + 4 * k),
            r.s_checksum == spec_le32_at(buf@, 1020),
    {
        SuperBlock {
            s_inodes_count: le32_at(buf, 0),
            s_blocks_count_lo: le32_at(buf, 4),
            s_r_blocks_count_lo: le32_at(buf, 8),
            s_free_blocks_count_lo: le32_at(buf, 12),
            s_free_inodes_count: le32_at(buf, 16),
            s_first_data_block: le32_at(buf, 20),
            s_log_block_size: le32_at(buf, 24),
            s_log_cluster_size: le32_at(buf, 28),
            s_blocks_per_group: le32_at(buf, 32),
            s_clusters_per_group: le32_at(buf, 36),
            s_inodes_per_group: le32_at(buf, 40),
            s_mtime: le32_at(buf, 44),
            s_wtime: le32_at(buf, 48),
            s_mnt_count: le16_at(buf, 52),
            s_max_mnt_count: le16_at(buf, 54),
            s_magic: le16_at(buf, 56),
            s_state: le16_at(buf, 58),
            s_errors: le16_at(buf, 60),
            s_minor_rev_level: le16_at(buf, 62),
            s_lastcheck: le32_at(buf, 64),
            s_checkinterval: le32_at(buf, 68),
            s_creator_os: le32_at(buf, 72),
            s_rev_level: le32_at(buf, 76),
            s_def_resuid: le16_at(buf, 80),
            s_def_resgid: le16_at(buf, 82),
            s_first_ino: le32_at(buf, 84),
            s_inode_size: le16_at(buf, 88),
            s_block_group_nr: le16_at(buf, 90),
            s_feature_compat: le32_at(buf, 92),
            s_feature_incompat: le32_at(buf, 96),
            s_feature_ro_compat: le32_at(buf, 100),
            s_uuid: bytes_at::<16>(buf, 104),
            s_volume_name: bytes_at::<16>(buf, 120),
            s_last_mounted: Array(bytes_at::<64>(buf, 136)),
            s_algorithm_usage_bitmap: le32_at(buf, 200),
            s_prealloc_blocks: byte_at(buf, 204),
            s_prealloc_dir_blocks: byte_at(buf, 205),
            s_reserved_gdt_blocks: le16_at(buf, 206),
            s_journal_uuid: bytes_at::<16>(buf, 208),
            s_journal_inum: le32_at(buf, 224),
            s_journal_dev: le32_at(buf, 228),
            s_last_orphan: le32_at(buf, 232),
            s_hash_seed: le32s_at::<4>(buf, 236),
            s_def_hash_version: byte_at(buf, 252),
            s_jnl_backup_type: byte_at(buf, 253),
            s_desc_size: le16_at(buf, 254),
            s_default_mount_opts: le32_at(buf, 256),
            s_first_meta_bg: le32_at(buf, 260),
            s_mkfs_time: le32_at(buf, 264),
            s_jnl_blocks: le32s_at::<17>(buf, 268),
            s_blocks_count_hi: le32_at(buf, 336),
            s_r_blocks_count_hi: le32_at(buf, 340),
            s_free_blocks_count_hi: le32_at(buf, 344),
            s_min_extra_isize: le16_at(buf, 348),
            s_want_extra_isize: le16_at(buf, 350),
            s_flags: le32_at(buf, 352),
            s_raid_stride: le16_at(buf, 356),
            s_mmp_update_interval: le16_at(buf, 358),
            s_mmp_block: le64_at(buf, 360),
            s_raid_stripe_width: le32_at(buf, 368),
            s_log_groups_per_flex: byte_at(buf, 372),
            s_checksum_type: byte_at(buf, 373),
            s_encryption_level: byte_at(buf, 374),
            s_reserved_pad: byte_at(buf, 375),
            s_kbytes_written: le64_at(buf, 376),
            s_snapshot_inum: le32_at(buf, 384),
            s_snapshot_id: le32_at(buf, 388),
            s_snapshot_r_blocks_count: le64_at(buf, 392),
            s_snapshot_list: le32_at(buf, 400),
            s_error_count: le32_at(buf, 404),
            s_first_error_time: le32_at(buf, 408),
            s_first_error_ino: le32_at(buf, 412),
            s_first_error_block: le64_at(buf, 416),
            s_first_error_func: bytes_at::<32>(buf, 424),
            s_first_error_line: le32_at(buf, 456),
            s_last_error_time: le32_at(buf, 460),
            s_last_error_ino: le32_at(buf, 464),
            s_last_error_line: le32_at(buf, 468),
            s_last_error_block: le64_at(buf, 472),
            s_last_error_func: bytes_at::<32>(buf, 480),
            s_mount_opts: Array(bytes_at::<64>(buf, 512)),
            s_usr_quota_inum: le32_at(buf, 576),
            s_grp_quota_inum: le32_at(buf, 580),
            s_overhead_clusters: le32_at(buf, 584),
            s_backup_bgs: le32s_at::<2>(buf, 588),
            s_encrypt_algos: bytes_at::<4>(buf, 596),
            s_encrypt_pw_salt: bytes_at::<16>(buf, 600),
            s_lpf_ino: le32_at(buf, 616),
            s_prj_quota_inum: le32_at(buf, 620),
            s_checksum_seed: le32_at(buf, 624),
            s_wtime_hi: byte_at(buf, 628),
            s_mtime_hi: byte_at(buf, 629),
            s_mkfs_time_hi: byte_at(buf, 630),
            s_lastcheck_hi: byte_at(buf, 631),
            s_first_error_time_hi: byte_at(buf, 632),
            s_last_error_time_hi: byte_at(buf, 633),
            s_first_error_errcode: byte_at(buf, 634),
            s_last_error_errcode: byte_at(buf, 635),
            s_encoding: le16_at(buf, 636),
            s_encoding_flags: le16_at(buf, 638),
            s_orphan_file_inum: le32_at(buf, 640),
            s_reserved: Array(le32s_at::<94>(buf, 644)),
            s_checksum: le32_at(buf, 1020),
        }
    }
}

/// The Ext2/3/4 group descriptor structure, in on-disk field order.
#[derive(Clone, Copy, Debug, PartialEq, Eq, Structural)]
pub struct GroupDescriptor {
    pub bg_block_bitmap_lo: u32,
    pub bg_inode_bitmap_lo: u32,
    pub bg_inode_table_lo: u32,
    pub bg_free_blocks_count_lo: u16,
    pub bg_free_inodes_count_lo: u16,
    pub bg_used_dirs_count_lo: u16,
    pub bg_flags: u16,
    pub bg_exclude_bitmap_lo: u32,
    pub bg_block_bitmap_csum_lo: u16,
    pub bg_inode_bitmap_csum_lo: u16,
    pub bg_itable_unused_lo: u16,
    pub bg_checksum: u16,
    pub bg_block_bitmap_hi: u32,
    pub bg_inode_bitmap_hi: u32,
    pub bg_inode_table_hi: u32,
    pub bg_free_blocks_count_hi: u16,
    pub bg_free_inodes_count_hi: u16,
    pub bg_used_dirs_count_hi: u16,
    pub bg_itable_unused_hi: u16,
    pub bg_exclude_bitmap_hi: u32,
    pub bg_block_bitmap_csum_hi: u16,
    pub bg_inode_bitmap_csum_hi: u16,
    pub bg_reserved: u32,
}

/// The descriptor a little-endian descriptor table holds at byte offset
/// `off`.
pub open spec fn spec_decode_desc(s: Seq<u8>, off: int) -> GroupDescriptor {
    GroupDescriptor {
        bg_block_bitmap_lo: spec_le32_at(s, off + 0),
        bg_inode_bitmap_lo: spec_le32_at(s, off + 4),
        bg_inode_table_lo: spec_le32_at(s, off + 8),
        bg_free_blocks_count_lo: spec_le16_at(s, off + 12),
        bg_free_inodes_count_lo: spec_le16_at(s, off + 14),
        bg_used_dirs_count_lo: spec_le16_at(s, off + 16),
        bg_flags: spec_le16_at(s, off + 18),
        bg_exclude_bitmap_lo: spec_le32_at(s, off + 20),
        bg_block_bitmap_csum_lo: spec_le16_at(s, off + 24),
        bg_inode_bitmap_csum_lo: spec_le16_at(s, off + 26),
        bg_itable_unused_lo: spec_le16_at(s, off + 28),
        bg_checksum: spec_le16_at(s, off + 30),
        bg_block_bitmap_hi: spec_le32_at(s, off + 32),
        bg_inode_bitmap_hi: spec_le32_at(s, off + 36),
        bg_inode_table_hi: spec_le32_at(s, off + 40),
        bg_free_blocks_count_hi: spec_le16_at(s, off + 44),
        bg_free_inodes_count_hi: spec_le16_at(s, off + 46),
        bg_used_dirs_count_hi: spec_le16_at(s, off + 48),
        bg_itable_unused_hi: spec_le16_at(s, off + 50),
        bg_exclude_bitmap_hi: spec_le32_at(s, off + 52),
        bg_block_bitmap_csum_hi: spec_le16_at(s, off + 56),
        bg_inode_bitmap_csum_hi: spec_le16_at(s, off + 58),
        bg_reserved: spec_le32_at(s, off + 60),
    }
}

/// The little-endian encoding of a group descriptor, 64 bytes.
pub open spec fn spec_encode_desc(d: GroupDescriptor) -> Seq<u8> {
    spec_u32_to_le_bytes(d.bg_block_bitmap_lo)
        + spec_u32_to_le_bytes(d.bg_inode_bitmap_lo)
        + spec_u32_to_le_bytes(d.bg_inode_table_lo)
        + spec_u16_to_le_bytes(d.bg_free_blocks_count_lo)
        + spec_u16_to_le_bytes(d.bg_free_inodes_count_lo)
        + spec_u16_to_le_bytes(d.bg_used_dirs_count_lo)
        + spec_u16_to_le_bytes(d.bg_flags)
        + spec_u32_to_le_bytes(d.bg_exclude_bitmap_lo)
        + spec_u16_to_le_bytes(d.bg_block_bitmap_csum_lo)
        + spec_u16_to_le_bytes(d.bg_inode_bitmap_csum_lo)
        + spec_u16_to_le_bytes(d.bg_itable_unused_lo)
        + spec_u16_to_le_bytes(d.bg_checksum)
        + spec_u32_to_le_bytes(d.bg_block_bitmap_hi)
        + spec_u32_to_le_bytes(d.bg_inode_bitmap_hi)
        + spec_u32_to_le_bytes(d.bg_inode_table_hi)
        + spec_u16_to_le_bytes(d.bg_free_blocks_count_hi)
        + spec_u16_to_le_bytes(d.bg_free_inodes_count_hi)
        + spec_u16_to_le_bytes(d.bg_used_dirs_count_hi)
        + spec_u16_to_le_bytes(d.bg_itable_unused_hi)
        + spec_u32_to_le_bytes(d.bg_exclude_bitmap_hi)
        + spec_u16_to_le_bytes(d.bg_block_bitmap_csum_hi)
        + spec_u16_to_le_bytes(d.bg_inode_bitmap_csum_hi)
        + spec_u32_to_le_bytes(d.bg_reserved)
}

impl GroupDescriptor {
    /// Decodes one descriptor at byte offset `off` of a descriptor table.
    pub fn decode(buf: &[u8], off: usize) -> (r: GroupDescriptor)
        requires
            off + GROUP_DESC_STRUCT_SIZE <= buf@.len(),
        ensures
            r == spec_decode_desc(buf@, off as int),
    {
        let n = buf.len();
        assert(off + 64 <= n);
        GroupDescriptor {
            bg_block_bitmap_lo: le32_at(buf, off + 0),
            bg_inode_bitmap_lo: le32_at(buf, off + 4),
            bg_inode_table_lo: le32_at(buf, off + 8),
            bg_free_blocks_count_lo: le16_at(buf, off + 12),
            bg_free_inodes_count_lo: le16_at(buf, off + 14),
            bg_used_dirs_count_lo: le16_at(buf, off + 16),
            bg_flags: le16_at(buf, off + 18),
            bg_exclude_bitmap_lo: le32_at(buf, off + 20),
            bg_block_bitmap_csum_lo: le16_at(buf, off + 24),
            bg_inode_bitmap_csum_lo: le16_at(buf, off + 26),
            bg_itable_unused_lo: le16_at(buf, off + 28),
            bg_checksum: le16_at(buf, off + 30),
            bg_block_bitmap_hi: le32_at(buf, off + 32),
            bg_inode_bitmap_hi: le32_at(buf, off + 36),
            bg_inode_table_hi: le32_at(buf, off + 40),
            bg_free_blocks_count_hi: le16_at(buf, off + 44),
            bg_free_inodes_count_hi: le16_at(buf, off + 46),
            bg_used_dirs_count_hi: le16_at(buf, off + 48),
            bg_itable_unused_hi: le16_at(buf, off + 50),
            bg_exclude_bitmap_hi: le32_at(buf, off + 52),
            bg_block_bitmap_csum_hi: le16_at(buf, off + 56),
            bg_inode_bitmap_csum_hi: le16_at(buf, off + 58),
            bg_reserved: le32_at(buf, off + 60),
        }
    }

    /// Serializes the descriptor back into its 64-byte little-endian layout.
    pub fn encode(&self) -> (r: Vec<u8>)
        ensures
            r@ == spec_encode_desc(*self),
            r@.len() == 64,
    {
        let d = *self;
        let mut out: Vec<u8> = Vec::new();
        out.append(&mut u32_to_le_bytes(d.bg_block_bitmap_lo));
        out.append(&mut u32_to_le_bytes(d.bg_inode_bitmap_lo));
        out.append(&mut u32_to_le_bytes(d.bg_inode_table_lo));
        out.append(&mut u16_to_le_bytes(d.bg_free_blocks_count_lo));
        out.append(&mut u16_to_le_bytes(d.bg_free_inodes_count_lo));
        out.append(&mut u16_to_le_bytes(d.bg_used_dirs_count_lo));
        out.append(&mut u16_to_le_bytes(d.bg_flags));
        out.append(&mut u32_to_le_bytes(d.bg_exclude_bitmap_lo));
        out.append(&mut u16_to_le_bytes(d.bg_block_bitmap_csum_lo));
        out.append(&mut u16_to_le_bytes(d.bg_inode_bitmap_csum_lo));
        out.append(&mut u16_to_le_bytes(d.bg_itable_unused_lo));
        out.append(&mut u16_to_le_bytes(d.bg_checksum));
        out.append(&mut u32_to_le_bytes(d.bg_block_bitmap_hi));
        out.append(&mut u32_to_le_bytes(d.bg_inode_bitmap_hi));
        out.append(&mut u32_to_le_bytes(d.bg_inode_table_hi));
        out.append(&mut u16_to_le_bytes(d.bg_free_blocks_count_hi));
        out.append(&mut u16_to_le_bytes(d.bg_free_inodes_count_hi));
        out.append(&mut u16_to_le_bytes(d.bg_used_dirs_count_hi));
        out.append(&mut u16_to_le_bytes(d.bg_itable_unused_hi));
        out.append(&mut u32_to_le_bytes(d.bg_exclude_bitmap_hi));
        out.append(&mut u16_to_le_bytes(d.bg_block_bitmap_csum_hi));
        out.append(&mut u16_to_le_bytes(d.bg_inode_bitmap_csum_hi));
        out.append(&mut u32_to_le_bytes(d.bg_reserved));
        proof {
            vstd::bytes::lemma_auto_spec_u16_to_from_le_bytes();
            vstd::bytes::lemma_auto_spec_u32_to_from_le_bytes();
            assert(out@ =~= spec_encode_desc(d));
        }
        out
    }
}

/// Group descriptor flags (`bg_flags`).
#[derive(Copy, Clone, Debug, PartialEq, Eq, Structural)]
pub struct BgFlags(pub u16);

impl BgFlags {
    #[verifier::allow_in_spec]
    pub fn has_inode_uninit(&self) -> bool
        returns (self.0 & 0x1 != 0),
    {
        self.0 & 0x1 != 0
    }

    #[verifier::allow_in_spec]
    pub fn has_block_uninit(&self) -> bool
        returns (self.0 & 0x2 != 0),
    {
        self.0 & 0x2 != 0
    }

    #[verifier::allow_in_spec]
    pub fn has_inode_zeroed(&self) -> bool
        returns (self.0 & 0x4 != 0),
    {
        self.0 & 0x4 != 0
    }

    /// All bits that no known query covers.
    #[verifier::allow_in_spec]
    pub fn get_unknown(&self) -> u16
        returns ((self.0 >> 3) << 3),
    {
        (self.0 >> 3) << 3
    }

    #[verifier::allow_in_spec]
    pub fn has_unknown(&self) -> bool
        returns (((self.0 >> 3) << 3) != 0),
    {
        self.get_unknown() != 0
    }
}

/// State of the filesystem (`s_state`).
#[derive(Copy, Clone, Debug, PartialEq, Eq, Structural)]
pub struct State(pub u16);

impl State {
    #[verifier::allow_in_spec]
    pub fn has_valid(&self) -> bool
        returns (self.0 & 0x1 != 0),
    {
        self.0 & 0x1 != 0
    }

    #[verifier::allow_in_spec]
    pub fn has_error(&self) -> bool
        returns (self.0 & 0x2 != 0),
    {
        self.0 & 0x2 != 0
    }

    #[verifier::allow_in_spec]
    pub fn has_orphan(&self) -> bool
        returns (self.0 & 0x4 != 0),
    {
        self.0 & 0x4 != 0
    }

    #[verifier::allow_in_spec]
    pub fn has_fc_replay(&self) -> bool
        returns (self.0 & 0x20 != 0),
    {
        self.0 & 0x20 != 0
    }

    /// All bits that no known query covers.
    #[verifier::allow_in_spec]
    pub fn get_unknown(&self) -> u16
        returns (((self.0 >> 6) << 6) | (self.0 & 0x08) | (self.0 & 0x10)),
    {
        ((self.0 >> 6) << 6) | (self.0 & 0x08) | (self.0 & 0x10)
    }

    #[verifier::allow_in_spec]
    pub fn has_unknown(&self) -> bool
        returns ((((self.0 >> 6) << 6) | (self.0 & 0x08) | (self.0 & 0x10)) != 0),
    {
        self.get_unknown() != 0
    }
}

/// Compatible features (`s_feature_compat`).
#[derive(Copy, Clone, Debug, PartialEq, Eq, Structural)]
pub struct CompatFeatures(pub u32);

impl CompatFeatures {
    #[verifier::allow_in_spec]
    pub fn has_dir_prealloc(&self) -> bool
        returns (self.0 & 0x0001 != 0),
    {
        self.0 & 0x0001 != 0
    }

    #[verifier::allow_in_spec]
    pub fn has_imagic_inodes(&self) -> bool
        returns (self.0 & 0x0002 != 0),
    {
        self.0 & 0x0002 != 0
    }

    #[verifier::allow_in_spec]
    pub fn has_has_journal(&self) -> bool
        returns (self.0 & 0x0004 != 0),
    {
        self.0 & 0x0004 != 0
    }

    #[verifier::allow_in_spec]
    pub fn has_ext_attr(&self) -> bool
        returns (self.0 & 0x0008 != 0),
    {
        self.0 & 0x0008 != 0
    }

    #[verifier::allow_in_spec]
    pub fn has_resize_inode(&self) -> bool
        returns (self.0 & 0x0010 != 0),
    {
        self.0 & 0x0010 != 0
    }

    #[verifier::allow_in_spec]
    pub fn has_dir_index(&self) -> bool
        returns (self.0 & 0x0020 != 0),
    {
        self.0 & 0x0020 != 0
    }

    #[verifier::allow_in_spec]
    pub fn has_lazy_bg(&self) -> bool
        returns (self.0 & 0x0040 != 0),
    {
        self.0 & 0x0040 != 0
    }

    #[verifier::allow_in_spec]
    pub fn has_exclude_inode(&self) -> bool
        returns (self.0 & 0x0080 != 0),
    {
        self.0 & 0x0080 != 0
    }

    #[verifier::allow_in_spec]
    pub fn has_exclude_bitmap(&self) -> bool
        returns (self.0 & 0x0100 != 0),
    {
        self.0 & 0x0100 != 0
    }

    #[verifier::allow_in_spec]
    pub fn has_sparse_super2(&self) -> bool
        returns (self.0 & 0x0200 != 0),
    {
        self.0 & 0x0200 != 0
    }

    #[verifier::allow_in_spec]
    pub fn has_fast_commit(&self) -> bool
        returns (self.0 & 0x0400 != 0),
    {
        self.0 & 0x0400 != 0
    }

    #[verifier::allow_in_spec]
    pub fn has_stable_inodes(&self) -> bool
        returns (self.0 & 0x0800 != 0),
    {
        self.0 & 0x0800 != 0
    }

    #[verifier::allow_in_spec]
    pub fn has_orphan_file(&self) -> bool
        returns (self.0 & 0x1000 != 0),
    {
        self.0 & 0x1000 != 0
    }

    /// All bits that no known query covers.
    #[verifier::allow_in_spec]
    pub fn get_unknown(&self) -> u32
        returns ((self.0 >> 13) << 13),
    {
        (self.0 >> 13) << 13
    }

    #[verifier::allow_in_spec]
    pub fn has_unknown(&self) -> bool
        returns (((self.0 >> 13) << 13) != 0),
    {
        self.get_unknown() != 0
    }
}

/// Incompatible features (`s_feature_incompat`).
#[derive(Copy, Clone, Debug, PartialEq, Eq, Structural)]
pub struct IncompatFeatures(pub u32);

impl IncompatFeatures {
    #[verifier::allow_in_spec]
    pub fn has_compression(&self) -> bool
        returns (self.0 & 0x00001 != 0),
    {
        self.0 & 0x00001 != 0
    }

    #[verifier::allow_in_spec]
    pub fn has_filetype(&self) -> bool
        returns (self.0 & 0x00002 != 0),
    {
        self.0 & 0x00002 != 0
    }

    #[verifier::allow_in_spec]
    pub fn has_recover(&self) -> bool
        returns (self.0 & 0x00004 != 0),
    {
        self.0 & 0x00004 != 0
    }

    #[verifier::allow_in_spec]
    pub fn has_journal_dev(&self) -> bool
        returns (self.0 & 0x00008 != 0),
    {
        self.0 & 0x00008 != 0
    }

    #[verifier::allow_in_spec]
    pub fn has_meta_bg(&self) -> bool
        returns (self.0 & 0x00010 != 0),
    {
        self.0 & 0x00010 != 0
    }

    #[verifier::allow_in_spec]
    pub fn has_extents(&self) -> bool
        returns (self.0 & 0x00040 != 0),
    {
        self.0 & 0x00040 != 0
    }

    #[verifier::allow_in_spec]
    pub fn has_64bit(&self) -> bool
        returns (self.0 & 0x00080 != 0),
    {
        self.0 & 0x00080 != 0
    }

    #[verifier::allow_in_spec]
    pub fn has_mmp(&self) -> bool
        returns (self.0 & 0x00100 != 0),
    {
        self.0 & 0x00100 != 0
    }

    #[verifier::allow_in_spec]
    pub fn has_flex_bg(&self) -> bool
        returns (self.0 & 0x00200 != 0),
    {
        self.0 & 0x00200 != 0
    }

    #[verifier::allow_in_spec]
    pub fn has_ea_inode(&self) -> bool
        returns (self.0 & 0x00400 != 0),
    {
        self.0 & 0x00400 != 0
    }

    #[verifier::allow_in_spec]
    pub fn has_dirdata(&self) -> bool
        returns (self.0 & 0x01000 != 0),
    {
        self.0 & 0x01000 != 0
    }

    #[verifier::allow_in_spec]
    pub fn has_csum_seed(&self) -> bool
        returns (self.0 & 0x02000 != 0),
    {
        self.0 & 0x02000 != 0
    }

    #[verifier::allow_in_spec]
    pub fn has_largedir(&self) -> bool
        returns (self.0 & 0x04000 != 0),
    {
        self.0 & 0x04000 != 0
    }

    #[verifier::allow_in_spec]
    pub fn has_inline_data(&self) -> bool
        returns (self.0 & 0x08000 != 0),
    {
        self.0 & 0x08000 != 0
    }

    #[verifier::allow_in_spec]
    pub fn has_encrypt(&self) -> bool
        returns (self.0 & 0x10000 != 0),
    {
        self.0 & 0x10000 != 0
    }

    #[verifier::allow_in_spec]
    pub fn has_casefold(&self) -> bool
        returns (self.0 & 0x20000 != 0),
    {
        self.0 & 0x20000 != 0
    }

    /// All bits that no known query covers.
    #[verifier::allow_in_spec]
    pub fn get_unknown(&self) -> u32
        returns (((self.0 >> 18) << 18) | (self.0 & 0x00020) | (self.0 & 0x00800)),
    {
        ((self.0 >> 18) << 18) | (self.0 & 0x00020) | (self.0 & 0x00800)
    }

    #[verifier::allow_in_spec]
    pub fn has_unknown(&self) -> bool
        returns ((((self.0 >> 18) << 18) | (self.0 & 0x00020) | (self.0 & 0x00800)) != 0),
    {
        self.get_unknown() != 0
    }
}

/// Read-only compatible features (`s_feature_ro_compat`).
#[derive(Copy, Clone, Debug, PartialEq, Eq, Structural)]
pub struct RoCompatFeatures(pub u32);

impl RoCompatFeatures {
    #[verifier::allow_in_spec]
    pub fn has_sparse_super(&self) -> bool
        returns (self.0 & 0x00001 != 0),
    {
        self.0 & 0x00001 != 0
    }

    #[verifier::allow_in_spec]
    pub fn has_large_file(&self) -> bool
        returns (self.0 & 0x00002 != 0),
    {
        self.0 & 0x00002 != 0
    }

    #[verifier::allow_in_spec]
    pub fn has_btree_dir(&self) -> bool
        returns (self.0 & 0x00004 != 0),
    {
        self.0 & 0x00004 != 0
    }

    #[verifier::allow_in_spec]
    pub fn has_huge_file(&self) -> bool
        returns (self.0 & 0x00008 != 0),
    {
        self.0 & 0x00008 != 0
    }

    #[verifier::allow_in_spec]
    pub fn has_gdt_csum(&self) -> bool
        returns (self.0 & 0x00010 != 0),
    {
        self.0 & 0x00010 != 0
    }

    #[verifier::allow_in_spec]
    pub fn has_dir_nlink(&self) -> bool
        returns (self.0 & 0x00020 != 0),
    {
        self.0 & 0x00020 != 0
    }

    #[verifier::allow_in_spec]
    pub fn has_extra_isize(&self) -> bool
        returns (self.0 & 0x00040 != 0),
    {
        self.0 & 0x00040 != 0
    }

    #[verifier::allow_in_spec]
    pub fn has_has_snapshot(&self) -> bool
        returns (self.0 & 0x00080 != 0),
    {
        self.0 & 0x00080 != 0
    }

    #[verifier::allow_in_spec]
    pub fn has_quota(&self) -> bool
        returns (self.0 & 0x00100 != 0),
    {
        self.0 & 0x00100 != 0
    }

    #[verifier::allow_in_spec]
    pub fn has_bigalloc(&self) -> bool
        returns (self.0 & 0x00200 != 0),
    {
        self.0 & 0x00200 != 0
    }

    #[verifier::allow_in_spec]
    pub fn has_metadata_csum(&self) -> bool
        returns (self.0 & 0x00400 != 0),
    {
        self.0 & 0x00400 != 0
    }

    #[verifier::allow_in_spec]
    pub fn has_replica(&self) -> bool
        returns (self.0 & 0x00800 != 0),
    {
        self.0 & 0x00800 != 0
    }

    #[verifier::allow_in_spec]
    pub fn has_readonly(&self) -> bool
        returns (self.0 & 0x01000 != 0),
    {
        self.0 & 0x01000 != 0
    }

    #[verifier::allow_in_spec]
    pub fn has_project(&self) -> bool
        returns (self.0 & 0x02000 != 0),
    {
        self.0 & 0x02000 != 0
    }

    #[verifier::allow_in_spec]
    pub fn has_shared_blocks(&self) -> bool
        returns (self.0 & 0x04000 != 0),
    {
        self.0 & 0x04000 != 0
    }

    #[verifier::allow_in_spec]
    pub fn has_verity(&self) -> bool
        returns (self.0 & 0x08000 != 0),
    {
        self.0 & 0x08000 != 0
    }

    #[verifier::allow_in_spec]
    pub fn has_orphan_present(&self) -> bool
        returns (self.0 & 0x10000 != 0),
    {
        self.0 & 0x10000 != 0
    }

    /// All bits that no known query covers.
    #[verifier::allow_in_spec]
    pub fn get_unknown(&self) -> u32
        returns ((self.0 >> 17) << 17),
    {
        (self.0 >> 17) << 17
    }

    #[verifier::allow_in_spec]
    pub fn has_unknown(&self) -> bool
        returns (((self.0 >> 17) << 17) != 0),
    {
        self.get_unknown() != 0
    }
}

/// Default mount options (`s_default_mount_opts`).
#[derive(Copy, Clone, Debug, PartialEq, Eq, Structural)]
pub struct DefMountOpts(pub u32);

impl DefMountOpts {
    #[verifier::allow_in_spec]
    pub fn has_debug(&self) -> bool
        returns (self.0 & 0x001 != 0),
    {
        self.0 & 0x001 != 0
    }

    #[verifier::allow_in_spec]
    pub fn has_bsdgroups(&self) -> bool
        returns (self.0 & 0x002 != 0),
    {
        self.0 & 0x002 != 0
    }

    #[verifier::allow_in_spec]
    pub fn has_xattr_user(&self) -> bool
        returns (self.0 & 0x004 != 0),
    {
        self.0 & 0x004 != 0
    }

    #[verifier::allow_in_spec]
    pub fn has_acl(&self) -> bool
        returns (self.0 & 0x008 != 0),
    {
        self.0 & 0x008 != 0
    }

    #[verifier::allow_in_spec]
    pub fn has_uid16(&self) -> bool
        returns (self.0 & 0x010 != 0),
    {
        self.0 & 0x010 != 0
    }

    #[verifier::allow_in_spec]
    pub fn has_jmode_data(&self) -> bool
        returns (self.0 & 0x020 != 0),
    {
        self.0 & 0x020 != 0
    }

    #[verifier::allow_in_spec]
    pub fn has_jmode_ordered(&self) -> bool
        returns (self.0 & 0x040 != 0),
    {
        self.0 & 0x040 != 0
    }

    #[verifier::allow_in_spec]
    pub fn has_nobarrier(&self) -> bool
        returns (self.0 & 0x100 != 0),
    {
        self.0 & 0x100 != 0
    }

    #[verifier::allow_in_spec]
    pub fn has_block_validity(&self) -> bool
        returns (self.0 & 0x200 != 0),
    {
        self.0 & 0x200 != 0
    }

    #[verifier::allow_in_spec]
    pub fn has_discard(&self) -> bool
        returns (self.0 & 0x400 != 0),
    {
        self.0 & 0x400 != 0
    }

    #[verifier::allow_in_spec]
    pub fn has_nodealloc(&self) -> bool
        returns (self.0 & 0x800 != 0),
    {
        self.0 & 0x800 != 0
    }

    #[verifier::allow_in_spec]
    pub fn has_jmode(&self) -> bool
        returns (self.0 & 0x020 != 0 && self.0 & 0x040 != 0),
    {
        self.has_jmode_data() && self.has_jmode_ordered()
    }

    #[verifier::allow_in_spec]
    pub fn has_jmode_wback(&self) -> bool
        returns (self.0 & 0x020 != 0 && self.0 & 0x040 != 0),
    {
        self.has_jmode()
    }

    /// All bits that no known query covers.
    #[verifier::allow_in_spec]
    pub fn get_unknown(&self) -> u32
        returns (((self.0 >> 14) << 14) | (self.0 & 0x080)),
    {
        ((self.0 >> 14) << 14) | (self.0 & 0x080)
    }

    #[verifier::allow_in_spec]
    pub fn has_unknown(&self) -> bool
        returns ((((self.0 >> 14) << 14) | (self.0 & 0x080)) != 0),
    {
        self.get_unknown() != 0
    }
}

/// Superblock flags (`s_flags`).
#[derive(Copy, Clone, Debug, PartialEq, Eq, Structural)]
pub struct Flags(pub u32);

impl Flags {
    #[verifier::allow_in_spec]
    pub fn has_signed_hash(&self) -> bool
        returns (self.0 & 0x01 != 0),
    {
        self.0 & 0x01 != 0
    }

    #[verifier::allow_in_spec]
    pub fn has_unsigned_hash(&self) -> bool
        returns (self.0 & 0x02 != 0),
    {
        self.0 & 0x02 != 0
    }

    #[verifier::allow_in_spec]
    pub fn has_test(&self) -> bool
        returns (self.0 & 0x04 != 0),
    {
        self.0 & 0x04 != 0
    }

    #[verifier::allow_in_spec]
    pub fn has_is_snapshot(&self) -> bool
        returns (self.0 & 0x10 != 0),
    {
        self.0 & 0x10 != 0
    }

    #[verifier::allow_in_spec]
    pub fn has_fix_snapshot(&self) -> bool
        returns (self.0 & 0x20 != 0),
    {
        self.0 & 0x20 != 0
    }

    #[verifier::allow_in_spec]
    pub fn has_fix_exclude(&self) -> bool
        returns (self.0 & 0x40 != 0),
    {
        self.0 & 0x40 != 0
    }

    /// All bits that no known query covers.
    #[verifier::allow_in_spec]
    pub fn get_unknown(&self) -> u32
        returns (((self.0 >> 7) << 7) | (self.0 & 0x08)),
    {
        ((self.0 >> 7) << 7) | (self.0 & 0x08)
    }

    #[verifier::allow_in_spec]
    pub fn has_unknown(&self) -> bool
        returns ((((self.0 >> 7) << 7) | (self.0 & 0x08)) != 0),
    {
        self.get_unknown() != 0
    }
}


/// Error policy (`s_errors`).
#[derive(Copy, Clone, Debug, PartialEq, Eq, Structural)]
pub enum ErrorPolicy {
    /// Invalid on-disk value 0.
    Null,
    Continue,
    ReadOnly,
    Panic,
}

/// Filesystem creator OS (`s_creator_os`).
#[derive(Copy, Clone, Debug, PartialEq, Eq, Structural)]
pub enum FsCreator {
    Linux,
    Hurd,
    Masix,
    FreeBSD,
    Lites,
}

/// Revision level (`s_rev_level`).
#[derive(Copy, Clone, Debug, PartialEq, Eq, Structural)]
pub enum Revision {
    GoodOld,
    Dynamic,
}

/// Directory-hash versions (`s_def_hash_version`).
#[derive(Copy, Clone, Debug, PartialEq, Eq, Structural)]
pub enum HashVersion {
    Legacy,
    HalfMD4,
    Tea,
    LegacyUnsigned,
    HalfMD4Unsigned,
    TeaUnsigned,
    SipHash,
}

/// Encryption algorithms (`s_encrypt_algos` slots).
#[derive(Copy, Clone, Debug, PartialEq, Eq, Structural)]
pub enum EncryptAlgo {
    Null,
    AES256XTS,
    AES256GCM,
    AES256CBC,
    AES256CTS,
}

/// The error policy a raw `s_errors` value names, if any.
pub open spec fn spec_error_policy_of(v: u16) -> Option<ErrorPolicy> {
    if v == 0 {
        Some(ErrorPolicy::Null)
    } else if v == 1 {
        Some(ErrorPolicy::Continue)
    } else if v == 2 {
        Some(ErrorPolicy::ReadOnly)
    } else if v == 3 {
        Some(ErrorPolicy::Panic)
    } else {
        None
    }
}

/// The creator OS a raw `s_creator_os` value names, if any.
pub open spec fn spec_fs_creator_of(v: u32) -> Option<FsCreator> {
    if v == 0 {
        Some(FsCreator::Linux)
    } else if v == 1 {
        Some(FsCreator::Hurd)
    } else if v == 2 {
        Some(FsCreator::Masix)
    } else if v == 3 {
        Some(FsCreator::FreeBSD)
    } else if v == 4 {
        Some(FsCreator::Lites)
    } else {
        None
    }
}

/// The revision a raw `s_rev_level` value names, if any.
pub open spec fn spec_revision_of(v: u32) -> Option<Revision> {
    if v == 0 {
        Some(Revision::GoodOld)
    } else if v == 1 {
        Some(Revision::Dynamic)
    } else {
        None
    }
}

/// The hash version a raw `s_def_hash_version` value names, if any.
pub open spec fn spec_hash_version_of(v: u8) -> Option<HashVersion> {
    if v == 0 {
        Some(HashVersion::Legacy)
    } else if v == 1 {
        Some(HashVersion::HalfMD4)
    } else if v == 2 {
        Some(HashVersion::Tea)
    } else if v == 3 {
        Some(HashVersion::LegacyUnsigned)
    } else if v == 4 {
        Some(HashVersion::HalfMD4Unsigned)
    } else if v == 5 {
        Some(HashVersion::TeaUnsigned)
    } else if v == 6 {
        Some(HashVersion::SipHash)
    } else {
        None
    }
}

/// The encryption algorithm a raw `s_encrypt_algos` slot names, if any.
pub open spec fn spec_encrypt_algo_of(v: u8) -> Option<EncryptAlgo> {
    if v == 0 {
        Some(EncryptAlgo::Null)
    } else if v == 1 {
        Some(EncryptAlgo::AES256XTS)
    } else if v == 2 {
        Some(EncryptAlgo::AES256GCM)
    } else if v == 3 {
        Some(EncryptAlgo::AES256CBC)
    } else if v == 4 {
        Some(EncryptAlgo::AES256CTS)
    } else {
        None
    }
}

/// Decoded and validated flag fields and enumerations of the superblock.
/// Complements, and does not substitute, the raw [`SuperBlock`].
#[derive(Copy, Clone, Debug, PartialEq, Eq)]
pub struct FsOptions {
    pub state: State,
    pub error_policy: ErrorPolicy,
    pub fs_creator: FsCreator,
    pub revision: Revision,
    pub dyn_cfg: Option<DynConfig>,
    pub journal_cfg: Option<JournalConfig>,
    pub bit64_cfg: Option<Bit64Config>,
}

/// Dynamic-revision configuration.
#[derive(Copy, Clone, Debug, PartialEq, Eq)]
pub struct DynConfig {
    pub compat: CompatFeatures,
    pub incompat: IncompatFeatures,
    pub ro_compat: RoCompatFeatures,
}

/// Configuration for filesystems with journaling support.
#[derive(Copy, Clone, Debug, PartialEq, Eq)]
pub struct JournalConfig {
    pub def_hash_ver: HashVersion,
    pub def_mount_opts: DefMountOpts,
}

/// 64-bit configuration.
#[derive(Copy, Clone, Debug, PartialEq, Eq)]
pub struct Bit64Config {
    pub flags: Flags,
    pub encrypt_algos: Option<[EncryptAlgo; 4]>,
}

/// The checks run on a dynamic-revision superblock, in order; the first
/// failing one names the error.
pub open spec fn spec_dynamic_check(sb: SuperBlock, cfg: Config) -> Result<(), Error> {
    let compat = CompatFeatures(sb.s_feature_compat);
    let incompat = IncompatFeatures(sb.s_feature_incompat);
    let ro_compat = RoCompatFeatures(sb.s_feature_ro_compat);
    if compat.has_unknown() {
        Err(Error::UnknownCompatFlags(sb.s_feature_compat))
    } else if compat.has_exclude_inode() {
        Err(Error::UnsupportedExcludeInode)
    } else if compat.has_exclude_bitmap() {
        Err(Error::UnsupportedExcludeBitmap)
    } else if incompat.has_unknown() {
        Err(Error::UnknownIncompatFlags(sb.s_feature_incompat))
    } else if incompat.has_recover() && !cfg.ignore_recovery {
        Err(Error::NeedsRecovery)
    } else if incompat.has_journal_dev() {
        Err(Error::ExternalJournal)
    } else if incompat.has_meta_bg() {
        Err(Error::UnsupportedMetaBg)
    } else if incompat.has_dirdata() {
        Err(Error::UnsupportedDirData)
    } else if incompat.has_encrypt() {
        Err(Error::EncryptedFilesystem)
    } else if ro_compat.has_unknown() {
        Err(Error::UnknownRoCompatFlags(sb.s_feature_ro_compat))
    } else if ro_compat.has_readonly() && !cfg.ignore_readonly {
        Err(Error::ReadOnlyFilesystem)
    } else if ro_compat.has_shared_blocks() {
        Err(Error::SharedBlocks)
    } else if ro_compat.has_metadata_csum() && ro_compat.has_gdt_csum() {
        Err(Error::ConflictingChecksumFeatures)
    } else if ro_compat.has_gdt_csum() {
        Err(Error::UnsupportedGdtCsum)
    } else {
        Ok(())
    }
}

/// The checks run when the `has_journal` compat flag is set.
pub open spec fn spec_journal_check(sb: SuperBlock) -> Result<(), Error> {
    if spec_hash_version_of(sb.s_def_hash_version) is None {
        Err(Error::UnknownHashVersion(sb.s_def_hash_version))
    } else if DefMountOpts(sb.s_default_mount_opts).has_unknown() {
        Err(Error::UnknownMountOpts(sb.s_default_mount_opts))
    } else {
        Ok(())
    }
}

/// One `s_encrypt_algos` slot passes: a recognized algorithm other than the
/// null placeholder.
pub open spec fn spec_encrypt_slot_ok(v: u8) -> bool {
    spec_encrypt_algo_of(v) is Some && spec_encrypt_algo_of(v) != Some(EncryptAlgo::Null)
}

/// The error one failing `s_encrypt_algos` slot names.
pub open spec fn spec_encrypt_slot_err(v: u8) -> Error {
    if spec_encrypt_algo_of(v) is None {
        Error::UnknownEncryptAlgo(v)
    } else {
        Error::InvalidEncryptAlgo
    }
}

/// The checks run when the `64bit` incompat flag is set.
pub open spec fn spec_bit64_check(sb: SuperBlock) -> Result<(), Error> {
    let flags = Flags(sb.s_flags);
    let incompat = IncompatFeatures(sb.s_feature_incompat);
    if flags.has_unknown() {
        Err(Error::UnknownMiscFlags(sb.s_flags))
    } else if flags.has_fix_snapshot() {
        Err(Error::CorruptSnapshotInodes)
    } else if flags.has_fix_exclude() {
        Err(Error::CorruptExcludeBitmaps)
    } else if incompat.has_encrypt() {
        if !spec_encrypt_slot_ok(sb.s_encrypt_algos@[0]) {
            Err(spec_encrypt_slot_err(sb.s_encrypt_algos@[0]))
        } else if !spec_encrypt_slot_ok(sb.s_encrypt_algos@[1]) {
            Err(spec_encrypt_slot_err(sb.s_encrypt_algos@[1]))
        } else if !spec_encrypt_slot_ok(sb.s_encrypt_algos@[2]) {
            Err(spec_encrypt_slot_err(sb.s_encrypt_algos@[2]))
        } else if !spec_encrypt_slot_ok(sb.s_encrypt_algos@[3]) {
            Err(spec_encrypt_slot_err(sb.s_encrypt_algos@[3]))
        } else {
            Ok(())
        }
    } else {
        Ok(())
    }
}

/// The whole validation pipeline over a superblock, in the order the checks
/// are made; `Ok` means every check passed.
pub open spec fn spec_options_check(sb: SuperBlock, cfg: Config) -> Result<(), Error> {
    let state = State(sb.s_state);
    if state.has_unknown() {
        Err(Error::UnknownStateFlags(sb.s_state))
    } else if state.has_error() {
        Err(Error::FilesystemHasErrors)
    } else if state.has_fc_replay() {
        Err(Error::FcReplayInProgress)
    } else if spec_error_policy_of(sb.s_errors) is None {
        Err(Error::UnknownErrorPolicy(sb.s_errors))
    } else if spec_error_policy_of(sb.s_errors) == Some(ErrorPolicy::Null) {
        Err(Error::InvalidErrorPolicy)
    } else if spec_fs_creator_of(sb.s_creator_os) is None {
        Err(Error::UnknownCreator(sb.s_creator_os))
    } else if spec_revision_of(sb.s_rev_level) is None {
        Err(Error::UnknownRevision(sb.s_rev_level))
    } else if spec_revision_of(sb.s_rev_level) == Some(Revision::Dynamic) && spec_dynamic_check(
        sb,
        cfg,
    ) is Err {
        spec_dynamic_check(sb, cfg)
    } else if CompatFeatures(sb.s_feature_compat).has_has_journal() && spec_journal_check(
        sb,
    ) is Err {
        spec_journal_check(sb)
    } else if IncompatFeatures(sb.s_feature_incompat).has_64bit() && spec_bit64_check(sb) is Err {
        spec_bit64_check(sb)
    } else {
        Ok(())
    }
}

/// Creates the validated option record from a superblock, rejecting invalid
/// or unsupported configurations: exactly the checks of
/// [`spec_options_check`], in that order.
#[verifier::loop_isolation(false)]
pub fn get_and_check_fs_options(sb: &SuperBlock, cfg: &Config) -> (r: Result<FsOptions, Error>)
    ensures
        r is Ok <==> spec_options_check(*sb, *cfg) is Ok,
        r is Err ==> r->Err_0 == spec_options_check(*sb, *cfg)->Err_0,
        r is Ok ==> {
            let opts = r->Ok_0;
            &&& opts.state == (State(sb.s_state))
            &&& Some(opts.error_policy) == spec_error_policy_of(sb.s_errors)
            &&& Some(opts.fs_creator) == spec_fs_creator_of(sb.s_creator_os)
            &&& Some(opts.revision) == spec_revision_of(sb.s_rev_level)
            &&& (opts.dyn_cfg is Some <==> spec_revision_of(sb.s_rev_level) == Some(
                Revision::Dynamic,
            ))
            &&& opts.dyn_cfg is Some ==> opts.dyn_cfg->Some_0 == (DynConfig {
                compat: CompatFeatures(sb.s_feature_compat),
                incompat: IncompatFeatures(sb.s_feature_incompat),
                ro_compat: RoCompatFeatures(sb.s_feature_ro_compat),
            })
            &&& (opts.journal_cfg is Some <==> CompatFeatures(
                sb.s_feature_compat,
            ).has_has_journal())
            &&& opts.journal_cfg is Some ==> Some(opts.journal_cfg->Some_0.def_hash_ver)
                == spec_hash_version_of(sb.s_def_hash_version)
            &&& opts.journal_cfg is Some ==> opts.journal_cfg->Some_0.def_mount_opts == (
            DefMountOpts(sb.s_default_mount_opts))
            &&& (opts.bit64_cfg is Some <==> IncompatFeatures(sb.s_feature_incompat).has_64bit())
            &&& opts.bit64_cfg is Some ==> opts.bit64_cfg->Some_0.flags == (Flags(sb.s_flags))
            &&& opts.bit64_cfg is Some ==> (opts.bit64_cfg->Some_0.encrypt_algos is Some
                <==> IncompatFeatures(sb.s_feature_incompat).has_encrypt())
            &&& (opts.bit64_cfg is Some && opts.bit64_cfg->Some_0.encrypt_algos is Some)
                ==> forall|k: int|
                0 <= k < 4 ==> Some(#[trigger] opts.bit64_cfg->Some_0.encrypt_algos->Some_0@[k])
                    == spec_encrypt_algo_of(sb.s_encrypt_algos@[k])
        },
{
    let state = State(sb.s_state);
    let compat = CompatFeatures(sb.s_feature_compat);
    let incompat = IncompatFeatures(sb.s_feature_incompat);
    let ro_compat = RoCompatFeatures(sb.s_feature_ro_compat);
    let def_mount_opts = DefMountOpts(sb.s_default_mount_opts);
    let flags = Flags(sb.s_flags);

    if state.has_unknown() {
        return Err(Error::UnknownStateFlags(sb.s_state));
    }
    if state.has_error() {
        return Err(Error::FilesystemHasErrors);
    }
    if state.has_fc_replay() {
        return Err(Error::FcReplayInProgress);
    }

    let error_policy = if sb.s_errors == 1 {
        ErrorPolicy::Continue
    } else if sb.s_errors == 2 {
        ErrorPolicy::ReadOnly
    } else if sb.s_errors == 3 {
        ErrorPolicy::Panic
    } else if sb.s_errors == 0 {
        return Err(Error::InvalidErrorPolicy);
    } else {
        return Err(Error::UnknownErrorPolicy(sb.s_errors));
    };

    let fs_creator = if sb.s_creator_os == 0 {
        FsCreator::Linux
    } else if sb.s_creator_os == 1 {
        FsCreator::Hurd
    } else if sb.s_creator_os == 2 {
        FsCreator::Masix
    } else if sb.s_creator_os == 3 {
        FsCreator::FreeBSD
    } else if sb.s_creator_os == 4 {
        FsCreator::Lites
    } else {
        return Err(Error::UnknownCreator(sb.s_creator_os));
    };

    let revision = if sb.s_rev_level == 0 {
        Revision::GoodOld
    } else if sb.s_rev_level == 1 {
        Revision::Dynamic
    } else {
        return Err(Error::UnknownRevision(sb.s_rev_level));
    };

    let mut fs_opts = FsOptions {
        state,
        error_policy,
        fs_creator,
        revision,
        dyn_cfg: None,
        journal_cfg: None,
        bit64_cfg: None,
    };

    // --- dynamic revision level only ---

    if matches!(revision, Revision::Dynamic) {
        if compat.has_unknown() {
            return Err(Error::UnknownCompatFlags(sb.s_feature_compat));
        }
        if compat.has_exclude_inode() {
            return Err(Error::UnsupportedExcludeInode);
        }
        if compat.has_exclude_bitmap() {
            return Err(Error::UnsupportedExcludeBitmap);
        }
        if incompat.has_unknown() {
            return Err(Error::UnknownIncompatFlags(sb.s_feature_incompat));
        }
        if incompat.has_recover() && !cfg.ignore_recovery {
            return Err(Error::NeedsRecovery);
        }
        if incompat.has_journal_dev() {
            return Err(Error::ExternalJournal);
        }
        if incompat.has_meta_bg() {
            return Err(Error::UnsupportedMetaBg);
        }
        if incompat.has_dirdata() {
            return Err(Error::UnsupportedDirData);
        }
        if incompat.has_encrypt() {
            return Err(Error::EncryptedFilesystem);
        }
        if ro_compat.has_unknown() {
            return Err(Error::UnknownRoCompatFlags(sb.s_feature_ro_compat));
        }
        if ro_compat.has_readonly() && !cfg.ignore_readonly {
            return Err(Error::ReadOnlyFilesystem);
        }
        if ro_compat.has_shared_blocks() {
            return Err(Error::SharedBlocks);
        }
        if ro_compat.has_metadata_csum() && ro_compat.has_gdt_csum() {
            return Err(Error::ConflictingChecksumFeatures);
        }
        if ro_compat.has_gdt_csum() {
            return Err(Error::UnsupportedGdtCsum);
        }
        fs_opts.dyn_cfg = Some(DynConfig { compat, incompat, ro_compat });
    }

    // --- journalling support only ---

    if compat.has_has_journal() {
        let def_hash_ver = if sb.s_def_hash_version == 0 {
            HashVersion::Legacy
        } else if sb.s_def_hash_version == 1 {
            HashVersion::HalfMD4
        } else if sb.s_def_hash_version == 2 {
            HashVersion::Tea
        } else if sb.s_def_hash_version == 3 {
            HashVersion::LegacyUnsigned
        } else if sb.s_def_hash_version == 4 {
            HashVersion::HalfMD4Unsigned
        } else if sb.s_def_hash_version == 5 {
            HashVersion::TeaUnsigned
        } else if sb.s_def_hash_version == 6 {
            HashVersion::SipHash
        } else {
            return Err(Error::UnknownHashVersion(sb.s_def_hash_version));
        };
        if def_mount_opts.has_unknown() {
            return Err(Error::UnknownMountOpts(sb.s_default_mount_opts));
        }
        fs_opts.journal_cfg = Some(JournalConfig { def_hash_ver, def_mount_opts });
    }

    // --- 64-bit support only ---

    if incompat.has_64bit() {
        if flags.has_unknown() {
            return Err(Error::UnknownMiscFlags(sb.s_flags));
        }
        if flags.has_fix_snapshot() {
            return Err(Error::CorruptSnapshotInodes);
        }
        if flags.has_fix_exclude() {
            return Err(Error::CorruptExcludeBitmaps);
        }
        let mut bit64_cfg = Bit64Config { flags, encrypt_algos: None };
        if incompat.has_encrypt() {
            let mut algos: [EncryptAlgo; 4] = [EncryptAlgo::Null; 4];
            let mut k: usize = 0;
            while k < 4
                invariant
                    0 <= k <= 4,
                    algos@.len() == 4,
                    forall|j: int|
                        0 <= j < k ==> (spec_encrypt_slot_ok(#[trigger] sb.s_encrypt_algos@[j])
                            && Some(algos@[j]) == spec_encrypt_algo_of(sb.s_encrypt_algos@[j])),
                decreases 4 - k,
            {
                let v = sb.s_encrypt_algos[k];
                let algo = if v == 1 {
                    EncryptAlgo::AES256XTS
                } else if v == 2 {
                    EncryptAlgo::AES256GCM
                } else if v == 3 {
                    EncryptAlgo::AES256CBC
                } else if v == 4 {
                    EncryptAlgo::AES256CTS
                } else if v == 0 {
                    proof {
                        assert(sb.s_encrypt_algos@[k as int] == v);
                        assert(!spec_encrypt_slot_ok(v));
                        assert(spec_encrypt_slot_err(v) == Error::InvalidEncryptAlgo);
                        if k == 1 {
                            assert(spec_encrypt_slot_ok(sb.s_encrypt_algos@[0]));
                        } else if k == 2 {
                            assert(spec_encrypt_slot_ok(sb.s_encrypt_algos@[0]));
                            assert(spec_encrypt_slot_ok(sb.s_encrypt_algos@[1]));
                        } else if k == 3 {
                            assert(spec_encrypt_slot_ok(sb.s_encrypt_algos@[0]));
                            assert(spec_encrypt_slot_ok(sb.s_encrypt_algos@[1]));
                            assert(spec_encrypt_slot_ok(sb.s_encrypt_algos@[2]));
                        }
                        assert(spec_bit64_check(*sb) == Err::<(), Error>(
                            Error::InvalidEncryptAlgo,
                        ));
                    }
                    return Err(Error::InvalidEncryptAlgo);
                } else {
                    proof {
                        assert(sb.s_encrypt_algos@[k as int] == v);
                        assert(!spec_encrypt_slot_ok(v));
                        assert(spec_encrypt_slot_err(v) == Error::UnknownEncryptAlgo(v));
                        assert(spec_bit64_check(*sb) == Err::<(), Error>(
                            Error::UnknownEncryptAlgo(v),
                        ));
                    }
                    return Err(Error::UnknownEncryptAlgo(v));
                };
                algos[k] = algo;
                k = k + 1;
            }
            proof {
                assert(spec_bit64_check(*sb) is Ok);
            }
            bit64_cfg.encrypt_algos = Some(algos);
        }
        fs_opts.bit64_cfg = Some(bit64_cfg);
    }

    Ok(fs_opts)
}





/// Block size in bytes: `2 ^ (10 + s_log_block_size)`.
pub open spec fn spec_block_size(log: u32) -> u64
    recommends
        log <= 53,
{
    (1u64 << ((10 + log) as u64))
}

/// The block size is at least the 1024 bytes of a minimal block.
pub proof fn lemma_block_size_pos(log: u32)
    requires
        log <= 53,
    ensures
        spec_block_size(log) >= 1024,
{
    let sh = (10 + log) as u64;
    assert(1u64 << sh >= 1024) by (bit_vector)
        requires
            10 <= sh <= 63,
    ;
}

/// Computes the block size from `s_log_block_size`.
pub fn block_size_of(log: u32) -> (r: u64)
    requires
        log <= 53,
    ensures
        r == spec_block_size(log),
        r >= 1024,
{
    proof {
        lemma_block_size_pos(log);
    }
    1u64 << ((10 + log) as u64)
}

/// The per-descriptor stride for descriptor-table buffers: at least the full
/// 64-byte layout, to keep decoding in bounds.
#[verifier::allow_in_spec]
pub fn alloc_desc_size(desc_size: u64) -> u64
    returns (if desc_size > 64 { desc_size } else { 64u64 }),
{
    if desc_size > 64 {
        desc_size
    } else {
        64
    }
}

/// Number of block groups: the ceiling of `(blocks - first) / per_group`.
pub open spec fn spec_bg_count_of(blocks: u64, first: u64, per_group: u64) -> int
    recommends
        per_group > 0,
        blocks >= first,
{
    if (blocks - first) % (per_group as int) == 0 {
        (blocks - first) / (per_group as int)
    } else {
        (blocks - first) / (per_group as int) + 1
    }
}

/// Filesystem parameters: the decoded superblock, the validated options, the
/// cached master descriptor table, and the values derived once after
/// validation.
#[derive(Clone, Debug)]
pub struct Fs {
    pub sb: SuperBlock,
    pub desc_table: Vec<u8>,
    pub opts: FsOptions,
    pub bg_count: u64,
    pub bg_size: u64,
    pub desc_size: u64,
    pub inode_size: u64,
    pub csum_seed: Option<u32>,
}

/// The geometry a superblock must satisfy before any derived value fits the
/// drive's 64-bit byte address space.
pub open spec fn spec_fs_geometry_ok(sb: SuperBlock, opts: FsOptions) -> bool {
    let blocks = if opts.bit64_cfg is Some {
        hilo32(sb.s_blocks_count_hi, sb.s_blocks_count_lo)
    } else {
        sb.s_blocks_count_lo as u64
    };
    &&& sb.s_log_block_size <= 53
    &&& sb.s_blocks_per_group != 0
    &&& blocks >= sb.s_first_data_block
    &&& sb.s_blocks_per_group * spec_block_size(sb.s_log_block_size) <= u64::MAX
    &&& (if sb.s_desc_size == 0 {
        32u64 as int
    } else {
        sb.s_desc_size as int
    }) <= 64
}

impl Fs {
    /// Total block count, joining the 64-bit halves when `64bit` is set.
    pub open spec fn spec_blocks_count(self) -> u64 {
        if self.opts.bit64_cfg is Some {
            hilo32(self.sb.s_blocks_count_hi, self.sb.s_blocks_count_lo)
        } else {
            self.sb.s_blocks_count_lo as u64
        }
    }

    /// Block size in bytes.
    pub open spec fn spec_bs(self) -> u64 {
        spec_block_size(self.sb.s_log_block_size)
    }

    /// The derived parameters agree with the superblock and stay within the
    /// 64-bit address space.
    pub open spec fn inv(self) -> bool {
        &&& self.sb.s_log_block_size <= 53
        &&& self.sb.s_blocks_per_group != 0
        &&& self.spec_blocks_count() >= self.sb.s_first_data_block
        &&& self.bg_count == spec_bg_count_of(
            self.spec_blocks_count(),
            self.sb.s_first_data_block as u64,
            self.sb.s_blocks_per_group as u64,
        )
        &&& self.bg_size == self.sb.s_blocks_per_group * self.spec_bs()
        &&& self.desc_size == (if self.sb.s_desc_size == 0 {
            32u64
        } else {
            self.sb.s_desc_size as u64
        })
        &&& self.desc_size <= 64
        &&& self.inode_size == (if self.opts.dyn_cfg is Some {
            self.sb.s_inode_size as u64
        } else {
            128u64
        })
        &&& self.csum_seed == (if self.opts.dyn_cfg is Some {
            if self.opts.dyn_cfg->Some_0.incompat.has_csum_seed() {
                Some(self.sb.s_checksum_seed)
            } else if self.opts.dyn_cfg->Some_0.ro_compat.has_metadata_csum()
                || self.opts.dyn_cfg->Some_0.incompat.has_ea_inode() {
                Some(spec_ext4_crc32c(0xffff_ffffu32, self.sb.s_uuid@))
            } else {
                None::<u32>
            }
        } else {
            None::<u32>
        })
    }

    /// The cached master descriptor table has its full length: one stride per
    /// block group.
    pub open spec fn desc_table_ok(self) -> bool {
        self.desc_table@.len() == self.bg_count * alloc_desc_size(self.desc_size)
    }

    /// Derives the filesystem parameters from a validated superblock.  The
    /// master descriptor table starts empty and is attached by the caller.
    /// Succeeds exactly when the geometry fits a 64-bit address space.
    pub fn new(sb: &SuperBlock, opts: &FsOptions) -> (r: Result<Fs, Error>)
        ensures
            r is Ok <==> spec_fs_geometry_ok(*sb, *opts),
            r is Ok ==> {
                let fs = r->Ok_0;
                &&& fs.inv()
                &&& fs.sb == *sb
                &&& fs.opts == *opts
                &&& fs.desc_table@.len() == 0
            },
            r is Err ==> (r->Err_0 == Error::BlockSizeTooLarge || r->Err_0
                == Error::InvalidGeometry || r->Err_0 == Error::Overflow),
    {
        if sb.s_log_block_size > 53 {
            return Err(Error::BlockSizeTooLarge);
        }
        let block_size = block_size_of(sb.s_log_block_size);
        let blocks_count = if opts.bit64_cfg.is_some() {
            hilo32(sb.s_blocks_count_hi, sb.s_blocks_count_lo)
        } else {
            sb.s_blocks_count_lo as u64
        };
        if sb.s_blocks_per_group == 0 {
            return Err(Error::InvalidGeometry);
        }
        if blocks_count < sb.s_first_data_block as u64 {
            return Err(Error::InvalidGeometry);
        }
        let span = blocks_count - sb.s_first_data_block as u64;
        let bpg = sb.s_blocks_per_group as u64;
        let mut bg_count = span / bpg;
        if span % bpg != 0 {
            proof {
                assert(span / bpg < u64::MAX) by (nonlinear_arith)
                    requires
                        bpg >= 1,
                        span <= u64::MAX,
                        span % bpg != 0,
                ;
            }
            bg_count = bg_count + 1;
        }
        let bg_size = match bpg.checked_mul(block_size) {
            Some(v) => v,
            None => {
                return Err(Error::Overflow);
            },
        };
        let desc_size: u64 = if sb.s_desc_size == 0 {
            32
        } else {
            sb.s_desc_size as u64
        };
        if desc_size > 64 {
            return Err(Error::InvalidGeometry);
        }
        let inode_size: u64 = if opts.dyn_cfg.is_some() {
            sb.s_inode_size as u64
        } else {
            GOOD_OLD_INODE_SIZE as u64
        };
        let csum_seed = match opts.dyn_cfg {
            Some(dyn_cfg) => {
                if dyn_cfg.incompat.has_csum_seed() {
                    Some(sb.s_checksum_seed)
                } else if dyn_cfg.ro_compat.has_metadata_csum() || dyn_cfg.incompat.has_ea_inode() {
                    Some(ext4_style_crc32c_le(0xffff_ffff, sb.s_uuid.as_slice()))
                } else {
                    None
                }
            },
            None => None,
        };
        Ok(
            Fs {
                sb: *sb,
                desc_table: Vec::new(),
                opts: *opts,
                bg_count,
                bg_size,
                desc_size,
                inode_size,
                csum_seed,
            },
        )
    }
}

/// Byte offset where block group `bg_num` starts.
pub open spec fn spec_start_of_bg(bg_num: u64, fs: Fs) -> int {
    fs.sb.s_first_data_block * fs.spec_bs() + bg_num * fs.bg_size
}

/// Computes the start of a block group, guarding the address arithmetic.
pub fn start_of_bg(bg_num: u64, fs: &Fs) -> (r: Result<u64, Error>)
    requires
        fs.inv(),
    ensures
        r is Ok <==> spec_start_of_bg(bg_num, *fs) <= u64::MAX,
        r is Ok ==> r->Ok_0 == spec_start_of_bg(bg_num, *fs),
        r is Err ==> r->Err_0 == Error::Overflow,
{
    let bs = block_size_of(fs.sb.s_log_block_size);
    let base = match (fs.sb.s_first_data_block as u64).checked_mul(bs) {
        Some(v) => v,
        None => {
            return Err(Error::Overflow);
        },
    };
    let rel = match bg_num.checked_mul(fs.bg_size) {
        Some(v) => v,
        None => {
            return Err(Error::Overflow);
        },
    };
    match base.checked_add(rel) {
        Some(v) => Ok(v),
        None => Err(Error::Overflow),
    }
}

/// Byte offset of the first group descriptor table: right after the primary
/// superblock, rounded up to the next block boundary.
pub open spec fn spec_start_of_first_gdt(sb: SuperBlock) -> u64
    recommends
        sb.s_log_block_size <= 53,
{
    if spec_block_size(sb.s_log_block_size) == 1024 {
        2048u64
    } else {
        spec_block_size(sb.s_log_block_size)
    }
}

/// The first descriptor table's offset, from the raw block-size exponent.
pub open spec fn spec_gdt_offset_of_log(log: u32) -> u64
    recommends
        log <= 53,
{
    if spec_block_size(log) == 1024 {
        2048u64
    } else {
        spec_block_size(log)
    }
}

/// Returns the offset of the first group descriptor table.
pub fn start_of_first_gdt(sb: &SuperBlock) -> (r: u64)
    requires
        sb.s_log_block_size <= 53,
    ensures
        r == spec_start_of_first_gdt(*sb),
{
    let bs = block_size_of(sb.s_log_block_size);
    if bs == 1024 {
        2048
    } else {
        bs
    }
}

/// Fetches a block group's descriptor from the cached master table.  Assumes
/// the standard layout (not META_BG).
pub fn fetch_regular_bg_descriptor(bg_num: u64, fs: &Fs) -> (r: GroupDescriptor)
    requires
        fs.inv(),
        fs.desc_table_ok(),
        bg_num < fs.bg_count,
    ensures
        r == spec_decode_desc(fs.desc_table@, bg_num * fs.desc_size),
{
    let tlen = fs.desc_table.len();
    proof {
        assert(bg_num * fs.desc_size + 64 <= fs.bg_count * alloc_desc_size(fs.desc_size))
            by (nonlinear_arith)
            requires
                bg_num < fs.bg_count,
                0 < fs.desc_size <= 64,
                alloc_desc_size(fs.desc_size) == 64,
        ;
        assert(bg_num * fs.desc_size + 64 <= tlen);
    }
    let off = bg_num * fs.desc_size;
    GroupDescriptor::decode(fs.desc_table.as_slice(), off as usize)
}

/// The four little-endian bytes of a group number that seed its descriptor
/// checksum.
pub open spec fn spec_bg_num_bytes(bg_num: u64) -> Seq<u8> {
    seq![
        (bg_num & 0xff) as u8,
        ((bg_num >> 8u64) & 0xff) as u8,
        ((bg_num >> 16u64) & 0xff) as u8,
        ((bg_num >> 24u64) & 0xff) as u8,
    ]
}

/// The ext4-style checksum of a descriptor: the group number and then the
/// descriptor's first `desc_size` encoded bytes (checksum field zeroed),
/// folded into the filesystem's seed.
pub open spec fn spec_desc_csum(d: GroupDescriptor, bg_num: u64, seed: u32, desc_size: u64) -> u32
    recommends
        desc_size <= 64,
{
    let zeroed = GroupDescriptor { bg_checksum: 0, ..d };
    spec_ext4_crc32c(
        spec_ext4_crc32c(seed, spec_bg_num_bytes(bg_num)),
        spec_encode_desc(zeroed).subrange(0, desc_size as int),
    )
}

/// Verifies a group descriptor's checksum against the stored `bg_checksum`:
/// with `metadata_csum` the low 16 bits of the ext4-style CRC must match;
/// without a checksum feature there is nothing to verify and the call is
/// refused.
pub fn verify_desc_csum(desc: &GroupDescriptor, bg_num: u64, fs: &Fs) -> (r: Result<bool, Error>)
    requires
        fs.inv(),
    ensures
        match r {
            Ok(b) => {
                &&& fs.opts.dyn_cfg is Some
                &&& fs.opts.dyn_cfg->Some_0.ro_compat.has_metadata_csum()
                &&& b == ((spec_desc_csum(*desc, bg_num, fs.csum_seed->Some_0, fs.desc_size)
                    & 0xffff) == desc.bg_checksum as u32)
            },
            Err(e) => e == (if fs.opts.dyn_cfg is None {
                Error::MissingChecksumConfig
            } else if fs.opts.dyn_cfg->Some_0.ro_compat.has_metadata_csum() {
                Error::MissingChecksumConfig
            } else if fs.opts.dyn_cfg->Some_0.ro_compat.has_gdt_csum() {
                Error::UnsupportedGdtCsum
            } else {
                Error::MissingChecksumConfig
            }),
        },
        r is Err ==> !(fs.opts.dyn_cfg is Some
            && fs.opts.dyn_cfg->Some_0.ro_compat.has_metadata_csum()),
{
    let dyn_cfg = match fs.opts.dyn_cfg {
        Some(d) => d,
        None => {
            return Err(Error::MissingChecksumConfig);
        },
    };
    if dyn_cfg.ro_compat.has_metadata_csum() {
        let mut zeroed = *desc;
        zeroed.bg_checksum = 0;
        let raw = zeroed.encode();
        let bg_num_raw: [u8; 4] = [
            (bg_num & 0xff) as u8,
            ((bg_num >> 8u64) & 0xff) as u8,
            ((bg_num >> 16u64) & 0xff) as u8,
            ((bg_num >> 24u64) & 0xff) as u8,
        ];
        let seed = match fs.csum_seed {
            Some(s) => s,
            None => {
                // inv: metadata_csum implies a seed is present.
                proof {
                    assert(false);
                }
                return Err(Error::MissingChecksumConfig);
            },
        };
        proof {
            assert(bg_num_raw@ =~= spec_bg_num_bytes(bg_num));
        }
        let c1 = ext4_style_crc32c_le(seed, bg_num_raw.as_slice());
        let sub = vstd::slice::slice_subrange(raw.as_slice(), 0, fs.desc_size as usize);
        let csum = ext4_style_crc32c_le(c1, sub);
        proof {
            assert(csum & 0xffff < 0x10000) by (bit_vector);
        }
        Ok((csum & 0xffff) as u16 == desc.bg_checksum)
    } else if dyn_cfg.ro_compat.has_gdt_csum() {
        Err(Error::UnsupportedGdtCsum)
    } else {
        Err(Error::MissingChecksumConfig)
    }
}


/// Marks `[start, start + len)` used on the map, clipping at the drive's end
/// and refusing a start address beyond it.
pub fn mark_used(map: &mut UsageMap, start: u64, len: u64) -> (r: Result<(), Error>)
    requires
        old(map).inv(),
    ensures
        final(map).inv(),
        marks_only_used(*old(map), *final(map)),
        r is Ok <==> start <= old(map).spec_size(),
        r is Ok ==> forall|a: u64|
            a < old(map).spec_size() ==> #[trigger] final(map).status_at(a) == (if start <= a && a
                < start + len {
                AllocStatus::Used
            } else {
                old(map).status_at(a)
            }),
        r is Err ==> *final(map) == *old(map) && r->Err_0 == Error::AddressBeyondDrive,
{
    if start > map.size() {
        return Err(Error::AddressBeyondDrive);
    }
    map.update(start, len, AllocStatus::Used);
    Ok(())
}



/// The sparse-superblock rule: whether group `bg_num` carries no superblock
/// and descriptor-table copy.  `sparse_super2` dominates `sparse_super` when
/// both are set.
pub open spec fn spec_skip_super(fs: Fs, bg_num: u64) -> bool {
    match fs.opts.dyn_cfg {
        Some(dyn_cfg) => if dyn_cfg.compat.has_sparse_super2() {
            bg_num != fs.sb.s_backup_bgs@[0] && bg_num != fs.sb.s_backup_bgs@[1]
        } else {
            dyn_cfg.ro_compat.has_sparse_super() && bg_num != 0 && bg_num % 3 != 0 && bg_num % 5
                != 0 && bg_num % 7 != 0
        },
        None => false,
    }
}

/// Whether a descriptor-checksum feature is active.
pub open spec fn spec_bg_has_csum(fs: Fs) -> bool {
    match fs.opts.dyn_cfg {
        Some(dyn_cfg) => dyn_cfg.ro_compat.has_metadata_csum() || dyn_cfg.ro_compat.has_gdt_csum(),
        None => false,
    }
}

/// The group's descriptor in the cached master table.
pub open spec fn spec_bg_desc(fs: Fs, bg_num: u64) -> GroupDescriptor {
    spec_decode_desc(fs.desc_table@, bg_num * fs.desc_size)
}

/// Where this group's copy of the descriptor table starts.
pub open spec fn spec_bg_gdt_start(fs: Fs, bg_num: u64) -> int {
    if bg_num == 0 {
        spec_start_of_first_gdt(fs.sb) as int
    } else {
        spec_start_of_bg(bg_num, fs) + fs.spec_bs()
    }
}

/// A block-number pair of a descriptor as a byte address, joining the high
/// half only when the `64bit` feature is on.
pub open spec fn spec_block_addr(fs: Fs, hi: u32, lo: u32) -> int {
    (if fs.opts.bit64_cfg is Some {
        hilo32(hi, lo)
    } else {
        lo as u64
    }) as int * (fs.spec_bs() as int)
}

/// Marks of the superblock phase: for group 0 the boot area and primary
/// superblock, for later groups their 1024-byte backup copy.
pub open spec fn spec_super_marks(fs: Fs, bg_num: u64, a: u64) -> bool {
    &&& !spec_skip_super(fs, bg_num)
    &&& (if bg_num == 0 {
        a < 2048
    } else {
        spec_start_of_bg(bg_num, fs) <= a < spec_start_of_bg(bg_num, fs) + 1024
    })
}

/// The superblock phase succeeds: the group's start and the following
/// descriptor table fit the address space, and the mark starts on the drive.
pub open spec fn spec_super_ok(fs: Fs, bg_num: u64, msize: u64) -> bool {
    bg_num == 0 || (spec_start_of_bg(bg_num, fs) + fs.spec_bs() <= u64::MAX && spec_start_of_bg(
        bg_num,
        fs,
    ) <= msize)
}

/// Marks of the unconditional descriptor-table phase (no checksum feature):
/// the whole table copy of this group.
pub open spec fn spec_gdt_full_marks(fs: Fs, bg_num: u64, a: u64) -> bool {
    &&& !spec_skip_super(fs, bg_num)
    &&& spec_bg_gdt_start(fs, bg_num) <= a < spec_bg_gdt_start(fs, bg_num) + fs.bg_count
        * fs.desc_size
}

/// The unconditional descriptor-table phase succeeds.
pub open spec fn spec_gdt_full_ok(fs: Fs, bg_num: u64, msize: u64) -> bool {
    &&& fs.bg_count * fs.desc_size <= u64::MAX
    &&& spec_bg_gdt_start(fs, bg_num) <= msize
}

/// Marks of the bitmap and inode-table phase, as the descriptor's flags
/// direct: the inode bitmap unless `INODE_UNINIT`, the block bitmap unless
/// `BLOCK_UNINIT`, and the whole inode table when `INODE_ZEROED`.
pub open spec fn spec_payload_marks(fs: Fs, desc: GroupDescriptor, a: u64) -> bool {
    let bs = fs.spec_bs() as int;
    let ib = spec_block_addr(fs, desc.bg_inode_bitmap_hi, desc.bg_inode_bitmap_lo);
    let bb = spec_block_addr(fs, desc.bg_block_bitmap_hi, desc.bg_block_bitmap_lo);
    let it = spec_block_addr(fs, desc.bg_inode_table_hi, desc.bg_inode_table_lo);
    ||| (!BgFlags(desc.bg_flags).has_inode_uninit() && ib <= a < ib + bs)
    ||| (!BgFlags(desc.bg_flags).has_block_uninit() && bb <= a < bb + bs)
    ||| (BgFlags(desc.bg_flags).has_inode_zeroed() && it <= a < it + fs.sb.s_inodes_per_group
        * fs.inode_size)
}

/// The bitmap and inode-table phase succeeds: the flags hold no unknown
/// bits, the inode table is either unused or fully zeroed, and every
/// required mark fits the address space and starts on the drive.
pub open spec fn spec_payload_ok(fs: Fs, desc: GroupDescriptor, msize: u64) -> bool {
    let ib = spec_block_addr(fs, desc.bg_inode_bitmap_hi, desc.bg_inode_bitmap_lo);
    let bb = spec_block_addr(fs, desc.bg_block_bitmap_hi, desc.bg_block_bitmap_lo);
    let it = spec_block_addr(fs, desc.bg_inode_table_hi, desc.bg_inode_table_lo);
    &&& !BgFlags(desc.bg_flags).has_unknown()
    &&& (BgFlags(desc.bg_flags).has_inode_zeroed() || BgFlags(desc.bg_flags).has_inode_uninit())
    &&& (!BgFlags(desc.bg_flags).has_inode_uninit() ==> ib <= u64::MAX && ib <= msize)
    &&& (!BgFlags(desc.bg_flags).has_block_uninit() ==> bb <= u64::MAX && bb <= msize)
    &&& (BgFlags(desc.bg_flags).has_inode_zeroed() ==> it <= u64::MAX && fs.sb.s_inodes_per_group
        * fs.inode_size <= u64::MAX && it <= msize)
}

/// The whole read-free part of a group scan succeeds.
pub open spec fn spec_bg_pure_ok(fs: Fs, bg_num: u64, msize: u64) -> bool {
    &&& (!spec_skip_super(fs, bg_num) ==> spec_super_ok(fs, bg_num, msize) && spec_gdt_full_ok(
        fs,
        bg_num,
        msize,
    ))
    &&& spec_payload_ok(fs, spec_bg_desc(fs, bg_num), msize)
}

/// Every mark of the read-free part of a group scan.
pub open spec fn spec_bg_pure_marks(fs: Fs, bg_num: u64, a: u64) -> bool {
    ||| spec_super_marks(fs, bg_num, a)
    ||| spec_gdt_full_marks(fs, bg_num, a)
    ||| spec_payload_marks(fs, spec_bg_desc(fs, bg_num), a)
}

/// Decides whether this group goes without a superblock and descriptor
/// table copy.
pub fn skip_super_for(bg_num: u64, fs: &Fs) -> (r: bool)
    ensures
        r == spec_skip_super(*fs, bg_num),
{
    match fs.opts.dyn_cfg {
        Some(dyn_cfg) => {
            if dyn_cfg.compat.has_sparse_super2() {
                bg_num != fs.sb.s_backup_bgs[0] as u64 && bg_num != fs.sb.s_backup_bgs[1] as u64
            } else {
                dyn_cfg.ro_compat.has_sparse_super() && bg_num != 0 && bg_num % 3 != 0 && bg_num % 5
                    != 0 && bg_num % 7 != 0
            }
        },
        None => false,
    }
}

/// Marks this group's superblock copy (for group 0, the boot area and the
/// primary superblock) and computes where its descriptor-table copy starts.
pub fn mark_bg_super(map: &mut UsageMap, bg_num: u64, fs: &Fs) -> (r: Result<u64, Error>)
    requires
        fs.inv(),
        old(map).inv(),
        !spec_skip_super(*fs, bg_num),
    ensures
        final(map).inv(),
        marks_only_used(*old(map), *final(map)),
        r is Ok <==> spec_super_ok(*fs, bg_num, old(map).spec_size()),
        r is Err ==> *final(map) == *old(map) && (r->Err_0 == Error::Overflow || r->Err_0
            == Error::AddressBeyondDrive),
        r is Ok ==> r->Ok_0 == spec_bg_gdt_start(*fs, bg_num),
        r is Ok ==> forall|a: u64|
            a < old(map).spec_size() ==> #[trigger] final(map).status_at(a) == (
            if spec_super_marks(*fs, bg_num, a) {
                AllocStatus::Used
            } else {
                old(map).status_at(a)
            }),
{
    let bs = block_size_of(fs.sb.s_log_block_size);
    if bg_num == 0 {
        match mark_used(map, 0, 2048) {
            Ok(_) => {},
            Err(e) => {
                // Address 0 always lies on the drive.
                proof {
                    assert(false);
                }
                return Err(e);
            },
        }
        Ok(start_of_first_gdt(&fs.sb))
    } else {
        let bg_start = match start_of_bg(bg_num, fs) {
            Ok(v) => v,
            Err(_) => {
                return Err(Error::Overflow);
            },
        };
        let gdt_start = match bg_start.checked_add(bs) {
            Some(v) => v,
            None => {
                return Err(Error::Overflow);
            },
        };
        match mark_used(map, bg_start, 1024) {
            Ok(_) => {},
            Err(e) => {
                return Err(e);
            },
        }
        Ok(gdt_start)
    }
}

/// Marks this group's whole descriptor-table copy: without a checksum
/// feature the entire table must be initialised.
pub fn mark_bg_gdt_full(map: &mut UsageMap, gdt_start: u64, fs: &Fs) -> (r: Result<(), Error>)
    requires
        fs.inv(),
        old(map).inv(),
    ensures
        final(map).inv(),
        marks_only_used(*old(map), *final(map)),
        r is Ok <==> (fs.bg_count * fs.desc_size <= u64::MAX && gdt_start <= old(map).spec_size()),
        r is Err ==> *final(map) == *old(map) && (r->Err_0 == Error::Overflow || r->Err_0
            == Error::AddressBeyondDrive),
        r is Ok ==> forall|a: u64|
            a < old(map).spec_size() ==> #[trigger] final(map).status_at(a) == (if gdt_start <= a
                && a < gdt_start + fs.bg_count * fs.desc_size {
                AllocStatus::Used
            } else {
                old(map).status_at(a)
            }),
{
    let gdt_size = match fs.bg_count.checked_mul(fs.desc_size) {
        Some(v) => v,
        None => {
            return Err(Error::Overflow);
        },
    };
    mark_used(map, gdt_start, gdt_size)
}

/// Slot `i` of a descriptor-table copy verifies: the stored checksum of the
/// descriptor decoded at its stride equals the computed one.
pub open spec fn spec_slot_verifies(fs: Fs, gdt: Seq<u8>, i: int) -> bool {
    let d = spec_decode_desc(gdt, i * fs.desc_size);
    (spec_desc_csum(d, i as u64, fs.csum_seed->Some_0, fs.desc_size) & 0xffff) == d.bg_checksum
        as u32
}

/// Address `a` lies in a verified slot of this group's table copy.
pub open spec fn spec_slot_marks(fs: Fs, gdt: Seq<u8>, gdt_start: u64, a: u64) -> bool {
    exists|i: int|
        0 <= i < fs.bg_count && #[trigger] spec_slot_verifies(fs, gdt, i) && gdt_start + i
            * fs.desc_size <= a < gdt_start + i * fs.desc_size + fs.desc_size
}

/// Walks one group's descriptor-table copy and marks exactly the slots
/// whose checksum verifies.  Wants the `metadata_csum` feature; with
/// another or no checksum feature the verification itself refuses.
#[verifier::loop_isolation(false)]
pub fn mark_verified_desc_slots(map: &mut UsageMap, gdt: &[u8], gdt_start: u64, fs: &Fs) -> (r:
    Result<(), Error>)
    requires
        fs.inv(),
        old(map).inv(),
        gdt@.len() == fs.bg_count * alloc_desc_size(fs.desc_size),
    ensures
        final(map).inv(),
        marks_only_used(*old(map), *final(map)),
        (fs.opts.dyn_cfg is Some && fs.opts.dyn_cfg->Some_0.ro_compat.has_metadata_csum()) ==> (
        r is Ok <==> (forall|i: int|
            0 <= i < fs.bg_count ==> (#[trigger] spec_slot_verifies(*fs, gdt@, i) ==> gdt_start + i
                * fs.desc_size <= u64::MAX && gdt_start + i * fs.desc_size <= old(
                map,
            ).spec_size()))),
        !(fs.opts.dyn_cfg is Some && fs.opts.dyn_cfg->Some_0.ro_compat.has_metadata_csum())
            ==> r is Err && *final(map) == *old(map),
        r is Ok ==> forall|a: u64|
            a < old(map).spec_size() ==> #[trigger] final(map).status_at(a) == (
            if spec_slot_marks(*fs, gdt@, gdt_start, a) {
                AllocStatus::Used
            } else {
                old(map).status_at(a)
            }),
{
    let ghost m0 = *map;
    match fs.opts.dyn_cfg {
        None => {
            return Err(Error::MissingChecksumConfig);
        },
        Some(dyn_cfg) => {
            if !dyn_cfg.ro_compat.has_metadata_csum() {
                if dyn_cfg.ro_compat.has_gdt_csum() {
                    return Err(Error::UnsupportedGdtCsum);
                } else {
                    return Err(Error::MissingChecksumConfig);
                }
            }
        },
    }
    let glen = gdt.len();
    let mut i: u64 = 0;
    while i < fs.bg_count
        invariant
            0 <= i <= fs.bg_count,
            map.inv(),
            marks_only_used(m0, *map),
            fs.opts.dyn_cfg is Some && fs.opts.dyn_cfg->Some_0.ro_compat.has_metadata_csum(),
            forall|k: int|
                0 <= k < i ==> (#[trigger] spec_slot_verifies(*fs, gdt@, k) ==> gdt_start + k
                    * fs.desc_size <= u64::MAX && gdt_start + k * fs.desc_size <= m0.spec_size()),
            forall|a: u64|
                a < m0.spec_size() ==> #[trigger] map.status_at(a) == (if (exists|k: int|
                    0 <= k < i && #[trigger] spec_slot_verifies(*fs, gdt@, k) && gdt_start + k
                        * fs.desc_size <= a < gdt_start + k * fs.desc_size + fs.desc_size) {
                    AllocStatus::Used
                } else {
                    m0.status_at(a)
                }),
        decreases fs.bg_count - i,
    {
        proof {
            assert(i * fs.desc_size + 64 <= fs.bg_count * alloc_desc_size(fs.desc_size))
                by (nonlinear_arith)
                requires
                    i < fs.bg_count,
                    0 < fs.desc_size <= 64,
                    alloc_desc_size(fs.desc_size) == 64,
            ;
        }
        let desc = GroupDescriptor::decode(gdt, (i * fs.desc_size) as usize);
        let verified = match verify_desc_csum(&desc, i, fs) {
            Ok(b) => b,
            Err(e) => {
                // metadata_csum was checked on entry, so verification
                // cannot refuse.
                proof {
                    assert(false);
                }
                return Err(e);
            },
        };
        if verified {
            let slot = match gdt_start.checked_add(i * fs.desc_size) {
                Some(v) => v,
                None => {
                    proof {
                        assert(spec_slot_verifies(*fs, gdt@, i as int));
                    }
                    return Err(Error::Overflow);
                },
            };
            let ghost mp = *map;
            match mark_used(map, slot, fs.desc_size) {
                Ok(_) => {},
                Err(e) => {
                    proof {
                        assert(spec_slot_verifies(*fs, gdt@, i as int));
                    }
                    return Err(e);
                },
            }
            proof {
                lemma_marks_only_used_trans(m0, mp, *map);
            }
        }
        proof {
            assert(verified == spec_slot_verifies(*fs, gdt@, i as int));
            assert forall|a: u64| a < m0.spec_size() implies #[trigger] map.status_at(a) == (
            if (exists|k: int|
                0 <= k < i + 1 && #[trigger] spec_slot_verifies(*fs, gdt@, k) && gdt_start + k
                    * fs.desc_size <= a < gdt_start + k * fs.desc_size + fs.desc_size) {
                AllocStatus::Used
            } else {
                m0.status_at(a)
            }) by {
                let in_slot_i = spec_slot_verifies(*fs, gdt@, i as int) && gdt_start + i
                    * fs.desc_size <= a < gdt_start + i * fs.desc_size + fs.desc_size;
                if exists|k: int|
                    0 <= k < i + 1 && #[trigger] spec_slot_verifies(*fs, gdt@, k) && gdt_start + k
                        * fs.desc_size <= a < gdt_start + k * fs.desc_size + fs.desc_size {
                    let k = choose|k: int|
                        0 <= k < i + 1 && #[trigger] spec_slot_verifies(*fs, gdt@, k) && gdt_start
                            + k * fs.desc_size <= a < gdt_start + k * fs.desc_size + fs.desc_size;
                    if k < i {
                        assert(exists|k: int|
                            0 <= k < i && #[trigger] spec_slot_verifies(*fs, gdt@, k) && gdt_start
                                + k * fs.desc_size <= a < gdt_start + k * fs.desc_size
                                + fs.desc_size);
                    } else {
                        assert(in_slot_i);
                    }
                    assert(map.status_at(a) == AllocStatus::Used);
                } else {
                    assert(!in_slot_i);
                    assert(!(exists|k: int|
                        0 <= k < i && #[trigger] spec_slot_verifies(*fs, gdt@, k) && gdt_start + k
                            * fs.desc_size <= a < gdt_start + k * fs.desc_size + fs.desc_size));
                    assert(map.status_at(a) == m0.status_at(a));
                }
            }
        }
        i = i + 1;
    }
    Ok(())
}

/// Marks this group's bitmaps and inode table as the descriptor's flags
/// direct, refusing unknown flags and a used-but-unzeroed inode table.
pub fn mark_bg_payload(map: &mut UsageMap, desc: &GroupDescriptor, bg_num: u64, fs: &Fs) -> (r:
    Result<(), Error>)
    requires
        fs.inv(),
        old(map).inv(),
    ensures
        final(map).inv(),
        marks_only_used(*old(map), *final(map)),
        r is Ok <==> spec_payload_ok(*fs, *desc, old(map).spec_size()),
        r is Err ==> (r->Err_0 == Error::UnknownBgFlags(bg_num) || r->Err_0
            == Error::PartialInodeTable(bg_num) || r->Err_0 == Error::Overflow || r->Err_0
            == Error::AddressBeyondDrive),
        BgFlags(desc.bg_flags).has_unknown() ==> r == Err::<(), Error>(
            Error::UnknownBgFlags(bg_num),
        ) && *final(map) == *old(map),
        r is Ok ==> forall|a: u64|
            a < old(map).spec_size() ==> #[trigger] final(map).status_at(a) == (
            if spec_payload_marks(*fs, *desc, a) {
                AllocStatus::Used
            } else {
                old(map).status_at(a)
            }),
{
    let ghost m0 = *map;
    let bs = block_size_of(fs.sb.s_log_block_size);
    let bg_flags = BgFlags(desc.bg_flags);
    if bg_flags.has_unknown() {
        return Err(Error::UnknownBgFlags(bg_num));
    }
    if !bg_flags.has_inode_zeroed() && !bg_flags.has_inode_uninit() {
        // A used but non-zeroed inode table would need per-inode marking.
        return Err(Error::PartialInodeTable(bg_num));
    }

    // Inode bitmap.
    if !bg_flags.has_inode_uninit() {
        let block = if fs.opts.bit64_cfg.is_some() {
            hilo32(desc.bg_inode_bitmap_hi, desc.bg_inode_bitmap_lo)
        } else {
            desc.bg_inode_bitmap_lo as u64
        };
        let addr = match block.checked_mul(bs) {
            Some(v) => v,
            None => {
                return Err(Error::Overflow);
            },
        };
        let ghost mp = *map;
        match mark_used(map, addr, bs) {
            Ok(_) => {},
            Err(e) => {
                return Err(e);
            },
        }
        proof {
            lemma_marks_only_used_trans(m0, mp, *map);
        }
    }

    // Block bitmap.
    if !bg_flags.has_block_uninit() {
        let block = if fs.opts.bit64_cfg.is_some() {
            hilo32(desc.bg_block_bitmap_hi, desc.bg_block_bitmap_lo)
        } else {
            desc.bg_block_bitmap_lo as u64
        };
        let addr = match block.checked_mul(bs) {
            Some(v) => v,
            None => {
                return Err(Error::Overflow);
            },
        };
        let ghost mp = *map;
        match mark_used(map, addr, bs) {
            Ok(_) => {},
            Err(e) => {
                return Err(e);
            },
        }
        proof {
            lemma_marks_only_used_trans(m0, mp, *map);
        }
    }

    // Inode table.
    if bg_flags.has_inode_zeroed() {
        let block = if fs.opts.bit64_cfg.is_some() {
            hilo32(desc.bg_inode_table_hi, desc.bg_inode_table_lo)
        } else {
            desc.bg_inode_table_lo as u64
        };
        let addr = match block.checked_mul(bs) {
            Some(v) => v,
            None => {
                return Err(Error::Overflow);
            },
        };
        let table_bytes = match (fs.sb.s_inodes_per_group as u64).checked_mul(fs.inode_size) {
            Some(v) => v,
            None => {
                return Err(Error::Overflow);
            },
        };
        let ghost mp = *map;
        match mark_used(map, addr, table_bytes) {
            Ok(_) => {},
            Err(e) => {
                return Err(e);
            },
        }
        proof {
            lemma_marks_only_used_trans(m0, mp, *map);
        }
    }
    Ok(())
}

/// Scans one regular block group: marks the superblock backup, descriptor
/// table, bitmaps and inode table as the feature flags direct, then walks
/// every allocated inode of the group.  On the read-free path (no checksum
/// feature, inode table unused) the outcome is pinned exactly: success iff
/// the group's geometry fits the drive, and the map gains exactly the marks
/// of [`spec_bg_pure_marks`].
#[verifier::loop_isolation(false)]
pub fn scan_regular_bg<F: Fn(u64, u64) -> Result<Vec<u8>, Error> + Copy>(
    map: &mut UsageMap,
    bg_num: u64,
    fs: &Fs,
    read: F,
) -> (r: Result<(), Error>)
    requires
        fs.inv(),
        fs.desc_table_ok(),
        bg_num < fs.bg_count,
        reader_ok(read),
        old(map).inv(),
    ensures
        final(map).inv(),
        marks_only_used(*old(map), *final(map)),
        (!spec_bg_has_csum(*fs) && BgFlags(
            spec_bg_desc(*fs, bg_num).bg_flags,
        ).has_inode_uninit()) ==> {
            &&& (r is Ok <==> spec_bg_pure_ok(*fs, bg_num, old(map).spec_size()))
            &&& (r is Ok ==> forall|a: u64|
                a < old(map).spec_size() ==> #[trigger] final(map).status_at(a) == (
                if spec_bg_pure_marks(*fs, bg_num, a) {
                    AllocStatus::Used
                } else {
                    old(map).status_at(a)
                }))
        },
        !spec_bg_has_csum(*fs) && r is Ok ==> spec_payload_ok(
            *fs,
            spec_bg_desc(*fs, bg_num),
            old(map).spec_size(),
        ),
        (r is Ok && spec_bg_has_csum(*fs) && !spec_skip_super(*fs, bg_num)) ==> (exists|
            gdt: Vec<u8>,
        |
            #[trigger] call_ensures(
                read,
                (
                    (spec_bg_gdt_start(*fs, bg_num) as u64),
                    ((fs.bg_count * alloc_desc_size(fs.desc_size)) as u64),
                ),
                Ok::<Vec<u8>, Error>(gdt),
            )),
        (r is Ok && !spec_bg_has_csum(*fs) && !BgFlags(
            spec_bg_desc(*fs, bg_num).bg_flags,
        ).has_inode_uninit()) ==> (exists|bmp: Vec<u8>|
            #[trigger] call_ensures(
                read,
                (
                    (spec_block_addr(
                        *fs,
                        spec_bg_desc(*fs, bg_num).bg_inode_bitmap_hi,
                        spec_bg_desc(*fs, bg_num).bg_inode_bitmap_lo,
                    ) as u64),
                    fs.spec_bs(),
                ),
                Ok::<Vec<u8>, Error>(bmp),
            )),
{
    let ghost m0 = *map;
    let ghost pure_path = !spec_bg_has_csum(*fs) && BgFlags(
        spec_bg_desc(*fs, bg_num).bg_flags,
    ).has_inode_uninit();
    let has_csum = match fs.opts.dyn_cfg {
        Some(dyn_cfg) => dyn_cfg.ro_compat.has_metadata_csum() || dyn_cfg.ro_compat.has_gdt_csum(),
        None => false,
    };
    let skip_super = skip_super_for(bg_num, fs);

    if !skip_super {
        // The superblock copy (and, for group 0, the boot area).
        let gdt_start = match mark_bg_super(map, bg_num, fs) {
            Ok(v) => v,
            Err(e) => {
                return Err(e);
            },
        };

        // The group descriptors.
        if has_csum {
            // Read this group's copy of the table and mark only the
            // descriptor slots whose checksum verifies.
            let tl = fs.desc_table.len();
            let tbl_len = match fs.bg_count.checked_mul(alloc_desc_size(fs.desc_size)) {
                Some(v) => v,
                None => {
                    // The cached table already holds this many bytes, so
                    // the product fits.
                    proof {
                        assert(tl == fs.bg_count * alloc_desc_size(fs.desc_size));
                        assert(false);
                    }
                    return Err(Error::Overflow);
                },
            };
            let gdt = match read(gdt_start, tbl_len) {
                Ok(v) => v,
                Err(_) => {
                    return Err(Error::Io);
                },
            };
            let ghost mp = *map;
            let res = mark_verified_desc_slots(map, gdt.as_slice(), gdt_start, fs);
            proof {
                lemma_marks_only_used_trans(m0, mp, *map);
            }
            match res {
                Ok(_) => {},
                Err(e) => {
                    return Err(e);
                },
            }
        } else {
            // Without checksumming the whole table must be initialised.
            let ghost mp = *map;
            let res = mark_bg_gdt_full(map, gdt_start, fs);
            proof {
                lemma_marks_only_used_trans(m0, mp, *map);
            }
            match res {
                Ok(_) => {},
                Err(e) => {
                    return Err(e);
                },
            }
        }
    }

    let desc = fetch_regular_bg_descriptor(bg_num, fs);

    if has_csum {
        match verify_desc_csum(&desc, bg_num, fs) {
            Ok(true) => {},
            Ok(false) => {
                // The group's payload cannot be trusted; skip it.
                return Ok(());
            },
            Err(e) => {
                return Err(e);
            },
        }
    }

    // Bitmaps and the inode table, as the descriptor's flags direct.
    let ghost m_before_payload = *map;
    let payload = mark_bg_payload(map, &desc, bg_num, fs);
    proof {
        lemma_marks_only_used_trans(m0, m_before_payload, *map);
    }
    match payload {
        Ok(_) => {},
        Err(e) => {
            return Err(e);
        },
    }
    proof {
        if pure_path {
            assert forall|a: u64| a < m0.spec_size() implies #[trigger] map.status_at(a) == (
            if spec_bg_pure_marks(*fs, bg_num, a) {
                AllocStatus::Used
            } else {
                m0.status_at(a)
            }) by {}
        }
    }

    // Walk the allocated inodes.
    let bg_flags = BgFlags(desc.bg_flags);
    if !bg_flags.has_inode_uninit() {
        let bs = block_size_of(fs.sb.s_log_block_size);
        let inode_bitmap_block = if fs.opts.bit64_cfg.is_some() {
            hilo32(desc.bg_inode_bitmap_hi, desc.bg_inode_bitmap_lo)
        } else {
            desc.bg_inode_bitmap_lo as u64
        };
        let ib_addr = match inode_bitmap_block.checked_mul(bs) {
            Some(v) => v,
            None => {
                return Err(Error::Overflow);
            },
        };
        let bmp_bytes = match read(ib_addr, bs) {
            Ok(v) => v,
            Err(_) => {
                return Err(Error::Io);
            },
        };
        let i_bmp = Bitmap::from_bytes(bmp_bytes.as_slice());
        if bs < u64::MAX / 8 && (fs.sb.s_inodes_per_group as u64) > 8 * bs {
            // The inode bitmap block cannot address this many inodes.
            return Err(Error::InvalidGeometry);
        }
        let itable = match crate::e2fs::inode::read_itable(bg_num, fs, read) {
            Ok(v) => v,
            Err(e) => {
                return Err(e);
            },
        };
        let ipg = fs.sb.s_inodes_per_group as usize;
        let mut i: usize = 0;
        while i < ipg
            invariant
                0 <= i <= ipg,
                map.inv(),
                marks_only_used(m0, *map),
            decreases ipg - i,
        {
            if i_bmp.check_bit(i) {
                proof {
                    assert(i * fs.inode_size + 160 <= fs.sb.s_inodes_per_group
                        * crate::e2fs::inode::alloc_inode_size(fs.inode_size))
                        by (nonlinear_arith)
                        requires
                            i < fs.sb.s_inodes_per_group,
                            fs.inode_size <= crate::e2fs::inode::alloc_inode_size(fs.inode_size),
                            160 <= crate::e2fs::inode::alloc_inode_size(fs.inode_size),
                    ;
                }
                let ghost mp = *map;
                let res = crate::e2fs::inode::scan_inode(map, i, bg_num, itable.as_slice(), fs, read);
                proof {
                    lemma_marks_only_used_trans(m0, mp, *map);
                }
                match res {
                    Ok(_) => {},
                    Err(e) => {
                        return Err(e);
                    },
                }
            }
            i = i + 1;
        }
    }

    Ok(())
}


/// Every group scan of the filesystem is read-free: no checksum feature,
/// and every group's inode table is unused.
pub open spec fn spec_all_groups_pure(fs: Fs) -> bool {
    &&& !spec_bg_has_csum(fs)
    &&& (forall|g: u64|
        g < fs.bg_count ==> BgFlags((#[trigger] spec_bg_desc(fs, g)).bg_flags).has_inode_uninit())
}

/// Scans every block group of the filesystem and returns the usage map of
/// the whole drive: one `Free`/`Used` partition of `[0, drive_size)`.
#[verifier::loop_isolation(false)]
pub fn scan_free_space<F: Fn(u64, u64) -> Result<Vec<u8>, Error> + Copy>(
    fs: &Fs,
    drive_size: u64,
    read: F,
) -> (r: Result<UsageMap, Error>)
    requires
        fs.inv(),
        fs.desc_table_ok(),
        reader_ok(read),
        drive_size > 0,
    ensures
        r is Ok ==> r->Ok_0.inv() && r->Ok_0.spec_size() == drive_size,
        fs.bg_count == 0 ==> (r is Ok && forall|a: u64|
            a < drive_size ==> #[trigger] r->Ok_0.status_at(a) == AllocStatus::Free),
        (spec_all_groups_pure(*fs) && r is Ok) ==> forall|a: u64|
            a < drive_size ==> #[trigger] r->Ok_0.status_at(a) == (if (exists|g: u64|
                g < fs.bg_count && #[trigger] spec_bg_pure_marks(*fs, g, a)) {
                AllocStatus::Used
            } else {
                AllocStatus::Free
            }),
{
    let mut map = UsageMap::new(drive_size);
    let mut num: u64 = 0;
    while num < fs.bg_count
        invariant
            0 <= num <= fs.bg_count,
            map.inv(),
            map.spec_size() == drive_size,
            fs.bg_count == 0 ==> forall|a: u64|
                a < drive_size ==> #[trigger] map.status_at(a) == AllocStatus::Free,
            spec_all_groups_pure(*fs) ==> forall|a: u64|
                a < drive_size ==> #[trigger] map.status_at(a) == (if (exists|g: u64|
                    g < num && #[trigger] spec_bg_pure_marks(*fs, g, a)) {
                    AllocStatus::Used
                } else {
                    AllocStatus::Free
                }),
        decreases fs.bg_count - num,
    {
        let ghost prev = map;
        match scan_regular_bg(&mut map, num, fs, read) {
            Ok(_) => {},
            Err(e) => {
                return Err(e);
            },
        }
        proof {
            if spec_all_groups_pure(*fs) {
                assert(BgFlags(spec_bg_desc(*fs, num).bg_flags).has_inode_uninit());
                assert forall|a: u64| a < drive_size implies #[trigger] map.status_at(a) == (
                if (exists|g: u64| g < num + 1 && #[trigger] spec_bg_pure_marks(*fs, g, a)) {
                    AllocStatus::Used
                } else {
                    AllocStatus::Free
                }) by {
                    if exists|g: u64| g < num + 1 && #[trigger] spec_bg_pure_marks(*fs, g, a) {
                        let g = choose|g: u64|
                            g < num + 1 && #[trigger] spec_bg_pure_marks(*fs, g, a);
                        if g < num {
                            assert(prev.status_at(a) == AllocStatus::Used);
                        } else {
                            assert(spec_bg_pure_marks(*fs, num, a));
                        }
                        assert(map.status_at(a) == AllocStatus::Used);
                    } else {
                        assert(!(exists|g: u64| g < num && #[trigger] spec_bg_pure_marks(*fs, g, a)));
                        assert(!spec_bg_pure_marks(*fs, num, a));
                        assert(map.status_at(a) == AllocStatus::Free);
                    }
                }
            }
        }
        num = num + 1;
    }
    Ok(map)
}

/// Processes an ext2/3/4 filesystem: decodes and validates the superblock,
/// derives the filesystem parameters, caches the master descriptor table,
/// and computes the drive's free-space map.  Reporting or overwriting the
/// free segments is the caller's business.
pub fn process_drive<F: Fn(u64, u64) -> Result<Vec<u8>, Error> + Copy>(
    drive_size: u64,
    cfg: &Config,
    read: F,
) -> (r: Result<UsageMap, Error>)
    requires
        reader_ok(read),
        drive_size > 0,
    ensures
        r is Ok ==> r->Ok_0.inv() && r->Ok_0.spec_size() == drive_size,
        (r is Ok || r->Err_0 != Error::Io) ==> (exists|sbb: Vec<u8>|
            (#[trigger] call_ensures(read, (1024u64, 1024u64), Ok::<Vec<u8>, Error>(sbb))
                && sbb@.len() == 1024)),
        r is Ok ==> (exists|sbb: Vec<u8>, gdt: Vec<u8>, glen: u64|
            (#[trigger] call_ensures(read, (1024u64, 1024u64), Ok::<Vec<u8>, Error>(sbb))
                && spec_le32_at(sbb@, 24) <= 53 && #[trigger] call_ensures(
                read,
                ((spec_gdt_offset_of_log(spec_le32_at(sbb@, 24))), glen),
                Ok::<Vec<u8>, Error>(gdt),
            ))),
{
    let sb_bytes = match read(1024, 1024) {
        Ok(v) => v,
        Err(_) => {
            return Err(Error::Io);
        },
    };
    let sb = SuperBlock::decode(sb_bytes.as_slice());
    let opts = match get_and_check_fs_options(&sb, cfg) {
        Ok(o) => o,
        Err(e) => {
            return Err(e);
        },
    };
    let mut fs = match Fs::new(&sb, &opts) {
        Ok(f) => f,
        Err(e) => {
            return Err(e);
        },
    };

    // Cache the master descriptor table.
    let tbl_len = match fs.bg_count.checked_mul(alloc_desc_size(fs.desc_size)) {
        Some(v) => v,
        None => {
            return Err(Error::Overflow);
        },
    };
    let gdt0 = start_of_first_gdt(&fs.sb);
    let table = match read(gdt0, tbl_len) {
        Ok(v) => v,
        Err(_) => {
            return Err(Error::Io);
        },
    };
    proof {
        assert(spec_le32_at(sb_bytes@, 24) == sb.s_log_block_size);
        assert(gdt0 == spec_gdt_offset_of_log(spec_le32_at(sb_bytes@, 24)));
        assert(call_ensures(read, (1024u64, 1024u64), Ok::<Vec<u8>, Error>(sb_bytes)));
        assert(call_ensures(
            read,
            (spec_gdt_offset_of_log(spec_le32_at(sb_bytes@, 24)), tbl_len),
            Ok::<Vec<u8>, Error>(table),
        ));
    }
    fs.desc_table = table;

    scan_free_space(&fs, drive_size, read)
}

} // verus!
