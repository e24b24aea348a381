use fsfill::Config;
use fsfill::Error;
use fsfill::FsType;
use fsfill::detect::detect_fs;
use fsfill::e2fs::Fs;
use fsfill::e2fs::GroupDescriptor;
use fsfill::e2fs::SuperBlock;
use fsfill::crc::ext4_style_crc32c_le;
use fsfill::e2fs::get_and_check_fs_options;
use fsfill::e2fs::start_of_first_gdt;
use fsfill::e2fs::verify_desc_csum;
use fsfill::usage_map::AllocStatus;

fn put16(buf: &mut [u8], off: usize, v: u16) {
    buf[off..off + 2].copy_from_slice(&v.to_le_bytes());
}

fn put32(buf: &mut [u8], off: usize, v: u32) {
    buf[off..off + 4].copy_from_slice(&v.to_le_bytes());
}

/// A plain valid superblock: clean state, `Continue` error policy, Linux
/// creator, dynamic revision, no features.
fn base_sb() -> SuperBlock {
    let mut raw = vec![0u8; 1024];
    put16(&mut raw, 58, 1); // s_state: valid
    put16(&mut raw, 60, 1); // s_errors: Continue
    put32(&mut raw, 76, 1); // s_rev_level: Dynamic
    put16(&mut raw, 56, 0xef53); // s_magic
    SuperBlock::decode(&raw)
}

fn cfg() -> Config {
    Config { ignore_recovery: false, ignore_readonly: false }
}

#[test]
fn superblock_decode_fields() {
    let mut raw = vec![0u8; 1024];
    put32(&mut raw, 0, 1234); // s_inodes_count
    put32(&mut raw, 4, 99); // s_blocks_count_lo
    put32(&mut raw, 24, 2); // s_log_block_size
    put16(&mut raw, 56, 0xef53); // s_magic
    put16(&mut raw, 88, 256); // s_inode_size
    put16(&mut raw, 254, 64); // s_desc_size
    put32(&mut raw, 624, 0xaabbccdd); // s_checksum_seed
    raw[104] = 0x42; // first byte of s_uuid
    put32(&mut raw, 588, 7); // s_backup_bgs[0]
    put32(&mut raw, 1020, 0x11223344); // s_checksum

    let sb = SuperBlock::decode(&raw);
    assert_eq!(sb.s_inodes_count, 1234);
    assert_eq!(sb.s_blocks_count_lo, 99);
    assert_eq!(sb.s_log_block_size, 2);
    assert_eq!(sb.s_magic, 0xef53);
    assert_eq!(sb.s_inode_size, 256);
    assert_eq!(sb.s_desc_size, 64);
    assert_eq!(sb.s_checksum_seed, 0xaabbccdd);
    assert_eq!(sb.s_uuid[0], 0x42);
    assert_eq!(sb.s_backup_bgs[0], 7);
    assert_eq!(sb.s_checksum, 0x11223344);
}

#[test]
fn detect_accepts_plausible_superblock() {
    let sb = base_sb();
    assert_eq!(detect_fs(&sb), Some(FsType::Ext2));
}

#[test]
fn detect_rejects_bad_magic() {
    let mut sb = base_sb();
    sb.s_magic = 0x1234;
    assert_eq!(detect_fs(&sb), None);
}

#[test]
fn detect_rejects_bad_state() {
    let mut sb = base_sb();
    sb.s_state = 0;
    assert_eq!(detect_fs(&sb), None);
    sb.s_state = 0x40;
    assert_eq!(detect_fs(&sb), None);
}

#[test]
fn options_accept_base() {
    let sb = base_sb();
    let opts = get_and_check_fs_options(&sb, &cfg()).unwrap();
    assert!(opts.dyn_cfg.is_some());
    assert!(opts.journal_cfg.is_none());
    assert!(opts.bit64_cfg.is_none());
}

#[test]
fn options_reject_unknown_state() {
    let mut sb = base_sb();
    sb.s_state = 0x41;
    assert_eq!(get_and_check_fs_options(&sb, &cfg()), Err(Error::UnknownStateFlags(0x41)));
}

#[test]
fn options_reject_error_state() {
    let mut sb = base_sb();
    sb.s_state = 0x3;
    assert_eq!(get_and_check_fs_options(&sb, &cfg()), Err(Error::FilesystemHasErrors));
}

#[test]
fn options_reject_fc_replay() {
    let mut sb = base_sb();
    sb.s_state = 0x21;
    assert_eq!(get_and_check_fs_options(&sb, &cfg()), Err(Error::FcReplayInProgress));
}

#[test]
fn options_reject_bad_error_policy() {
    let mut sb = base_sb();
    sb.s_errors = 0;
    assert_eq!(get_and_check_fs_options(&sb, &cfg()), Err(Error::InvalidErrorPolicy));
    sb.s_errors = 9;
    assert_eq!(get_and_check_fs_options(&sb, &cfg()), Err(Error::UnknownErrorPolicy(9)));
}

#[test]
fn options_reject_unknown_creator() {
    let mut sb = base_sb();
    sb.s_creator_os = 77;
    assert_eq!(get_and_check_fs_options(&sb, &cfg()), Err(Error::UnknownCreator(77)));
}

#[test]
fn options_reject_unknown_revision() {
    let mut sb = base_sb();
    sb.s_rev_level = 2;
    assert_eq!(get_and_check_fs_options(&sb, &cfg()), Err(Error::UnknownRevision(2)));
}

#[test]
fn options_reject_unknown_compat() {
    let mut sb = base_sb();
    sb.s_feature_compat = 0x2000;
    assert_eq!(get_and_check_fs_options(&sb, &cfg()), Err(Error::UnknownCompatFlags(0x2000)));
}

#[test]
fn options_reject_exclude_inode() {
    let mut sb = base_sb();
    sb.s_feature_compat = 0x80;
    assert_eq!(get_and_check_fs_options(&sb, &cfg()), Err(Error::UnsupportedExcludeInode));
}

#[test]
fn options_recover_needs_override() {
    let mut sb = base_sb();
    sb.s_feature_incompat = 0x4;
    assert_eq!(get_and_check_fs_options(&sb, &cfg()), Err(Error::NeedsRecovery));
    let lenient = Config { ignore_recovery: true, ignore_readonly: false };
    assert!(get_and_check_fs_options(&sb, &lenient).is_ok());
}

#[test]
fn options_reject_meta_bg() {
    let mut sb = base_sb();
    sb.s_feature_incompat = 0x10;
    assert_eq!(get_and_check_fs_options(&sb, &cfg()), Err(Error::UnsupportedMetaBg));
}

#[test]
fn options_reject_encrypted_fs() {
    let mut sb = base_sb();
    sb.s_feature_incompat = 0x10000;
    assert_eq!(get_and_check_fs_options(&sb, &cfg()), Err(Error::EncryptedFilesystem));
}

#[test]
fn options_readonly_needs_override() {
    let mut sb = base_sb();
    sb.s_feature_ro_compat = 0x1000;
    assert_eq!(get_and_check_fs_options(&sb, &cfg()), Err(Error::ReadOnlyFilesystem));
    let lenient = Config { ignore_recovery: false, ignore_readonly: true };
    assert!(get_and_check_fs_options(&sb, &lenient).is_ok());
}

#[test]
fn options_reject_conflicting_checksums() {
    let mut sb = base_sb();
    sb.s_feature_ro_compat = 0x410;
    assert_eq!(get_and_check_fs_options(&sb, &cfg()), Err(Error::ConflictingChecksumFeatures));
}

#[test]
fn options_reject_gdt_csum() {
    let mut sb = base_sb();
    sb.s_feature_ro_compat = 0x10;
    assert_eq!(get_and_check_fs_options(&sb, &cfg()), Err(Error::UnsupportedGdtCsum));
}

#[test]
fn options_journal_checks() {
    let mut sb = base_sb();
    sb.s_feature_compat = 0x4; // has_journal
    sb.s_def_hash_version = 9;
    assert_eq!(get_and_check_fs_options(&sb, &cfg()), Err(Error::UnknownHashVersion(9)));
    sb.s_def_hash_version = 1;
    sb.s_default_mount_opts = 0x80;
    assert_eq!(get_and_check_fs_options(&sb, &cfg()), Err(Error::UnknownMountOpts(0x80)));
    sb.s_default_mount_opts = 0x4;
    let opts = get_and_check_fs_options(&sb, &cfg()).unwrap();
    assert!(opts.journal_cfg.is_some());
}

#[test]
fn options_bit64_checks() {
    let mut sb = base_sb();
    sb.s_feature_incompat = 0x80; // 64bit
    sb.s_flags = 0x20;
    assert_eq!(get_and_check_fs_options(&sb, &cfg()), Err(Error::CorruptSnapshotInodes));
    sb.s_flags = 0x80;
    assert_eq!(get_and_check_fs_options(&sb, &cfg()), Err(Error::UnknownMiscFlags(0x80)));
    sb.s_flags = 0;
    let opts = get_and_check_fs_options(&sb, &cfg()).unwrap();
    assert!(opts.bit64_cfg.is_some());
    assert!(opts.bit64_cfg.unwrap().encrypt_algos.is_none());
}

#[test]
fn options_encrypt_algos() {
    // The encryption-algorithm slots are resolved only outside the dynamic
    // revision, whose own checks reject the encrypt flag first.
    let mut sb = base_sb();
    sb.s_rev_level = 0;
    sb.s_feature_incompat = 0x80 | 0x10000;
    sb.s_encrypt_algos = [1, 2, 3, 4];
    let opts = get_and_check_fs_options(&sb, &cfg()).unwrap();
    let algos = opts.bit64_cfg.unwrap().encrypt_algos;
    assert!(algos.is_some());
    sb.s_encrypt_algos = [1, 0, 3, 4];
    assert_eq!(get_and_check_fs_options(&sb, &cfg()), Err(Error::InvalidEncryptAlgo));
    sb.s_encrypt_algos = [1, 2, 9, 4];
    assert_eq!(get_and_check_fs_options(&sb, &cfg()), Err(Error::UnknownEncryptAlgo(9)));
}

#[test]
fn descriptor_decode_and_encode() {
    let mut raw = vec![0u8; 64];
    put32(&mut raw, 0, 111); // bg_block_bitmap_lo
    put32(&mut raw, 4, 222); // bg_inode_bitmap_lo
    put32(&mut raw, 8, 333); // bg_inode_table_lo
    put16(&mut raw, 18, 0x5); // bg_flags
    put16(&mut raw, 30, 0xbeef); // bg_checksum
    put32(&mut raw, 40, 1); // bg_inode_table_hi

    let d = GroupDescriptor::decode(&raw, 0);
    assert_eq!(d.bg_block_bitmap_lo, 111);
    assert_eq!(d.bg_inode_bitmap_lo, 222);
    assert_eq!(d.bg_inode_table_lo, 333);
    assert_eq!(d.bg_flags, 0x5);
    assert_eq!(d.bg_checksum, 0xbeef);
    assert_eq!(d.bg_inode_table_hi, 1);

    let enc = d.encode();
    assert_eq!(enc, raw);
}

#[test]
fn fs_geometry_derived() {
    let mut sb = base_sb();
    sb.s_blocks_count_lo = 100;
    sb.s_first_data_block = 1;
    sb.s_blocks_per_group = 32;
    sb.s_inode_size = 256;
    let opts = get_and_check_fs_options(&sb, &cfg()).unwrap();
    let fs = Fs::new(&sb, &opts).unwrap();
    assert_eq!(fs.bg_count, 4); // ceil(99 / 32)
    assert_eq!(fs.bg_size, 32 * 1024);
    assert_eq!(fs.desc_size, 32); // s_desc_size == 0 falls back to 32
    assert_eq!(fs.inode_size, 256); // dynamic revision
    assert!(fs.csum_seed.is_none());
}

#[test]
fn fs_rejects_zero_blocks_per_group() {
    let mut sb = base_sb();
    sb.s_blocks_count_lo = 100;
    sb.s_blocks_per_group = 0;
    let opts = get_and_check_fs_options(&sb, &cfg()).unwrap();
    assert_eq!(Fs::new(&sb, &opts).err(), Some(Error::InvalidGeometry));
}

#[test]
fn fs_rejects_huge_block_size() {
    let mut sb = base_sb();
    sb.s_log_block_size = 60;
    sb.s_blocks_count_lo = 100;
    sb.s_blocks_per_group = 32;
    let opts = get_and_check_fs_options(&sb, &cfg()).unwrap();
    assert_eq!(Fs::new(&sb, &opts).err(), Some(Error::BlockSizeTooLarge));
}

#[test]
fn first_gdt_offset() {
    let mut sb = base_sb();
    sb.s_log_block_size = 0;
    assert_eq!(start_of_first_gdt(&sb), 2048);
    sb.s_log_block_size = 2;
    assert_eq!(start_of_first_gdt(&sb), 4096);
}

#[test]
fn desc_csum_verifies() {
    let mut sb = base_sb();
    sb.s_blocks_count_lo = 100;
    sb.s_first_data_block = 1;
    sb.s_blocks_per_group = 32;
    sb.s_feature_ro_compat = 0x400; // metadata_csum
    sb.s_desc_size = 64;
    sb.s_uuid = [7u8; 16];
    let opts = get_and_check_fs_options(&sb, &cfg()).unwrap();
    let fs = Fs::new(&sb, &opts).unwrap();
    let seed = fs.csum_seed.unwrap();

    let mut raw = vec![0u8; 64];
    put32(&mut raw, 0, 111);
    put16(&mut raw, 18, 0x5);
    let mut d = GroupDescriptor::decode(&raw, 0);

    // Compute the expected checksum: group number bytes, then the encoded
    // descriptor with a zeroed checksum field.
    let bg_num: u64 = 7;
    let c1 = ext4_style_crc32c_le(seed, &(bg_num as u32).to_le_bytes());
    let mut zeroed = d;
    zeroed.bg_checksum = 0;
    let enc = zeroed.encode();
    let c2 = ext4_style_crc32c_le(c1, &enc[..64]);
    d.bg_checksum = (c2 & 0xffff) as u16;

    assert_eq!(verify_desc_csum(&d, bg_num, &fs), Ok(true));
    d.bg_checksum = d.bg_checksum.wrapping_add(1);
    assert_eq!(verify_desc_csum(&d, bg_num, &fs), Ok(false));
}

#[test]
fn desc_csum_needs_feature() {
    let mut sb = base_sb();
    sb.s_blocks_count_lo = 100;
    sb.s_blocks_per_group = 32;
    let opts = get_and_check_fs_options(&sb, &cfg()).unwrap();
    let fs = Fs::new(&sb, &opts).unwrap();
    let d = GroupDescriptor::decode(&vec![0u8; 64], 0);
    assert_eq!(verify_desc_csum(&d, 0, &fs), Err(Error::MissingChecksumConfig));
}

#[test]
fn process_drive_minimal_image() {
    // A one-group good-old-revision filesystem: 64 blocks of 1024 bytes.
    // The scan marks the boot area and superblock, the descriptor table,
    // and nothing else: the group's descriptor flags say both bitmaps and
    // the inode table are uninitialised.
    let mut image = vec![0u8; 64 * 1024];
    put16(&mut image, 1024 + 58, 1); // s_state: valid
    put16(&mut image, 1024 + 60, 1); // s_errors: Continue
    // s_rev_level stays 0: GoodOld.
    put32(&mut image, 1024 + 4, 64); // s_blocks_count_lo
    put32(&mut image, 1024 + 20, 1); // s_first_data_block
    put32(&mut image, 1024 + 32, 64); // s_blocks_per_group
    put16(&mut image, 2048 + 18, 0x3); // bg_flags: INODE_UNINIT | BLOCK_UNINIT

    let map = {
        let img = &image;
        let read = move |off: u64, len: u64| -> Result<Vec<u8>, Error> {
            let off = off as usize;
            let len = len as usize;
            if off + len > img.len() {
                return Err(Error::Io);
            }
            Ok(img[off..off + len].to_vec())
        };
        fsfill::e2fs::process_drive(64 * 1024, &cfg(), read).unwrap()
    };

    assert_eq!(map.len(), 2);
    assert_eq!(map.0[0].start, 0);
    assert_eq!(map.0[0].end, 2048 + 32); // boot area + superblock + one descriptor
    assert_eq!(map.0[0].status, AllocStatus::Used);
    assert_eq!(map.0[1].start, 2048 + 32);
    assert_eq!(map.0[1].end, 64 * 1024);
    assert_eq!(map.0[1].status, AllocStatus::Free);
}

#[test]
fn free_segments_lists_free_runs() {
    let mut map = fsfill::usage_map::UsageMap::new(100);
    map.update(10, 10, AllocStatus::Used);
    map.update(50, 20, AllocStatus::Used);
    let free = fsfill::fill::free_segments(&map);
    assert_eq!(free.len(), 3);
    assert_eq!((free[0].start, free[0].end), (0, 10));
    assert_eq!((free[1].start, free[1].end), (20, 50));
    assert_eq!((free[2].start, free[2].end), (70, 100));
    for s in &free {
        assert_eq!(s.status, AllocStatus::Free);
    }
}
