use fsfill::Config;
use fsfill::Error;
use fsfill::crc::ext4_style_crc32c_le;
use fsfill::e2fs::GroupDescriptor;
use fsfill::e2fs::process_drive;
use fsfill::usage_map::AllocStatus;
use fsfill::usage_map::UsageMap;

fn put16(buf: &mut [u8], off: usize, v: u16) {
    buf[off..off + 2].copy_from_slice(&v.to_le_bytes());
}

fn put32(buf: &mut [u8], off: usize, v: u32) {
    buf[off..off + 4].copy_from_slice(&v.to_le_bytes());
}

fn cfg() -> Config {
    Config { ignore_recovery: false, ignore_readonly: false }
}

fn status_at(map: &UsageMap, addr: u64) -> AllocStatus {
    for seg in &map.0 {
        if seg.start <= addr && addr < seg.end {
            return seg.status;
        }
    }
    panic!("address outside the map");
}

fn run_scan(image: &[u8]) -> Result<UsageMap, Error> {
    let read = move |off: u64, len: u64| -> Result<Vec<u8>, Error> {
        let off = off as usize;
        let len = len as usize;
        if off + len > image.len() {
            return Err(Error::Io);
        }
        Ok(image[off..off + len].to_vec())
    };
    process_drive(image.len() as u64, &cfg(), read)
}

#[test]
fn sparse_super_selects_backup_groups() {
    // Eight groups of eight 1024-byte blocks, dynamic revision with
    // `sparse_super`: only group 0 and the groups whose number divides by
    // 3, 5 or 7 carry a superblock backup and a descriptor table copy.
    let mut image = vec![0u8; 64 * 1024];
    put16(&mut image, 1024 + 58, 1); // s_state: valid
    put16(&mut image, 1024 + 60, 1); // s_errors: Continue
    put32(&mut image, 1024 + 76, 1); // s_rev_level: Dynamic
    put32(&mut image, 1024 + 4, 64); // s_blocks_count_lo
    put32(&mut image, 1024 + 20, 1); // s_first_data_block
    put32(&mut image, 1024 + 32, 8); // s_blocks_per_group
    put32(&mut image, 1024 + 100, 0x1); // s_feature_ro_compat: sparse_super
    put16(&mut image, 1024 + 88, 128); // s_inode_size
    for g in 0..8usize {
        // Every group: both bitmaps and the inode table uninitialised.
        put16(&mut image, 2048 + 32 * g + 18, 0x3);
    }

    let map = run_scan(&image).unwrap();

    let bg_start = |g: u64| 1024 + g * 8 * 1024;
    // Group 0 always carries the primary copy.
    assert_eq!(status_at(&map, 0), AllocStatus::Used);
    assert_eq!(status_at(&map, 2048 + 8 * 32 - 1), AllocStatus::Used);
    // Groups 1, 2 and 4 are sparse: no backup.
    assert_eq!(status_at(&map, bg_start(1)), AllocStatus::Free);
    assert_eq!(status_at(&map, bg_start(2)), AllocStatus::Free);
    assert_eq!(status_at(&map, bg_start(4)), AllocStatus::Free);
    // Groups 3, 5, 6 and 7 carry a backup superblock and a table copy.
    for g in [3u64, 5, 6, 7] {
        assert_eq!(status_at(&map, bg_start(g)), AllocStatus::Used);
        assert_eq!(status_at(&map, bg_start(g) + 1023), AllocStatus::Used);
        // The descriptor table copy sits one block after the backup.
        assert_eq!(status_at(&map, bg_start(g) + 1024), AllocStatus::Used);
        assert_eq!(status_at(&map, bg_start(g) + 1024 + 8 * 32 - 1), AllocStatus::Used);
        assert_eq!(status_at(&map, bg_start(g) + 1024 + 8 * 32), AllocStatus::Free);
    }
}

#[test]
fn metadata_csum_marks_only_verified_descriptors() {
    // One group, `metadata_csum` set: the descriptor slot is marked only
    // when its checksum verifies, and a bad group checksum skips the
    // group's payload.
    let mut image = vec![0u8; 64 * 1024];
    put16(&mut image, 1024 + 58, 1);
    put16(&mut image, 1024 + 60, 1);
    put32(&mut image, 1024 + 76, 1); // Dynamic
    put32(&mut image, 1024 + 4, 64);
    put32(&mut image, 1024 + 20, 1);
    put32(&mut image, 1024 + 32, 64);
    put32(&mut image, 1024 + 100, 0x400); // metadata_csum
    put16(&mut image, 1024 + 88, 128);

    // The group descriptor: bitmaps and inode table uninitialised, with a
    // valid checksum over (group number, first 32 descriptor bytes).
    let mut desc_raw = vec![0u8; 64];
    put16(&mut desc_raw, 18, 0x3);
    let desc = GroupDescriptor::decode(&desc_raw, 0);
    let seed = ext4_style_crc32c_le(0xffff_ffff, &[0u8; 16]); // uuid is all zero
    let c1 = ext4_style_crc32c_le(seed, &0u32.to_le_bytes());
    let c2 = ext4_style_crc32c_le(c1, &desc.encode()[..32]);
    let csum = (c2 & 0xffff) as u16;
    image[2048..2048 + 32].copy_from_slice(&desc_raw[..32]);
    put16(&mut image, 2048 + 30, csum);

    let map = run_scan(&image).unwrap();
    // Boot area, superblock and the verified descriptor slot are used.
    assert_eq!(status_at(&map, 0), AllocStatus::Used);
    assert_eq!(status_at(&map, 2048 + 31), AllocStatus::Used);
    assert_eq!(status_at(&map, 2048 + 32), AllocStatus::Free);

    // Break the stored checksum: the slot is no longer marked.
    put16(&mut image, 2048 + 30, csum.wrapping_add(1));
    let map = run_scan(&image).unwrap();
    assert_eq!(status_at(&map, 2048), AllocStatus::Free);
}

#[test]
fn inode_walk_marks_table_and_data() {
    // One group with a zeroed inode table and four inodes; inode 12 (the
    // first past the reserved slots) is an allocated regular file with one
    // direct data block.
    let mut image = vec![0u8; 64 * 1024];
    put16(&mut image, 1024 + 58, 1);
    put16(&mut image, 1024 + 60, 1);
    put32(&mut image, 1024 + 76, 1); // Dynamic
    put32(&mut image, 1024 + 4, 64);
    put32(&mut image, 1024 + 20, 1);
    put32(&mut image, 1024 + 32, 64);
    put32(&mut image, 1024 + 40, 16); // s_inodes_per_group
    put32(&mut image, 1024 + 84, 12); // s_first_ino
    put16(&mut image, 1024 + 88, 128); // s_inode_size

    // Descriptor: inode bitmap at block 4, block bitmap at block 3, inode
    // table at block 5; INODE_ZEROED.
    put32(&mut image, 2048 + 0, 3); // bg_block_bitmap_lo
    put32(&mut image, 2048 + 4, 4); // bg_inode_bitmap_lo
    put32(&mut image, 2048 + 8, 5); // bg_inode_table_lo
    put16(&mut image, 2048 + 18, 0x4); // INODE_ZEROED

    // Inode bitmap: bit 11 set (inode number 12).
    image[4 * 1024 + 1] = 0x08;

    // Inode 12 at table index 11: regular file, one block at block 20.
    let ino = 5 * 1024 + 11 * 128;
    put16(&mut image, ino + 0, 0x8000); // i_mode: regular
    put32(&mut image, ino + 4, 1024); // i_size_lo
    put32(&mut image, ino + 28, 2); // i_blocks_lo: one block in sectors
    put32(&mut image, ino + 40, 20); // i_block[0]

    let map = run_scan(&image).unwrap();

    // The inode bitmap block, block bitmap block, and inode table.
    assert_eq!(status_at(&map, 4 * 1024), AllocStatus::Used);
    assert_eq!(status_at(&map, 3 * 1024), AllocStatus::Used);
    assert_eq!(status_at(&map, 5 * 1024), AllocStatus::Used);
    assert_eq!(status_at(&map, 5 * 1024 + 16 * 128 - 1), AllocStatus::Used);
    assert_eq!(status_at(&map, 5 * 1024 + 16 * 128), AllocStatus::Free);
    // The file's data block.
    assert_eq!(status_at(&map, 20 * 1024), AllocStatus::Used);
    assert_eq!(status_at(&map, 21 * 1024 - 1), AllocStatus::Used);
    assert_eq!(status_at(&map, 21 * 1024), AllocStatus::Free);
    // An unrelated block stays free.
    assert_eq!(status_at(&map, 30 * 1024), AllocStatus::Free);
}

#[test]
fn partial_inode_table_is_refused() {
    // A group whose inode table is neither zeroed nor unused is rejected.
    let mut image = vec![0u8; 64 * 1024];
    put16(&mut image, 1024 + 58, 1);
    put16(&mut image, 1024 + 60, 1);
    put32(&mut image, 1024 + 4, 64);
    put32(&mut image, 1024 + 20, 1);
    put32(&mut image, 1024 + 32, 64);
    // bg_flags: only BLOCK_UNINIT; the inode table is in use but unzeroed.
    put16(&mut image, 2048 + 18, 0x2);

    assert_eq!(run_scan(&image).err(), Some(Error::PartialInodeTable(0)));
}

#[test]
fn unknown_bg_flags_are_refused() {
    let mut image = vec![0u8; 64 * 1024];
    put16(&mut image, 1024 + 58, 1);
    put16(&mut image, 1024 + 60, 1);
    put32(&mut image, 1024 + 4, 64);
    put32(&mut image, 1024 + 20, 1);
    put32(&mut image, 1024 + 32, 64);
    put16(&mut image, 2048 + 18, 0x13); // an undefined descriptor flag bit
    assert_eq!(run_scan(&image).err(), Some(Error::UnknownBgFlags(0)));
}
