use fsfill::Config;
use fsfill::Error;
use fsfill::e2fs::Fs;
use fsfill::e2fs::FsCreator;
use fsfill::e2fs::SuperBlock;
use fsfill::e2fs::get_and_check_fs_options;
use fsfill::e2fs::inode::Inode;
use fsfill::e2fs::inode::decode_osd2;
use fsfill::e2fs::inode::get_block_count;
use fsfill::e2fs::inode::scan_regular_iblock;
use fsfill::e2fs::process_drive;
use fsfill::usage_map::AllocStatus;
use fsfill::usage_map::UsageMap;

fn put16(buf: &mut [u8], off: usize, v: u16) {
    buf[off..off + 2].copy_from_slice(&v.to_le_bytes());
}

fn put32(buf: &mut [u8], off: usize, v: u32) {
    buf[off..off + 4].copy_from_slice(&v.to_le_bytes());
}

fn cfg() -> Config {
    Config { ignore_recovery: false, ignore_readonly: false }
}

fn status_at(map: &UsageMap, addr: u64) -> AllocStatus {
    for seg in &map.0 {
        if seg.start <= addr && addr < seg.end {
            return seg.status;
        }
    }
    panic!("address outside the map");
}

fn run_scan(image: &[u8]) -> Result<UsageMap, Error> {
    let read = move |off: u64, len: u64| -> Result<Vec<u8>, Error> {
        let off = off as usize;
        let len = len as usize;
        if off + len > image.len() {
            return Err(Error::Io);
        }
        Ok(image[off..off + len].to_vec())
    };
    process_drive(image.len() as u64, &cfg(), read)
}

#[test]
fn sparse_super2_dominates_sparse_super() {
    // With both backup features set, only the two groups named in
    // `s_backup_bgs` carry a copy — `sparse_super2` wins.
    let mut image = vec![0u8; 64 * 1024];
    put16(&mut image, 1024 + 58, 1);
    put16(&mut image, 1024 + 60, 1);
    put32(&mut image, 1024 + 76, 1); // Dynamic
    put32(&mut image, 1024 + 4, 64);
    put32(&mut image, 1024 + 20, 1);
    put32(&mut image, 1024 + 32, 8); // eight groups of eight blocks
    put32(&mut image, 1024 + 92, 0x0200); // s_feature_compat: sparse_super2
    put32(&mut image, 1024 + 100, 0x1); // s_feature_ro_compat: sparse_super
    put32(&mut image, 1024 + 588, 2); // s_backup_bgs[0]
    put32(&mut image, 1024 + 592, 4); // s_backup_bgs[1]
    put16(&mut image, 1024 + 88, 128);
    for g in 0..8usize {
        put16(&mut image, 2048 + 32 * g + 18, 0x3);
    }

    let map = run_scan(&image).unwrap();

    let bg_start = |g: u64| 1024 + g * 8 * 1024;
    // Group 0 is not in backup_bgs: even its own copy is skipped (though
    // the boot area and primary superblock are always used).
    assert_eq!(status_at(&map, 2048 + 8 * 32), AllocStatus::Free);
    // Backups only at groups 2 and 4, despite sparse_super naming 3 and 5.
    assert_eq!(status_at(&map, bg_start(2)), AllocStatus::Used);
    assert_eq!(status_at(&map, bg_start(4)), AllocStatus::Used);
    assert_eq!(status_at(&map, bg_start(3)), AllocStatus::Free);
    assert_eq!(status_at(&map, bg_start(5)), AllocStatus::Free);
    assert_eq!(status_at(&map, bg_start(6)), AllocStatus::Free);
    assert_eq!(status_at(&map, bg_start(7)), AllocStatus::Free);
}

#[test]
fn bit64_joins_block_count_halves() {
    let mut raw = vec![0u8; 1024];
    put16(&mut raw, 58, 1);
    put16(&mut raw, 60, 1);
    put32(&mut raw, 76, 1); // Dynamic
    put32(&mut raw, 96, 0x80); // s_feature_incompat: 64bit
    put32(&mut raw, 4, 0x10); // s_blocks_count_lo
    put32(&mut raw, 336, 0x2); // s_blocks_count_hi
    put32(&mut raw, 20, 1);
    put32(&mut raw, 32, 0x4000_0000); // s_blocks_per_group
    put16(&mut raw, 88, 256);
    let sb = SuperBlock::decode(&raw);
    let opts = get_and_check_fs_options(&sb, &cfg()).unwrap();
    let fs = Fs::new(&sb, &opts).unwrap();
    // blocks = (2 << 32) | 0x10; groups = ceil((blocks - 1) / 2^30) = 9.
    assert_eq!(fs.bg_count, 9);
}

fn plain_fs() -> Fs {
    let mut raw = vec![0u8; 1024];
    put16(&mut raw, 58, 1);
    put16(&mut raw, 60, 1);
    put32(&mut raw, 76, 1); // Dynamic
    put32(&mut raw, 4, 4000);
    put32(&mut raw, 20, 1);
    put32(&mut raw, 32, 4000);
    put16(&mut raw, 88, 128);
    let sb = SuperBlock::decode(&raw);
    let opts = get_and_check_fs_options(&sb, &cfg()).unwrap();
    Fs::new(&sb, &opts).unwrap()
}

#[test]
fn huge_file_flag_scales_by_block_size() {
    // With the inode's own huge_file flag, i_blocks counts whole blocks,
    // not 512-byte sectors.
    let fs = plain_fs();
    let mut iraw = vec![0u8; 160];
    put32(&mut iraw, 28, 30); // i_blocks_lo
    put32(&mut iraw, 32, 0x40000); // i_flags: huge_file
    let inode = Inode::decode(&iraw, 0);
    let osd2 = decode_osd2(&inode.osd2, fs.opts.fs_creator);
    assert_eq!(get_block_count(&inode, &osd2, &fs), Ok(30));
}

#[test]
fn huge_file_feature_joins_sector_halves() {
    // With the huge_file ro_compat feature, the Linux tail's high half
    // extends the sector count.
    let mut raw = vec![0u8; 1024];
    put16(&mut raw, 58, 1);
    put16(&mut raw, 60, 1);
    put32(&mut raw, 76, 1);
    put32(&mut raw, 4, 4000);
    put32(&mut raw, 20, 1);
    put32(&mut raw, 32, 4000);
    put32(&mut raw, 100, 0x8); // s_feature_ro_compat: huge_file
    put16(&mut raw, 88, 128);
    let sb = SuperBlock::decode(&raw);
    let opts = get_and_check_fs_options(&sb, &cfg()).unwrap();
    let fs = Fs::new(&sb, &opts).unwrap();

    let mut iraw = vec![0u8; 160];
    put32(&mut iraw, 28, 0); // i_blocks_lo
    put16(&mut iraw, 116, 2); // osd2: l_i_blocks_high
    let inode = Inode::decode(&iraw, 0);
    let osd2 = decode_osd2(&inode.osd2, fs.opts.fs_creator);
    // sectors = 2 << 32; blocks = sectors * 512 / 1024.
    assert_eq!(get_block_count(&inode, &osd2, &fs), Ok((2u64 << 32) * 512 / 1024));
}

#[test]
fn double_indirect_walk_descends_two_levels() {
    let fs = plain_fs();
    let mut iraw = vec![0u8; 160];
    put16(&mut iraw, 0, 0x8000); // regular
    put32(&mut iraw, 4, 14 * 1024); // fourteen blocks of data
    put32(&mut iraw, 28, 28); // 14 blocks in sectors
    for i in 0..12 {
        put32(&mut iraw, 40 + 4 * i, 100 + i as u32); // direct blocks
    }
    put32(&mut iraw, 40 + 52, 400); // i_block[13]: double indirect
    let inode = Inode::decode(&iraw, 0);
    let osd2 = decode_osd2(&inode.osd2, fs.opts.fs_creator);

    let mut image = vec![0u8; 4000 * 1024];
    put32(&mut image, 400 * 1024, 401); // double indirect -> indirect block
    put32(&mut image, 401 * 1024, 200); // indirect -> data block 200
    put32(&mut image, 401 * 1024 + 4, 201); // indirect -> data block 201
    let img = &image;
    let read = move |off: u64, len: u64| -> Result<Vec<u8>, Error> {
        Ok(img[off as usize..(off + len) as usize].to_vec())
    };

    let mut map = UsageMap::new(4000 * 1024);
    scan_regular_iblock(&mut map, &inode, &osd2, &fs, read).unwrap();

    for i in 0..12u64 {
        assert_eq!(status_at(&map, (100 + i) * 1024), AllocStatus::Used);
    }
    assert_eq!(status_at(&map, 200 * 1024), AllocStatus::Used);
    assert_eq!(status_at(&map, 201 * 1024), AllocStatus::Used);
    assert_eq!(status_at(&map, 202 * 1024), AllocStatus::Free);
    // The indirect table blocks themselves are not marked.
    assert_eq!(status_at(&map, 400 * 1024), AllocStatus::Free);
    assert_eq!(status_at(&map, 401 * 1024), AllocStatus::Free);
}

#[test]
fn creator_os_lites_is_recognized() {
    let mut raw = vec![0u8; 1024];
    put16(&mut raw, 58, 1);
    put16(&mut raw, 60, 1);
    put32(&mut raw, 72, 4); // s_creator_os: Lites
    put32(&mut raw, 76, 1);
    let sb = SuperBlock::decode(&raw);
    let opts = get_and_check_fs_options(&sb, &cfg()).unwrap();
    assert_eq!(opts.fs_creator, FsCreator::Lites);
}
