use fsfill::Config;
use fsfill::Error;
use fsfill::e2fs::Fs;
use fsfill::e2fs::SuperBlock;
use fsfill::e2fs::extent::ExtentTree;
use fsfill::e2fs::extent::ExtentTreeIterator;
use fsfill::e2fs::extent::Node;
use fsfill::e2fs::get_and_check_fs_options;
use fsfill::e2fs::inode::Inode;
use fsfill::e2fs::inode::InodeType;
use fsfill::e2fs::inode::Osd2;
use fsfill::e2fs::inode::classify_inode;
use fsfill::e2fs::inode::decode_osd2;
use fsfill::e2fs::inode::scan_regular_iblock;
use fsfill::usage_map::AllocStatus;
use fsfill::usage_map::UsageMap;

fn put16(buf: &mut [u8], off: usize, v: u16) {
    buf[off..off + 2].copy_from_slice(&v.to_le_bytes());
}

fn put32(buf: &mut [u8], off: usize, v: u32) {
    buf[off..off + 4].copy_from_slice(&v.to_le_bytes());
}

/// A filesystem with 1024-byte blocks, dynamic revision, no features.
fn test_fs() -> Fs {
    let mut raw = vec![0u8; 1024];
    put16(&mut raw, 58, 1); // s_state: valid
    put16(&mut raw, 60, 1); // s_errors: Continue
    put32(&mut raw, 76, 1); // s_rev_level: Dynamic
    put32(&mut raw, 4, 4000); // s_blocks_count_lo
    put32(&mut raw, 20, 1); // s_first_data_block
    put32(&mut raw, 32, 4000); // s_blocks_per_group
    put16(&mut raw, 88, 160); // s_inode_size
    let sb = SuperBlock::decode(&raw);
    let cfg = Config { ignore_recovery: false, ignore_readonly: false };
    let opts = get_and_check_fs_options(&sb, &cfg).unwrap();
    Fs::new(&sb, &opts).unwrap()
}

/// An inode whose extent tree has a depth-1 root with one index pointing at
/// a leaf node (at block 500) with three extents at logical blocks
/// {0, 10, 50}, lengths {5, 7, 3}, physical bases {1000, 2000, 3000}, and a
/// file size of 20 blocks.
fn synthetic_extent_inode() -> (Inode, Vec<u8>) {
    let mut iraw = vec![0u8; 160];
    put16(&mut iraw, 0, 0x8000); // i_mode: regular
    put32(&mut iraw, 4, 20 * 1024); // i_size_lo: 20 blocks
    put32(&mut iraw, 28, 30); // i_blocks_lo: 15 blocks in 512-byte sectors
    put32(&mut iraw, 32, 0x80000); // i_flags: extents
    // Root node in i_block: header (magic, 1 entry, max 4, depth 1) and one
    // index pointing at block 500.
    put16(&mut iraw, 40, 0xf30a);
    put16(&mut iraw, 42, 1);
    put16(&mut iraw, 44, 4);
    put16(&mut iraw, 46, 1);
    // index record at i_block offset 12: ei_block 0, ei_leaf_lo 500.
    put32(&mut iraw, 40 + 16, 500);
    let inode = Inode::decode(&iraw, 0);

    // The leaf node's block: header (3 entries, depth 0) and three extents.
    let mut leaf = vec![0u8; 1024];
    put16(&mut leaf, 0, 0xf30a);
    put16(&mut leaf, 2, 3);
    put16(&mut leaf, 4, 4);
    put16(&mut leaf, 6, 0);
    let extents: [(u32, u16, u32); 3] = [(0, 5, 1000), (10, 7, 2000), (50, 3, 3000)];
    for (i, (log, len, phys)) in extents.iter().enumerate() {
        let off = 12 + i * 12;
        put32(&mut leaf, off, *log);
        put16(&mut leaf, off + 4, *len);
        put32(&mut leaf, off + 8, *phys);
    }
    (inode, leaf)
}

fn image_with_leaf(leaf: &[u8]) -> Vec<u8> {
    let mut image = vec![0u8; 4000 * 1024];
    image[500 * 1024..500 * 1024 + leaf.len()].copy_from_slice(leaf);
    image
}

#[test]
fn extent_tree_builds_and_iterates() {
    let fs = test_fs();
    let (inode, leaf) = synthetic_extent_inode();
    let image = image_with_leaf(&leaf);
    let img = &image;
    let read = move |off: u64, len: u64| -> Result<Vec<u8>, Error> {
        Ok(img[off as usize..(off + len) as usize].to_vec())
    };

    let tree = ExtentTree::new(&inode, &fs, read).unwrap();
    let leaves = tree.leaves();
    assert_eq!(leaves.len(), 3);
    assert_eq!((leaves[0].ee_block, leaves[0].ee_len, leaves[0].ee_start_lo), (0, 5, 1000));
    assert_eq!((leaves[1].ee_block, leaves[1].ee_len, leaves[1].ee_start_lo), (10, 7, 2000));
    assert_eq!((leaves[2].ee_block, leaves[2].ee_len, leaves[2].ee_start_lo), (50, 3, 3000));

    let mut it = ExtentTreeIterator::new(&tree);
    assert_eq!(it.next().map(|e| e.ee_start_lo), Some(1000));
    assert_eq!(it.next().map(|e| e.ee_start_lo), Some(2000));
    assert_eq!(it.next().map(|e| e.ee_start_lo), Some(3000));
    assert!(it.next().is_none());
}

fn status_at(map: &UsageMap, addr: u64) -> AllocStatus {
    for seg in &map.0 {
        if seg.start <= addr && addr < seg.end {
            return seg.status;
        }
    }
    panic!("address outside the map");
}

#[test]
fn extent_scan_marks_clipped_ranges() {
    let fs = test_fs();
    let (inode, leaf) = synthetic_extent_inode();
    let image = image_with_leaf(&leaf);
    let img = &image;
    let read = move |off: u64, len: u64| -> Result<Vec<u8>, Error> {
        Ok(img[off as usize..(off + len) as usize].to_vec())
    };

    let osd2 = decode_osd2(&inode.osd2, fs.opts.fs_creator);
    let mut map = UsageMap::new(4000 * 1024);
    scan_regular_iblock(&mut map, &inode, &osd2, &fs, read).unwrap();

    let bs: u64 = 1024;
    // First leaf: 5 whole blocks.
    assert_eq!(status_at(&map, 1000 * bs), AllocStatus::Used);
    assert_eq!(status_at(&map, 1005 * bs - 1), AllocStatus::Used);
    assert_eq!(status_at(&map, 1005 * bs), AllocStatus::Free);
    // Second leaf: clipped to the 20-block file size, 10240 bytes remain.
    assert_eq!(status_at(&map, 2000 * bs), AllocStatus::Used);
    assert_eq!(status_at(&map, 2007 * bs - 1), AllocStatus::Used);
    assert_eq!(status_at(&map, 2007 * bs), AllocStatus::Free);
    // Third leaf starts past the file size: clipped away entirely.
    assert_eq!(status_at(&map, 3000 * bs), AllocStatus::Free);
    // The leaf node's own footprint: header + 3 records, and the tail.
    assert_eq!(status_at(&map, 500 * bs), AllocStatus::Used);
    assert_eq!(status_at(&map, 500 * bs + 47), AllocStatus::Used);
    assert_eq!(status_at(&map, 500 * bs + 48), AllocStatus::Free);
    assert_eq!(status_at(&map, 501 * bs - 4), AllocStatus::Used);
    assert_eq!(status_at(&map, 501 * bs - 5), AllocStatus::Free);
}

#[test]
fn node_from_raw_rejects_bad_magic() {
    let raw = vec![0u8; 60];
    assert!(matches!(Node::from_raw(&raw), Err(Error::BadExtentMagic)));
}

#[test]
fn node_from_raw_rejects_truncation() {
    let mut raw = vec![0u8; 60];
    put16(&mut raw, 0, 0xf30a);
    put16(&mut raw, 2, 100); // 100 records cannot fit 60 bytes
    assert!(matches!(Node::from_raw(&raw), Err(Error::TruncatedExtentNode)));
}

#[test]
fn classify_regular_file() {
    let mut iraw = vec![0u8; 160];
    put16(&mut iraw, 0, 0x8000);
    let inode = Inode::decode(&iraw, 0);
    assert_eq!(classify_inode(&inode, 20, 1, 11), Ok(Some(InodeType::Regular)));
}

#[test]
fn classify_journal_slot() {
    let mut iraw = vec![0u8; 160];
    put16(&mut iraw, 0, 0x8000);
    let inode = Inode::decode(&iraw, 0);
    // Inode 8 of group 0 is the reserved journal inode.
    assert_eq!(classify_inode(&inode, 7, 0, 11), Ok(Some(InodeType::Journal)));
}

#[test]
fn classify_skips_zeroed_reserved_slot() {
    let iraw = vec![0u8; 160];
    let inode = Inode::decode(&iraw, 0);
    assert_eq!(classify_inode(&inode, 3, 0, 11), Ok(None));
}

#[test]
fn classify_rejects_invalid_mode() {
    let iraw = vec![0u8; 160];
    let inode = Inode::decode(&iraw, 0);
    // Mode 0 outside the reserved slots of group 0 is invalid.
    assert_eq!(classify_inode(&inode, 20, 1, 11), Err(Error::InvalidInodeMode(20, 0)));
}

#[test]
fn classify_rejects_encrypted_inode() {
    let mut iraw = vec![0u8; 160];
    put16(&mut iraw, 0, 0x8000);
    put32(&mut iraw, 32, 0x800); // i_flags: encrypt
    let inode = Inode::decode(&iraw, 0);
    assert_eq!(classify_inode(&inode, 20, 1, 11), Err(Error::InodeEncrypted(20)));
}

#[test]
fn inode_decode_fields() {
    let mut iraw = vec![0u8; 160];
    put16(&mut iraw, 0, 0x81ed); // i_mode
    put32(&mut iraw, 4, 4096); // i_size_lo
    put32(&mut iraw, 28, 8); // i_blocks_lo
    put32(&mut iraw, 32, 0x80000); // i_flags
    put32(&mut iraw, 40, 77); // i_block[0]
    put32(&mut iraw, 40 + 56, 99); // i_block[14]
    put32(&mut iraw, 108, 1); // i_size_high
    let inode = Inode::decode(&iraw, 0);
    assert_eq!(inode.i_mode, 0x81ed);
    assert_eq!(inode.i_size_lo, 4096);
    assert_eq!(inode.i_blocks_lo, 8);
    assert_eq!(inode.i_flags, 0x80000);
    assert_eq!(inode.i_block[0], 77);
    assert_eq!(inode.i_block[14], 99);
    assert_eq!(inode.i_size_high, 1);
}

#[test]
fn indirect_walk_marks_data_blocks() {
    // A legacy (non-extent) file: two direct blocks and one single-indirect
    // block holding one more pointer.
    let fs = test_fs();
    let mut iraw = vec![0u8; 160];
    put16(&mut iraw, 0, 0x8000); // regular
    put32(&mut iraw, 4, 3 * 1024); // three blocks of data
    put32(&mut iraw, 28, 6); // i_blocks_lo: 3 blocks in sectors
    put32(&mut iraw, 40, 100); // direct block 0
    put32(&mut iraw, 44, 101); // direct block 1
    put32(&mut iraw, 40 + 48, 300); // i_block[12]: single indirect
    let inode = Inode::decode(&iraw, 0);
    let osd2 = decode_osd2(&inode.osd2, fs.opts.fs_creator);

    let mut image = vec![0u8; 4000 * 1024];
    put32(&mut image, 300 * 1024, 200); // the indirect block's first entry
    let img = &image;
    let read = move |off: u64, len: u64| -> Result<Vec<u8>, Error> {
        Ok(img[off as usize..(off + len) as usize].to_vec())
    };

    let mut map = UsageMap::new(4000 * 1024);
    scan_regular_iblock(&mut map, &inode, &osd2, &fs, read).unwrap();

    assert_eq!(status_at(&map, 100 * 1024), AllocStatus::Used);
    assert_eq!(status_at(&map, 101 * 1024), AllocStatus::Used);
    assert_eq!(status_at(&map, 102 * 1024), AllocStatus::Free);
    assert_eq!(status_at(&map, 200 * 1024), AllocStatus::Used);
    assert_eq!(status_at(&map, 201 * 1024), AllocStatus::Free);
    // The indirect block itself is not marked.
    assert_eq!(status_at(&map, 300 * 1024), AllocStatus::Free);
}

#[test]
fn block_count_scales_sectors() {
    let fs = test_fs();
    let mut iraw = vec![0u8; 160];
    put32(&mut iraw, 28, 30); // 30 sectors of 512 bytes = 15 blocks
    let inode = Inode::decode(&iraw, 0);
    let osd2 = decode_osd2(&inode.osd2, fs.opts.fs_creator);
    assert_eq!(fsfill::e2fs::inode::get_block_count(&inode, &osd2, &fs), Ok(15));
}

#[test]
fn block_count_rejects_inexact_division() {
    let fs = test_fs();
    let mut iraw = vec![0u8; 160];
    put32(&mut iraw, 28, 3); // 1536 bytes: not a whole 1024-byte block
    let inode = Inode::decode(&iraw, 0);
    let osd2 = decode_osd2(&inode.osd2, fs.opts.fs_creator);
    assert_eq!(
        fsfill::e2fs::inode::get_block_count(&inode, &osd2, &fs),
        Err(Error::InexactBlockCount(3))
    );
}

#[test]
fn osd2_variants_decode() {
    let mut raw = [0u8; 12];
    raw[0] = 5; // low half of the first 16-bit field
    raw[8] = 9;
    match decode_osd2(&raw, fsfill::e2fs::FsCreator::Linux) {
        Osd2::Linux(l) => {
            assert_eq!(l.l_i_blocks_high, 5);
            assert_eq!(l.l_i_checksum_lo, 9);
        },
        _ => panic!("expected the Linux tail"),
    }
    match decode_osd2(&raw, fsfill::e2fs::FsCreator::Hurd) {
        Osd2::Hurd(h) => {
            assert_eq!(h.h_i_reserved1, 5);
            assert_eq!(h.h_i_author, 9);
        },
        _ => panic!("expected the Hurd tail"),
    }
    match decode_osd2(&raw, fsfill::e2fs::FsCreator::Masix) {
        Osd2::Masix(m) => {
            assert_eq!(m.h_i_reserved1, 5);
            assert_eq!(m.m_i_reserved2[1], 9);
        },
        _ => panic!("expected the Masix tail"),
    }
}
