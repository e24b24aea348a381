//! Inode decoding, classification, and the per-inode block walks.
//!
//! An inode is classified from its mode nibble and flags; regular files (and
//! the special files routed through the same walker) contribute their data
//! blocks to the usage map, either through an extent tree or through the
//! legacy direct/indirect block pointers.

use crate::Error;
use crate::codec::byte_at;
use crate::codec::bytes_at;
use crate::codec::hilo16;
use crate::codec::hilo32;
use crate::codec::le16_at;
use crate::codec::le32_at;
use crate::codec::le32s_at;
use crate::codec::spec_le16_at;
use crate::codec::spec_le32_seq;
use crate::codec::spec_le32_at;
use crate::e2fs::Fs;
use crate::e2fs::FsCreator;
use crate::e2fs::block_size_of;
use crate::e2fs::fetch_regular_bg_descriptor;
use crate::e2fs::mark_used;
use crate::e2fs::extent;
use crate::reader_ok;
use crate::usage_map::UsageMap;
use crate::usage_map::lemma_marks_only_used_trans;
use crate::usage_map::marks_only_used;
use vstd::prelude::*;

verus! {

broadcast use vstd::slice::axiom_spec_len;

/// Number of block pointers in `i_block`.
pub const N_BLOCKS: usize = 15;

/// Size of the inode's fixed layout in bytes.
pub const INODE_STRUCT_SIZE: usize = 160;

/// Ext4 inode, fixed 160-byte layout.
#[derive(Clone, Copy, Debug, PartialEq, Eq)]
pub struct Inode {
    pub i_mode: u16,
    pub i_uid: u16,
    pub i_size_lo: u32,
    pub i_atime: u32,
    pub i_ctime: u32,
    pub i_mtime: u32,
    pub i_dtime: u32,
    pub i_gid: u16,
    pub i_links_count: u16,
    pub i_blocks_lo: u32,
    pub i_flags: u32,
    pub osd1: u32,
    pub i_block: [u32; 15],
    pub i_generation: u32,
    pub i_file_acl_lo: u32,
    pub i_size_high: u32,
    pub i_obso_faddr: u32,
    pub osd2: [u8; 12],
    pub i_extra_isize: u16,
    pub i_checksum_hi: u16,
    pub i_ctime_extra: u32,
    pub i_mtime_extra: u32,
    pub i_atime_extra: u32,
    pub i_crtime: u32,
    pub i_crtime_extra: u32,
    pub i_version_hi: u32,
    pub i_projid: u32,
}

/// The inode equals the fixed little-endian layout at byte offset `off` of
/// the buffer, field for field.
pub open spec fn spec_inode_matches(r: Inode, s: Seq<u8>, off: int) -> bool {
    &&& r.i_mode == spec_le16_at(s, off + 0)
    &&& r.i_uid == spec_le16_at(s, off + 2)
    &&& r.i_size_lo == spec_le32_at(s, off + 4)
    &&& r.i_atime == spec_le32_at(s, off + 8)
    &&& r.i_ctime == spec_le32_at(s, off + 12)
    &&& r.i_mtime == spec_le32_at(s, off + 16)
    &&& r.i_dtime == spec_le32_at(s, off + 20)
    &&& r.i_gid == spec_le16_at(s, off + 24)
    &&& r.i_links_count == spec_le16_at(s, off + 26)
    &&& r.i_blocks_lo == spec_le32_at(s, off + 28)
    &&& r.i_flags == spec_le32_at(s, off + 32)
    &&& r.osd1 == spec_le32_at(s, off + 36)
    &&& (forall|k: int| 0 <= k < 15 ==> r.i_block@[k] == spec_le32_at(s, off + 40 + 4 * k))
    &&& r.i_generation == spec_le32_at(s, off + 100)
    &&& r.i_file_acl_lo == spec_le32_at(s, off + 104)
    &&& r.i_size_high == spec_le32_at(s, off + 108)
    &&& r.i_obso_faddr == spec_le32_at(s, off + 112)
    &&& r.osd2@ == s.subrange(off + 116, off + 116 + 12)
    &&& r.i_extra_isize == spec_le16_at(s, off + 128)
    &&& r.i_checksum_hi == spec_le16_at(s, off + 130)
    &&& r.i_ctime_extra == spec_le32_at(s, off + 132)
    &&& r.i_mtime_extra == spec_le32_at(s, off + 136)
    &&& r.i_atime_extra == spec_le32_at(s, off + 140)
    &&& r.i_crtime == spec_le32_at(s, off + 144)
    &&& r.i_crtime_extra == spec_le32_at(s, off + 148)
    &&& r.i_version_hi == spec_le32_at(s, off + 152)
    &&& r.i_projid == spec_le32_at(s, off + 156)
}

impl Inode {
    /// Decodes the fixed little-endian inode layout at byte offset `off`.
    pub fn decode(buf: &[u8], off: usize) -> (r: Inode)
        requires
            off + INODE_STRUCT_SIZE <= buf@.len(),
        ensures
            spec_inode_matches(r, buf@, off as int),
    {
        let n = buf.len();
        assert(off + 160 <= n);
        Inode {
            i_mode: le16_at(buf, off + 0),
            i_uid: le16_at(buf, off + 2),
            i_size_lo: le32_at(buf, off + 4),
            i_atime: le32_at(buf, off + 8),
            i_ctime: le32_at(buf, off + 12),
            i_mtime: le32_at(buf, off + 16),
            i_dtime: le32_at(buf, off + 20),
            i_gid: le16_at(buf, off + 24),
            i_links_count: le16_at(buf, off + 26),
            i_blocks_lo: le32_at(buf, off + 28),
            i_flags: le32_at(buf, off + 32),
            osd1: le32_at(buf, off + 36),
            i_block: le32s_at::<15>(buf, off + 40),
            i_generation: le32_at(buf, off + 100),
            i_file_acl_lo: le32_at(buf, off + 104),
            i_size_high: le32_at(buf, off + 108),
            i_obso_faddr: le32_at(buf, off + 112),
            osd2: bytes_at::<12>(buf, off + 116),
            i_extra_isize: le16_at(buf, off + 128),
            i_checksum_hi: le16_at(buf, off + 130),
            i_ctime_extra: le32_at(buf, off + 132),
            i_mtime_extra: le32_at(buf, off + 136),
            i_atime_extra: le32_at(buf, off + 140),
            i_crtime: le32_at(buf, off + 144),
            i_crtime_extra: le32_at(buf, off + 148),
            i_version_hi: le32_at(buf, off + 152),
            i_projid: le32_at(buf, off + 156),
        }
    }
}

/// Linux variant of the OS-dependent inode tail.
#[derive(Clone, Copy, Debug, PartialEq, Eq, Structural)]
pub struct Osd2Linux {
    pub l_i_blocks_high: u16,
    pub l_i_file_acl_high: u16,
    pub l_i_uid_high: u16,
    pub l_i_gid_high: u16,
    pub l_i_checksum_lo: u16,
    pub l_i_reserved: u16,
}

/// Hurd variant of the OS-dependent inode tail.
#[derive(Clone, Copy, Debug, PartialEq, Eq, Structural)]
pub struct Osd2Hurd {
    pub h_i_reserved1: u16,
    pub h_i_mode_high: u16,
    pub h_i_uid_high: u16,
    pub h_i_gid_high: u16,
    pub h_i_author: u32,
}

/// Masix variant of the OS-dependent inode tail.
#[derive(Clone, Copy, Debug, PartialEq, Eq)]
pub struct Osd2Masix {
    pub h_i_reserved1: u16,
    pub m_i_file_acl_high: u16,
    pub m_i_reserved2: [u32; 2],
}

/// Decoded OS-dependent inode tail (`i_osd2`).
#[derive(Clone, Copy, Debug)]
pub enum Osd2 {
    Linux(Osd2Linux),
    Hurd(Osd2Hurd),
    Masix(Osd2Masix),
}

/// Decodes the 12-byte OS-dependent tail according to the creator OS.
/// Anything but Hurd and Masix reads the Linux layout.
pub fn decode_osd2(raw: &[u8; 12], creator: FsCreator) -> (r: Osd2)
    ensures
        matches!(creator, FsCreator::Hurd) ==> (r matches Osd2::Hurd(h) && h.h_i_reserved1
            == spec_le16_at(raw@, 0) && h.h_i_mode_high == spec_le16_at(raw@, 2) && h.h_i_uid_high
            == spec_le16_at(raw@, 4) && h.h_i_gid_high == spec_le16_at(raw@, 6) && h.h_i_author
            == spec_le32_at(raw@, 8)),
        matches!(creator, FsCreator::Masix) ==> (r matches Osd2::Masix(m) && m.h_i_reserved1
            == spec_le16_at(raw@, 0) && m.m_i_file_acl_high == spec_le16_at(raw@, 2)
            && m.m_i_reserved2@[0] == spec_le32_at(raw@, 4) && m.m_i_reserved2@[1] == spec_le32_at(
            raw@,
            8,
        )),
        !(matches!(creator, FsCreator::Hurd) || matches!(creator, FsCreator::Masix)) ==> (r matches
            Osd2::Linux(l) && l.l_i_blocks_high == spec_le16_at(raw@, 0) && l.l_i_file_acl_high
            == spec_le16_at(raw@, 2) && l.l_i_uid_high == spec_le16_at(raw@, 4) && l.l_i_gid_high
            == spec_le16_at(raw@, 6) && l.l_i_checksum_lo == spec_le16_at(raw@, 8)
            && l.l_i_reserved == spec_le16_at(raw@, 10)),
{
    let buf = raw.as_slice();
    match creator {
        FsCreator::Hurd => Osd2::Hurd(
            Osd2Hurd {
                h_i_reserved1: le16_at(buf, 0),
                h_i_mode_high: le16_at(buf, 2),
                h_i_uid_high: le16_at(buf, 4),
                h_i_gid_high: le16_at(buf, 6),
                h_i_author: le32_at(buf, 8),
            },
        ),
        FsCreator::Masix => Osd2::Masix(
            Osd2Masix {
                h_i_reserved1: le16_at(buf, 0),
                m_i_file_acl_high: le16_at(buf, 2),
                m_i_reserved2: le32s_at::<2>(buf, 4),
            },
        ),
        _ => Osd2::Linux(
            Osd2Linux {
                l_i_blocks_high: le16_at(buf, 0),
                l_i_file_acl_high: le16_at(buf, 2),
                l_i_uid_high: le16_at(buf, 4),
                l_i_gid_high: le16_at(buf, 6),
                l_i_checksum_lo: le16_at(buf, 8),
                l_i_reserved: le16_at(buf, 10),
            },
        ),
    }
}

/// Inode flags (`i_flags`).
#[derive(Copy, Clone, Debug, PartialEq, Eq, Structural)]
pub struct IFlags(pub u32);

impl IFlags {
    #[verifier::allow_in_spec]
    pub fn has_secrm(&self) -> bool
        returns (self.0 & 0x1 != 0),
    {
        self.0 & 0x1 != 0
    }

    #[verifier::allow_in_spec]
    pub fn has_unrm(&self) -> bool
        returns (self.0 & 0x2 != 0),
    {
        self.0 & 0x2 != 0
    }

    #[verifier::allow_in_spec]
    pub fn has_compr(&self) -> bool
        returns (self.0 & 0x4 != 0),
    {
        self.0 & 0x4 != 0
    }

    #[verifier::allow_in_spec]
    pub fn has_sync(&self) -> bool
        returns (self.0 & 0x8 != 0),
    {
        self.0 & 0x8 != 0
    }

    #[verifier::allow_in_spec]
    pub fn has_immutable(&self) -> bool
        returns (self.0 & 0x10 != 0),
    {
        self.0 & 0x10 != 0
    }

    #[verifier::allow_in_spec]
    pub fn has_append(&self) -> bool
        returns (self.0 & 0x20 != 0),
    {
        self.0 & 0x20 != 0
    }

    #[verifier::allow_in_spec]
    pub fn has_nodump(&self) -> bool
        returns (self.0 & 0x40 != 0),
    {
        self.0 & 0x40 != 0
    }

    #[verifier::allow_in_spec]
    pub fn has_noatime(&self) -> bool
        returns (self.0 & 0x80 != 0),
    {
        self.0 & 0x80 != 0
    }

    #[verifier::allow_in_spec]
    pub fn has_dirty(&self) -> bool
        returns (self.0 & 0x100 != 0),
    {
        self.0 & 0x100 != 0
    }

    #[verifier::allow_in_spec]
    pub fn has_comprblk(&self) -> bool
        returns (self.0 & 0x200 != 0),
    {
        self.0 & 0x200 != 0
    }

    #[verifier::allow_in_spec]
    pub fn has_nocompr(&self) -> bool
        returns (self.0 & 0x400 != 0),
    {
        self.0 & 0x400 != 0
    }

    #[verifier::allow_in_spec]
    pub fn has_encrypt(&self) -> bool
        returns (self.0 & 0x800 != 0),
    {
        self.0 & 0x800 != 0
    }

    #[verifier::allow_in_spec]
    pub fn has_index(&self) -> bool
        returns (self.0 & 0x1000 != 0),
    {
        self.0 & 0x1000 != 0
    }

    #[verifier::allow_in_spec]
    pub fn has_imagic(&self) -> bool
        returns (self.0 & 0x2000 != 0),
    {
        self.0 & 0x2000 != 0
    }

    #[verifier::allow_in_spec]
    pub fn has_journal_data(&self) -> bool
        returns (self.0 & 0x4000 != 0),
    {
        self.0 & 0x4000 != 0
    }

    #[verifier::allow_in_spec]
    pub fn has_notail(&self) -> bool
        returns (self.0 & 0x8000 != 0),
    {
        self.0 & 0x8000 != 0
    }

    #[verifier::allow_in_spec]
    pub fn has_dirsync(&self) -> bool
        returns (self.0 & 0x10000 != 0),
    {
        self.0 & 0x10000 != 0
    }

    #[verifier::allow_in_spec]
    pub fn has_topdir(&self) -> bool
        returns (self.0 & 0x20000 != 0),
    {
        self.0 & 0x20000 != 0
    }

    #[verifier::allow_in_spec]
    pub fn has_huge_file(&self) -> bool
        returns (self.0 & 0x40000 != 0),
    {
        self.0 & 0x40000 != 0
    }

    #[verifier::allow_in_spec]
    pub fn has_extents(&self) -> bool
        returns (self.0 & 0x80000 != 0),
    {
        self.0 & 0x80000 != 0
    }

    #[verifier::allow_in_spec]
    pub fn has_verity(&self) -> bool
        returns (self.0 & 0x100000 != 0),
    {
        self.0 & 0x100000 != 0
    }

    #[verifier::allow_in_spec]
    pub fn has_ea_inode(&self) -> bool
        returns (self.0 & 0x200000 != 0),
    {
        self.0 & 0x200000 != 0
    }

    #[verifier::allow_in_spec]
    pub fn has_eofblocks(&self) -> bool
        returns (self.0 & 0x400000 != 0),
    {
        self.0 & 0x400000 != 0
    }

    #[verifier::allow_in_spec]
    pub fn has_snapfile(&self) -> bool
        returns (self.0 & 0x1000000 != 0),
    {
        self.0 & 0x1000000 != 0
    }

    #[verifier::allow_in_spec]
    pub fn has_snapfile_deleted(&self) -> bool
        returns (self.0 & 0x4000000 != 0),
    {
        self.0 & 0x4000000 != 0
    }

    #[verifier::allow_in_spec]
    pub fn has_snapfile_shrunk(&self) -> bool
        returns (self.0 & 0x8000000 != 0),
    {
        self.0 & 0x8000000 != 0
    }

    #[verifier::allow_in_spec]
    pub fn has_inline_data(&self) -> bool
        returns (self.0 & 0x10000000 != 0),
    {
        self.0 & 0x10000000 != 0
    }

    #[verifier::allow_in_spec]
    pub fn has_projinherit(&self) -> bool
        returns (self.0 & 0x20000000 != 0),
    {
        self.0 & 0x20000000 != 0
    }

    #[verifier::allow_in_spec]
    pub fn has_reserved(&self) -> bool
        returns (self.0 & 0x80000000 != 0),
    {
        self.0 & 0x80000000 != 0
    }


    /// All bits that no known query covers.
    #[verifier::allow_in_spec]
    pub fn get_unknown(&self) -> u32
        returns ((self.0 & 0x800000) | (self.0 & 0x2000000) | (self.0 & 0x40000000)),
    {
        (self.0 & 0x800000) | (self.0 & 0x2000000) | (self.0 & 0x40000000)
    }

    #[verifier::allow_in_spec]
    pub fn has_unknown(&self) -> bool
        returns (((self.0 & 0x800000) | (self.0 & 0x2000000) | (self.0 & 0x40000000)) != 0),
    {
        self.get_unknown() != 0
    }
}
/// Inode mode (`i_mode`).
#[derive(Copy, Clone, Debug, PartialEq, Eq, Structural)]
pub struct IMode(pub u16);

impl IMode {
    #[verifier::allow_in_spec]
    pub fn has_ixoth(&self) -> bool
        returns (self.0 & 0x1 != 0),
    {
        self.0 & 0x1 != 0
    }

    #[verifier::allow_in_spec]
    pub fn has_iwoth(&self) -> bool
        returns (self.0 & 0x2 != 0),
    {
        self.0 & 0x2 != 0
    }

    #[verifier::allow_in_spec]
    pub fn has_iroth(&self) -> bool
        returns (self.0 & 0x4 != 0),
    {
        self.0 & 0x4 != 0
    }

    #[verifier::allow_in_spec]
    pub fn has_ixgrp(&self) -> bool
        returns (self.0 & 0x8 != 0),
    {
        self.0 & 0x8 != 0
    }

    #[verifier::allow_in_spec]
    pub fn has_iwgrp(&self) -> bool
        returns (self.0 & 0x10 != 0),
    {
        self.0 & 0x10 != 0
    }

    #[verifier::allow_in_spec]
    pub fn has_irgrp(&self) -> bool
        returns (self.0 & 0x20 != 0),
    {
        self.0 & 0x20 != 0
    }

    #[verifier::allow_in_spec]
    pub fn has_ixusr(&self) -> bool
        returns (self.0 & 0x40 != 0),
    {
        self.0 & 0x40 != 0
    }

    #[verifier::allow_in_spec]
    pub fn has_iwusr(&self) -> bool
        returns (self.0 & 0x80 != 0),
    {
        self.0 & 0x80 != 0
    }

    #[verifier::allow_in_spec]
    pub fn has_irusr(&self) -> bool
        returns (self.0 & 0x100 != 0),
    {
        self.0 & 0x100 != 0
    }

    #[verifier::allow_in_spec]
    pub fn has_isvtx(&self) -> bool
        returns (self.0 & 0x200 != 0),
    {
        self.0 & 0x200 != 0
    }

    #[verifier::allow_in_spec]
    pub fn has_isgid(&self) -> bool
        returns (self.0 & 0x400 != 0),
    {
        self.0 & 0x400 != 0
    }

    #[verifier::allow_in_spec]
    pub fn has_isuid(&self) -> bool
        returns (self.0 & 0x800 != 0),
    {
        self.0 & 0x800 != 0
    }

    #[verifier::allow_in_spec]
    pub fn has_ififo(&self) -> bool
        returns (self.0 & 0x1000 != 0),
    {
        self.0 & 0x1000 != 0
    }

    #[verifier::allow_in_spec]
    pub fn has_ifchr(&self) -> bool
        returns (self.0 & 0x2000 != 0),
    {
        self.0 & 0x2000 != 0
    }

    #[verifier::allow_in_spec]
    pub fn has_ifdir(&self) -> bool
        returns (self.0 & 0x4000 != 0),
    {
        self.0 & 0x4000 != 0
    }

    #[verifier::allow_in_spec]
    pub fn has_ifreg(&self) -> bool
        returns (self.0 & 0x8000 != 0),
    {
        self.0 & 0x8000 != 0
    }

    #[verifier::allow_in_spec]
    pub fn has_ifblk(&self) -> bool
        returns (self.0 & 0x2000 != 0 && self.0 & 0x4000 != 0),
    {
        self.has_ifchr() && self.has_ifdir()
    }

    #[verifier::allow_in_spec]
    pub fn has_iflnk(&self) -> bool
        returns (self.0 & 0x2000 != 0 && self.0 & 0x8000 != 0),
    {
        self.has_ifchr() && self.has_ifreg()
    }

    #[verifier::allow_in_spec]
    pub fn has_ifsock(&self) -> bool
        returns (self.0 & 0x4000 != 0 && self.0 & 0x8000 != 0),
    {
        self.has_ifdir() && self.has_ifreg()
    }

    /// All bits that no known query covers.
    #[verifier::allow_in_spec]
    pub fn get_unknown(&self) -> u16
        returns (0u16),
    {
        0u16
    }

    #[verifier::allow_in_spec]
    pub fn has_unknown(&self) -> bool
        returns ((0u16) != 0),
    {
        self.get_unknown() != 0
    }
}

/// Ext2 file types, plus the reserved-journal and extended-attribute kinds.
#[derive(Clone, Copy, Debug, PartialEq, Eq, Structural)]
pub enum InodeType {
    Fifo,
    Character,
    Directory,
    Block,
    Regular,
    SymLink,
    Socket,
    Ea,
    Journal,
}

/// The classification of an inode with the given flag and mode words at
/// index `idx` of group `bg_num`: `Ok(Some(t))` dispatches to a walker,
/// `Ok(None)` skips a zeroed reserved slot, and `Err` rejects a flag or
/// mode the scan does not support.
pub open spec fn spec_classify_fields(
    flags: u32,
    mode: u16,
    idx: u64,
    bg_num: u64,
    first_ino: u32,
) -> Result<Option<InodeType>, Error> {
    let fl = IFlags(flags);
    let m = IMode(mode);
    if fl.has_unknown() {
        Err(Error::UnknownInodeFlags(idx))
    } else if fl.has_encrypt() {
        Err(Error::InodeEncrypted(idx))
    } else if fl.has_imagic() {
        Err(Error::UnsupportedInodeImagic(idx))
    } else if fl.has_snapfile() {
        Err(Error::UnsupportedInodeSnapfile(idx))
    } else if fl.has_snapfile_shrunk() {
        Err(Error::UnsupportedInodeSnapfileShrunk(idx))
    } else if fl.has_snapfile_deleted() {
        Err(Error::UnsupportedInodeSnapfileDeleted(idx))
    } else if fl.has_compr() {
        Err(Error::UnsupportedInodeCompression(idx))
    } else if fl.has_comprblk() {
        Err(Error::UnsupportedInodeComprBlk(idx))
    } else if bg_num == 0 && idx + 1 == 8 {
        Ok(Some(InodeType::Journal))
    } else if fl.has_ea_inode() {
        Ok(Some(InodeType::Ea))
    } else if m.has_ifsock() {
        Ok(Some(InodeType::Socket))
    } else if m.has_iflnk() {
        Ok(Some(InodeType::SymLink))
    } else if m.has_ifblk() {
        Ok(Some(InodeType::Block))
    } else if m.has_ifreg() {
        Ok(Some(InodeType::Regular))
    } else if m.has_ifdir() {
        Ok(Some(InodeType::Directory))
    } else if m.has_ifchr() {
        Ok(Some(InodeType::Character))
    } else if m.has_ififo() {
        Ok(Some(InodeType::Fifo))
    } else if bg_num == 0 && mode == 0 && idx + 1 < first_ino {
        Ok(None)
    } else {
        Err(Error::InvalidInodeMode(idx, mode & 0xf000))
    }
}

/// The classification of a whole decoded inode.
pub open spec fn spec_classify_inode(
    inode: Inode,
    idx: u64,
    bg_num: u64,
    first_ino: u32,
) -> Result<Option<InodeType>, Error> {
    spec_classify_fields(inode.i_flags, inode.i_mode, idx, bg_num, first_ino)
}

/// The classification of the inode encoded at byte offset `off` of an inode
/// table, read off its mode and flag fields.
pub open spec fn spec_classify_at(
    s: Seq<u8>,
    off: int,
    idx: u64,
    bg_num: u64,
    first_ino: u32,
) -> Result<Option<InodeType>, Error> {
    spec_classify_fields(spec_le32_at(s, off + 32), spec_le16_at(s, off + 0), idx, bg_num, first_ino)
}

/// Classifies an inode by its flags and mode nibble, with the reserved
/// journal slot and zeroed reserved slots of group 0 handled first.
pub fn classify_inode(inode: &Inode, idx: u64, bg_num: u64, first_ino: u32) -> (r: Result<
    Option<InodeType>,
    Error,
>)
    requires
        idx < 0xffff_ffff,
    ensures
        r == spec_classify_inode(*inode, idx, bg_num, first_ino),
{
    let fl = IFlags(inode.i_flags);
    let m = IMode(inode.i_mode);
    if fl.has_unknown() {
        Err(Error::UnknownInodeFlags(idx))
    } else if fl.has_encrypt() {
        Err(Error::InodeEncrypted(idx))
    } else if fl.has_imagic() {
        Err(Error::UnsupportedInodeImagic(idx))
    } else if fl.has_snapfile() {
        Err(Error::UnsupportedInodeSnapfile(idx))
    } else if fl.has_snapfile_shrunk() {
        Err(Error::UnsupportedInodeSnapfileShrunk(idx))
    } else if fl.has_snapfile_deleted() {
        Err(Error::UnsupportedInodeSnapfileDeleted(idx))
    } else if fl.has_compr() {
        Err(Error::UnsupportedInodeCompression(idx))
    } else if fl.has_comprblk() {
        Err(Error::UnsupportedInodeComprBlk(idx))
    } else if bg_num == 0 && idx + 1 == 8 {
        Ok(Some(InodeType::Journal))
    } else if fl.has_ea_inode() {
        Ok(Some(InodeType::Ea))
    } else if m.has_ifsock() {
        Ok(Some(InodeType::Socket))
    } else if m.has_iflnk() {
        Ok(Some(InodeType::SymLink))
    } else if m.has_ifblk() {
        Ok(Some(InodeType::Block))
    } else if m.has_ifreg() {
        Ok(Some(InodeType::Regular))
    } else if m.has_ifdir() {
        Ok(Some(InodeType::Directory))
    } else if m.has_ifchr() {
        Ok(Some(InodeType::Character))
    } else if m.has_ififo() {
        Ok(Some(InodeType::Fifo))
    } else if bg_num == 0 && inode.i_mode == 0 && idx + 1 < first_ino as u64 {
        Ok(None)
    } else {
        Err(Error::InvalidInodeMode(idx, inode.i_mode & 0xf000))
    }
}

/// The inode's data extent in 512-byte sectors, or in blocks when the
/// inode's own `huge_file` flag switches the unit, before the division by
/// the filesystem block size.
pub open spec fn spec_block_sectors(inode: Inode, osd2: Osd2, fs: Fs) -> int {
    let base: int = if fs.opts.dyn_cfg is Some
        && fs.opts.dyn_cfg->Some_0.ro_compat.has_huge_file() && osd2 is Linux {
        hilo16(osd2->Linux_0.l_i_blocks_high, inode.i_blocks_lo) as int
    } else {
        inode.i_blocks_lo as int
    };
    base * (if IFlags(inode.i_flags).has_huge_file() {
        fs.spec_bs() as int
    } else {
        512
    })
}

/// Returns the number of filesystem blocks occupied by the inode's data:
/// the scaled sector count divided by the block size, which must divide it
/// exactly.
pub fn get_block_count(inode: &Inode, osd2: &Osd2, fs: &Fs) -> (r: Result<u64, Error>)
    requires
        fs.inv(),
    ensures
        r is Ok <==> (spec_block_sectors(*inode, *osd2, *fs) <= u64::MAX && spec_block_sectors(
            *inode,
            *osd2,
            *fs,
        ) % (fs.spec_bs() as int) == 0),
        r is Ok ==> r->Ok_0 == spec_block_sectors(*inode, *osd2, *fs) / (fs.spec_bs() as int),
        r is Err ==> (r->Err_0 == Error::Overflow || r->Err_0 matches Error::InexactBlockCount(_)),
{
    let i_flags = IFlags(inode.i_flags);
    let bs = block_size_of(fs.sb.s_log_block_size);

    let mut base: u64 = inode.i_blocks_lo as u64;
    match fs.opts.dyn_cfg {
        Some(dyn_cfg) => {
            if dyn_cfg.ro_compat.has_huge_file() {
                match osd2 {
                    Osd2::Linux(l) => {
                        base = hilo16(l.l_i_blocks_high, inode.i_blocks_lo);
                    },
                    _ => {},
                }
            }
        },
        None => {},
    }

    let unit: u64 = if i_flags.has_huge_file() {
        bs
    } else {
        512
    };
    let scaled = match base.checked_mul(unit) {
        Some(v) => v,
        None => {
            return Err(Error::Overflow);
        },
    };
    if scaled % bs != 0 {
        return Err(Error::InexactBlockCount(base));
    }
    Ok(scaled / bs)
}

/// The per-inode stride for inode-table buffers: at least the full 160-byte
/// layout, to keep decoding in bounds.
#[verifier::allow_in_spec]
pub fn alloc_inode_size(inode_size: u64) -> u64
    returns (if inode_size > 160 { inode_size } else { 160u64 }),
{
    if inode_size > 160 {
        inode_size
    } else {
        160
    }
}

/// Byte address of a group's inode table, from its cached descriptor.
pub open spec fn spec_itable_addr(fs: Fs, bg_num: u64) -> int {
    crate::e2fs::spec_block_addr(
        fs,
        crate::e2fs::spec_bg_desc(fs, bg_num).bg_inode_table_hi,
        crate::e2fs::spec_bg_desc(fs, bg_num).bg_inode_table_lo,
    )
}

/// Reads a group's raw inode table from the drive; a successful read has one
/// stride per inode of the group.
pub fn read_itable<F: Fn(u64, u64) -> Result<Vec<u8>, Error> + Copy>(
    bg_num: u64,
    fs: &Fs,
    read: F,
) -> (r: Result<Vec<u8>, Error>)
    requires
        fs.inv(),
        fs.desc_table_ok(),
        bg_num < fs.bg_count,
        reader_ok(read),
    ensures
        r is Ok ==> r->Ok_0@.len() == fs.sb.s_inodes_per_group * alloc_inode_size(fs.inode_size),
        !(spec_itable_addr(*fs, bg_num) <= u64::MAX && fs.sb.s_inodes_per_group
            * alloc_inode_size(fs.inode_size) <= u64::MAX) ==> r == Err::<Vec<u8>, Error>(
            Error::Overflow,
        ),
        (spec_itable_addr(*fs, bg_num) <= u64::MAX && fs.sb.s_inodes_per_group * alloc_inode_size(
            fs.inode_size,
        ) <= u64::MAX) ==> call_ensures(
            read,
            (
                (spec_itable_addr(*fs, bg_num) as u64),
                ((fs.sb.s_inodes_per_group * alloc_inode_size(fs.inode_size)) as u64),
            ),
            r,
        ),
{
    let desc = fetch_regular_bg_descriptor(bg_num, fs);
    let inode_table_block = if fs.opts.bit64_cfg.is_some() {
        hilo32(desc.bg_inode_table_hi, desc.bg_inode_table_lo)
    } else {
        desc.bg_inode_table_lo as u64
    };
    let bs = block_size_of(fs.sb.s_log_block_size);
    let offset = match inode_table_block.checked_mul(bs) {
        Some(v) => v,
        None => {
            return Err(Error::Overflow);
        },
    };
    let len = match (fs.sb.s_inodes_per_group as u64).checked_mul(alloc_inode_size(fs.inode_size)) {
        Some(v) => v,
        None => {
            return Err(Error::Overflow);
        },
    };
    read(offset, len)
}

/// Fetches an inode by its number, reading the owning group's inode table.
pub fn fetch_inode<F: Fn(u64, u64) -> Result<Vec<u8>, Error> + Copy>(
    inum: u64,
    fs: &Fs,
    read: F,
) -> (r: Result<Inode, Error>)
    requires
        fs.inv(),
        fs.desc_table_ok(),
        inum >= 1,
        reader_ok(read),
    ensures
        fs.sb.s_inodes_per_group == 0 ==> r == Err::<Inode, Error>(Error::InvalidGeometry),
        r is Ok ==> (exists|tb: Vec<u8>|
            {
                &&& #[trigger] call_ensures(
                    read,
                    (
                        (spec_itable_addr(
                            *fs,
                            (((inum - 1) / (fs.sb.s_inodes_per_group as int)) as u64),
                        ) as u64),
                        ((fs.sb.s_inodes_per_group * alloc_inode_size(fs.inode_size)) as u64),
                    ),
                    Ok::<Vec<u8>, Error>(tb),
                )
                &&& spec_inode_matches(
                    r->Ok_0,
                    tb@,
                    ((inum - 1) % (fs.sb.s_inodes_per_group as int)) * (fs.inode_size as int),
                )
            }),
{
    if fs.sb.s_inodes_per_group == 0 {
        return Err(Error::InvalidGeometry);
    }
    let bg_num = (inum - 1) / fs.sb.s_inodes_per_group as u64;
    let idx = (inum - 1) % fs.sb.s_inodes_per_group as u64;
    if bg_num >= fs.bg_count {
        return Err(Error::InvalidGeometry);
    }
    let itable = read_itable(bg_num, fs, read)?;
    let off = match idx.checked_mul(fs.inode_size) {
        Some(v) => v,
        None => {
            return Err(Error::Overflow);
        },
    };
    let tlen = itable.len();
    if off > u64::MAX - 160 || off + 160 > tlen as u64 {
        return Err(Error::InvalidGeometry);
    }
    Ok(Inode::decode(itable.as_slice(), off as usize))
}



/// The logical cursor after the first `i` block pointers: each nonzero
/// pointer taken while the cursor is below the block count and the file
/// size advances it by one; zero pointers are holes and advance nothing.
pub open spec fn spec_ptr_cursor(
    ps: Seq<u32>,
    i: int,
    c: int,
    blocks: int,
    fsize: int,
    bs: int,
) -> int
    decreases i,
{
    if i <= 0 {
        c
    } else {
        let c0 = spec_ptr_cursor(ps, i - 1, c, blocks, fsize, bs);
        if c0 < blocks && c0 * bs < fsize && ps[i - 1] != 0 {
            c0 + 1
        } else {
            c0
        }
    }
}

/// Pointer `k` contributes address `a`: at its turn the cursor is still in
/// range, the pointer is nonzero, and `a` lies in its block clipped to the
/// file size.
pub open spec fn spec_ptr_marks(
    ps: Seq<u32>,
    c: int,
    blocks: int,
    fsize: int,
    bs: int,
    k: int,
    a: u64,
) -> bool {
    let ck = spec_ptr_cursor(ps, k, c, blocks, fsize, bs);
    let len = if fsize - ck * bs < bs {
        fsize - ck * bs
    } else {
        bs
    };
    &&& 0 <= k < ps.len()
    &&& ck < blocks
    &&& ck * bs < fsize
    &&& ps[k] != 0
    &&& (ps[k] as int) * bs <= a < (ps[k] as int) * bs + len
}

/// Some pointer of the sequence contributes address `a`.
pub open spec fn spec_ptrs_mark(
    ps: Seq<u32>,
    c: int,
    blocks: int,
    fsize: int,
    bs: int,
    a: u64,
) -> bool {
    exists|k: int| #[trigger] spec_ptr_marks(ps, c, blocks, fsize, bs, k, a)
}

/// Pointer `k` can be handled: its byte products fit the address space and,
/// when nonzero and in range, its block starts on the drive.
pub open spec fn spec_ptr_ok(
    ps: Seq<u32>,
    c: int,
    blocks: int,
    fsize: int,
    bs: int,
    msize: u64,
    k: int,
) -> bool {
    let ck = spec_ptr_cursor(ps, k, c, blocks, fsize, bs);
    ck < blocks ==> (ck * bs <= u64::MAX && (ck * bs < fsize ==> ((ps[k] as int) * bs <= u64::MAX
        && (ps[k] != 0 ==> (ps[k] as int) * bs <= msize))))
}

/// The cursor never moves backwards.
proof fn lemma_ptr_cursor_grows(ps: Seq<u32>, i: int, j: int, c: int, blocks: int, fsize: int, bs: int)
    requires
        0 <= i <= j,
    ensures
        spec_ptr_cursor(ps, i, c, blocks, fsize, bs) <= spec_ptr_cursor(ps, j, c, blocks, fsize, bs),
    decreases j - i,
{
    if i < j {
        lemma_ptr_cursor_grows(ps, i, j - 1, c, blocks, fsize, bs);
    }
}

/// Once the cursor leaves its range it stays put, and later pointers
/// contribute nothing.
proof fn lemma_ptr_cursor_stuck(ps: Seq<u32>, i: int, j: int, c: int, blocks: int, fsize: int, bs: int)
    requires
        0 <= i <= j,
        !(spec_ptr_cursor(ps, i, c, blocks, fsize, bs) < blocks && spec_ptr_cursor(
            ps,
            i,
            c,
            blocks,
            fsize,
            bs,
        ) * bs < fsize),
    ensures
        spec_ptr_cursor(ps, j, c, blocks, fsize, bs) == spec_ptr_cursor(ps, i, c, blocks, fsize, bs),
    decreases j - i,
{
    if i < j {
        lemma_ptr_cursor_stuck(ps, i, j - 1, c, blocks, fsize, bs);
    }
}

/// Walks a sequence of block pointers: each nonzero pointer marks its block
/// on the drive, clipped to the file size, and advances the logical cursor;
/// the walk stops at the block count or the file size.  On success the
/// marked set and the final cursor are pinned exactly.
#[verifier::loop_isolation(false)]
pub fn mark_block_pointers(
    map: &mut UsageMap,
    block_head: &mut u64,
    ptrs: &Vec<u32>,
    blocks: u64,
    file_size: u64,
    bs: u64,
) -> (r: Result<(), Error>)
    requires
        old(map).inv(),
        bs >= 1024,
    ensures
        final(map).inv(),
        marks_only_used(*old(map), *final(map)),
        r is Ok <==> (forall|k: int|
            0 <= k < ptrs@.len() ==> #[trigger] spec_ptr_ok(
                ptrs@,
                *old(block_head) as int,
                blocks as int,
                file_size as int,
                bs as int,
                old(map).spec_size(),
                k,
            )),
        r is Err ==> (r->Err_0 == Error::Overflow || r->Err_0 == Error::AddressBeyondDrive),
        r is Ok ==> *final(block_head) == spec_ptr_cursor(
            ptrs@,
            ptrs@.len() as int,
            *old(block_head) as int,
            blocks as int,
            file_size as int,
            bs as int,
        ),
        r is Ok ==> forall|a: u64|
            a < old(map).spec_size() ==> #[trigger] final(map).status_at(a) == (
            if spec_ptrs_mark(
                ptrs@,
                *old(block_head) as int,
                blocks as int,
                file_size as int,
                bs as int,
                a,
            ) {
                crate::usage_map::AllocStatus::Used
            } else {
                old(map).status_at(a)
            }),
{
    let ghost m0 = *map;
    let ghost c0 = *old(block_head) as int;
    let count = ptrs.len();
    let mut i: usize = 0;
    let mut done: bool = false;
    while i < count && !done
        invariant
            0 <= i <= count,
            map.inv(),
            marks_only_used(m0, *map),
            *block_head as int == spec_ptr_cursor(
                ptrs@,
                i as int,
                c0,
                blocks as int,
                file_size as int,
                bs as int,
            ),
            done ==> (*block_head >= blocks || ((*block_head as int) * (bs as int) <= u64::MAX
                && (*block_head as int) * (bs as int) >= file_size as int)),
            forall|k: int|
                0 <= k < i ==> #[trigger] spec_ptr_ok(
                    ptrs@,
                    c0,
                    blocks as int,
                    file_size as int,
                    bs as int,
                    m0.spec_size(),
                    k,
                ),
            forall|a: u64|
                a < m0.spec_size() ==> #[trigger] map.status_at(a) == (if (exists|k: int|
                    0 <= k < i && #[trigger] spec_ptr_marks(
                        ptrs@,
                        c0,
                        blocks as int,
                        file_size as int,
                        bs as int,
                        k,
                        a,
                    )) {
                    crate::usage_map::AllocStatus::Used
                } else {
                    m0.status_at(a)
                }),
        decreases count - i,
    {
        let ghost pre_head = *block_head as int;
        if *block_head >= blocks {
            done = true;
        } else {
            // Position within the file.
            let log_start = match (*block_head).checked_mul(bs) {
                Some(v) => v,
                None => {
                    proof {
                        assert(!spec_ptr_ok(
                            ptrs@,
                            c0,
                            blocks as int,
                            file_size as int,
                            bs as int,
                            m0.spec_size(),
                            i as int,
                        ));
                    }
                    return Err(Error::Overflow);
                },
            };
            if log_start >= file_size {
                done = true;
            } else {
                let len = if file_size - log_start < bs {
                    file_size - log_start
                } else {
                    bs
                };
                // Position on the disk; null pointers are holes.
                let start = match (ptrs[i] as u64).checked_mul(bs) {
                    Some(v) => v,
                    None => {
                        proof {
                            assert(!spec_ptr_ok(
                                ptrs@,
                                c0,
                                blocks as int,
                                file_size as int,
                                bs as int,
                                m0.spec_size(),
                                i as int,
                            ));
                        }
                        return Err(Error::Overflow);
                    },
                };
                if start != 0 {
                    let ghost mp = *map;
                    match mark_used(map, start, len) {
                        Ok(_) => {},
                        Err(e) => {
                            proof {
                                assert(!spec_ptr_ok(
                                    ptrs@,
                                    c0,
                                    blocks as int,
                                    file_size as int,
                                    bs as int,
                                    m0.spec_size(),
                                    i as int,
                                ));
                            }
                            return Err(e);
                        },
                    }
                    proof {
                        lemma_marks_only_used_trans(m0, mp, *map);
                    }
                    *block_head = *block_head + 1;
                } else {
                    proof {
                        assert((ptrs@[i as int] as int) * (bs as int) == 0);
                        assert(ptrs@[i as int] == 0) by (nonlinear_arith)
                            requires
                                (ptrs@[i as int] as int) * (bs as int) == 0,
                                bs as int >= 1024,
                        ;
                    }
                }
            }
        }
        proof {
            assert(*block_head as int == spec_ptr_cursor(
                ptrs@,
                i + 1,
                c0,
                blocks as int,
                file_size as int,
                bs as int,
            ));
            assert forall|a: u64| a < m0.spec_size() implies #[trigger] map.status_at(a) == (
            if (exists|k: int|
                0 <= k < i + 1 && #[trigger] spec_ptr_marks(
                    ptrs@,
                    c0,
                    blocks as int,
                    file_size as int,
                    bs as int,
                    k,
                    a,
                )) {
                crate::usage_map::AllocStatus::Used
            } else {
                m0.status_at(a)
            }) by {
                if exists|k: int|
                    0 <= k < i + 1 && #[trigger] spec_ptr_marks(
                        ptrs@,
                        c0,
                        blocks as int,
                        file_size as int,
                        bs as int,
                        k,
                        a,
                    ) {
                    let k = choose|k: int|
                        0 <= k < i + 1 && #[trigger] spec_ptr_marks(
                            ptrs@,
                            c0,
                            blocks as int,
                            file_size as int,
                            bs as int,
                            k,
                            a,
                        );
                    if k < i {
                        assert(map.status_at(a) == crate::usage_map::AllocStatus::Used);
                    } else {
                        assert(map.status_at(a) == crate::usage_map::AllocStatus::Used);
                    }
                } else {
                    assert(!(exists|k: int|
                        0 <= k < i && #[trigger] spec_ptr_marks(
                            ptrs@,
                            c0,
                            blocks as int,
                            file_size as int,
                            bs as int,
                            k,
                            a,
                        )));
                    assert(!spec_ptr_marks(
                        ptrs@,
                        c0,
                        blocks as int,
                        file_size as int,
                        bs as int,
                        i as int,
                        a,
                    ));
                    assert(map.status_at(a) == m0.status_at(a));
                }
            }
        }
        i = i + 1;
    }
    proof {
        if i < count {
            lemma_ptr_cursor_stuck(
                ptrs@,
                i as int,
                count as int,
                c0,
                blocks as int,
                file_size as int,
                bs as int,
            );
            assert forall|k: int|
                0 <= k < count implies #[trigger] spec_ptr_ok(
                ptrs@,
                c0,
                blocks as int,
                file_size as int,
                bs as int,
                m0.spec_size(),
                k,
            ) by {
                if k >= i {
                    lemma_ptr_cursor_stuck(
                        ptrs@,
                        i as int,
                        k,
                        c0,
                        blocks as int,
                        file_size as int,
                        bs as int,
                    );
                }
            }
            assert forall|a: u64| a < m0.spec_size() implies #[trigger] map.status_at(a) == (
            if spec_ptrs_mark(ptrs@, c0, blocks as int, file_size as int, bs as int, a) {
                crate::usage_map::AllocStatus::Used
            } else {
                m0.status_at(a)
            }) by {
                if spec_ptrs_mark(ptrs@, c0, blocks as int, file_size as int, bs as int, a) {
                    let k = choose|k: int| #[trigger] spec_ptr_marks(
                        ptrs@,
                        c0,
                        blocks as int,
                        file_size as int,
                        bs as int,
                        k,
                        a,
                    );
                    if k >= i {
                        lemma_ptr_cursor_stuck(
                            ptrs@,
                            i as int,
                            k,
                            c0,
                            blocks as int,
                            file_size as int,
                            bs as int,
                        );
                        assert(false);
                    }
                    assert(exists|k: int|
                        0 <= k < i && #[trigger] spec_ptr_marks(
                            ptrs@,
                            c0,
                            blocks as int,
                            file_size as int,
                            bs as int,
                            k,
                            a,
                        ));
                } else {
                    assert(!(exists|k: int|
                        0 <= k < i && #[trigger] spec_ptr_marks(
                            ptrs@,
                            c0,
                            blocks as int,
                            file_size as int,
                            bs as int,
                            k,
                            a,
                        )));
                }
            }
        }
    }
    Ok(())
}

/// Scans an inode's data blocks through its extent tree: first the tree's
/// own node footprint, then each leaf's physical range clipped to the file
/// size.
pub fn scan_extent_data<F: Fn(u64, u64) -> Result<Vec<u8>, Error> + Copy>(
    map: &mut UsageMap,
    inode: &Inode,
    fs: &Fs,
    read: F,
) -> (r: Result<(), Error>)
    requires
        fs.inv(),
        reader_ok(read),
        old(map).inv(),
    ensures
        final(map).inv(),
        marks_only_used(*old(map), *final(map)),
        (extent::spec_decode_extent_header(extent::spec_iblock_bytes(*inode), 0).eh_depth == 0 && r
            is Ok) ==> {
            let h = extent::spec_decode_extent_header(extent::spec_iblock_bytes(*inode), 0);
            let lv = Seq::new(
                h.eh_entries as nat,
                |i: int| extent::spec_decode_extent(extent::spec_iblock_bytes(*inode), 12 + 12 * i),
            );
            forall|a: u64|
                a < old(map).spec_size() ==> #[trigger] final(map).status_at(a) == (
                if extent::spec_leaves_mark(
                    lv,
                    (hilo32(inode.i_size_high, inode.i_size_lo)),
                    fs.spec_bs(),
                    a,
                ) {
                    crate::usage_map::AllocStatus::Used
                } else {
                    old(map).status_at(a)
                })
        },
{
    let ghost m0 = *map;
    let bs = block_size_of(fs.sb.s_log_block_size);
    let file_size = hilo32(inode.i_size_high, inode.i_size_lo);

    match extent::scan_extent_tree(map, inode, fs, read) {
        Ok(_) => {},
        Err(e) => {
            return Err(e);
        },
    }

    let tree = match extent::ExtentTree::new(inode, fs, read) {
        Ok(t) => t,
        Err(e) => {
            return Err(e);
        },
    };
    let leaves = tree.leaves();
    proof {
        let h = extent::spec_decode_extent_header(extent::spec_iblock_bytes(*inode), 0);
        if h.eh_depth == 0 {
            let lv = Seq::new(
                h.eh_entries as nat,
                |i: int| extent::spec_decode_extent(extent::spec_iblock_bytes(*inode), 12 + 12 * i),
            );
            assert(leaves@ =~= lv);
        }
    }
    let ghost m1 = *map;
    let res = extent::mark_extent_leaves(map, &leaves, file_size, bs);
    proof {
        lemma_marks_only_used_trans(m0, m1, *map);
    }
    res
}

/// The scaled sector count fits the address space and divides into whole
/// blocks.
pub open spec fn spec_sectors_ok(inode: Inode, osd2: Osd2, fs: Fs) -> bool {
    &&& spec_block_sectors(inode, osd2, fs) <= u64::MAX
    &&& spec_block_sectors(inode, osd2, fs) % (fs.spec_bs() as int) == 0
}

/// The inode's data block count.
pub open spec fn spec_block_quota(inode: Inode, osd2: Osd2, fs: Fs) -> int {
    spec_block_sectors(inode, osd2, fs) / (fs.spec_bs() as int)
}

/// The inode's file size in bytes.
pub open spec fn spec_file_size(inode: Inode) -> int {
    hilo32(inode.i_size_high, inode.i_size_lo) as int
}

/// The walk stays on the twelve direct pointers: the legacy path with all
/// three indirect pointers null.
pub open spec fn spec_direct_only_case(inode: Inode, osd2: Osd2, fs: Fs) -> bool {
    &&& !IFlags(inode.i_flags).has_inline_data()
    &&& spec_sectors_ok(inode, osd2, fs)
    &&& spec_block_quota(inode, osd2, fs) > 0
    &&& !IFlags(inode.i_flags).has_extents()
    &&& inode.i_block@[12] == 0
    &&& inode.i_block@[13] == 0
    &&& inode.i_block@[14] == 0
}

/// General-purpose walk of an inode's `i_block`: used for regular files,
/// symlinks, and the special file types that may still reference external
/// blocks.  Dispatches to the extent walker or to the legacy direct and
/// indirect block pointers.  Inline data and a zero block count walk
/// nothing; when the three indirect pointers are null, the marks are pinned
/// exactly as the walk of the twelve direct pointers.
#[verifier::loop_isolation(false)]
pub fn scan_regular_iblock<F: Fn(u64, u64) -> Result<Vec<u8>, Error> + Copy>(
    map: &mut UsageMap,
    inode: &Inode,
    osd2: &Osd2,
    fs: &Fs,
    read: F,
) -> (r: Result<(), Error>)
    requires
        fs.inv(),
        reader_ok(read),
        old(map).inv(),
    ensures
        final(map).inv(),
        marks_only_used(*old(map), *final(map)),
        IFlags(inode.i_flags).has_inline_data() ==> (r is Ok && *final(map) == *old(map)),
        (!IFlags(inode.i_flags).has_inline_data() && !spec_sectors_ok(*inode, *osd2, *fs)) ==> (
        r is Err && *final(map) == *old(map)),
        (!IFlags(inode.i_flags).has_inline_data() && spec_sectors_ok(*inode, *osd2, *fs)
            && spec_block_quota(*inode, *osd2, *fs) == 0) ==> (r is Ok && *final(map) == *old(
            map,
        )),
        (spec_direct_only_case(*inode, *osd2, *fs) && r is Ok) ==> (forall|a: u64|
            a < old(map).spec_size() ==> #[trigger] final(map).status_at(a) == (
            if spec_ptrs_mark(
                inode.i_block@.subrange(0, 12),
                0,
                spec_block_quota(*inode, *osd2, *fs),
                spec_file_size(*inode),
                fs.spec_bs() as int,
                a,
            ) {
                crate::usage_map::AllocStatus::Used
            } else {
                old(map).status_at(a)
            })),
{
    let ghost m0 = *map;
    let i_flags = IFlags(inode.i_flags);

    // Inline data lives inside the inode: no external blocks.
    if i_flags.has_inline_data() {
        return Ok(());
    }

    let blocks = match get_block_count(inode, osd2, fs) {
        Ok(b) => b,
        Err(e) => {
            return Err(e);
        },
    };
    if blocks == 0 {
        return Ok(());
    }

    let file_size = hilo32(inode.i_size_high, inode.i_size_lo);
    let bs = block_size_of(fs.sb.s_log_block_size);

    if i_flags.has_extents() {
        return scan_extent_data(map, inode, fs, read);
    }

    // The first 12 direct block pointers.
    let mut ptrs: Vec<u32> = Vec::new();
    let mut pi: usize = 0;
    while pi < 12
        invariant
            0 <= pi <= 12,
            ptrs@.len() == pi,
            forall|j: int| 0 <= j < pi ==> ptrs@[j] == inode.i_block@[j],
        decreases 12 - pi,
    {
        ptrs.push(inode.i_block[pi]);
        pi = pi + 1;
    }
    proof {
        assert(ptrs@ =~= inode.i_block@.subrange(0, 12));
    }
    let mut block_head: u64 = 0;
    match mark_block_pointers(map, &mut block_head, &ptrs, blocks, file_size, bs) {
        Ok(_) => {},
        Err(e) => {
            return Err(e);
        },
    }

    let ghost m1 = *map;
    match scan_indirect_block(map, &mut block_head, inode.i_block[12] as u64, inode, osd2, fs, read)
        {
        Ok(_) => {},
        Err(e) => {
            proof {
                lemma_marks_only_used_trans(m0, m1, *map);
            }
            return Err(e);
        },
    }
    proof {
        lemma_marks_only_used_trans(m0, m1, *map);
    }
    let ghost m2 = *map;
    match scan_double_indirect_block(
        map,
        &mut block_head,
        inode.i_block[13] as u64,
        inode,
        osd2,
        fs,
        read,
    ) {
        Ok(_) => {},
        Err(e) => {
            proof {
                lemma_marks_only_used_trans(m0, m2, *map);
            }
            return Err(e);
        },
    }
    proof {
        lemma_marks_only_used_trans(m0, m2, *map);
    }
    let ghost m3 = *map;
    match scan_triple_indirect_block(
        map,
        &mut block_head,
        inode.i_block[14] as u64,
        inode,
        osd2,
        fs,
        read,
    ) {
        Ok(_) => {},
        Err(e) => {
            proof {
                lemma_marks_only_used_trans(m0, m3, *map);
            }
            return Err(e);
        },
    }
    proof {
        lemma_marks_only_used_trans(m0, m3, *map);
    }
    Ok(())
}

/// Walks a single-indirect block: an array of little-endian block pointers,
/// each contributing one data block clipped to the file size.  Null entries
/// are holes.  The indirect block itself is not marked.  A null block
/// number walks nothing; otherwise, on success, the marks and the cursor
/// are pinned against the bytes the reader handed back for the block.
pub fn scan_indirect_block<F: Fn(u64, u64) -> Result<Vec<u8>, Error> + Copy>(
    map: &mut UsageMap,
    block_head: &mut u64,
    block: u64,
    inode: &Inode,
    osd2: &Osd2,
    fs: &Fs,
    read: F,
) -> (r: Result<(), Error>)
    requires
        fs.inv(),
        reader_ok(read),
        old(map).inv(),
    ensures
        final(map).inv(),
        marks_only_used(*old(map), *final(map)),
        block == 0 ==> (r is Ok && *final(map) == *old(map) && *final(block_head) == *old(
            block_head,
        )),
        (r is Ok && block != 0) ==> (block as int) * (fs.spec_bs() as int) <= u64::MAX
            && (exists|buf: Vec<u8>|
            {
                let ps = spec_le32_seq(buf@);
                let blocks = spec_block_sectors(*inode, *osd2, *fs) / (fs.spec_bs() as int);
                let fsize = hilo32(inode.i_size_high, inode.i_size_lo) as int;
                &&& #[trigger] call_ensures(
                    read,
                    ((((block as int) * (fs.spec_bs() as int)) as u64), fs.spec_bs()),
                    Ok::<Vec<u8>, Error>(buf),
                )
                &&& buf@.len() == fs.spec_bs()
                &&& *final(block_head) == spec_ptr_cursor(
                    ps,
                    ps.len() as int,
                    *old(block_head) as int,
                    blocks,
                    fsize,
                    fs.spec_bs() as int,
                )
                &&& (forall|a: u64|
                    a < old(map).spec_size() ==> #[trigger] final(map).status_at(a) == (
                    if spec_ptrs_mark(
                        ps,
                        *old(block_head) as int,
                        blocks,
                        fsize,
                        fs.spec_bs() as int,
                        a,
                    ) {
                        crate::usage_map::AllocStatus::Used
                    } else {
                        old(map).status_at(a)
                    }))
            }),
{
    // Null block number: nothing to walk.
    if block == 0 {
        return Ok(());
    }
    let bs = block_size_of(fs.sb.s_log_block_size);
    let addr = match block.checked_mul(bs) {
        Some(v) => v,
        None => {
            return Err(Error::Overflow);
        },
    };
    let buf = match read(addr, bs) {
        Ok(v) => v,
        Err(_) => {
            return Err(Error::Io);
        },
    };
    let max_blocks = match get_block_count(inode, osd2, fs) {
        Ok(b) => b,
        Err(e) => {
            return Err(e);
        },
    };
    let file_size = hilo32(inode.i_size_high, inode.i_size_lo);
    let entries = crate::codec::le32_entries(buf.as_slice());
    let res = mark_block_pointers(map, block_head, &entries, max_blocks, file_size, bs);
    match res {
        Ok(_) => {
            proof {
                assert(call_ensures(
                    read,
                    ((((block as int) * (fs.spec_bs() as int)) as u64), fs.spec_bs()),
                    Ok::<Vec<u8>, Error>(buf),
                ));
            }
            Ok(())
        },
        Err(e) => Err(e),
    }
}

/// Walks a double-indirect block: each entry names a single-indirect
/// block.  A null block number walks nothing.
#[verifier::loop_isolation(false)]
pub fn scan_double_indirect_block<F: Fn(u64, u64) -> Result<Vec<u8>, Error> + Copy>(
    map: &mut UsageMap,
    block_head: &mut u64,
    block: u64,
    inode: &Inode,
    osd2: &Osd2,
    fs: &Fs,
    read: F,
) -> (r: Result<(), Error>)
    requires
        fs.inv(),
        reader_ok(read),
        old(map).inv(),
    ensures
        final(map).inv(),
        marks_only_used(*old(map), *final(map)),
        block == 0 ==> (r is Ok && *final(map) == *old(map) && *final(block_head) == *old(
            block_head,
        )),
        (r is Ok && block != 0) ==> ((block as int) * (fs.spec_bs() as int) <= u64::MAX && (exists|
            buf: Vec<u8>,
        |
            #[trigger] call_ensures(
                read,
                ((((block as int) * (fs.spec_bs() as int)) as u64), fs.spec_bs()),
                Ok::<Vec<u8>, Error>(buf),
            ))),
{
    if block == 0 {
        return Ok(());
    }
    let ghost m0 = *map;
    let bs = block_size_of(fs.sb.s_log_block_size);
    let addr = match block.checked_mul(bs) {
        Some(v) => v,
        None => {
            return Err(Error::Overflow);
        },
    };
    let buf = match read(addr, bs) {
        Ok(v) => v,
        Err(_) => {
            return Err(Error::Io);
        },
    };
    let max_blocks = match get_block_count(inode, osd2, fs) {
        Ok(b) => b,
        Err(e) => {
            return Err(e);
        },
    };
    let entries = buf.len() / 4;

    let mut i: usize = 0;
    let mut done: bool = false;
    while i < entries && !done
        invariant
            0 <= i <= entries,
            map.inv(),
            marks_only_used(m0, *map),
        decreases entries - i,
    {
        if *block_head >= max_blocks {
            done = true;
        } else {
            let indirect_block = le32_at(buf.as_slice(), i * 4) as u64;
            if indirect_block != 0 {
                let ghost mp = *map;
                let res = scan_indirect_block(map, block_head, indirect_block, inode, osd2, fs, read);
                proof {
                    lemma_marks_only_used_trans(m0, mp, *map);
                }
                match res {
                    Ok(_) => {},
                    Err(e) => {
                        return Err(e);
                    },
                }
            }
        }
        i = i + 1;
    }
    Ok(())
}

/// Walks a triple-indirect block: each entry names a double-indirect
/// block.  A null block number walks nothing.
#[verifier::loop_isolation(false)]
pub fn scan_triple_indirect_block<F: Fn(u64, u64) -> Result<Vec<u8>, Error> + Copy>(
    map: &mut UsageMap,
    block_head: &mut u64,
    block: u64,
    inode: &Inode,
    osd2: &Osd2,
    fs: &Fs,
    read: F,
) -> (r: Result<(), Error>)
    requires
        fs.inv(),
        reader_ok(read),
        old(map).inv(),
    ensures
        final(map).inv(),
        marks_only_used(*old(map), *final(map)),
        block == 0 ==> (r is Ok && *final(map) == *old(map) && *final(block_head) == *old(
            block_head,
        )),
        (r is Ok && block != 0) ==> ((block as int) * (fs.spec_bs() as int) <= u64::MAX && (exists|
            buf: Vec<u8>,
        |
            #[trigger] call_ensures(
                read,
                ((((block as int) * (fs.spec_bs() as int)) as u64), fs.spec_bs()),
                Ok::<Vec<u8>, Error>(buf),
            ))),
{
    if block == 0 {
        return Ok(());
    }
    let ghost m0 = *map;
    let bs = block_size_of(fs.sb.s_log_block_size);
    let addr = match block.checked_mul(bs) {
        Some(v) => v,
        None => {
            return Err(Error::Overflow);
        },
    };
    let buf = match read(addr, bs) {
        Ok(v) => v,
        Err(_) => {
            return Err(Error::Io);
        },
    };
    let max_blocks = match get_block_count(inode, osd2, fs) {
        Ok(b) => b,
        Err(e) => {
            return Err(e);
        },
    };
    let entries = buf.len() / 4;

    let mut i: usize = 0;
    let mut done: bool = false;
    while i < entries && !done
        invariant
            0 <= i <= entries,
            map.inv(),
            marks_only_used(m0, *map),
        decreases entries - i,
    {
        if *block_head >= max_blocks {
            done = true;
        } else {
            let double_indirect_block = le32_at(buf.as_slice(), i * 4) as u64;
            if double_indirect_block != 0 {
                let ghost mp = *map;
                let res = scan_double_indirect_block(
                    map,
                    block_head,
                    double_indirect_block,
                    inode,
                    osd2,
                    fs,
                    read,
                );
                proof {
                    lemma_marks_only_used_trans(m0, mp, *map);
                }
                match res {
                    Ok(_) => {},
                    Err(e) => {
                        return Err(e);
                    },
                }
            }
        }
        i = i + 1;
    }
    Ok(())
}

/// Directory walk: no contribution in the present version; the block bitmap
/// and the inode walk together account for directory blocks.
pub fn scan_dir_iblock(map: &mut UsageMap, _inode: &Inode, _osd2: &Osd2, _fs: &Fs) -> (r: Result<
    (),
    Error,
>)
    ensures
        *final(map) == *old(map),
        r is Ok,
{
    Ok(())
}

/// Symlink walk: identical to the regular walk; inlined targets have a zero
/// block count and contribute nothing.
pub fn scan_symlink_iblock<F: Fn(u64, u64) -> Result<Vec<u8>, Error> + Copy>(
    map: &mut UsageMap,
    inode: &Inode,
    osd2: &Osd2,
    fs: &Fs,
    read: F,
) -> (r: Result<(), Error>)
    requires
        fs.inv(),
        reader_ok(read),
        old(map).inv(),
    ensures
        final(map).inv(),
        marks_only_used(*old(map), *final(map)),
{
    scan_regular_iblock(map, inode, osd2, fs, read)
}

/// Reserved-journal walk: no contribution in the present version.
pub fn scan_journal_iblock(
    map: &mut UsageMap,
    _inode: &Inode,
    _osd2: &Osd2,
    _fs: &Fs,
) -> (r: Result<(), Error>)
    ensures
        *final(map) == *old(map),
        r is Ok,
{
    Ok(())
}

/// Extended-attribute inode walk: no contribution in the present version.
pub fn scan_ea_iblock(map: &mut UsageMap, _inode: &Inode, _osd2: &Osd2, _fs: &Fs) -> (r: Result<
    (),
    Error,
>)
    ensures
        *final(map) == *old(map),
        r is Ok,
{
    Ok(())
}

/// The verity flag of the inode encoded at byte offset `off`.
pub open spec fn spec_verity_at(s: Seq<u8>, off: int) -> bool {
    IFlags(spec_le32_at(s, off + 32)).has_verity()
}

/// Scans one allocated inode of a group's table: decodes it, classifies it,
/// and dispatches to the walker of its type.  Only `Used` marks are added
/// to the map.  Classification rejections, skipped reserved slots and the
/// stub walks (journal, extended-attribute, directory) leave the map
/// untouched, and an inode with the verity flag is refused after its walk.
pub fn scan_inode<F: Fn(u64, u64) -> Result<Vec<u8>, Error> + Copy>(
    map: &mut UsageMap,
    idx: usize,
    bg_num: u64,
    itable: &[u8],
    fs: &Fs,
    read: F,
) -> (r: Result<(), Error>)
    requires
        fs.inv(),
        reader_ok(read),
        old(map).inv(),
        idx < 0xffff_ffff,
        idx * fs.inode_size + 160 <= itable@.len(),
    ensures
        final(map).inv(),
        marks_only_used(*old(map), *final(map)),
        (spec_classify_at(itable@, idx * fs.inode_size, idx as u64, bg_num, fs.sb.s_first_ino)
            is Err) ==> (*final(map) == *old(map) && r == Err::<(), Error>(
            spec_classify_at(
                itable@,
                idx * fs.inode_size,
                idx as u64,
                bg_num,
                fs.sb.s_first_ino,
            )->Err_0,
        )),
        (spec_classify_at(itable@, idx * fs.inode_size, idx as u64, bg_num, fs.sb.s_first_ino)
            == Ok::<Option<InodeType>, Error>(None)) ==> (r is Ok && *final(map) == *old(map)),
        (spec_classify_at(itable@, idx * fs.inode_size, idx as u64, bg_num, fs.sb.s_first_ino)
            == Ok::<Option<InodeType>, Error>(Some(InodeType::Journal)) || spec_classify_at(
            itable@,
            idx * fs.inode_size,
            idx as u64,
            bg_num,
            fs.sb.s_first_ino,
        ) == Ok::<Option<InodeType>, Error>(Some(InodeType::Ea)) || spec_classify_at(
            itable@,
            idx * fs.inode_size,
            idx as u64,
            bg_num,
            fs.sb.s_first_ino,
        ) == Ok::<Option<InodeType>, Error>(Some(InodeType::Directory))) ==> (*final(map) == *old(
            map,
        ) && r == (if spec_verity_at(itable@, idx * fs.inode_size) {
            Err::<(), Error>(Error::UnsupportedVerity(idx as u64))
        } else {
            Ok::<(), Error>(())
        })),
        r is Ok ==> (spec_classify_at(
            itable@,
            idx * fs.inode_size,
            idx as u64,
            bg_num,
            fs.sb.s_first_ino,
        ) is Ok && (spec_classify_at(
            itable@,
            idx * fs.inode_size,
            idx as u64,
            bg_num,
            fs.sb.s_first_ino,
        ) != Ok::<Option<InodeType>, Error>(None) ==> !spec_verity_at(
            itable@,
            idx * fs.inode_size,
        ))),
{
    let tlen = itable.len();
    let off = (idx as u64) * fs.inode_size;
    let inode = Inode::decode(itable, off as usize);
    let osd2 = decode_osd2(&inode.osd2, fs.opts.fs_creator);
    proof {
        assert(off as int == idx * fs.inode_size);
        assert(inode.i_flags == spec_le32_at(itable@, idx * fs.inode_size + 32));
        assert(inode.i_mode == spec_le16_at(itable@, idx * fs.inode_size + 0));
    }

    let inode_type = match classify_inode(&inode, idx as u64, bg_num, fs.sb.s_first_ino) {
        Ok(Some(t)) => t,
        Ok(None) => {
            // A zeroed reserved slot of group 0.
            return Ok(());
        },
        Err(e) => {
            return Err(e);
        },
    };

    match inode_type {
        InodeType::Journal => {
            scan_journal_iblock(map, &inode, &osd2, fs)?;
        },
        InodeType::Ea => {
            scan_ea_iblock(map, &inode, &osd2, fs)?;
        },
        InodeType::Regular => {
            scan_regular_iblock(map, &inode, &osd2, fs, read)?;
        },
        InodeType::Directory => {
            scan_dir_iblock(map, &inode, &osd2, fs)?;
        },
        InodeType::SymLink => {
            scan_symlink_iblock(map, &inode, &osd2, fs, read)?;
        },
        InodeType::Fifo | InodeType::Block | InodeType::Character | InodeType::Socket => {
            // Undocumented special files are walked as regular files, in
            // case they reference external blocks.
            scan_regular_iblock(map, &inode, &osd2, fs, read)?;
        },
    }

    let i_flags = IFlags(inode.i_flags);
    if i_flags.has_verity() {
        return Err(Error::UnsupportedVerity(idx as u64));
    }
    Ok(())
}

} // verus!

