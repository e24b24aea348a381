//! Extent tree decoding, traversal, and leaf iteration.
//!
//! An inode's extent tree starts in the 60 bytes of `i_block` and descends
//! through index nodes, each in its own disk block, to leaf nodes holding
//! the extents.  Leaves are enumerated in left-to-right tree order.

use crate::Error;
use crate::codec::hilo16;
use crate::codec::le16_at;
use crate::codec::le32_at;
use crate::codec::spec_le16_at;
use crate::codec::spec_le32_at;
use crate::e2fs::Fs;
use crate::e2fs::block_size_of;
use crate::e2fs::inode::Inode;
use crate::e2fs::mark_used;
use crate::reader_ok;
use crate::usage_map::UsageMap;
use crate::usage_map::lemma_marks_only_used_trans;
use crate::usage_map::marks_only_used;
use vstd::bytes::spec_u32_to_le_bytes;
use vstd::bytes::u32_to_le_bytes;
use vstd::prelude::*;

verus! {

broadcast use vstd::slice::axiom_spec_len;

/// Size of one leaf extent record in bytes.
pub const EXTENT_SIZE: usize = 12;

/// Size of the extent node header in bytes.
pub const EXTENT_HEADER_SIZE: usize = 12;

/// Size of one index record in bytes.
pub const EXTENT_IDX_SIZE: usize = 12;

/// Size of the checksum tail of a non-root node in bytes.
pub const EXTENT_TAIL_SIZE: usize = 4;

/// Extent tree node header.
#[derive(Clone, Copy, Debug, PartialEq, Eq, Structural)]
pub struct ExtentHeader {
    pub eh_magic: u16,
    pub eh_entries: u16,
    pub eh_max: u16,
    pub eh_depth: u16,
    pub eh_generation: u32,
}

/// Leaf record: a run of physical blocks mapped at a logical block.
#[derive(Clone, Copy, Debug, PartialEq, Eq, Structural)]
pub struct Extent {
    pub ee_block: u32,
    pub ee_len: u16,
    pub ee_start_hi: u16,
    pub ee_start_lo: u32,
}

/// Index record: the child node covering a logical block range.
#[derive(Clone, Copy, Debug, PartialEq, Eq, Structural)]
pub struct ExtentIdx {
    pub ei_block: u32,
    pub ei_leaf_lo: u32,
    pub ei_leaf_hi: u16,
    pub ei_unused: u16,
}

/// Checksum tail of a non-root node.
#[derive(Clone, Copy, Debug, PartialEq, Eq, Structural)]
pub struct ExtentTail {
    pub et_checksum: u32,
}

/// The header a byte buffer holds at offset `off`.
pub open spec fn spec_decode_extent_header(s: Seq<u8>, off: int) -> ExtentHeader {
    ExtentHeader {
        eh_magic: spec_le16_at(s, off),
        eh_entries: spec_le16_at(s, off + 2),
        eh_max: spec_le16_at(s, off + 4),
        eh_depth: spec_le16_at(s, off + 6),
        eh_generation: spec_le32_at(s, off + 8),
    }
}

/// The leaf record a byte buffer holds at offset `off`.
pub open spec fn spec_decode_extent(s: Seq<u8>, off: int) -> Extent {
    Extent {
        ee_block: spec_le32_at(s, off),
        ee_len: spec_le16_at(s, off + 4),
        ee_start_hi: spec_le16_at(s, off + 6),
        ee_start_lo: spec_le32_at(s, off + 8),
    }
}

/// The index record a byte buffer holds at offset `off`.
pub open spec fn spec_decode_extent_idx(s: Seq<u8>, off: int) -> ExtentIdx {
    ExtentIdx {
        ei_block: spec_le32_at(s, off),
        ei_leaf_lo: spec_le32_at(s, off + 4),
        ei_leaf_hi: spec_le16_at(s, off + 8),
        ei_unused: spec_le16_at(s, off + 10),
    }
}

impl ExtentHeader {
    /// Decodes a node header at byte offset `off`.
    pub fn decode(buf: &[u8], off: usize) -> (r: ExtentHeader)
        requires
            off + 12 <= buf@.len(),
        ensures
            r == spec_decode_extent_header(buf@, off as int),
    {
        let n = buf.len();
        assert(off + 12 <= n);
        ExtentHeader {
            eh_magic: le16_at(buf, off),
            eh_entries: le16_at(buf, off + 2),
            eh_max: le16_at(buf, off + 4),
            eh_depth: le16_at(buf, off + 6),
            eh_generation: le32_at(buf, off + 8),
        }
    }
}

impl Extent {
    /// Decodes a leaf record at byte offset `off`.
    pub fn decode(buf: &[u8], off: usize) -> (r: Extent)
        requires
            off + 12 <= buf@.len(),
        ensures
            r == spec_decode_extent(buf@, off as int),
    {
        let n = buf.len();
        assert(off + 12 <= n);
        Extent {
            ee_block: le32_at(buf, off),
            ee_len: le16_at(buf, off + 4),
            ee_start_hi: le16_at(buf, off + 6),
            ee_start_lo: le32_at(buf, off + 8),
        }
    }
}

impl ExtentIdx {
    /// Decodes an index record at byte offset `off`.
    pub fn decode(buf: &[u8], off: usize) -> (r: ExtentIdx)
        requires
            off + 12 <= buf@.len(),
        ensures
            r == spec_decode_extent_idx(buf@, off as int),
    {
        let n = buf.len();
        assert(off + 12 <= n);
        ExtentIdx {
            ei_block: le32_at(buf, off),
            ei_leaf_lo: le32_at(buf, off + 4),
            ei_leaf_hi: le16_at(buf, off + 8),
            ei_unused: le16_at(buf, off + 10),
        }
    }
}

/// Entries of an extent node: leaf extents at depth 0, indexes above.
#[derive(Debug)]
pub enum Entries {
    Extents(Vec<Extent>),
    Indexes(Vec<ExtentIdx>),
}

/// One extent tree node: its header, its records, and (for index nodes) the
/// owned child nodes, one per index record.
#[derive(Debug)]
pub struct Node {
    pub header: ExtentHeader,
    pub entries: Entries,
    pub subnodes: Option<Vec<Node>>,
}

/// The leaves below a node, in left-to-right tree order.  A child recorded
/// with a depth not below its parent's contributes nothing: the builder
/// never constructs such a node.
pub open spec fn spec_node_leaves(n: Node) -> Seq<Extent>
    decreases n.header.eh_depth as int, 1int, 0int,
{
    if n.header.eh_depth == 0 {
        match n.entries {
            Entries::Extents(v) => v@,
            Entries::Indexes(_) => Seq::empty(),
        }
    } else {
        match n.subnodes {
            Some(subs) => spec_children_leaves(subs@, n.header.eh_depth),
            None => Seq::empty(),
        }
    }
}

/// The leaves below a sequence of children of a node of depth `depth`,
/// concatenated left to right.
pub open spec fn spec_children_leaves(cs: Seq<Node>, depth: u16) -> Seq<Extent>
    decreases depth as int, 0int, cs.len(),
{
    if cs.len() == 0 {
        Seq::empty()
    } else {
        spec_children_leaves(cs.drop_last(), depth) + (if cs.last().header.eh_depth < depth {
            spec_node_leaves(cs.last())
        } else {
            Seq::empty()
        })
    }
}

/// Number of leaves below a node.
pub open spec fn spec_leaf_count(n: Node) -> int
    decreases n.header.eh_depth as int, 1int, 0int,
{
    if n.header.eh_depth == 0 {
        match n.entries {
            Entries::Extents(v) => v@.len() as int,
            Entries::Indexes(_) => 0,
        }
    } else {
        match n.subnodes {
            Some(subs) => spec_children_leaf_count(subs@, n.header.eh_depth),
            None => 0,
        }
    }
}

/// Number of leaves below a sequence of children.
pub open spec fn spec_children_leaf_count(cs: Seq<Node>, depth: u16) -> int
    decreases depth as int, 0int, cs.len(),
{
    if cs.len() == 0 {
        0
    } else {
        spec_children_leaf_count(cs.drop_last(), depth) + (if cs.last().header.eh_depth < depth {
            spec_leaf_count(cs.last())
        } else {
            0
        })
    }
}

/// Extent-iterator completeness: enumerating a tree's leaves yields exactly
/// as many elements as the tree holds, in left-to-right order — the sequence
/// of leaves has exactly the tree's leaf count.
pub proof fn lemma_leaves_complete(n: Node)
    ensures
        spec_node_leaves(n).len() == spec_leaf_count(n),
    decreases n.header.eh_depth as int, 1int, 0int,
{
    if n.header.eh_depth == 0 {
    } else {
        match n.subnodes {
            Some(subs) => {
                lemma_children_leaves_complete(subs@, n.header.eh_depth);
            },
            None => {},
        }
    }
}

/// The count of leaves below a node's children matches the enumeration.
pub proof fn lemma_children_leaves_complete(cs: Seq<Node>, depth: u16)
    ensures
        spec_children_leaves(cs, depth).len() == spec_children_leaf_count(cs, depth),
    decreases depth as int, 0int, cs.len(),
{
    if cs.len() == 0 {
    } else {
        lemma_children_leaves_complete(cs.drop_last(), depth);
        if cs.last().header.eh_depth < depth {
            lemma_leaves_complete(cs.last());
        }
    }
}

impl Node {
    /// Deserializes one node from raw bytes: the header (whose magic must be
    /// `0xf30a`) and the record array it announces, which must fit the
    /// buffer.  Subnodes start out absent.
    pub fn from_raw(raw: &[u8]) -> (r: Result<Node, Error>)
        requires
            raw@.len() >= 12,
        ensures
            match r {
                Ok(node) => {
                    &&& node.header == spec_decode_extent_header(raw@, 0)
                    &&& node.header.eh_magic == 0xf30a
                    &&& 12 + node.header.eh_entries * 12 <= raw@.len()
                    &&& node.subnodes is None
                    &&& (node.header.eh_depth == 0 ==> (node.entries matches Entries::Extents(v)
                        && v@.len() == node.header.eh_entries && (forall|i: int|
                        0 <= i < v@.len() ==> #[trigger] v@[i] == spec_decode_extent(
                            raw@,
                            12 + 12 * i,
                        ))))
                    &&& (node.header.eh_depth != 0 ==> (node.entries matches Entries::Indexes(v)
                        && v@.len() == node.header.eh_entries && (forall|i: int|
                        0 <= i < v@.len() ==> #[trigger] v@[i] == spec_decode_extent_idx(
                            raw@,
                            12 + 12 * i,
                        ))))
                },
                Err(e) => {
                    let h = spec_decode_extent_header(raw@, 0);
                    (e == Error::BadExtentMagic && h.eh_magic != 0xf30a) || (e
                        == Error::TruncatedExtentNode && h.eh_magic == 0xf30a && 12 + h.eh_entries
                        * 12 > raw@.len())
                },
            },
    {
        let n = raw.len();
        let header = ExtentHeader::decode(raw, 0);
        if header.eh_magic != 0xf30a {
            return Err(Error::BadExtentMagic);
        }
        let count = header.eh_entries as usize;
        if n < 12 || count > (n - 12) / 12 {
            return Err(Error::TruncatedExtentNode);
        }
        let entries = if header.eh_depth == 0 {
            let mut extents: Vec<Extent> = Vec::new();
            let mut i: usize = 0;
            while i < count
                invariant
                    n == raw@.len(),
                    12 + count * 12 <= n,
                    0 <= i <= count,
                    extents@.len() == i,
                    forall|k: int|
                        0 <= k < i ==> #[trigger] extents@[k] == spec_decode_extent(
                            raw@,
                            12 + 12 * k,
                        ),
                decreases count - i,
            {
                extents.push(Extent::decode(raw, 12 + i * 12));
                i = i + 1;
            }
            Entries::Extents(extents)
        } else {
            let mut indexes: Vec<ExtentIdx> = Vec::new();
            let mut i: usize = 0;
            while i < count
                invariant
                    n == raw@.len(),
                    12 + count * 12 <= n,
                    0 <= i <= count,
                    indexes@.len() == i,
                    forall|k: int|
                        0 <= k < i ==> #[trigger] indexes@[k] == spec_decode_extent_idx(
                            raw@,
                            12 + 12 * k,
                        ),
                decreases count - i,
            {
                indexes.push(ExtentIdx::decode(raw, 12 + i * 12));
                i = i + 1;
            }
            Entries::Indexes(indexes)
        };
        Ok(Node { header, entries, subnodes: None })
    }
}

/// The 60 bytes of `i_block`, little-endian, up to pointer `k`.
pub open spec fn spec_iblock_prefix(ib: Seq<u32>, k: int) -> Seq<u8>
    decreases k,
{
    if k <= 0 {
        Seq::empty()
    } else {
        spec_iblock_prefix(ib, k - 1) + spec_u32_to_le_bytes(ib[k - 1])
    }
}

/// The 60 bytes of `i_block` as the linear buffer the root node lives in.
pub open spec fn spec_iblock_bytes(inode: Inode) -> Seq<u8> {
    spec_iblock_prefix(inode.i_block@, 15)
}

/// Serializes the 15 `i_block` pointers into their 60-byte buffer.
pub fn iblock_bytes(inode: &Inode) -> (r: Vec<u8>)
    ensures
        r@ == spec_iblock_bytes(*inode),
        r@.len() == 60,
{
    let mut raw: Vec<u8> = Vec::new();
    let mut i: usize = 0;
    while i < 15
        invariant
            0 <= i <= 15,
            raw@ == spec_iblock_prefix(inode.i_block@, i as int),
            raw@.len() == 4 * i,
        decreases 15 - i,
    {
        let mut piece = u32_to_le_bytes(inode.i_block[i]);
        raw.append(&mut piece);
        proof {
            vstd::bytes::lemma_auto_spec_u32_to_from_le_bytes();
        }
        i = i + 1;
    }
    raw
}

/// Builds the tree below one raw node: parses it, then reads and builds each
/// child, requiring every child to sit strictly below its parent's depth.
#[verifier::loop_isolation(false)]
fn build_subtree<F: Fn(u64, u64) -> Result<Vec<u8>, Error> + Copy>(
    raw: &[u8],
    budget: u16,
    fs: &Fs,
    read: F,
) -> (r: Result<Node, Error>)
    requires
        raw@.len() >= 12,
        fs.inv(),
        reader_ok(read),
    ensures
        r is Ok ==> {
            let h = spec_decode_extent_header(raw@, 0);
            let node = r->Ok_0;
            &&& node.header == h
            &&& h.eh_magic == 0xf30a
            &&& 12 + h.eh_entries * 12 <= raw@.len()
            &&& (h.eh_depth == 0 ==> ((node.entries matches Entries::Extents(v) && v@.len()
                == h.eh_entries && (forall|i: int|
                0 <= i < v@.len() ==> #[trigger] v@[i] == spec_decode_extent(raw@, 12 + 12 * i)))
                && node.subnodes is None))
            &&& (h.eh_depth != 0 ==> ((node.entries matches Entries::Indexes(v) && v@.len()
                == h.eh_entries && (forall|i: int|
                0 <= i < v@.len() ==> #[trigger] v@[i] == spec_decode_extent_idx(
                    raw@,
                    12 + 12 * i,
                ))) && (node.subnodes matches Some(subs) && subs@.len() == h.eh_entries)))
        },
        spec_decode_extent_header(raw@, 0).eh_depth == 0 ==> (r is Ok <==> (
        spec_decode_extent_header(raw@, 0).eh_magic == 0xf30a && 12 + spec_decode_extent_header(
            raw@,
            0,
        ).eh_entries * 12 <= raw@.len())),
        spec_decode_extent_header(raw@, 0).eh_magic != 0xf30a ==> r == Err::<Node, Error>(
            Error::BadExtentMagic,
        ),
    decreases budget,
{
    let mut node = match Node::from_raw(raw) {
        Ok(n) => n,
        Err(e) => {
            return Err(e);
        },
    };
    if node.header.eh_depth == 0 {
        return Ok(node);
    }
    if node.header.eh_depth > budget {
        return Err(Error::ExtentTreeTooDeep);
    }
    let bs = block_size_of(fs.sb.s_log_block_size);
    let count = node.header.eh_entries as usize;
    let ghost old_node = node;
    let mut subs: Vec<Node> = Vec::new();
    let mut i: usize = 0;
    while i < count
        invariant
            0 <= i <= count,
            subs@.len() == i,
            node == old_node,
        decreases count - i,
    {
        let idx = match &node.entries {
            Entries::Indexes(v) => v[i],
            Entries::Extents(_) => {
                // An internal node parses to index records only.
                proof {
                    assert(false);
                }
                return Err(Error::TruncatedExtentNode);
            },
        };
        let block = hilo16(idx.ei_leaf_hi, idx.ei_leaf_lo);
        let addr = match block.checked_mul(bs) {
            Some(v) => v,
            None => {
                return Err(Error::Overflow);
            },
        };
        let child_raw = match read(addr, bs) {
            Ok(v) => v,
            Err(_) => {
                return Err(Error::Io);
            },
        };
        let child = build_subtree(child_raw.as_slice(), node.header.eh_depth - 1, fs, read)?;
        subs.push(child);
        i = i + 1;
    }
    node.subnodes = Some(subs);
    Ok(node)
}

/// E2fs extent tree, owned from its root node.
#[derive(Debug)]
pub struct ExtentTree {
    pub root_node: Node,
}

impl ExtentTree {
    /// Reads the inode's extent tree from the drive: the root node from the
    /// inode's `i_block` buffer, children recursively from their blocks.
    pub fn new<F: Fn(u64, u64) -> Result<Vec<u8>, Error> + Copy>(
        inode: &Inode,
        fs: &Fs,
        read: F,
    ) -> (r: Result<ExtentTree, Error>)
        requires
            fs.inv(),
            reader_ok(read),
        ensures
            r is Ok ==> {
                let h = spec_decode_extent_header(spec_iblock_bytes(*inode), 0);
                let node = r->Ok_0.root_node;
                &&& node.header == h
                &&& h.eh_magic == 0xf30a
                &&& 12 + h.eh_entries * 12 <= 60
                &&& (h.eh_depth == 0 ==> ((node.entries matches Entries::Extents(v) && v@.len()
                    == h.eh_entries && (forall|i: int|
                    0 <= i < v@.len() ==> #[trigger] v@[i] == spec_decode_extent(
                        spec_iblock_bytes(*inode),
                        12 + 12 * i,
                    ))) && node.subnodes is None))
                &&& (h.eh_depth != 0 ==> ((node.entries matches Entries::Indexes(v) && v@.len()
                    == h.eh_entries && (forall|i: int|
                    0 <= i < v@.len() ==> #[trigger] v@[i] == spec_decode_extent_idx(
                        spec_iblock_bytes(*inode),
                        12 + 12 * i,
                    ))) && (node.subnodes matches Some(subs) && subs@.len() == h.eh_entries)))
            },
            spec_decode_extent_header(spec_iblock_bytes(*inode), 0).eh_depth == 0 ==> (r is Ok
                <==> (spec_decode_extent_header(spec_iblock_bytes(*inode), 0).eh_magic == 0xf30a
                && 12 + spec_decode_extent_header(spec_iblock_bytes(*inode), 0).eh_entries * 12
                <= 60)),
            spec_decode_extent_header(spec_iblock_bytes(*inode), 0).eh_magic != 0xf30a ==> (r
                matches Err(e) && e == Error::BadExtentMagic),
    {
        let raw = iblock_bytes(inode);
        let root_node = build_subtree(raw.as_slice(), 0xffff, fs, read)?;
        Ok(ExtentTree { root_node })
    }

    /// Enumerates the tree's leaves in left-to-right tree order.
    pub fn leaves(&self) -> (r: Vec<Extent>)
        ensures
            r@ == spec_node_leaves(self.root_node),
    {
        node_leaves(&self.root_node)
    }
}

/// Collects the leaves below one node, left to right.
fn node_leaves(n: &Node) -> (r: Vec<Extent>)
    ensures
        r@ == spec_node_leaves(*n),
    decreases n.header.eh_depth as int, 1int, 0int,
{
    if n.header.eh_depth == 0 {
        match &n.entries {
            Entries::Extents(v) => {
                let mut out: Vec<Extent> = Vec::new();
                let mut i: usize = 0;
                let count = v.len();
                while i < count
                    invariant
                        0 <= i <= count,
                        count == v@.len(),
                        out@ == v@.subrange(0, i as int),
                    decreases count - i,
                {
                    out.push(v[i]);
                    proof {
                        assert(out@ =~= v@.subrange(0, i + 1));
                    }
                    i = i + 1;
                }
                proof {
                    assert(v@.subrange(0, count as int) =~= v@);
                }
                out
            },
            Entries::Indexes(_) => Vec::new(),
        }
    } else {
        match &n.subnodes {
            Some(subs) => {
                let mut out: Vec<Extent> = Vec::new();
                let mut i: usize = 0;
                let count = subs.len();
                while i < count
                    invariant
                        0 <= i <= count,
                        count == subs@.len(),
                        n.header.eh_depth > 0,
                        out@ == spec_children_leaves(subs@.subrange(0, i as int), n.header.eh_depth),
                    decreases count - i,
                {
                    proof {
                        assert(subs@.subrange(0, i + 1).drop_last() =~= subs@.subrange(0, i as int));
                        assert(subs@.subrange(0, i + 1).last() == subs@[i as int]);
                    }
                    let child = &subs[i];
                    if child.header.eh_depth < n.header.eh_depth {
                        let mut sub = node_leaves(child);
                        out.append(&mut sub);
                    }
                    proof {
                        assert(out@ =~= spec_children_leaves(
                            subs@.subrange(0, i + 1),
                            n.header.eh_depth,
                        ));
                    }
                    i = i + 1;
                }
                proof {
                    assert(subs@.subrange(0, count as int) =~= subs@);
                }
                out
            },
            None => Vec::new(),
        }
    }
}

/// Iterator over an extent tree's leaves, in left-to-right tree order.
pub struct ExtentTreeIterator {
    leaves: Vec<Extent>,
    cursor: usize,
}

impl ExtentTreeIterator {
    /// The leaves the iterator walks.
    pub closed spec fn spec_leaves(self) -> Seq<Extent> {
        self.leaves@
    }

    /// How many leaves were already yielded.
    pub closed spec fn spec_cursor(self) -> int {
        self.cursor as int
    }

    /// Creates an iterator positioned before the tree's first leaf.
    pub fn new(tree: &ExtentTree) -> (r: ExtentTreeIterator)
        ensures
            r.spec_leaves() == spec_node_leaves(tree.root_node),
            r.spec_cursor() == 0,
    {
        ExtentTreeIterator { leaves: tree.leaves(), cursor: 0 }
    }

    /// Yields the next leaf, left to right; `None` once exhausted.
    pub fn next(&mut self) -> (r: Option<Extent>)
        ensures
            final(self).spec_leaves() == old(self).spec_leaves(),
            old(self).spec_cursor() < old(self).spec_leaves().len() ==> (r == Some(
                old(self).spec_leaves()[old(self).spec_cursor()],
            ) && final(self).spec_cursor() == old(self).spec_cursor() + 1),
            old(self).spec_cursor() >= old(self).spec_leaves().len() ==> (r is None
                && final(self).spec_cursor() == old(self).spec_cursor()),
    {
        if self.cursor < self.leaves.len() {
            let e = self.leaves[self.cursor];
            self.cursor = self.cursor + 1;
            Some(e)
        } else {
            None
        }
    }
}


/// Marks one non-root node's own bytes on the map: its header and records
/// at the block's start, and the 4-byte checksum tail at the block's end.
/// The padding between them stays free.
pub fn mark_extent_node_footprint(map: &mut UsageMap, entries: u16, addr: u64, bs: u64) -> (r:
    Result<(), Error>)
    requires
        old(map).inv(),
        bs >= 1024,
    ensures
        final(map).inv(),
        marks_only_used(*old(map), *final(map)),
        r is Ok <==> (addr <= old(map).spec_size() && addr + bs <= u64::MAX && addr + bs - 4 <= old(
            map,
        ).spec_size()),
        r is Err ==> (r->Err_0 == Error::Overflow || r->Err_0 == Error::AddressBeyondDrive),
        r is Ok ==> forall|a: u64|
            a < old(map).spec_size() ==> #[trigger] final(map).status_at(a) == (if (addr <= a < addr
                + 12 + entries * 12) || (addr + bs - 4 <= a < addr + bs) {
                crate::usage_map::AllocStatus::Used
            } else {
                old(map).status_at(a)
            }),
{
    let ghost m0 = *map;
    // Header plus records.
    let ent_len: u64 = EXTENT_HEADER_SIZE as u64 + entries as u64 * (EXTENT_IDX_SIZE as u64);
    match mark_used(map, addr, ent_len) {
        Ok(_) => {},
        Err(e) => {
            return Err(e);
        },
    }
    // Checksum tail: the last 4 bytes of the block.
    let block_end = match addr.checked_add(bs) {
        Some(v) => v,
        None => {
            return Err(Error::Overflow);
        },
    };
    let ghost m1 = *map;
    match mark_used(map, block_end - EXTENT_TAIL_SIZE as u64, EXTENT_TAIL_SIZE as u64) {
        Ok(_) => {},
        Err(e) => {
            proof {
                lemma_marks_only_used_trans(m0, m1, *map);
            }
            return Err(e);
        },
    }
    proof {
        lemma_marks_only_used_trans(m0, m1, *map);
    }
    Ok(())
}

/// Marks the space occupied by the extent tree's own nodes: for each
/// non-root node, its header and records, and the 4-byte checksum tail of
/// its block.  The padding between them stays free.
pub fn scan_extent_tree<F: Fn(u64, u64) -> Result<Vec<u8>, Error> + Copy>(
    map: &mut UsageMap,
    inode: &Inode,
    fs: &Fs,
    read: F,
) -> (r: Result<(), Error>)
    requires
        fs.inv(),
        reader_ok(read),
        old(map).inv(),
    ensures
        final(map).inv(),
        marks_only_used(*old(map), *final(map)),
        spec_decode_extent_header(spec_iblock_bytes(*inode), 0).eh_depth == 0 ==> (r is Ok
            && *final(map) == *old(map)),
{
    let ghost m0 = *map;
    let raw = iblock_bytes(inode);
    let header = ExtentHeader::decode(raw.as_slice(), 0);
    if header.eh_depth == 0 {
        return Ok(());
    }
    let count = header.eh_entries as usize;
    if count > 4 {
        // The root's 60 bytes hold at most 4 records after the header.
        return Err(Error::TruncatedExtentNode);
    }
    let mut i: usize = 0;
    while i < count
        invariant
            fs.inv(),
            reader_ok(read),
            0 <= i <= count,
            count <= 4,
            raw@.len() == 60,
            m0 == *old(map),
            spec_decode_extent_header(spec_iblock_bytes(*inode), 0).eh_depth != 0,
            map.inv(),
            marks_only_used(m0, *map),
        decreases count - i,
    {
        let idx = ExtentIdx::decode(raw.as_slice(), 12 + i * 12);
        let block = hilo16(idx.ei_leaf_hi, idx.ei_leaf_lo);
        let ghost mp = *map;
        let res = scan_extent_block(map, block, fs, read, header.eh_depth);
        proof {
            lemma_marks_only_used_trans(m0, mp, *map);
        }
        match res {
            Ok(_) => {},
            Err(e) => {
                return Err(e);
            },
        }
        i = i + 1;
    }
    Ok(())
}

/// Marks the space of one non-root extent tree node and, below index nodes,
/// of its descendants.  `budget` bounds the remaining tree depth.
pub fn scan_extent_block<F: Fn(u64, u64) -> Result<Vec<u8>, Error> + Copy>(
    map: &mut UsageMap,
    block: u64,
    fs: &Fs,
    read: F,
    budget: u16,
) -> (r: Result<(), Error>)
    requires
        fs.inv(),
        reader_ok(read),
        old(map).inv(),
    ensures
        final(map).inv(),
        marks_only_used(*old(map), *final(map)),
        r is Ok ==> ((block as int) * (fs.spec_bs() as int) <= u64::MAX && (exists|buf: Vec<u8>|
            #[trigger] call_ensures(
                read,
                ((((block as int) * (fs.spec_bs() as int)) as u64), fs.spec_bs()),
                Ok::<Vec<u8>, Error>(buf),
            ))),
    decreases budget,
{
    let ghost m0 = *map;
    let bs = block_size_of(fs.sb.s_log_block_size);
    let addr = match block.checked_mul(bs) {
        Some(v) => v,
        None => {
            return Err(Error::Overflow);
        },
    };
    let buf = match read(addr, bs) {
        Ok(v) => v,
        Err(_) => {
            return Err(Error::Io);
        },
    };
    let header = ExtentHeader::decode(buf.as_slice(), 0);

    // The node's own footprint: header, records, and checksum tail.
    let ghost m1 = *map;
    match mark_extent_node_footprint(map, header.eh_entries, addr, bs) {
        Ok(_) => {},
        Err(e) => {
            proof {
                lemma_marks_only_used_trans(m0, m1, *map);
            }
            return Err(e);
        },
    }
    proof {
        lemma_marks_only_used_trans(m0, m1, *map);
    }

    if header.eh_depth == 0 {
        return Ok(());
    }
    if budget == 0 {
        return Err(Error::ExtentTreeTooDeep);
    }
    let count = header.eh_entries as usize;
    let blen = buf.len();
    if count > (blen - 12) / 12 {
        return Err(Error::TruncatedExtentNode);
    }
    let mut i: usize = 0;
    while i < count
        invariant
            fs.inv(),
            reader_ok(read),
            0 <= i <= count,
            12 + count * 12 <= blen,
            blen == buf@.len(),
            budget >= 1,
            m0 == *old(map),
            map.inv(),
            marks_only_used(m0, *map),
        decreases count - i,
    {
        let idx = ExtentIdx::decode(buf.as_slice(), 12 + i * 12);
        let sub_block = hilo16(idx.ei_leaf_hi, idx.ei_leaf_lo);
        let ghost mp = *map;
        let res = scan_extent_block(map, sub_block, fs, read, budget - 1);
        proof {
            lemma_marks_only_used_trans(m0, mp, *map);
        }
        match res {
            Ok(_) => {},
            Err(e) => {
                return Err(e);
            },
        }
        i = i + 1;
    }
    Ok(())
}


/// A leaf's contribution to the usage map at address `a`: the physical byte
/// range `[phys * bs, phys * bs + len)`, where `len` is the leaf's byte
/// length clipped so the logical range stays below the file size.  A leaf
/// whose logical start lies at or past the file size contributes nothing.
pub open spec fn spec_leaf_marks(e: Extent, file_size: u64, bs: u64, a: u64) -> bool {
    let log_start = (e.ee_block as int) * (bs as int);
    let full_len = (e.ee_len as int) * (bs as int);
    let len = if file_size - log_start < full_len {
        file_size - log_start
    } else {
        full_len
    };
    let phys = (hilo16(e.ee_start_hi, e.ee_start_lo) as int) * (bs as int);
    log_start < file_size && phys <= a < phys + len
}

/// Some leaf of the sequence contributes address `a`.
pub open spec fn spec_leaves_mark(leaves: Seq<Extent>, file_size: u64, bs: u64, a: u64) -> bool {
    exists|i: int| 0 <= i < leaves.len() && #[trigger] spec_leaf_marks(leaves[i], file_size, bs, a)
}

/// A leaf can be marked on a map of size `msize`: its byte products fit the
/// 64-bit address space and, unless the leaf is clipped away entirely, its
/// physical start lies within the map.
pub open spec fn spec_leaf_ok(e: Extent, file_size: u64, bs: u64, msize: u64) -> bool {
    let log_start = (e.ee_block as int) * (bs as int);
    let full_len = (e.ee_len as int) * (bs as int);
    let phys = (hilo16(e.ee_start_hi, e.ee_start_lo) as int) * (bs as int);
    &&& log_start <= u64::MAX
    &&& (log_start < file_size ==> full_len <= u64::MAX && phys <= u64::MAX && phys <= msize)
}

/// Marks the physical range of every leaf, clipped to the file size: on
/// success the map's new status is `Used` exactly on the union of the
/// leaves' clipped ranges, and unchanged elsewhere.
#[verifier::loop_isolation(false)]
pub fn mark_extent_leaves(
    map: &mut UsageMap,
    leaves: &Vec<Extent>,
    file_size: u64,
    bs: u64,
) -> (r: Result<(), Error>)
    requires
        old(map).inv(),
        bs >= 1024,
    ensures
        final(map).inv(),
        marks_only_used(*old(map), *final(map)),
        r is Ok <==> (forall|k: int|
            0 <= k < leaves@.len() ==> spec_leaf_ok(
                #[trigger] leaves@[k],
                file_size,
                bs,
                old(map).spec_size(),
            )),
        r is Err ==> (r->Err_0 == Error::Overflow || r->Err_0 == Error::AddressBeyondDrive),
        r is Ok ==> forall|a: u64|
            a < old(map).spec_size() ==> #[trigger] final(map).status_at(a) == (
            if spec_leaves_mark(leaves@, file_size, bs, a) {
                crate::usage_map::AllocStatus::Used
            } else {
                old(map).status_at(a)
            }),
{
    let ghost m0 = *map;
    let count = leaves.len();
    let mut i: usize = 0;
    while i < count
        invariant
            0 <= i <= count,
            map.inv(),
            marks_only_used(m0, *map),
            forall|k: int|
                0 <= k < i ==> spec_leaf_ok(#[trigger] leaves@[k], file_size, bs, m0.spec_size()),
            forall|a: u64|
                a < m0.spec_size() ==> #[trigger] map.status_at(a) == (if spec_leaves_mark(
                    leaves@.subrange(0, i as int),
                    file_size,
                    bs,
                    a,
                ) {
                    crate::usage_map::AllocStatus::Used
                } else {
                    m0.status_at(a)
                }),
        decreases count - i,
    {
        let e = leaves[i];
        let ghost pre = leaves@.subrange(0, i as int);
        let ghost post = leaves@.subrange(0, i + 1);
        proof {
            assert forall|k: int| 0 <= k < pre.len() implies post[k] == pre[k] by {}
            assert(post[i as int] == e);
        }
        // Position within the file.
        let log_start = match (e.ee_block as u64).checked_mul(bs) {
            Some(v) => v,
            None => {
                proof {
                    assert(!spec_leaf_ok(leaves@[i as int], file_size, bs, m0.spec_size()));
                }
                return Err(Error::Overflow);
            },
        };
        if log_start >= file_size {
            proof {
                assert forall|a: u64| a < m0.spec_size() implies #[trigger] map.status_at(a) == (
                if spec_leaves_mark(post, file_size, bs, a) {
                    crate::usage_map::AllocStatus::Used
                } else {
                    m0.status_at(a)
                }) by {
                    assert forall|k: int|
                        0 <= k < post.len() && #[trigger] spec_leaf_marks(
                            post[k],
                            file_size,
                            bs,
                            a,
                        ) implies spec_leaves_mark(pre, file_size, bs, a) by {
                        assert(k < pre.len());
                        assert(pre[k] == post[k]);
                    }
                    if spec_leaves_mark(pre, file_size, bs, a) {
                        let k = choose|k: int|
                            0 <= k < pre.len() && #[trigger] spec_leaf_marks(
                                pre[k],
                                file_size,
                                bs,
                                a,
                            );
                        assert(spec_leaf_marks(post[k], file_size, bs, a));
                    }
                }
            }
        } else {
            let full_len = match (e.ee_len as u64).checked_mul(bs) {
                Some(v) => v,
                None => {
                    proof {
                        assert(!spec_leaf_ok(leaves@[i as int], file_size, bs, m0.spec_size()));
                    }
                    return Err(Error::Overflow);
                },
            };
            let len = if file_size - log_start < full_len {
                file_size - log_start
            } else {
                full_len
            };
            // Position on the disk.
            let start = match hilo16(e.ee_start_hi, e.ee_start_lo).checked_mul(bs) {
                Some(v) => v,
                None => {
                    proof {
                        assert(!spec_leaf_ok(leaves@[i as int], file_size, bs, m0.spec_size()));
                    }
                    return Err(Error::Overflow);
                },
            };
            let ghost mp = *map;
            match mark_used(map, start, len) {
                Ok(_) => {},
                Err(err) => {
                    proof {
                        assert(!spec_leaf_ok(leaves@[i as int], file_size, bs, m0.spec_size()));
                    }
                    return Err(err);
                },
            }
            proof {
                lemma_marks_only_used_trans(m0, mp, *map);
                assert forall|a: u64| a < m0.spec_size() implies #[trigger] map.status_at(a) == (
                if spec_leaves_mark(post, file_size, bs, a) {
                    crate::usage_map::AllocStatus::Used
                } else {
                    m0.status_at(a)
                }) by {
                    assert(map.status_at(a) == (if start <= a && a < start + len {
                        crate::usage_map::AllocStatus::Used
                    } else {
                        mp.status_at(a)
                    }));
                    assert(spec_leaf_marks(e, file_size, bs, a) == (start <= a && a < start
                        + len));
                    assert forall|k: int|
                        0 <= k < post.len() && #[trigger] spec_leaf_marks(
                            post[k],
                            file_size,
                            bs,
                            a,
                        ) implies (spec_leaves_mark(pre, file_size, bs, a) || spec_leaf_marks(
                        e,
                        file_size,
                        bs,
                        a,
                    )) by {
                        if k < pre.len() {
                            assert(pre[k] == post[k]);
                        }
                    }
                    if spec_leaves_mark(pre, file_size, bs, a) {
                        let k = choose|k: int|
                            0 <= k < pre.len() && #[trigger] spec_leaf_marks(
                                pre[k],
                                file_size,
                                bs,
                                a,
                            );
                        assert(spec_leaf_marks(post[k], file_size, bs, a));
                    }
                    if spec_leaf_marks(e, file_size, bs, a) {
                        assert(spec_leaf_marks(post[i as int], file_size, bs, a));
                    }
                }
            }
        }
        i = i + 1;
    }
    proof {
        assert(leaves@.subrange(0, count as int) =~= leaves@);
    }
    Ok(())
}

} // verus!
