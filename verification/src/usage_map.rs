//! Run-length encoded usage map over a drive's byte range.
//!
//! The map splits `[0, size)` into maximal segments labelled `Free` or
//! `Used`.  Its invariant: segments are non-empty, contiguous from 0 to the
//! drive size, and no two neighbours share a status.

use vstd::prelude::*;

verus! {

/// Allocation status of a [`Segment`].
#[derive(Clone, Copy, Debug, PartialEq, Eq, Structural)]
pub enum AllocStatus {
    Free,
    Used,
}

/// A run of bytes `[start, end)` on the drive, with one allocation status.
#[derive(Clone, Copy, Debug, PartialEq, Eq, Structural)]
pub struct Segment {
    pub start: u64,
    pub end: u64,
    pub status: AllocStatus,
}

impl Segment {
    /// Byte length of the run.
    pub fn size(&self) -> (r: usize)
        requires
            self.start <= self.end,
            self.end - self.start <= usize::MAX,
        ensures
            r == self.end - self.start,
    {
        (self.end - self.start) as usize
    }
}

/// A sequence of segments that are non-empty, contiguous, and alternate in
/// status.  This is the usage map's shape, minus the anchoring at address 0.
pub open spec fn seg_chain(s: Seq<Segment>) -> bool {
    &&& (forall|i: int| 0 <= i < s.len() ==> (#[trigger] s[i]).start < s[i].end)
    &&& (forall|i: int, j: int|
        0 <= i && j == i + 1 && j < s.len() ==> ((#[trigger] s[i]).end == (#[trigger] s[j]).start
            && s[i].status != s[j].status))
}

/// Reads off the adjacency facts of a chain at one boundary.
pub proof fn lemma_chain_adjacent(s: Seq<Segment>, i: int)
    requires
        seg_chain(s),
        0 <= i,
        i + 1 < s.len(),
    ensures
        s[i].end == s[i + 1].start,
        s[i].status != s[i + 1].status,
{
}

/// Index of the segment a chain assigns to address `a` (the first segment
/// whose end lies above `a`; the last segment when `a` lies beyond the end).
pub open spec fn find_seg(s: Seq<Segment>, a: u64) -> int
    decreases s.len(),
{
    if s.len() <= 1 {
        0
    } else if a < s[0].end {
        0
    } else {
        1 + find_seg(s.drop_first(), a)
    }
}

/// Status a chain assigns to address `a`.
pub open spec fn chain_status(s: Seq<Segment>, a: u64) -> AllocStatus {
    s[find_seg(s, a)].status
}

/// Some segment of `s` covers address `a` with status `st`.
pub open spec fn seg_covers(s: Seq<Segment>, a: u64, st: AllocStatus) -> bool {
    exists|i: int|
        0 <= i < s.len() && (#[trigger] s[i]).start <= a < s[i].end && s[i].status == st
}

/// Segments of a chain appear in address order and do not overlap.
pub proof fn lemma_chain_sorted(s: Seq<Segment>, i: int, j: int)
    requires
        seg_chain(s),
        0 <= i <= j < s.len(),
    ensures
        s[i].start <= s[j].start,
        s[i].end <= s[j].end,
        i < j ==> s[i].end <= s[j].start,
    decreases j - i,
{
    if i < j {
        lemma_chain_sorted(s, i, j - 1);
        lemma_chain_adjacent(s, j - 1);
    }
}

/// Dropping the first segment of a chain leaves a chain.
pub proof fn lemma_chain_drop_first(s: Seq<Segment>)
    requires
        seg_chain(s),
        s.len() > 0,
    ensures
        seg_chain(s.drop_first()),
{
    let t = s.drop_first();
    assert forall|i: int| 0 <= i < t.len() implies (#[trigger] t[i]).start < t[i].end by {
        assert(t[i] == s[i + 1]);
    }
    assert forall|i: int, j: int| 0 <= i && j == i + 1 && j < t.len() implies ((
    #[trigger] t[i]).end == (#[trigger] t[j]).start && t[i].status != t[j].status) by {
        assert(t[i] == s[i + 1]);
        assert(t[j] == s[j + 1]);
        lemma_chain_adjacent(s, i + 1);
    }
}

/// `find_seg` always lands inside a non-empty chain.
proof fn lemma_find_seg_bounds(s: Seq<Segment>, a: u64)
    requires
        s.len() > 0,
    ensures
        0 <= find_seg(s, a) < s.len(),
    decreases s.len(),
{
    if s.len() <= 1 {
    } else if a < s[0].end {
    } else {
        lemma_find_seg_bounds(s.drop_first(), a);
    }
}

/// For an address inside a chain's range, `find_seg` lands on a segment that
/// covers the address.
pub proof fn lemma_find_seg_in_range(s: Seq<Segment>, a: u64)
    requires
        seg_chain(s),
        s.len() > 0,
        s[0].start <= a,
        a < s[s.len() - 1].end,
    ensures
        0 <= find_seg(s, a) < s.len(),
        s[find_seg(s, a)].start <= a < s[find_seg(s, a)].end,
    decreases s.len(),
{
    if s.len() <= 1 {
    } else if a < s[0].end {
    } else {
        let t = s.drop_first();
        lemma_chain_drop_first(s);
        lemma_chain_adjacent(s, 0);
        assert(t[0] == s[1]);
        assert(t[t.len() - 1] == s[s.len() - 1]);
        lemma_find_seg_in_range(t, a);
        assert(t[find_seg(t, a)] == s[1 + find_seg(t, a)]);
    }
}

/// A covering segment is unique, and is the one `find_seg` picks; hence
/// `chain_status` agrees with any covering segment.
pub proof fn lemma_chain_status_of(s: Seq<Segment>, a: u64, i: int)
    requires
        seg_chain(s),
        0 <= i < s.len(),
        s[i].start <= a < s[i].end,
    ensures
        s[0].start <= a < s[s.len() - 1].end,
        find_seg(s, a) == i,
        chain_status(s, a) == s[i].status,
{
    lemma_chain_sorted(s, 0, i);
    lemma_chain_sorted(s, i, s.len() - 1);
    lemma_find_seg_in_range(s, a);
    let k = find_seg(s, a);
    if k < i {
        lemma_chain_sorted(s, k, i);
    }
    if i < k {
        lemma_chain_sorted(s, i, k);
    }
}

/// Past the first segment, a chain's status function agrees with its tail's.
proof fn lemma_chain_status_drop_first(s: Seq<Segment>, a: u64)
    requires
        seg_chain(s),
        s.len() > 1,
        a >= s[0].end,
    ensures
        find_seg(s, a) == 1 + find_seg(s.drop_first(), a),
        chain_status(s, a) == chain_status(s.drop_first(), a),
{
    let t = s.drop_first();
    lemma_find_seg_bounds(t, a);
    let k = find_seg(t, a);
    assert(t[k] == s[1 + k]);
}

/// Two chains over the same address range that assign every address the same
/// status are the same chain: the run-length encoding is canonical.
pub proof fn lemma_chain_canonical(s1: Seq<Segment>, s2: Seq<Segment>)
    requires
        seg_chain(s1),
        seg_chain(s2),
        s1.len() > 0,
        s2.len() > 0,
        s1[0].start == s2[0].start,
        s1[s1.len() - 1].end == s2[s2.len() - 1].end,
        forall|a: u64|
            s1[0].start <= a < s1[s1.len() - 1].end ==> #[trigger] chain_status(s1, a)
                == chain_status(s2, a),
    ensures
        s1 =~= s2,
    decreases s1.len(),
{
    let a0 = s1[0].start;
    lemma_chain_sorted(s1, 0, s1.len() - 1);
    lemma_chain_sorted(s2, 0, s2.len() - 1);
    lemma_chain_status_of(s1, a0, 0);
    lemma_chain_status_of(s2, a0, 0);
    assert(s1[0].status == s2[0].status);
    let e1 = s1[0].end;
    let e2 = s2[0].end;
    if e1 < e2 {
        assert(s1.len() > 1);
        lemma_chain_adjacent(s1, 0);
        lemma_chain_status_of(s1, e1, 1);
        lemma_chain_status_of(s2, e1, 0);
        assert(false);
    }
    if e2 < e1 {
        assert(s2.len() > 1);
        lemma_chain_adjacent(s2, 0);
        lemma_chain_status_of(s2, e2, 1);
        lemma_chain_status_of(s1, e2, 0);
        assert(false);
    }
    assert(s1[0] == s2[0]);
    if s1.len() == 1 {
        if s2.len() > 1 {
            lemma_chain_adjacent(s2, 0);
            lemma_chain_sorted(s2, 1, s2.len() - 1);
            assert(false);
        }
        assert(s1 =~= s2);
    } else {
        if s2.len() == 1 {
            lemma_chain_adjacent(s1, 0);
            lemma_chain_sorted(s1, 1, s1.len() - 1);
            assert(false);
        }
        let t1 = s1.drop_first();
        let t2 = s2.drop_first();
        lemma_chain_drop_first(s1);
        lemma_chain_drop_first(s2);
        lemma_chain_adjacent(s1, 0);
        lemma_chain_adjacent(s2, 0);
        assert(t1[0] == s1[1]);
        assert(t2[0] == s2[1]);
        assert(t1[t1.len() - 1] == s1[s1.len() - 1]);
        assert(t2[t2.len() - 1] == s2[s2.len() - 1]);
        assert forall|a: u64|
            t1[0].start <= a < t1[t1.len() - 1].end implies #[trigger] chain_status(t1, a)
            == chain_status(t2, a) by {
            lemma_chain_status_drop_first(s1, a);
            lemma_chain_status_drop_first(s2, a);
            assert(chain_status(s1, a) == chain_status(s2, a));
        }
        lemma_chain_canonical(t1, t2);
        assert forall|i: int| 0 <= i < s1.len() implies s1[i] == s2[i] by {
            if i > 0 {
                assert(t1[i - 1] == s1[i]);
                assert(t2[i - 1] == s2[i]);
            }
        }
    }
}

/// Appends a piece to a chain under construction, merging it into the last
/// segment when the statuses agree, so the chain property is kept.
fn push_merge(out: &mut Vec<Segment>, piece: Segment)
    requires
        seg_chain(old(out)@),
        piece.start < piece.end,
        old(out)@.len() > 0 ==> old(out)@[old(out)@.len() - 1].end == piece.start,
    ensures
        seg_chain(final(out)@),
        final(out)@.len() > 0,
        final(out)@[final(out)@.len() - 1].end == piece.end,
        final(out)@[0].start == (if old(out)@.len() == 0 {
            piece.start
        } else {
            old(out)@[0].start
        }),
        forall|a: u64, st: AllocStatus| #[trigger]
            seg_covers(final(out)@, a, st) <==> (seg_covers(old(out)@, a, st) || (piece.start <= a
                < piece.end && st == piece.status)),
{
    let ghost pre = out@;
    let n = out.len();
    if n > 0 && out[n - 1].status == piece.status {
        let l = out.pop().unwrap();
        let merged = Segment { start: l.start, end: piece.end, status: l.status };
        out.push(merged);
        proof {
            let post = out@;
            assert(post.len() == pre.len());
            assert(post[post.len() - 1] == merged);
            assert forall|i: int| 0 <= i < post.len() - 1 implies post[i] == pre[i] by {}
            assert forall|i: int| 0 <= i < post.len() implies (#[trigger] post[i]).start
                < post[i].end by {
                if i < post.len() - 1 {
                    assert(post[i] == pre[i]);
                }
            }
            assert forall|i: int, j: int| 0 <= i && j == i + 1 && j < post.len() implies ((
            #[trigger] post[i]).end == (#[trigger] post[j]).start && post[i].status
                != post[j].status) by {
                lemma_chain_adjacent(pre, i);
                assert(post[i] == pre[i]);
                if j < post.len() - 1 {
                    assert(post[j] == pre[j]);
                }
            }
            assert forall|a: u64, st: AllocStatus| #[trigger]
                seg_covers(post, a, st) implies (seg_covers(pre, a, st) || (piece.start <= a
                < piece.end && st == piece.status)) by {
                let i = choose|i: int|
                    0 <= i < post.len() && (#[trigger] post[i]).start <= a < post[i].end
                        && post[i].status == st;
                if i < post.len() - 1 {
                    assert(pre[i].start <= a < pre[i].end && pre[i].status == st);
                } else {
                    if a < l.end {
                        assert(pre[i].start <= a < pre[i].end && pre[i].status == st);
                    }
                }
            }
            assert forall|a: u64, st: AllocStatus| (seg_covers(pre, a, st) || (piece.start <= a
                < piece.end && st == piece.status)) implies #[trigger]
                seg_covers(post, a, st) by {
                if seg_covers(pre, a, st) {
                    let i = choose|i: int|
                        0 <= i < pre.len() && (#[trigger] pre[i]).start <= a < pre[i].end
                            && pre[i].status == st;
                    if i < pre.len() - 1 {
                        assert(post[i].start <= a < post[i].end && post[i].status == st);
                    } else {
                        assert(post[i].start <= a < post[i].end && post[i].status == st);
                    }
                } else {
                    let i = post.len() - 1;
                    assert(post[i].start <= a < post[i].end && post[i].status == st);
                }
            }
        }
    } else {
        out.push(piece);
        proof {
            let post = out@;
            assert(post[post.len() - 1] == piece);
            assert forall|i: int| 0 <= i < post.len() - 1 implies post[i] == pre[i] by {}
            assert forall|i: int| 0 <= i < post.len() implies (#[trigger] post[i]).start
                < post[i].end by {
                if i < post.len() - 1 {
                    assert(post[i] == pre[i]);
                }
            }
            assert forall|i: int, j: int| 0 <= i && j == i + 1 && j < post.len() implies ((
            #[trigger] post[i]).end == (#[trigger] post[j]).start && post[i].status
                != post[j].status) by {
                assert(post[i] == pre[i]);
                if j < post.len() - 1 {
                    assert(post[j] == pre[j]);
                    lemma_chain_adjacent(pre, i);
                }
            }
            assert forall|a: u64, st: AllocStatus| #[trigger]
                seg_covers(post, a, st) implies (seg_covers(pre, a, st) || (piece.start <= a
                < piece.end && st == piece.status)) by {
                let i = choose|i: int|
                    0 <= i < post.len() && (#[trigger] post[i]).start <= a < post[i].end
                        && post[i].status == st;
                if i < post.len() - 1 {
                    assert(pre[i].start <= a < pre[i].end && pre[i].status == st);
                }
            }
            assert forall|a: u64, st: AllocStatus| (seg_covers(pre, a, st) || (piece.start <= a
                < piece.end && st == piece.status)) implies #[trigger]
                seg_covers(post, a, st) by {
                if seg_covers(pre, a, st) {
                    let i = choose|i: int|
                        0 <= i < pre.len() && (#[trigger] pre[i]).start <= a < pre[i].end
                            && pre[i].status == st;
                    assert(post[i].start <= a < post[i].end && post[i].status == st);
                } else {
                    let i = post.len() - 1;
                    assert(post[i].start <= a < post[i].end && post[i].status == st);
                }
            }
        }
    }
}

/// Ordered interval set tracking free and used space on a drive.
#[derive(Clone, Debug)]
pub struct UsageMap(pub Vec<Segment>);

impl UsageMap {
    /// The map's well-formedness: it spans from 0, and its segments form a
    /// non-empty, contiguous, alternating chain.
    pub open spec fn inv(self) -> bool {
        &&& self.0@.len() > 0
        &&& self.0@[0].start == 0
        &&& seg_chain(self.0@)
    }

    /// The size of the mapped range: the last segment's end.
    pub open spec fn spec_size(self) -> u64
        recommends
            self.0@.len() > 0,
    {
        self.0@[self.0@.len() - 1].end
    }

    /// The status the map assigns to address `a`.
    pub open spec fn status_at(self, a: u64) -> AllocStatus {
        chain_status(self.0@, a)
    }

    /// Creates a map of the given size, wholly `Free`.
    pub fn new(len: u64) -> (r: Self)
        requires
            len > 0,
        ensures
            r.inv(),
            r.spec_size() == len,
            r.0@.len() == 1,
            r.0@[0] == (Segment { start: 0, end: len, status: AllocStatus::Free }),
            forall|a: u64| a < len ==> #[trigger] r.status_at(a) == AllocStatus::Free,
    {
        let mut vec: Vec<Segment> = Vec::new();
        vec.push(Segment { start: 0, end: len, status: AllocStatus::Free });
        let r = UsageMap(vec);
        proof {
            assert forall|a: u64| a < len implies #[trigger] r.status_at(a)
                == AllocStatus::Free by {
                lemma_chain_status_of(r.0@, a, 0);
            }
        }
        r
    }

    /// Number of segments in the map.
    pub fn len(&self) -> (r: usize)
        ensures
            r == self.0@.len(),
    {
        self.0.len()
    }

    /// Size of the mapped range, i.e. the largest address plus one.
    pub fn size(&self) -> (r: u64)
        requires
            self.inv(),
        ensures
            r == self.spec_size(),
    {
        self.0[self.0.len() - 1].end
    }

    /// Replaces `[start, min(start + size, self.size()))` with the given
    /// status, keeping the map canonical: overlaps with the same status are
    /// absorbed, differing overlaps are carved out, neighbours re-merged.
    pub fn update(&mut self, start: u64, size: u64, status: AllocStatus)
        requires
            old(self).inv(),
            start <= old(self).spec_size(),
        ensures
            final(self).inv(),
            final(self).spec_size() == old(self).spec_size(),
            forall|a: u64|
                a < old(self).spec_size() ==> #[trigger] final(self).status_at(a) == (if start <= a
                    && a < start + size {
                    status
                } else {
                    old(self).status_at(a)
                }),
    {
        let map_size = self.size();
        let end = if size > map_size - start {
            map_size
        } else {
            start + size
        };
        self.add_segment(Segment { start, end, status });
    }

    /// Overlays one raw segment onto the map.  The segment must lie within
    /// the mapped range; a zero-length segment is a no-op.
    pub fn add_segment(&mut self, new: Segment)
        requires
            old(self).inv(),
            new.start <= new.end,
            new.end <= old(self).spec_size(),
        ensures
            final(self).inv(),
            final(self).spec_size() == old(self).spec_size(),
            forall|a: u64|
                a < old(self).spec_size() ==> #[trigger] final(self).status_at(a) == (if new.start
                    <= a && a < new.end {
                    new.status
                } else {
                    old(self).status_at(a)
                }),
    {
        if new.start == new.end {
            return ;
        }
        let ghost s = self.0@;
        let ghost msize = self.spec_size();
        let n = self.0.len();
        let mut out: Vec<Segment> = Vec::new();
        let mut i: usize = 0;
        while i < n
            invariant
                self == old(self),
                old(self).inv(),
                s == self.0@,
                msize == old(self).spec_size(),
                new.start < new.end,
                new.end <= msize,
                n == s.len(),
                0 <= i <= n,
                seg_chain(out@),
                i == 0 ==> out@.len() == 0,
                i > 0 ==> out@.len() > 0 && out@[out@.len() - 1].end == s[i - 1].end
                    && out@[0].start == 0,
                forall|a: u64, st: AllocStatus| #[trigger]
                    seg_covers(out@, a, st) <==> (i > 0 && a < s[i - 1].end && st == (
                    if new.start <= a && a < new.end {
                        new.status
                    } else {
                        chain_status(s, a)
                    })),
            decreases n - i,
        {
            let seg = self.0[i];
            let ghost pre_iter = out@;
            proof {
                lemma_chain_sorted(s, i as int, n - 1);
                if i > 0 {
                    lemma_chain_adjacent(s, i - 1);
                }
            }
            // Piece of `seg` that lies left of the new segment.
            if seg.start < new.start {
                let e = if seg.end < new.start {
                    seg.end
                } else {
                    new.start
                };
                push_merge(&mut out, Segment { start: seg.start, end: e, status: seg.status });
            }
            // Piece of `seg` that the new segment overlays.
            let ms = if seg.start > new.start {
                seg.start
            } else {
                new.start
            };
            let me = if seg.end < new.end {
                seg.end
            } else {
                new.end
            };
            if ms < me {
                push_merge(&mut out, Segment { start: ms, end: me, status: new.status });
            }
            // Piece of `seg` that lies right of the new segment.
            let rs = if seg.start > new.end {
                seg.start
            } else {
                new.end
            };
            if rs < seg.end {
                push_merge(&mut out, Segment { start: rs, end: seg.end, status: seg.status });
            }
            proof {
                assert(out@.len() > 0);
                assert(out@[out@.len() - 1].end == seg.end);
                assert forall|a: u64, st: AllocStatus| #[trigger]
                    seg_covers(out@, a, st) implies (a < s[i as int].end && st == (if new.start <= a
                    && a < new.end {
                    new.status
                } else {
                    chain_status(s, a)
                })) by {
                    if !(seg_covers(pre_iter, a, st)) {
                        // Covered by one of this iteration's pieces, all of
                        // which lie inside `seg`.
                        assert(seg.start <= a < seg.end);
                        lemma_chain_status_of(s, a, i as int);
                    }
                }
                assert forall|a: u64, st: AllocStatus| (a < s[i as int].end && st == (if new.start
                    <= a && a < new.end {
                    new.status
                } else {
                    chain_status(s, a)
                })) implies #[trigger] seg_covers(out@, a, st) by {
                    if i > 0 && a < s[i - 1].end {
                        assert(seg_covers(pre_iter, a, st));
                    } else {
                        assert(seg.start <= a < seg.end);
                        lemma_chain_status_of(s, a, i as int);
                    }
                }
            }
            i = i + 1;
        }
        self.0 = out;
        proof {
            assert(self.0@[self.0@.len() - 1].end == s[n - 1].end);
            assert(self.spec_size() == msize);
            assert forall|a: u64| a < msize implies #[trigger] self.status_at(a) == (if new.start
                <= a && a < new.end {
                new.status
            } else {
                chain_status(s, a)
            }) by {
                lemma_find_seg_in_range(self.0@, a);
                let k = find_seg(self.0@, a);
                lemma_chain_status_of(self.0@, a, k);
                assert(seg_covers(self.0@, a, self.0@[k].status));
            }
        }
    }
}

/// Usage-map adjacency: in a well-formed map, no segment is empty and no two
/// neighbouring segments share a status.
pub proof fn lemma_adjacent_segments(m: UsageMap)
    requires
        m.inv(),
    ensures
        forall|i: int| 0 <= i < m.0@.len() ==> (#[trigger] m.0@[i]).start < m.0@[i].end,
        forall|i: int, j: int|
            0 <= i && j == i + 1 && j < m.0@.len() ==> (#[trigger] m.0@[i]).status != (
            #[trigger] m.0@[j]).status,
{
}

/// Usage-map coverage: the segments of a well-formed map exactly partition
/// `[0, size)` — they tile it gaplessly, and each address lies in exactly one.
pub proof fn lemma_segments_partition(m: UsageMap)
    requires
        m.inv(),
    ensures
        m.0@[0].start == 0,
        m.0@[m.0@.len() - 1].end == m.spec_size(),
        forall|i: int, j: int|
            0 <= i && j == i + 1 && j < m.0@.len() ==> (#[trigger] m.0@[i]).end == (
            #[trigger] m.0@[j]).start,
        forall|a: u64| a < m.spec_size() ==> seg_covers(m.0@, a, #[trigger] m.status_at(a)),
        forall|i: int, j: int|
            0 <= i < m.0@.len() && 0 <= j < m.0@.len() && i != j ==> ((#[trigger] m.0@[i]).end
                <= m.0@[j].start || (#[trigger] m.0@[j]).end <= m.0@[i].start),
{
    assert forall|a: u64| a < m.spec_size() implies seg_covers(
        m.0@,
        a,
        #[trigger] m.status_at(a),
    ) by {
        lemma_find_seg_in_range(m.0@, a);
        let k = find_seg(m.0@, a);
        lemma_chain_status_of(m.0@, a, k);
        assert(m.0@[k].start <= a < m.0@[k].end);
    }
    assert forall|i: int, j: int|
        0 <= i < m.0@.len() && 0 <= j < m.0@.len() && i != j implies ((#[trigger] m.0@[i]).end
        <= m.0@[j].start || (#[trigger] m.0@[j]).end <= m.0@[i].start) by {
        if i < j {
            lemma_chain_sorted(m.0@, i, j);
        } else {
            lemma_chain_sorted(m.0@, j, i);
        }
    }
}

/// Update idempotence: updating a map twice with identical arguments yields
/// the same map as updating it once.  `once` is any result of `update(start,
/// size, status)` on some map of the same size, and `twice` any result of the
/// same update applied to `once`; the two are then equal, because the ensures
/// of `update` pins the status of every address and the run-length encoding
/// of a well-formed map is canonical.
pub proof fn lemma_update_idempotent(
    once: UsageMap,
    twice: UsageMap,
    start: u64,
    size: u64,
    status: AllocStatus,
)
    requires
        once.inv(),
        twice.inv(),
        twice.spec_size() == once.spec_size(),
        forall|a: u64|
            a < once.spec_size() ==> #[trigger] twice.status_at(a) == (if start <= a && a < start
                + size {
                status
            } else {
                once.status_at(a)
            }),
        forall|a: u64|
            a < once.spec_size() && start <= a && a < start + size ==> #[trigger] once.status_at(a)
                == status,
    ensures
        once.0@ =~= twice.0@,
{
    lemma_chain_sorted(once.0@, 0, once.0@.len() - 1);
    lemma_chain_sorted(twice.0@, 0, twice.0@.len() - 1);
    assert forall|a: u64|
        once.0@[0].start <= a < once.0@[once.0@.len() - 1].end implies #[trigger] chain_status(
        once.0@,
        a,
    ) == chain_status(twice.0@, a) by {
        assert(once.status_at(a) == twice.status_at(a));
    }
    lemma_chain_canonical(once.0@, twice.0@);
}


/// A scan step only turns bytes `Used`: the map keeps its size and no
/// address moves away from `Used` back to `Free`.
pub open spec fn marks_only_used(before: UsageMap, after: UsageMap) -> bool {
    &&& after.spec_size() == before.spec_size()
    &&& forall|a: u64|
        a < before.spec_size() ==> (#[trigger] after.status_at(a) == before.status_at(a)
            || after.status_at(a) == AllocStatus::Used)
}

/// `marks_only_used` composes across successive scan steps.
pub proof fn lemma_marks_only_used_trans(m1: UsageMap, m2: UsageMap, m3: UsageMap)
    requires
        marks_only_used(m1, m2),
        marks_only_used(m2, m3),
    ensures
        marks_only_used(m1, m3),
{
}



} // verus!
