//! Selection of the byte ranges the space filler overwrites.
//!
//! The filler walks the usage map and rewrites every `Free` segment with
//! bytes from an opaque generator; the generator and the drive writes live
//! outside the library, which pins down exactly which ranges are written.

use crate::usage_map::AllocStatus;
use crate::usage_map::Segment;
use crate::usage_map::UsageMap;
use vstd::prelude::*;

verus! {

/// The subsequence of `Free` segments of `s`, in order.
pub open spec fn spec_free_segments(s: Seq<Segment>) -> Seq<Segment>
    decreases s.len(),
{
    if s.len() == 0 {
        Seq::empty()
    } else {
        spec_free_segments(s.drop_last()) + (if s.last().status == AllocStatus::Free {
            seq![s.last()]
        } else {
            Seq::empty()
        })
    }
}

/// Returns the map's `Free` segments in ascending order: exactly the byte
/// ranges the space filler must overwrite.
pub fn free_segments(map: &UsageMap) -> (r: Vec<Segment>)
    ensures
        r@ == spec_free_segments(map.0@),
{
    let n = map.0.len();
    let mut out: Vec<Segment> = Vec::new();
    let mut i: usize = 0;
    while i < n
        invariant
            n == map.0@.len(),
            0 <= i <= n,
            out@ == spec_free_segments(map.0@.subrange(0, i as int)),
        decreases n - i,
    {
        let seg = map.0[i];
        proof {
            let pre = map.0@.subrange(0, i as int);
            let post = map.0@.subrange(0, i + 1);
            assert(post.drop_last() =~= pre);
            assert(post.last() == map.0@[i as int]);
        }
        if matches!(seg.status, AllocStatus::Free) {
            out.push(seg);
            proof {
                assert(out@ =~= spec_free_segments(map.0@.subrange(0, i + 1)));
            }
        } else {
            proof {
                assert(out@ =~= spec_free_segments(map.0@.subrange(0, i + 1)));
            }
        }
        i = i + 1;
    }
    proof {
        assert(map.0@.subrange(0, n as int) =~= map.0@);
    }
    out
}

} // verus!
