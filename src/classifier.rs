//! The fast path: one verdict per frame, from the frame's bytes, the
//! denylist and the bucket table. Nothing here allocates, blocks or loops
//! over anything but the tables' bounded entries.
use vstd::prelude::*;
use crate::bucket::TokenBucket;
use crate::buckets::{rate_limited, BucketTable};
use crate::denylist::DenyList;
use crate::frame::{ipv4_source, parse_ipv4, FrameError, ETH_HDR_LEN, ETH_P_IP, ETH_TYPE_OFFSET, be16};
use crate::verdict::Verdict;

verus! {

/// The verdict for a frame and the bucket table after it: a truncated frame
/// aborts, a frame that is not IPv4 passes, a denied source drops, and any
/// other source is rate-limited on the frame's whole length.
pub open spec fn classified(
    frame: Seq<u8>,
    deny: Set<u32>,
    s: Seq<(u32, TokenBucket)>,
    now: u64,
) -> (Verdict, Seq<(u32, TokenBucket)>) {
    match ipv4_source(frame) {
        Err(_) => (Verdict::Aborted, s),
        Ok(None) => (Verdict::Pass, s),
        Ok(Some(src)) => if deny.contains(src) {
            (Verdict::Drop, s)
        } else {
            rate_limited(s, src, frame.len() as u64, now)
        },
    }
}

/// The verdict of a frame whose reading hit a fault: the frame is aborted,
/// and the fault ends with it, so the next frame starts afresh.
pub fn panic(fault: FrameError) -> (r: Verdict)
    ensures
        r == Verdict::Aborted,
{
    match fault {
        FrameError::Truncated => Verdict::Aborted,
        FrameError::UnsupportedProtocol => Verdict::Aborted,
    }
}

/// Charges `len` bytes arriving at `now` to the bucket of `src`, creating a
/// fresh bucket for a source seen for the first time.
pub fn rate_limit(buckets: &mut BucketTable, src: u32, len: u64, now: u64) -> (r: Verdict)
    requires
        old(buckets).wf(),
    ensures
        final(buckets).wf(),
        (r, final(buckets)@) == rate_limited(old(buckets)@, src, len, now),
{
    buckets.charge(src, len, now)
}

/// Classifies one frame: abort a truncated frame, pass one that is not
/// IPv4, drop one from a denied source, and otherwise return the rate
/// limiter's verdict.
pub fn classify(frame: &[u8], deny: &DenyList, buckets: &mut BucketTable, now: u64) -> (r: Verdict)
    requires
        old(buckets).wf(),
    ensures
        final(buckets).wf(),
        (r, final(buckets)@) == classified(frame@, deny@, old(buckets)@, now),
{
    match parse_ipv4(frame) {
        Err(e) => panic(e),
        Ok(None) => Verdict::Pass,
        Ok(Some(src)) => {
            if deny.contains(src) {
                Verdict::Drop
            } else {
                rate_limit(buckets, src, frame.len() as u64, now)
            }
        },
    }
}

/// The hook of the rate-limiting program: the full classification of one
/// frame, as `classify` gives it.
pub fn xdp_throttle(frame: &[u8], deny: &DenyList, buckets: &mut BucketTable, now: u64) -> (r: Verdict)
    requires
        old(buckets).wf(),
    ensures
        final(buckets).wf(),
        (r, final(buckets)@) == classified(frame@, deny@, old(buckets)@, now),
{
    classify(frame, deny, buckets, now)
}

/// The hook of the denylist program: the full classification of one frame,
/// as `classify` gives it.
pub fn xdp_firewall_aya(frame: &[u8], deny: &DenyList, buckets: &mut BucketTable, now: u64) -> (r: Verdict)
    requires
        old(buckets).wf(),
    ensures
        final(buckets).wf(),
        (r, final(buckets)@) == classified(frame@, deny@, old(buckets)@, now),
{
    classify(frame, deny, buckets, now)
}

/// The hook of the observing program: the full classification of one frame,
/// as `classify` gives it. The source port that a diagnostic log shows is
/// read apart, by `source_endpoint`, and never changes the verdict.
pub fn myapp(frame: &[u8], deny: &DenyList, buckets: &mut BucketTable, now: u64) -> (r: Verdict)
    requires
        old(buckets).wf(),
    ensures
        final(buckets).wf(),
        (r, final(buckets)@) == classified(frame@, deny@, old(buckets)@, now),
{
    classify(frame, deny, buckets, now)
}

/// A frame shorter than the link-layer header aborts, whatever the tables
/// hold, and leaves the bucket table as it was.
pub proof fn lemma_short_frame_aborts(
    frame: Seq<u8>,
    deny: Set<u32>,
    s: Seq<(u32, TokenBucket)>,
    now: u64,
)
    requires
        frame.len() < ETH_HDR_LEN,
    ensures
        classified(frame, deny, s, now) == (Verdict::Aborted, s),
{
}

/// A frame whose link-layer protocol is not IPv4 passes, whatever the
/// denylist holds, and leaves the bucket table as it was.
pub proof fn lemma_non_ipv4_passes(
    frame: Seq<u8>,
    deny: Set<u32>,
    s: Seq<(u32, TokenBucket)>,
    now: u64,
)
    requires
        frame.len() >= ETH_HDR_LEN,
        be16(frame, ETH_TYPE_OFFSET as int) != ETH_P_IP as int,
    ensures
        classified(frame, deny, s, now) == (Verdict::Pass, s),
{
}

/// A frame from a denied source drops, and leaves the bucket table as it was.
pub proof fn lemma_denied_source_drops(
    frame: Seq<u8>,
    deny: Set<u32>,
    s: Seq<(u32, TokenBucket)>,
    now: u64,
    src: u32,
)
    requires
        ipv4_source(frame) == Ok::<Option<u32>, FrameError>(Some(src)),
        deny.contains(src),
    ensures
        classified(frame, deny, s, now) == (Verdict::Drop, s),
{
}

} // verus!
