//! A continuous-time token bucket with nanosecond refill granularity. All
//! arithmetic saturates, so no timestamp or rate can make the count wrap and
//! let a source past its limit.
use vstd::prelude::*;
use crate::verdict::Verdict;

verus! {

/// Nanoseconds in one second.
pub const NS_PER_SEC: u64 = 1_000_000_000;

/// Rate-limiting state of one source.
#[derive(Clone, Copy, Debug, PartialEq, Eq, Structural)]
pub struct TokenBucket {
    /// Bytes that may still be admitted.
    pub tokens: u64,
    /// Timestamp, in nanoseconds, of the last refill.
    pub last_ns: u64,
    /// Tokens added per elapsed nanosecond.
    pub rate_per_ns: u64,
    /// Most tokens the bucket can hold.
    pub burst: u64,
}

/// `x * y`, or `u64::MAX` where the product does not fit.
pub open spec fn sat_mul(x: u64, y: u64) -> u64 {
    if x * y > u64::MAX {
        u64::MAX
    } else {
        (x * y) as u64
    }
}

/// The smaller of two counts.
pub open spec fn min_u64(x: u64, y: u64) -> u64 {
    if x <= y {
        x
    } else {
        y
    }
}

/// `rate` bytes per second as whole bytes per nanosecond, rounded up.
pub open spec fn per_ns_ceil(rate: u64) -> u64 {
    ((rate as int + NS_PER_SEC as int - 1) / NS_PER_SEC as int) as u64
}

impl TokenBucket {
    /// The count never exceeds the burst size.
    pub open spec fn wf(self) -> bool {
        self.tokens <= self.burst
    }

    /// The bucket after refilling it at time `now`.
    pub open spec fn refilled(self, now: u64) -> TokenBucket {
        let elapsed = now.saturating_sub(self.last_ns);
        if elapsed > 0 && self.rate_per_ns > 0 {
            TokenBucket {
                tokens: min_u64(
                    self.tokens.saturating_add(sat_mul(elapsed, self.rate_per_ns)),
                    self.burst,
                ),
                last_ns: now,
                ..self
            }
        } else {
            self
        }
    }

    /// The bucket and the verdict after a frame of `len` bytes arrives at
    /// time `now`: refill, then debit the frame if the tokens cover it.
    pub open spec fn admitted(self, len: u64, now: u64) -> (TokenBucket, Verdict) {
        let b = self.refilled(now);
        if len <= b.tokens {
            (TokenBucket { tokens: (b.tokens - len) as u64, ..b }, Verdict::Pass)
        } else {
            (b, Verdict::Drop)
        }
    }

    /// The state of a source seen for the first time at `now`: no tokens, and
    /// no rate or burst until the control plane configures one.
    pub open spec fn spec_fresh(now: u64) -> TokenBucket {
        TokenBucket { tokens: 0, last_ns: now, rate_per_ns: 0, burst: 0 }
    }

    /// The state that the control plane seeds for a configured source: a full
    /// bucket of `burst` tokens refilled at `rate` bytes per second.
    pub open spec fn spec_seeded(rate: u64, burst: u64) -> TokenBucket {
        TokenBucket { tokens: burst, last_ns: 0, rate_per_ns: per_ns_ceil(rate), burst }
    }

    /// A bucket for a source first seen at `now`.
    pub fn fresh(now: u64) -> (r: TokenBucket)
        ensures
            r == TokenBucket::spec_fresh(now),
            r.wf(),
    {
        TokenBucket { tokens: 0, last_ns: now, rate_per_ns: 0, burst: 0 }
    }

    /// A full bucket for a source limited to `rate` bytes per second with
    /// bursts of up to `burst` bytes.
    pub fn seeded(rate: u64, burst: u64) -> (r: TokenBucket)
        ensures
            r == TokenBucket::spec_seeded(rate, burst),
            r.wf(),
    {
        TokenBucket { tokens: burst, last_ns: 0, rate_per_ns: rate_per_ns(rate), burst }
    }

    /// Adds the tokens earned since the last refill, up to the burst size.
    pub fn refill(&mut self, now: u64)
        ensures
            *final(self) == old(self).refilled(now),
    {
        let elapsed = now.saturating_sub(self.last_ns);
        if elapsed > 0 && self.rate_per_ns > 0 {
            let refill = match elapsed.checked_mul(self.rate_per_ns) {
                Some(p) => p,
                None => u64::MAX,
            };
            let filled = self.tokens.saturating_add(refill);
            self.tokens = if filled <= self.burst {
                filled
            } else {
                self.burst
            };
            self.last_ns = now;
        }
    }

    /// Accounts for a frame of `len` bytes arriving at `now`: the frame
    /// passes, and its length is debited, only if the refilled bucket holds
    /// at least that many tokens; otherwise it is dropped and the count kept.
    pub fn charge(&mut self, len: u64, now: u64) -> (r: Verdict)
        ensures
            (*final(self), r) == old(self).admitted(len, now),
    {
        self.refill(now);
        if len <= self.tokens {
            self.tokens = self.tokens - len;
            Verdict::Pass
        } else {
            Verdict::Drop
        }
    }
}

/// Converts a rate in bytes per second to whole bytes per nanosecond,
/// rounding up so that any positive rate refills.
pub fn rate_per_ns(rate: u64) -> (r: u64)
    ensures
        r == per_ns_ceil(rate),
{
    let whole = rate / NS_PER_SEC;
    if rate % NS_PER_SEC == 0 {
        whole
    } else {
        whole + 1
    }
}

/// The bucket after a run of frames, each given as its arrival time and its
/// length, taken in order.
pub open spec fn replay(b: TokenBucket, frames: Seq<(u64, u64)>) -> TokenBucket
    decreases frames.len(),
{
    if frames.len() == 0 {
        b
    } else {
        replay(b, frames.drop_last()).admitted(frames.last().1, frames.last().0).0
    }
}

/// Whether the arrival times of a run of frames never go back.
pub open spec fn non_decreasing(frames: Seq<(u64, u64)>) -> bool {
    forall|i: int, j: int| 0 <= i <= j < frames.len() ==> frames[i].0 <= frames[j].0
}

/// One update keeps the count within `[0, burst]`, and never changes the
/// rate or the burst size.
pub proof fn lemma_admitted_within_burst(b: TokenBucket, len: u64, now: u64)
    requires
        b.wf(),
    ensures
        b.admitted(len, now).0.wf(),
        b.admitted(len, now).0.rate_per_ns == b.rate_per_ns,
        b.admitted(len, now).0.burst == b.burst,
{
}

/// With a fixed positive rate and arrival times that never go back, the
/// count stays within `[0, burst]` after every update of a well-formed bucket.
pub proof fn lemma_tokens_stay_within_burst(b: TokenBucket, frames: Seq<(u64, u64)>)
    requires
        b.wf(),
        b.rate_per_ns > 0,
        non_decreasing(frames),
    ensures
        forall|k: int|
            0 <= k <= frames.len() ==> {
                let s = #[trigger] replay(b, frames.take(k));
                &&& s.wf()
                &&& s.rate_per_ns == b.rate_per_ns
                &&& s.burst == b.burst
            },
    decreases frames.len(),
{
    if frames.len() > 0 {
        let rest = frames.drop_last();
        assert(non_decreasing(rest));
        lemma_tokens_stay_within_burst(b, rest);
        assert forall|k: int| 0 <= k <= frames.len() implies {
            let s = #[trigger] replay(b, frames.take(k));
            &&& s.wf()
            &&& s.rate_per_ns == b.rate_per_ns
            &&& s.burst == b.burst
        } by {
            if k < frames.len() {
                assert(frames.take(k) =~= rest.take(k));
            } else {
                assert(frames.take(k) =~= frames);
                assert(rest.take(rest.len() as int) =~= rest);
                lemma_admitted_within_burst(replay(b, rest), frames.last().1, frames.last().0);
            }
        }
    }
}

} // verus!
