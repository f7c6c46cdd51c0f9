use vstd::prelude::*;

verus! {

/// What the hook tells the driver to do with one frame.
#[derive(Clone, Copy, Debug, PartialEq, Eq, Structural)]
pub enum Verdict {
    /// The frame is malformed; the driver discards it and reports the fault.
    Aborted,
    /// The frame is discarded.
    Drop,
    /// The frame continues to the protocol stack.
    Pass,
}

/// The driver's numeric code for an aborted frame.
pub const XDP_ABORTED: u32 = 0;

/// The driver's numeric code for a dropped frame.
pub const XDP_DROP: u32 = 1;

/// The driver's numeric code for a passed frame.
pub const XDP_PASS: u32 = 2;

impl Verdict {
    pub open spec fn spec_code(self) -> u32 {
        match self {
            Verdict::Aborted => XDP_ABORTED,
            Verdict::Drop => XDP_DROP,
            Verdict::Pass => XDP_PASS,
        }
    }

    /// The action code that the driver expects for this verdict.
    pub fn code(self) -> (r: u32)
        ensures
            r == self.spec_code(),
    {
        match self {
            Verdict::Aborted => XDP_ABORTED,
            Verdict::Drop => XDP_DROP,
            Verdict::Pass => XDP_PASS,
        }
    }
}

} // verus!
