//! The wrap-around stride counter and its wrap-safe ordering.

use vstd::prelude::*;

verus! {

/// Maximum representable stride value; a task that has run advances its
/// counter by `BIG_STRIDE / priority`, so a larger priority yields a smaller
/// increment and more frequent scheduling.
pub const BIG_STRIDE: u64 = 0xffff_ffff_ffff_ffff;

/// Half of the wrap-around modulus, the radius of the wrap-safe comparison:
/// `BIG_STRIDE / 2`.
pub const STRIDE_HALF: u64 = 0x7fff_ffff_ffff_ffff;

/// A per-task wrap-around fairness counter. Smaller in the wrap-safe order
/// means scheduled sooner.
#[derive(Debug, Clone, Copy)]
pub struct Stride(pub u64);

/// Wrap-safe strict "greater than" on raw counters: when the absolute numeric
/// difference is at most half of the modulus the numerically larger value is
/// the greater one; otherwise the comparison flips, which models ordinary
/// comparison of counters that overflow. Equal counters are never "greater".
pub open spec fn stride_gt(a: u64, b: u64) -> bool {
    if a > b {
        a - b <= STRIDE_HALF
    } else if a < b {
        b - a > STRIDE_HALF
    } else {
        false
    }
}

/// Wrapping distance from `lo` up to `s`: the position of `s` in the window of
/// counters that starts at `lo`.
pub open spec fn wrap_dist(s: u64, lo: u64) -> u64 {
    if s >= lo {
        (s - lo) as u64
    } else {
        (s - lo + 0x1_0000_0000_0000_0000) as u64
    }
}

/// `s` lies within half a modulus above `lo`.
pub open spec fn in_window(s: u64, lo: u64) -> bool {
    wrap_dist(s, lo) <= STRIDE_HALF
}

/// Inside one half-modulus window the wrap-safe order coincides with the
/// ordering of distances from the window's start. Outside such a window the
/// wrap-safe relation is not transitive, so every ordering claim about it is
/// made relative to a window.
pub proof fn lemma_gt_in_window(a: u64, b: u64, lo: u64)
    requires
        in_window(a, lo),
        in_window(b, lo),
    ensures
        stride_gt(a, b) <==> wrap_dist(a, lo) > wrap_dist(b, lo),
{
}

impl Stride {
    /// The wrap-safe comparison the scheduler selects by.
    pub fn wrap_gt(&self, other: &Stride) -> (r: bool)
        ensures
            r == stride_gt(self.0, other.0),
    {
        if self.0 > other.0 {
            self.0 - other.0 <= STRIDE_HALF
        } else if self.0 < other.0 {
            other.0 - self.0 > STRIDE_HALF
        } else {
            false
        }
    }
}

} // verus!
