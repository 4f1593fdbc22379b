//! The cursor edge detector: applies a dual-threshold (hysteresis) test to
//! the monitor-local cursor height and reports a change of the at-top state
//! only when it flips (edge-triggered).

use vstd::prelude::*;
use crate::geometry::{CursorSample, MonitorRect, first_containing, locate, local_y};

verus! {

/// Distance from the top of the monitor at or below which the bar reveals,
/// when it was hidden.
pub const ENTER_THRESHOLD: i32 = 3;

/// Distance from the top of the monitor above which the bar hides again,
/// when it was revealed. Larger than the enter threshold, so a cursor
/// hovering near the boundary cannot toggle rapidly.
pub const EXIT_THRESHOLD: i32 = 50;

/// The threshold that applies given the previously detected state.
pub open spec fn threshold_for(at_top: bool) -> int {
    if at_top {
        EXIT_THRESHOLD as int
    } else {
        ENTER_THRESHOLD as int
    }
}

/// The detector's whole state: the at-top value it last reported or started
/// with.
#[derive(Clone, Copy, Debug, PartialEq, Eq, Structural)]
pub struct EdgeDetector {
    pub at_top: bool,
}

impl EdgeDetector {
    /// The at-top state after seeing a sample at the given monitor-local
    /// height.
    pub open spec fn spec_observe(self, local_y: int) -> bool {
        local_y <= threshold_for(self.at_top)
    }

    /// Starts with the cursor assumed away from the top edge.
    pub fn new() -> (r: EdgeDetector)
        ensures
            !r.at_top,
    {
        EdgeDetector { at_top: false }
    }

    /// Absorbs one monitor-local cursor height. Returns `Some(v)` exactly
    /// when the at-top state flipped to `v`; repeats of the same state are
    /// suppressed.
    pub fn observe(&mut self, local_y: i32) -> (ev: Option<bool>)
        ensures
            final(self).at_top == old(self).spec_observe(local_y as int),
            ev == (if final(self).at_top != old(self).at_top {
                Some(final(self).at_top)
            } else {
                None::<bool>
            }),
    {
        let threshold = if self.at_top {
            EXIT_THRESHOLD
        } else {
            ENTER_THRESHOLD
        };
        let now_at_top = local_y <= threshold;
        let flipped = now_at_top != self.at_top;
        self.at_top = now_at_top;
        if flipped {
            Some(now_at_top)
        } else {
            None
        }
    }

    /// One poll tick: localizes the sample to the first monitor containing
    /// it and applies the hysteresis test to the monitor-local height. A
    /// sample on no known monitor leaves the state unchanged and emits
    /// nothing.
    pub fn tick(&mut self, s: &CursorSample, monitors: &Vec<MonitorRect>) -> (ev: Option<bool>)
        ensures
            first_containing(monitors@, s.x as int, s.y as int) is None ==> *final(self) == *old(
                self,
            ) && ev is None,
            first_containing(monitors@, s.x as int, s.y as int) matches Some(m) ==> {
                &&& final(self).at_top == old(self).spec_observe(s.y - m.y)
                &&& ev == (if final(self).at_top != old(self).at_top {
                    Some(final(self).at_top)
                } else {
                    None::<bool>
                })
            },
    {
        match locate(monitors, s) {
            Some(m) => {
                proof {
                    crate::geometry::lemma_first_containing_contains(
                        monitors@,
                        s.x as int,
                        s.y as int,
                    );
                }
                let y = local_y(&m, s);
                self.observe(y)
            }
            None => None,
        }
    }
}

/// Hysteresis, stated over the detector's transition function: from the
/// hidden state the bar reveals exactly at or below the enter threshold;
/// from the revealed state it stays revealed until the cursor passes the
/// exit threshold.
pub proof fn lemma_hysteresis(d: EdgeDetector, y: int)
    ensures
        !d.at_top ==> d.spec_observe(y) == (y <= ENTER_THRESHOLD),
        d.at_top ==> d.spec_observe(y) == (y <= EXIT_THRESHOLD),
        ENTER_THRESHOLD < EXIT_THRESHOLD,
{
}

} // verus!
