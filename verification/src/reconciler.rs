//! The visibility reconciler: merges cursor-at-top and windows-open events
//! into a single desired-visibility decision and reports a toggle command
//! only when the decision changes.

use vstd::prelude::*;

verus! {

/// An event produced by one of the two watchers and consumed exactly once
/// by the reconciler.
#[derive(Clone, Copy, Debug, PartialEq, Eq, Structural)]
pub enum Event {
    /// The cursor edge detector saw the at-top state change to this value.
    CursorAtTop(bool),
    /// A fresh authoritative query said whether any window is open.
    WindowsOpen(bool),
}

/// The visibility the bar should have, given the two flags: the cursor at
/// the top edge always forces the bar visible; otherwise visibility is the
/// inverse of "any window open".
pub open spec fn desired_visible(cursor_at_top: bool, windows_open: bool) -> bool {
    if cursor_at_top {
        true
    } else {
        !windows_open
    }
}

/// The reconciler's state: the latest value of each flag, and the visibility
/// most recently decided from them.
#[derive(Clone, Copy, Debug, PartialEq, Eq, Structural)]
pub struct Reconciler {
    pub cursor_at_top: bool,
    pub windows_open: bool,
    pub last_decided_visibility: bool,
}

impl Reconciler {
    /// Invariant: the last decision always matches the decision computed
    /// from the two flags.
    pub open spec fn wf(self) -> bool {
        self.last_decided_visibility == desired_visible(self.cursor_at_top, self.windows_open)
    }

    /// Starts with the cursor assumed away from the top and the given
    /// window state, already reconciled so that no spurious toggle is
    /// issued at startup.
    pub fn new(windows_open: bool) -> (r: Reconciler)
        ensures
            r.wf(),
            r.cursor_at_top == false,
            r.windows_open == windows_open,
            r.last_decided_visibility == !windows_open,
    {
        Reconciler {
            cursor_at_top: false,
            windows_open,
            last_decided_visibility: !windows_open,
        }
    }

    /// The state after absorbing one event: the matching flag is replaced
    /// and the decision recomputed.
    pub open spec fn spec_step(self, e: Event) -> Reconciler {
        let cursor_at_top = if e is CursorAtTop { e->CursorAtTop_0 } else { self.cursor_at_top };
        let windows_open = if e is WindowsOpen { e->WindowsOpen_0 } else { self.windows_open };
        Reconciler {
            cursor_at_top,
            windows_open,
            last_decided_visibility: desired_visible(cursor_at_top, windows_open),
        }
    }

    /// Absorbs one event. Returns `Some(v)` exactly when the newly desired
    /// visibility `v` differs from the previous decision, so a toggle must
    /// be driven; the decision is recorded whether or not the drive succeeds.
    pub fn step(&mut self, e: Event) -> (cmd: Option<bool>)
        requires
            old(self).wf(),
        ensures
            final(self).wf(),
            *final(self) == old(self).spec_step(e),
            cmd == (if final(self).last_decided_visibility != old(self).last_decided_visibility {
                Some(final(self).last_decided_visibility)
            } else {
                None::<bool>
            }),
    {
        match e {
            Event::CursorAtTop(v) => {
                self.cursor_at_top = v;
            }
            Event::WindowsOpen(v) => {
                self.windows_open = v;
            }
        }
        let now_visible = if self.cursor_at_top {
            true
        } else {
            !self.windows_open
        };
        let changed = now_visible != self.last_decided_visibility;
        self.last_decided_visibility = now_visible;
        if changed {
            Some(now_visible)
        } else {
            None
        }
    }
}

/// The decision is the disjunction it reads as: visible exactly when the
/// cursor is at the top or no window is open.
pub proof fn lemma_desired_visible_equiv(cursor_at_top: bool, windows_open: bool)
    ensures
        desired_visible(cursor_at_top, windows_open) == (cursor_at_top || !windows_open),
{
}

/// The state after absorbing a whole sequence of events, oldest first.
pub open spec fn apply_events(r: Reconciler, evs: Seq<Event>) -> Reconciler
    decreases evs.len(),
{
    if evs.len() == 0 {
        r
    } else {
        apply_events(r.spec_step(evs[0]), evs.subrange(1, evs.len() as int))
    }
}

/// The value carried by the last `CursorAtTop` event of the sequence, or
/// the initial value where there is none.
pub open spec fn latest_cursor(init: bool, evs: Seq<Event>) -> bool
    decreases evs.len(),
{
    if evs.len() == 0 {
        init
    } else {
        latest_cursor(
            if evs[0] is CursorAtTop {
                evs[0]->CursorAtTop_0
            } else {
                init
            },
            evs.subrange(1, evs.len() as int),
        )
    }
}

/// The value carried by the last `WindowsOpen` event of the sequence, or
/// the initial value where there is none.
pub open spec fn latest_windows(init: bool, evs: Seq<Event>) -> bool
    decreases evs.len(),
{
    if evs.len() == 0 {
        init
    } else {
        latest_windows(
            if evs[0] is WindowsOpen {
                evs[0]->WindowsOpen_0
            } else {
                init
            },
            evs.subrange(1, evs.len() as int),
        )
    }
}

/// After any sequence of events, each flag holds the latest value delivered
/// for it, and the decided visibility is `desired_visible` of those latest
/// values alone. Repeats of a flag are absorbed, and the outcome does not
/// depend on how events of the two kinds interleave, only on the last value
/// of each kind.
pub proof fn lemma_reconcile_latest(r: Reconciler, evs: Seq<Event>)
    requires
        r.wf(),
    ensures
        apply_events(r, evs).wf(),
        apply_events(r, evs).cursor_at_top == latest_cursor(r.cursor_at_top, evs),
        apply_events(r, evs).windows_open == latest_windows(r.windows_open, evs),
        apply_events(r, evs).last_decided_visibility == desired_visible(
            latest_cursor(r.cursor_at_top, evs),
            latest_windows(r.windows_open, evs),
        ),
    decreases evs.len(),
{
    if evs.len() > 0 {
        lemma_reconcile_latest(r.spec_step(evs[0]), evs.subrange(1, evs.len() as int));
    }
}

} // verus!
