//! The peer toggle driver. The bar process offers only an edge-triggered
//! toggle signal and no visibility query, so the driver keeps a local belief
//! about the peer's state, sends a signal only on a believed mismatch, and
//! drives a bounded retry protocol (a fixed number of attempts plus one
//! extra attempt after a longer cooldown) around the lossy delivery.
//!
//! The delivery itself is the caller's: the driver is a state machine
//! (`ToggleSession`) stepped between deliveries, plus a runner that plays a
//! whole invocation against a script of delivery outcomes, one boolean per
//! attempt.

use vstd::prelude::*;

verus! {

/// Number of bounded retry attempts per invocation, before the one extra
/// cooldown attempt.
pub const TOGGLE_ATTEMPTS: usize = 3;

/// Delay between bounded retry attempts, in milliseconds.
pub const RETRY_DELAY_MS: u64 = 100;

/// Longer delay before the one extra attempt, covering a peer that is
/// mid-restart and needs time to re-register its signal handler.
pub const COOLDOWN_DELAY_MS: u64 = 500;

/// Delay after the retry sequence, letting the peer finish processing
/// before the belief is re-validated.
pub const SETTLE_DELAY_MS: u64 = 100;

/// Signal number that reveals the bar (SIGUSR2).
pub const SIG_SHOW: i32 = 12;

/// Signal number that hides the bar (SIGUSR1).
pub const SIG_HIDE: i32 = 10;

/// The signal to deliver for the wanted visibility.
pub fn signal_for(visible: bool) -> (s: i32)
    ensures
        s == if visible {
            SIG_SHOW as int
        } else {
            SIG_HIDE as int
        },
{
    if visible {
        SIG_SHOW
    } else {
        SIG_HIDE
    }
}

/// The driver's belief about the peer's displayed state. The peer offers no
/// query, so this starts from an assumed default and is corrected whenever
/// a toggle round trip completes.
#[derive(Clone, Copy, Debug, PartialEq, Eq, Structural)]
pub struct PeerBelief {
    pub believed_visible: bool,
}

impl PeerBelief {
    /// At process start the bar is assumed visible.
    pub fn new() -> (r: PeerBelief)
        ensures
            r.believed_visible,
    {
        PeerBelief { believed_visible: true }
    }

    /// Records that a delivered toggle put the peer in the given state.
    pub fn mark(&mut self, visible: bool)
        ensures
            final(self).believed_visible == visible,
    {
        self.believed_visible = visible;
    }

    /// Post-invocation re-validation: once the peer has settled, if any
    /// signal of the invocation was delivered the belief is corrected to
    /// the desired value (trusting the signal landed); if none was, the
    /// belief stays, and the next real event retries.
    pub fn reconcile_after(&mut self, desired: bool, signal_sent: bool)
        ensures
            final(self).believed_visible == if signal_sent {
                desired
            } else {
                old(self).believed_visible
            },
    {
        if signal_sent {
            self.believed_visible = desired;
        }
    }
}

/// What the driver should do next within one invocation.
#[derive(Clone, Copy, Debug, PartialEq, Eq, Structural)]
pub enum ToggleStep {
    /// The belief already matches the desired value (a no-op call, or a
    /// concurrent caller converged it first): stand down without sending.
    AlreadyConverged,
    /// Deliver one toggle signal; wait the cooldown delay first when
    /// flagged, else the ordinary retry delay.
    Send { cooldown: bool },
    /// Every bounded attempt and the extra cooldown attempt failed: give
    /// up for this invocation.
    GiveUp,
}

/// One invocation's progress through the bounded retry protocol.
#[derive(Clone, Copy, Debug, PartialEq, Eq, Structural)]
pub struct ToggleSession {
    /// The visibility this invocation is to converge on.
    pub desired: bool,
    /// Bounded attempts still available.
    pub attempts_left: usize,
    /// Whether the one extra cooldown attempt has been spent.
    pub cooldown_done: bool,
    /// Whether any attempt of this invocation was delivered.
    pub succeeded: bool,
}

impl ToggleSession {
    /// Opens an invocation aiming at the given visibility, with the full
    /// attempt budget.
    pub fn begin(desired: bool) -> (s: ToggleSession)
        ensures
            s.desired == desired,
            s.attempts_left == TOGGLE_ATTEMPTS,
            !s.cooldown_done,
            !s.succeeded,
    {
        ToggleSession { desired, attempts_left: TOGGLE_ATTEMPTS, cooldown_done: false, succeeded: false }
    }

    /// The decision taken on a fresh look at the belief: stand down on a
    /// match, else send while budget remains, with the cooldown attempt
    /// last, else give up.
    pub open spec fn spec_next_step(self, believed: bool) -> ToggleStep {
        if believed == self.desired {
            ToggleStep::AlreadyConverged
        } else if self.attempts_left > 0 {
            ToggleStep::Send { cooldown: false }
        } else if !self.cooldown_done {
            ToggleStep::Send { cooldown: true }
        } else {
            ToggleStep::GiveUp
        }
    }

    /// Decides the next step. The belief is re-read on every call, so a
    /// concurrent caller that already converged the state aborts this
    /// invocation before any further signal.
    pub fn next_step(&self, believed: bool) -> (step: ToggleStep)
        ensures
            step == self.spec_next_step(believed),
    {
        if believed == self.desired {
            ToggleStep::AlreadyConverged
        } else if self.attempts_left > 0 {
            ToggleStep::Send { cooldown: false }
        } else if !self.cooldown_done {
            ToggleStep::Send { cooldown: true }
        } else {
            ToggleStep::GiveUp
        }
    }

    /// Accounts for one attempt and its delivery outcome: a bounded attempt
    /// while any remains, else the cooldown attempt.
    pub fn record_attempt(&mut self, delivered: bool)
        requires
            old(self).attempts_left > 0 || !old(self).cooldown_done,
        ensures
            final(self).desired == old(self).desired,
            final(self).succeeded == (old(self).succeeded || delivered),
            old(self).attempts_left > 0 ==> final(self).attempts_left == old(self).attempts_left
                - 1 && final(self).cooldown_done == old(self).cooldown_done,
            old(self).attempts_left == 0 ==> final(self).attempts_left == 0
                && final(self).cooldown_done,
    {
        if self.attempts_left > 0 {
            self.attempts_left = self.attempts_left - 1;
        } else {
            self.cooldown_done = true;
        }
        if delivered {
            self.succeeded = true;
        }
    }
}

/// No delivery outcome among the first `n` was a success.
pub open spec fn all_fail(outcomes: Seq<bool>, n: int) -> bool {
    forall|i: int| 0 <= i < n ==> !outcomes[i]
}

/// Some delivery outcome among the first `n` was a success.
pub open spec fn delivery_within(outcomes: Seq<bool>, n: int) -> bool {
    exists|i: int| 0 <= i < n && i < outcomes.len() && outcomes[i]
}

/// Attempts a mismatched invocation makes when the outcomes from index `i`
/// on are scripted: one per failure, stopping at the first success or when
/// the budget runs out.
pub open spec fn attempts_from(outcomes: Seq<bool>, i: int, budget: int) -> int
    decreases budget,
{
    if budget <= 0 || i < 0 || i >= outcomes.len() {
        0
    } else if outcomes[i] {
        1
    } else {
        1 + attempts_from(outcomes, i + 1, budget - 1)
    }
}

/// Signals one whole invocation sends, given the belief it first observes:
/// none on a match, else one per scripted failure up to the first success,
/// bounded by the attempt budget plus the cooldown attempt.
pub open spec fn spec_sends(believed: bool, desired: bool, outcomes: Seq<bool>) -> int {
    if believed == desired {
        0
    } else {
        attempts_from(outcomes, 0, TOGGLE_ATTEMPTS as int + 1)
    }
}

/// The belief one whole invocation leaves behind: corrected to the desired
/// value exactly when it mismatched and some attempt was delivered.
pub open spec fn spec_belief_after(believed: bool, desired: bool, outcomes: Seq<bool>) -> bool {
    if believed != desired && delivery_within(outcomes, TOGGLE_ATTEMPTS as int + 1) {
        desired
    } else {
        believed
    }
}

proof fn lemma_attempts_skip(outcomes: Seq<bool>, j: int, k: int, budget: int)
    requires
        0 <= j <= k <= outcomes.len(),
        k - j <= budget,
        forall|i: int| j <= i < k ==> !outcomes[i],
    ensures
        attempts_from(outcomes, j, budget) == (k - j) + attempts_from(outcomes, k, budget - (k
            - j)),
    decreases k - j,
{
    if j < k {
        lemma_attempts_skip(outcomes, j + 1, k, budget - 1);
    }
}

/// Plays one whole `set_visible` invocation, taking each attempt's delivery
/// outcome from the script (true = the signal was delivered). Sends nothing
/// on a believed match; otherwise retries through the bounded budget and
/// the one cooldown attempt, corrects the belief on the first delivery, and
/// re-validates the belief at the end. Returns how many signals were sent.
pub fn set_visible_scripted(
    belief: &mut PeerBelief,
    desired: bool,
    outcomes: &Vec<bool>,
) -> (sends: usize)
    requires
        outcomes@.len() >= TOGGLE_ATTEMPTS + 1,
    ensures
        sends == spec_sends(old(belief).believed_visible, desired, outcomes@),
        final(belief).believed_visible == spec_belief_after(
            old(belief).believed_visible,
            desired,
            outcomes@,
        ),
        sends <= TOGGLE_ATTEMPTS + 1,
{
    let ghost b0 = belief.believed_visible;
    let mut session = ToggleSession::begin(desired);
    let mut sends: usize = 0;
    loop
        invariant_except_break
            outcomes@.len() >= TOGGLE_ATTEMPTS + 1,
            session.desired == desired,
            sends <= TOGGLE_ATTEMPTS + 1,
            b0 == desired ==> sends == 0 && !session.succeeded,
            !session.succeeded ==> {
                &&& belief.believed_visible == b0
                &&& all_fail(outcomes@, sends as int)
                &&& (sends <= TOGGLE_ATTEMPTS ==> session.attempts_left == TOGGLE_ATTEMPTS - sends
                    && !session.cooldown_done)
                &&& (sends == TOGGLE_ATTEMPTS + 1 ==> session.attempts_left == 0
                    && session.cooldown_done)
            },
            session.succeeded ==> {
                &&& b0 != desired
                &&& belief.believed_visible == desired
                &&& 1 <= sends <= TOGGLE_ATTEMPTS + 1
                &&& outcomes@[sends - 1]
                &&& all_fail(outcomes@, sends - 1)
            },
        ensures
            session.desired == desired,
            b0 == desired ==> sends == 0 && belief.believed_visible == b0 && !session.succeeded,
            b0 != desired && session.succeeded ==> {
                &&& belief.believed_visible == desired
                &&& 1 <= sends <= TOGGLE_ATTEMPTS + 1
                &&& outcomes@[sends - 1]
                &&& all_fail(outcomes@, sends - 1)
            },
            b0 != desired && !session.succeeded ==> {
                &&& sends == TOGGLE_ATTEMPTS + 1
                &&& all_fail(outcomes@, sends as int)
                &&& belief.believed_visible == b0
            },
        decreases TOGGLE_ATTEMPTS + 2 - sends,
    {
        match session.next_step(belief.believed_visible) {
            ToggleStep::AlreadyConverged => {
                break;
            }
            ToggleStep::GiveUp => {
                break;
            }
            ToggleStep::Send { cooldown: _ } => {
                let delivered = outcomes[sends];
                sends = sends + 1;
                session.record_attempt(delivered);
                if delivered {
                    belief.mark(desired);
                }
            }
        }
    }
    proof {
        if b0 != desired {
            if session.succeeded {
                lemma_attempts_skip(
                    outcomes@,
                    0,
                    sends - 1,
                    TOGGLE_ATTEMPTS as int + 1,
                );
                assert(attempts_from(outcomes@, sends - 1, TOGGLE_ATTEMPTS as int + 1 - (sends
                    - 1)) == 1);
                assert(delivery_within(outcomes@, TOGGLE_ATTEMPTS as int + 1));
            } else {
                lemma_attempts_skip(
                    outcomes@,
                    0,
                    TOGGLE_ATTEMPTS as int + 1,
                    TOGGLE_ATTEMPTS as int + 1,
                );
                assert(!delivery_within(outcomes@, TOGGLE_ATTEMPTS as int + 1));
            }
        }
    }
    belief.reconcile_after(desired, session.succeeded);
    sends
}

/// Idempotence: an invocation whose desired value equals the belief it
/// observes sends no signal and leaves the belief unchanged, whatever the
/// delivery script.
pub proof fn lemma_toggle_idempotent(believed: bool, outcomes: Seq<bool>)
    ensures
        spec_sends(believed, believed, outcomes) == 0,
        spec_belief_after(believed, believed, outcomes) == believed,
{
}

/// A session is aborted by convergence: whatever its progress, once the
/// belief it re-reads matches its goal — as when a concurrent caller got
/// there first — the next step is to stand down, never to send.
pub proof fn lemma_converged_aborts(s: ToggleSession)
    ensures
        s.spec_next_step(s.desired) == ToggleStep::AlreadyConverged,
{
}

/// Race safety: two invocations asking for the value already believed — as
/// two callers racing to the same no-op do, each reading the belief under
/// exclusive access — send zero signals between them.
pub proof fn lemma_race_no_op(believed: bool, first: Seq<bool>, second: Seq<bool>)
    ensures
        spec_sends(believed, believed, first) + spec_sends(believed, believed, second) == 0,
{
}

/// Retry bound: when the belief mismatches and every delivery fails, the
/// driver makes exactly the bounded number of attempts plus the one extra
/// cooldown attempt, then gives up with its belief unchanged.
pub proof fn lemma_retry_bound(believed: bool, desired: bool, outcomes: Seq<bool>)
    requires
        believed != desired,
        outcomes.len() >= TOGGLE_ATTEMPTS + 1,
        all_fail(outcomes, TOGGLE_ATTEMPTS as int + 1),
    ensures
        spec_sends(believed, desired, outcomes) == TOGGLE_ATTEMPTS + 1,
        spec_belief_after(believed, desired, outcomes) == believed,
{
    lemma_attempts_skip(outcomes, 0, TOGGLE_ATTEMPTS as int + 1, TOGGLE_ATTEMPTS as int + 1);
}

} // verus!
