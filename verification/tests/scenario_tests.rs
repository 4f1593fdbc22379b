use autohide::detector::{EdgeDetector, EXIT_THRESHOLD};
use autohide::driver::{set_visible_scripted, PeerBelief};
use autohide::geometry::{CursorSample, MonitorRect};
use autohide::reconciler::{Event, Reconciler};

/// Drives one reconciler command through the toggle driver with deliveries
/// that always succeed, returning how many signals went out.
fn drive(belief: &mut PeerBelief, cmd: Option<bool>) -> usize {
    match cmd {
        Some(v) => set_visible_scripted(belief, v, &vec![true, true, true, true]),
        None => 0,
    }
}

#[test]
fn startup_then_reveal_then_hide() {
    let monitors = vec![MonitorRect { x: 0, y: 0, width: 1920, height: 1080 }];

    // Startup with windows open: desired visibility is false; the belief
    // starts at visible, so the startup convergence sends one hide toggle.
    let windows_open = true;
    let mut reconciler = Reconciler::new(windows_open);
    assert!(!reconciler.last_decided_visibility);
    let mut belief = PeerBelief::new();
    let startup_sends = drive(&mut belief, Some(reconciler.last_decided_visibility));
    assert_eq!(startup_sends, 1);
    assert!(!belief.believed_visible);

    // The synthetic startup events are no-ops.
    let mut detector = EdgeDetector::new();
    assert_eq!(drive(&mut belief, reconciler.step(Event::CursorAtTop(false))), 0);
    assert_eq!(drive(&mut belief, reconciler.step(Event::WindowsOpen(windows_open))), 0);

    // Cursor moves to the top edge: the detector emits an edge, the
    // reconciler decides visible, one show toggle goes out.
    let ev = detector.tick(&CursorSample { x: 100, y: 0 }, &monitors);
    assert_eq!(ev, Some(true));
    let sends = drive(&mut belief, reconciler.step(Event::CursorAtTop(true)));
    assert_eq!(sends, 1);
    assert!(belief.believed_visible);

    // Cursor moves past the exit threshold: windows are still open, so the
    // bar hides again with one toggle.
    let ev = detector.tick(&CursorSample { x: 100, y: EXIT_THRESHOLD + 10 }, &monitors);
    assert_eq!(ev, Some(false));
    let sends = drive(&mut belief, reconciler.step(Event::CursorAtTop(false)));
    assert_eq!(sends, 1);
    assert!(!belief.believed_visible);
}

#[test]
fn lost_signals_self_correct_on_the_next_event() {
    // A toggle whose every delivery fails leaves the belief stale; the next
    // event that changes desired visibility drives a fresh attempt.
    let mut reconciler = Reconciler::new(false);
    assert!(reconciler.last_decided_visibility);
    let mut belief = PeerBelief::new();

    // Windows open: hide wanted, but the peer is unreachable.
    let cmd = reconciler.step(Event::WindowsOpen(true));
    assert_eq!(cmd, Some(false));
    let sends = set_visible_scripted(&mut belief, false, &vec![false, false, false, false]);
    assert_eq!(sends, 4);
    assert!(belief.believed_visible);

    // Windows close again: show wanted; the belief already says visible, so
    // nothing is sent and belief and desire agree again.
    let cmd = reconciler.step(Event::WindowsOpen(false));
    assert_eq!(cmd, Some(true));
    assert_eq!(drive(&mut belief, cmd), 0);
    assert!(belief.believed_visible);
}
