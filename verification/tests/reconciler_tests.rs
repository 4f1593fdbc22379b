use autohide::reconciler::{Event, Reconciler};

#[test]
fn desired_visible_truth_table() {
    // cursor at top forces visible; otherwise visibility is the inverse of
    // windows-open.
    let mut r = Reconciler::new(false);
    assert!(r.last_decided_visibility);

    // windows open, cursor away: hidden
    let cmd = r.step(Event::WindowsOpen(true));
    assert_eq!(cmd, Some(false));
    assert!(!r.last_decided_visibility);

    // cursor to top: visible even though windows are open
    let cmd = r.step(Event::CursorAtTop(true));
    assert_eq!(cmd, Some(true));
    assert!(r.last_decided_visibility);

    // windows close while cursor at top: still visible, no toggle
    let cmd = r.step(Event::WindowsOpen(false));
    assert_eq!(cmd, None);
    assert!(r.last_decided_visibility);

    // cursor leaves top on an empty desktop: still visible, no toggle
    let cmd = r.step(Event::CursorAtTop(false));
    assert_eq!(cmd, None);
    assert!(r.last_decided_visibility);
}

#[test]
fn latest_value_of_each_flag_wins() {
    // Repeats of one flag are absorbed; only the latest value of each flag
    // matters, however events interleave.
    let mut a = Reconciler::new(false);
    a.step(Event::WindowsOpen(true));
    a.step(Event::WindowsOpen(false));
    a.step(Event::WindowsOpen(true));
    a.step(Event::CursorAtTop(false));

    let mut b = Reconciler::new(false);
    b.step(Event::CursorAtTop(false));
    b.step(Event::WindowsOpen(true));

    assert_eq!(a.cursor_at_top, b.cursor_at_top);
    assert_eq!(a.windows_open, b.windows_open);
    assert_eq!(a.last_decided_visibility, b.last_decided_visibility);
    assert!(!a.last_decided_visibility);
}

#[test]
fn startup_state_issues_no_toggle() {
    // The initial state is already reconciled: replaying the startup events
    // changes nothing.
    let mut r = Reconciler::new(true);
    assert!(!r.last_decided_visibility);
    assert_eq!(r.step(Event::CursorAtTop(false)), None);
    assert_eq!(r.step(Event::WindowsOpen(true)), None);
}
