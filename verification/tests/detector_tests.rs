use autohide::detector::{EdgeDetector, ENTER_THRESHOLD, EXIT_THRESHOLD};
use autohide::geometry::{contains, locate, local_y, CursorSample, MonitorRect};

#[test]
fn hysteresis_enter_and_exit() {
    // From hidden, a sample at the enter threshold flips to at-top.
    let mut d = EdgeDetector::new();
    assert_eq!(d.observe(ENTER_THRESHOLD), Some(true));
    assert!(d.at_top);

    // From at-top, a sample just past the enter threshold but below the
    // exit threshold does not flip back.
    assert_eq!(d.observe(ENTER_THRESHOLD + 1), None);
    assert!(d.at_top);

    // A sample past the exit threshold does flip back.
    assert_eq!(d.observe(EXIT_THRESHOLD + 1), Some(false));
    assert!(!d.at_top);
}

#[test]
fn events_are_edge_triggered() {
    let mut d = EdgeDetector::new();
    // Samples that repeat the current state emit nothing.
    assert_eq!(d.observe(100), None);
    assert_eq!(d.observe(200), None);
    assert_eq!(d.observe(0), Some(true));
    assert_eq!(d.observe(1), None);
    assert_eq!(d.observe(2), None);
    assert_eq!(d.observe(EXIT_THRESHOLD + 5), Some(false));
}

#[test]
fn cursor_attributed_to_owning_monitor() {
    // A cursor on the second of two side-by-side monitors is evaluated at
    // its monitor-local height, not against the first monitor's origin.
    let monitors = vec![
        MonitorRect { x: 0, y: 0, width: 1920, height: 1080 },
        MonitorRect { x: 1920, y: 0, width: 1920, height: 1080 },
    ];
    let s = CursorSample { x: 1920 + 10, y: 5 };
    let m = locate(&monitors, &s).unwrap();
    assert_eq!(m.x, 1920);
    assert_eq!(local_y(&m, &s), 5);
}

#[test]
fn tick_on_stacked_monitors_uses_local_height() {
    // On a monitor below another, a cursor near that monitor's own top edge
    // counts as at-top even though its desktop y is large.
    let monitors = vec![
        MonitorRect { x: 0, y: 0, width: 1920, height: 1080 },
        MonitorRect { x: 0, y: 1080, width: 1920, height: 1080 },
    ];
    let mut d = EdgeDetector::new();
    let s = CursorSample { x: 100, y: 1082 };
    assert_eq!(d.tick(&s, &monitors), Some(true));
    assert!(d.at_top);
}

#[test]
fn tick_off_every_monitor_changes_nothing() {
    let monitors = vec![MonitorRect { x: 0, y: 0, width: 1920, height: 1080 }];
    let mut d = EdgeDetector::new();
    let s = CursorSample { x: 5000, y: 0 };
    assert_eq!(d.tick(&s, &monitors), None);
    assert!(!d.at_top);

    let none: Vec<MonitorRect> = Vec::new();
    let s2 = CursorSample { x: 0, y: 0 };
    assert_eq!(d.tick(&s2, &none), None);
}

#[test]
fn containment_is_inclusive_on_both_edges() {
    let m = MonitorRect { x: 0, y: 0, width: 1920, height: 1080 };
    assert!(contains(&m, &CursorSample { x: 0, y: 0 }));
    assert!(contains(&m, &CursorSample { x: 1920, y: 1080 }));
    assert!(!contains(&m, &CursorSample { x: 1921, y: 0 }));
    assert!(!contains(&m, &CursorSample { x: 0, y: -1 }));
}

#[test]
fn first_containing_monitor_wins() {
    // A point on the shared edge of two monitors goes to the first in the
    // list.
    let monitors = vec![
        MonitorRect { x: 0, y: 0, width: 1920, height: 1080 },
        MonitorRect { x: 1920, y: 0, width: 1920, height: 1080 },
    ];
    let s = CursorSample { x: 1920, y: 50 };
    let m = locate(&monitors, &s).unwrap();
    assert_eq!(m.x, 0);
}
