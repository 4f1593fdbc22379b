//! Desktop-space geometry: cursor samples, monitor rectangles, and the
//! localization of a cursor sample to the monitor that contains it.

use vstd::prelude::*;

verus! {

/// A cursor position in desktop pixel coordinates.
#[derive(Clone, Copy, Debug, PartialEq, Eq, Structural)]
pub struct CursorSample {
    pub x: i32,
    pub y: i32,
}

/// One display's placement in desktop space.
#[derive(Clone, Copy, Debug, PartialEq, Eq, Structural)]
pub struct MonitorRect {
    pub x: i32,
    pub y: i32,
    pub width: i32,
    pub height: i32,
}

/// Point-in-rectangle containment, with both edges inclusive.
pub open spec fn rect_contains(m: MonitorRect, x: int, y: int) -> bool {
    &&& m.x <= x <= m.x + m.width
    &&& m.y <= y <= m.y + m.height
}

/// The first monitor in the list that contains the point, if any.
pub open spec fn first_containing(ms: Seq<MonitorRect>, x: int, y: int) -> Option<MonitorRect>
    decreases ms.len(),
{
    if ms.len() == 0 {
        None
    } else if rect_contains(ms[0], x, y) {
        Some(ms[0])
    } else {
        first_containing(ms.subrange(1, ms.len() as int), x, y)
    }
}

/// A monitor found by `first_containing` does contain the point.
pub proof fn lemma_first_containing_contains(ms: Seq<MonitorRect>, x: int, y: int)
    ensures
        first_containing(ms, x, y) matches Some(m) ==> rect_contains(m, x, y),
    decreases ms.len(),
{
    if ms.len() > 0 && !rect_contains(ms[0], x, y) {
        lemma_first_containing_contains(ms.subrange(1, ms.len() as int), x, y);
    }
}

/// Whether the rectangle contains the sample. Comparisons are widened so
/// that `x + width` cannot overflow.
pub fn contains(m: &MonitorRect, s: &CursorSample) -> (r: bool)
    ensures
        r == rect_contains(*m, s.x as int, s.y as int),
{
    let x = s.x as i64;
    let y = s.y as i64;
    let mx = m.x as i64;
    let my = m.y as i64;
    x >= mx && x <= mx + m.width as i64 && y >= my && y <= my + m.height as i64
}

proof fn lemma_first_containing_skip(ms: Seq<MonitorRect>, x: int, y: int, i: int)
    requires
        0 <= i < ms.len(),
        !rect_contains(ms[i], x, y),
    ensures
        first_containing(ms.subrange(i, ms.len() as int), x, y) == first_containing(
            ms.subrange(i + 1, ms.len() as int),
            x,
            y,
        ),
{
    let tail = ms.subrange(i, ms.len() as int);
    assert(tail.subrange(1, tail.len() as int) =~= ms.subrange(i + 1, ms.len() as int));
}

/// Finds the monitor owning the cursor: the first rectangle in the list
/// that contains the sample.
pub fn locate(monitors: &Vec<MonitorRect>, s: &CursorSample) -> (r: Option<MonitorRect>)
    ensures
        r == first_containing(monitors@, s.x as int, s.y as int),
{
    let ghost all = monitors@;
    proof {
        assert(all.subrange(0, all.len() as int) =~= all);
    }
    let mut i: usize = 0;
    while i < monitors.len()
        invariant
            0 <= i <= monitors.len(),
            all == monitors@,
            first_containing(all, s.x as int, s.y as int) == first_containing(
                all.subrange(i as int, all.len() as int),
                s.x as int,
                s.y as int,
            ),
        decreases monitors.len() - i,
    {
        let m = monitors[i];
        if contains(&m, s) {
            assert(all.subrange(i as int, all.len() as int)[0] == m);
            return Some(m);
        }
        proof {
            lemma_first_containing_skip(all, s.x as int, s.y as int, i as int);
        }
        i = i + 1;
    }
    assert(all.subrange(i as int, all.len() as int).len() == 0);
    None
}

/// The cursor's y coordinate relative to the top of the monitor that
/// contains it. Containment bounds the difference, so the subtraction
/// cannot overflow.
pub fn local_y(m: &MonitorRect, s: &CursorSample) -> (r: i32)
    requires
        rect_contains(*m, s.x as int, s.y as int),
    ensures
        r == s.y - m.y,
{
    s.y - m.y
}

} // verus!
