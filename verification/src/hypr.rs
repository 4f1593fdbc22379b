//! Readers for the compositor's JSON replies: the cursor-position reply,
//! the monitor-list reply, and the active-workspace reply. The JSON parsing
//! itself is serde_json's; what each reply's text parses to is named by an
//! uninterpreted function, and everything after the parse — range checks
//! and the window-open decision — is verified.

use vstd::prelude::*;
use crate::geometry::{CursorSample, MonitorRect};

verus! {

/// The `x` and `y` integer fields of the JSON object the cursor-position
/// reply text parses to, or nothing where the text is not such an object.
/// A pure function of the text.
pub uninterp spec fn cursor_reply_xy(s: Seq<char>) -> Option<(i64, i64)>;

/// Relies on serde_json::from_str, Value::get and Value::as_i64: parsing
/// is deterministic in the text, and yields the `x` and `y` integer fields
/// of the reply object.
#[verifier::external_body]
fn parse_cursor_reply(s: &str) -> (r: Option<(i64, i64)>)
    ensures
        r == cursor_reply_xy(s@),
{
    let v: serde_json::Value = match serde_json::from_str(s) {
        Ok(v) => v,
        Err(_) => return None,
    };
    let x = v.get("x")?.as_i64()?;
    let y = v.get("y")?.as_i64()?;
    Some((x, y))
}

/// The `{x, y, width, height}` integer fields of each element of the JSON
/// array the monitor-list reply text parses to, or nothing where the text
/// is not such an array. A pure function of the text.
pub uninterp spec fn monitors_reply_rects(s: Seq<char>) -> Option<Seq<(i64, i64, i64, i64)>>;

/// Relies on serde_json::from_str, Value::as_array, Value::get and
/// Value::as_i64: parsing is deterministic in the text, and yields the
/// placement fields of each monitor object in the reply array.
#[verifier::external_body]
fn parse_monitors_reply(s: &str) -> (r: Option<Vec<(i64, i64, i64, i64)>>)
    ensures
        r matches Some(v) ==> monitors_reply_rects(s@) == Some(v@),
        r is None ==> monitors_reply_rects(s@) is None,
{
    let v: serde_json::Value = match serde_json::from_str(s) {
        Ok(v) => v,
        Err(_) => return None,
    };
    let arr = v.as_array()?;
    let mut out: Vec<(i64, i64, i64, i64)> = Vec::with_capacity(arr.len());
    for m in arr {
        let x = m.get("x")?.as_i64()?;
        let y = m.get("y")?.as_i64()?;
        let width = m.get("width")?.as_i64()?;
        let height = m.get("height")?.as_i64()?;
        out.push((x, y, width, height));
    }
    Some(out)
}

/// The `windows` integer field of the JSON object the active-workspace
/// reply text parses to, or nothing where the text is not such an object.
/// A pure function of the text.
pub uninterp spec fn workspace_reply_windows(s: Seq<char>) -> Option<i64>;

/// Relies on serde_json::from_str, Value::get and Value::as_i64: parsing
/// is deterministic in the text, and yields the `windows` count of the
/// reply object.
#[verifier::external_body]
fn parse_workspace_reply(s: &str) -> (r: Option<i64>)
    ensures
        r == workspace_reply_windows(s@),
{
    let v: serde_json::Value = match serde_json::from_str(s) {
        Ok(v) => v,
        Err(_) => return None,
    };
    v.get("windows")?.as_i64()
}

/// Whether both coordinates fit the sample type.
pub open spec fn xy_in_range(xy: (i64, i64)) -> bool {
    &&& i32::MIN <= xy.0 <= i32::MAX
    &&& i32::MIN <= xy.1 <= i32::MAX
}

/// The sample a coordinate pair stands for.
pub open spec fn sample_of(xy: (i64, i64)) -> CursorSample {
    CursorSample { x: xy.0 as i32, y: xy.1 as i32 }
}

/// Reads a cursor-position reply: the sample named by the reply's `x` and
/// `y` fields, or nothing where the reply is malformed or a coordinate
/// overflows the sample type.
pub fn cursor_from_reply(s: &str) -> (r: Option<CursorSample>)
    ensures
        r == match cursor_reply_xy(s@) {
            Some(xy) => if xy_in_range(xy) {
                Some(sample_of(xy))
            } else {
                None::<CursorSample>
            },
            None => None::<CursorSample>,
        },
{
    match parse_cursor_reply(s) {
        Some((x, y)) => {
            if x >= i32::MIN as i64 && x <= i32::MAX as i64 && y >= i32::MIN as i64 && y
                <= i32::MAX as i64 {
                Some(CursorSample { x: x as i32, y: y as i32 })
            } else {
                None
            }
        }
        None => None,
    }
}

/// Whether every placement field fits the rectangle type.
pub open spec fn rect_in_range(t: (i64, i64, i64, i64)) -> bool {
    &&& i32::MIN <= t.0 <= i32::MAX
    &&& i32::MIN <= t.1 <= i32::MAX
    &&& i32::MIN <= t.2 <= i32::MAX
    &&& i32::MIN <= t.3 <= i32::MAX
}

/// The rectangle a placement quadruple stands for.
pub open spec fn rect_of(t: (i64, i64, i64, i64)) -> MonitorRect {
    MonitorRect { x: t.0 as i32, y: t.1 as i32, width: t.2 as i32, height: t.3 as i32 }
}

/// Reads a monitor-list reply: one rectangle per monitor object, in the
/// reply's order, or nothing where the reply is malformed or any placement
/// field overflows the rectangle type.
pub fn monitors_from_reply(s: &str) -> (r: Option<Vec<MonitorRect>>)
    ensures
        monitors_reply_rects(s@) is None ==> r is None,
        r is Some ==> monitors_reply_rects(s@) is Some,
        r matches Some(v) ==> {
            let ts = monitors_reply_rects(s@)->Some_0;
            &&& v@.len() == ts.len()
            &&& forall|i: int|
                0 <= i < ts.len() ==> #[trigger] rect_in_range(ts[i]) && v@[i] == rect_of(ts[i])
        },
        r is None && monitors_reply_rects(s@) is Some ==> {
            let ts = monitors_reply_rects(s@)->Some_0;
            exists|i: int| 0 <= i < ts.len() && !(#[trigger] rect_in_range(ts[i]))
        },
{
    let parsed = match parse_monitors_reply(s) {
        Some(v) => v,
        None => {
            return None;
        }
    };
    let ghost ts = parsed@;
    let mut out: Vec<MonitorRect> = Vec::with_capacity(parsed.len());
    let mut i: usize = 0;
    while i < parsed.len()
        invariant
            monitors_reply_rects(s@) == Some(ts),
            ts == parsed@,
            0 <= i <= parsed@.len(),
            out@.len() == i,
            forall|j: int|
                0 <= j < i ==> #[trigger] rect_in_range(ts[j]) && out@[j] == rect_of(ts[j]),
        decreases parsed@.len() - i,
    {
        let t = parsed[i];
        assert(t == ts[i as int]);
        let x = t.0;
        let y = t.1;
        let width = t.2;
        let height = t.3;
        if x < i32::MIN as i64 || x > i32::MAX as i64 || y < i32::MIN as i64 || y
            > i32::MAX as i64 || width < i32::MIN as i64 || width > i32::MAX as i64 || height
            < i32::MIN as i64 || height > i32::MAX as i64 {
            proof {
                let rs = monitors_reply_rects(s@)->Some_0;
                assert(rs == ts);
                assert(!rect_in_range(rs[i as int]));
            }
            return None;
        }
        let ghost out_before = out@;
        out.push(
            MonitorRect { x: x as i32, y: y as i32, width: width as i32, height: height as i32 },
        );
        proof {
            assert(rect_in_range(ts[i as int]));
            assert(out@[i as int] == rect_of(ts[i as int]));
            assert forall|j: int|
                0 <= j < i + 1 implies rect_in_range(ts[j]) && out@[j] == rect_of(ts[j]) by {
                if j < i {
                    assert(rect_in_range(ts[j]));
                    assert(out_before[j] == rect_of(ts[j]));
                    assert(out@[j] == out_before[j]);
                }
            }
        }
        i = i + 1;
    }
    Some(out)
}

/// Reads an active-workspace reply: whether it says any window is open,
/// that is, whether its `windows` field is a positive count. A malformed
/// reply counts as no windows, as an unavailable source must not flip the
/// bar.
pub fn windows_open_from_reply(s: &str) -> (r: bool)
    ensures
        r == (workspace_reply_windows(s@) matches Some(c) && c > 0),
{
    match parse_workspace_reply(s) {
        Some(c) => c > 0,
        None => false,
    }
}

} // verus!
