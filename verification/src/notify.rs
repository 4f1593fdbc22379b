//! Filtering of the window-manager's notification stream: a line is
//! relevant exactly when it mentions a window or workspace change; all
//! other lines are ignored.

use vstd::prelude::*;

verus! {

/// `needle` occurs contiguously somewhere in `hay`.
pub open spec fn contains_seq(hay: Seq<u8>, needle: Seq<u8>) -> bool {
    exists|i: int|
        0 <= i <= hay.len() - needle.len() && #[trigger] hay.subrange(i, i + needle.len() as int)
            == needle
}

/// Whether the window of `hay` starting at `i` equals `needle`.
fn window_matches(hay: &[u8], needle: &[u8], i: usize) -> (r: bool)
    requires
        i + needle@.len() <= hay@.len(),
        hay@.len() <= usize::MAX,
    ensures
        r == (hay@.subrange(i as int, i + needle@.len() as int) == needle@),
{
    let ghost sub = hay@.subrange(i as int, i + needle@.len() as int);
    let mut k: usize = 0;
    while k < needle.len()
        invariant
            0 <= k <= needle@.len(),
            i + needle@.len() <= hay@.len(),
            hay@.len() <= usize::MAX,
            sub == hay@.subrange(i as int, i + needle@.len() as int),
            forall|t: int| 0 <= t < k ==> hay@[i + t] == needle@[t],
        decreases needle@.len() - k,
    {
        if hay[i + k] != needle[k] {
            proof {
                assert(sub[k as int] == hay@[i + k as int]);
            }
            return false;
        }
        k = k + 1;
    }
    proof {
        assert forall|t: int| 0 <= t < sub.len() implies sub[t] == needle@[t] by {
            assert(sub[t] == hay@[i + t]);
        }
        assert(sub =~= needle@);
    }
    true
}

/// Naive substring search: whether `needle` occurs contiguously in `hay`.
pub fn contains_sub(hay: &[u8], needle: &[u8]) -> (r: bool)
    ensures
        r == contains_seq(hay@, needle@),
{
    if needle.len() > hay.len() {
        return false;
    }
    if needle.len() == 0 {
        proof {
            assert(hay@.subrange(0, 0 + needle@.len() as int) =~= needle@);
        }
        return true;
    }
    let end = hay.len() - needle.len();
    let mut i: usize = 0;
    while i <= end
        invariant
            1 <= needle@.len() <= hay@.len(),
            hay@.len() <= usize::MAX,
            end == hay@.len() - needle@.len(),
            end < usize::MAX,
            0 <= i <= end + 1,
            forall|j: int|
                0 <= j < i ==> #[trigger] hay@.subrange(j, j + needle@.len() as int) != needle@,
        decreases end + 1 - i,
    {
        if window_matches(hay, needle, i) {
            return true;
        }
        i = i + 1;
    }
    false
}

/// The marker naming window changes in notification lines.
pub open spec fn window_marker() -> Seq<u8> {
    seq![119u8, 105u8, 110u8, 100u8, 111u8, 119u8]
}

/// The marker naming workspace changes in notification lines.
pub open spec fn workspace_marker() -> Seq<u8> {
    seq![119u8, 111u8, 114u8, 107u8, 115u8, 112u8, 97u8, 99u8, 101u8]
}

/// Whether a notification line is a window-or-workspace change, and so must
/// trigger a fresh window-state query; every other line is ignored.
pub fn is_relevant_line(line: &[u8]) -> (r: bool)
    ensures
        r == (contains_seq(line@, window_marker()) || contains_seq(line@, workspace_marker())),
{
    let mut w: Vec<u8> = Vec::new();
    w.push(119u8);
    w.push(105u8);
    w.push(110u8);
    w.push(100u8);
    w.push(111u8);
    w.push(119u8);
    assert(w@ =~= window_marker());
    if contains_sub(line, w.as_slice()) {
        return true;
    }
    let mut ws: Vec<u8> = Vec::new();
    ws.push(119u8);
    ws.push(111u8);
    ws.push(114u8);
    ws.push(107u8);
    ws.push(115u8);
    ws.push(112u8);
    ws.push(97u8);
    ws.push(99u8);
    ws.push(101u8);
    assert(ws@ =~= workspace_marker());
    contains_sub(line, ws.as_slice())
}

} // verus!
