//! Scroll geometry for the view window: how far the window may scroll and
//! which line the visible slice starts at.

use vstd::prelude::*;

verus! {

/// Scroll offset at which the last `height` lines are visible. A zero-height
/// window cannot scroll at all, and fewer lines than rows leave the window
/// pinned at the top.
pub open spec fn spec_max_start(total: int, height: int) -> int {
    if height == 0 {
        0
    } else if total >= height {
        total - height
    } else {
        0
    }
}

/// First visible line when `scroll` and `follow` are applied to a buffer of
/// `total` lines in a window of `height` rows: follow mode pins the window to
/// the bottom, otherwise the stored offset is clamped to the bottom position.
pub open spec fn spec_effective_start(scroll: int, follow: bool, total: int, height: int) -> int {
    if follow {
        spec_max_start(total, height)
    } else if scroll <= spec_max_start(total, height) {
        scroll
    } else {
        spec_max_start(total, height)
    }
}

/// Greatest permissible scroll offset for `total_lines` lines shown in a
/// window of `view_height` rows.
pub fn max_start(total_lines: usize, view_height: usize) -> (r: usize)
    ensures
        r == spec_max_start(total_lines as int, view_height as int),
{
    if view_height == 0 {
        0
    } else if total_lines >= view_height {
        total_lines - view_height
    } else {
        0
    }
}

/// Index of the first line the window shows for the given scroll state.
pub fn effective_start(scroll: usize, follow: bool, total_lines: usize, view_height: usize) -> (r:
    usize)
    ensures
        r == spec_effective_start(
            scroll as int,
            follow,
            total_lines as int,
            view_height as int,
        ),
{
    let bottom = max_start(total_lines, view_height);
    if follow {
        bottom
    } else if scroll <= bottom {
        scroll
    } else {
        bottom
    }
}

/// The bottom scroll offset is zero for an empty buffer and for a zero-height
/// window, and is otherwise the line count minus the height, floored at zero.
pub proof fn lemma_max_start(total: int, height: int)
    requires
        total >= 0,
        height >= 0,
    ensures
        spec_max_start(0, height) == 0,
        spec_max_start(total, 0) == 0,
        height > 0 ==> spec_max_start(total, height) == if total - height >= 0 {
            total - height
        } else {
            0
        },
{
}

} // verus!
