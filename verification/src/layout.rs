//! Pure screen-layout arithmetic shared by rendering and hit-testing.
use vstd::prelude::*;

verus! {

/// Scroll offset of a list that keeps `selected` visible in a window of
/// `height` rows over `len` rows.
pub open spec fn scroll_of(selected: int, len: int, height: int) -> int {
    if height == 0 || len <= height {
        0
    } else if selected < height {
        0
    } else {
        vstd::math::min(selected + 1 - height, len - height)
    }
}

/// Scroll offset of a list that keeps `selected` visible in a window of
/// `height` rows over `len` rows.
pub fn list_scroll(selected: usize, len: usize, height: usize) -> (r: usize)
    ensures
        r == scroll_of(selected as int, len as int, height as int),
{
    if height == 0 || len <= height {
        return 0;
    }
    if selected < height {
        0
    } else {
        let a = selected - height + 1;
        let b = len - height;
        if a < b { a } else { b }
    }
}

/// A selection moved by `delta` rows, clamped to the list (0 for an empty list).
pub open spec fn moved_index(cur: int, delta: int, len: int) -> int {
    if len == 0 {
        0
    } else if cur + delta < 0 {
        0
    } else if cur + delta > len - 1 {
        len - 1
    } else {
        cur + delta
    }
}

/// Moves a selection by `delta` rows within a list of `len`.
pub fn move_index(cur: usize, delta: isize, len: usize) -> (r: usize)
    requires
        cur <= isize::MAX,
        len <= isize::MAX,
        isize::MIN <= cur + delta <= isize::MAX,
    ensures
        r == moved_index(cur as int, delta as int, len as int),
{
    if len == 0 {
        return 0;
    }
    let v = cur as isize + delta;
    let hi = len as isize - 1;
    if v < 0 {
        0
    } else if v > hi {
        hi as usize
    } else {
        v as usize
    }
}

} // verus!
