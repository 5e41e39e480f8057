//! Windowing state for a keyboard-navigable list.
//!
//! A `ScrollWindow` holds only a committed cursor: the selected entry and the
//! index of the first visible row.  The list length and the viewport height
//! are supplied at each call, because both vary independently of the cursor
//! (the list is rebuilt per popup, the viewport per render).

use vstd::prelude::*;

verus! {

#[derive(Clone, Copy, Debug, PartialEq, Eq, Structural)]
pub struct ScrollWindow {
    pub selected_index: Option<usize>,
    pub scroll_top: usize,
}

/// Selection after one upward move over a list of `len > 0` entries: one step
/// up, wrapping from the top to the bottom entry.
pub open spec fn spec_up_index(sel: Option<usize>, len: usize) -> usize
    recommends
        len > 0,
{
    match sel {
        Some(i) => if i > 0 {
            (i - 1) as usize
        } else {
            (len - 1) as usize
        },
        None => (len - 1) as usize,
    }
}

/// Selection after one downward move over a list of `len > 0` entries: one
/// step down, wrapping from the bottom entry back to the top.
pub open spec fn spec_down_index(sel: Option<usize>, len: usize) -> usize
    recommends
        len > 0,
{
    match sel {
        Some(i) => if i + 1 < len {
            (i + 1) as usize
        } else {
            0
        },
        None => 0,
    }
}

/// The selection that `ensure_visible` commits to: the current one, clamped
/// into the list, or the first entry when nothing was selected.
pub open spec fn spec_clamped_sel(sel: Option<usize>, len: usize) -> int
    recommends
        len > 0,
{
    match sel {
        Some(i) => vstd::math::min(i as int, len - 1),
        None => 0,
    }
}

/// The scroll top that `ensure_visible` commits to: moved no further than
/// needed to bring `sel` into the `rows`-high window, then clamped so the
/// window never hangs past the end of the list.
pub open spec fn spec_visible_top(top: int, sel: int, len: int, rows: int) -> int
    recommends
        len > 0,
        rows > 0,
        0 <= sel < len,
{
    let moved = if sel < top {
        sel
    } else if sel >= top + rows {
        sel + 1 - rows
    } else {
        top
    };
    vstd::math::min(moved, vstd::math::max(len - rows, 0))
}

/// The whole effect of `ensure_visible`, as a function on the cursor.
pub open spec fn spec_ensure_visible(w: ScrollWindow, len: usize, rows: usize) -> ScrollWindow {
    if len == 0 || rows == 0 {
        ScrollWindow { selected_index: w.selected_index, scroll_top: 0 }
    } else {
        let sel = spec_clamped_sel(w.selected_index, len);
        ScrollWindow {
            selected_index: Some(sel as usize),
            scroll_top: spec_visible_top(w.scroll_top as int, sel, len as int, rows as int) as usize,
        }
    }
}

/// The whole effect of one navigation key: a wrapping selection move, then
/// `ensure_visible` with the row budget in hand.  An empty list ignores the
/// key.
pub open spec fn spec_nav(w: ScrollWindow, len: usize, rows: usize, up: bool) -> ScrollWindow {
    if len == 0 {
        w
    } else {
        let sel = if up {
            spec_up_index(w.selected_index, len)
        } else {
            spec_down_index(w.selected_index, len)
        };
        spec_ensure_visible(
            ScrollWindow { selected_index: Some(sel), scroll_top: w.scroll_top },
            len,
            rows,
        )
    }
}

impl ScrollWindow {
    /// The class invariant over an externally supplied list length and
    /// viewport height: some entry is selected, it lies inside the visible
    /// window, and the window starts within the scrollable range.
    pub open spec fn is_windowed(self, len: int, rows: int) -> bool {
        &&& self.selected_index is Some
        &&& self.selected_index->0 < len
        &&& self.scroll_top <= self.selected_index->0 < self.scroll_top + rows
        &&& self.scroll_top <= vstd::math::max(len - rows, 0)
    }

    pub fn new() -> (w: ScrollWindow)
        ensures
            w.selected_index is None,
            w.scroll_top == 0,
    {
        ScrollWindow { selected_index: None, scroll_top: 0 }
    }

    /// Move the selection one entry up, wrapping from the top to the bottom.
    /// An empty list leaves the cursor untouched.
    pub fn move_selection_up(&mut self, list_length: usize)
        ensures
            list_length == 0 ==> *final(self) == *old(self),
            list_length > 0 ==> final(self).selected_index == Some(
                spec_up_index(old(self).selected_index, list_length),
            ),
            final(self).scroll_top == old(self).scroll_top,
    {
        if list_length == 0 {
            return ;
        }
        self.selected_index = Some(
            match self.selected_index {
                Some(i) => if i > 0 {
                    i - 1
                } else {
                    list_length - 1
                },
                None => list_length - 1,
            },
        );
    }

    /// Move the selection one entry down, wrapping from the bottom back to
    /// the top.  An empty list leaves the cursor untouched.
    pub fn move_selection_down(&mut self, list_length: usize)
        ensures
            list_length == 0 ==> *final(self) == *old(self),
            list_length > 0 ==> final(self).selected_index == Some(
                spec_down_index(old(self).selected_index, list_length),
            ),
            final(self).scroll_top == old(self).scroll_top,
    {
        if list_length == 0 {
            return ;
        }
        self.selected_index = Some(
            match self.selected_index {
                Some(i) => if i < list_length - 1 {
                    i + 1
                } else {
                    0
                },
                None => 0,
            },
        );
    }

    /// Re-establish the class invariant after a selection move or a viewport
    /// change, adjusting `scroll_top` no further than necessary.  A zero-size
    /// list or viewport degenerates to showing nothing from the top.
    pub fn ensure_visible(&mut self, list_length: usize, viewport_rows: usize)
        ensures
            *final(self) == spec_ensure_visible(*old(self), list_length, viewport_rows),
            list_length > 0 && viewport_rows > 0 ==> final(self).is_windowed(
                list_length as int,
                viewport_rows as int,
            ),
    {
        if list_length == 0 || viewport_rows == 0 {
            self.scroll_top = 0;
            return ;
        }
        let sel: usize = match self.selected_index {
            Some(i) => if i < list_length - 1 {
                i
            } else {
                list_length - 1
            },
            None => 0,
        };
        self.selected_index = Some(sel);
        if sel < self.scroll_top {
            self.scroll_top = sel;
        } else if sel - self.scroll_top >= viewport_rows {
            self.scroll_top = sel + 1 - viewport_rows;
        }
        let max_top = if list_length > viewport_rows {
            list_length - viewport_rows
        } else {
            0
        };
        if self.scroll_top > max_top {
            self.scroll_top = max_top;
        }
    }
}

} // verus!
