//! The statistics popup: a snapshot of the aggregator rendered as a
//! scrollable, dismissable list.
//!
//! The popup takes one immutable snapshot of the lines at construction and a
//! committed scroll cursor.  Rendering and input run split-phase: each render
//! pass recomputes the row budget from the current area and caches it, and
//! each key press navigates using the budget cached by the previous render.

use vstd::prelude::*;

use crate::lines::StyledLine;
use crate::lines::bold_line;
use crate::lines::build_stats_lines;
use crate::lines::dim_line;
use crate::lines::is_bold_line;
use crate::lines::is_sub_header;
use crate::lines::stats_lines_ok;
use crate::scroll_window::ScrollWindow;
use crate::scroll_window::spec_ensure_visible;
use crate::scroll_window::spec_nav;
use crate::session_stats::SessionStats;

verus! {

/// Most list rows the popup ever shows at once.
pub const MAX_POPUP_ROWS: usize = 8;

/// A decoded key, as the host hands it over.  `plain` is true when the key
/// came with no modifiers.
#[derive(Clone, Copy, Debug, PartialEq, Eq, Structural)]
pub enum KeyCode {
    Up,
    Down,
    Enter,
    Esc,
    Char(char),
    Other,
}

#[derive(Clone, Copy, Debug, PartialEq, Eq, Structural)]
pub struct KeyPress {
    pub code: KeyCode,
    pub plain: bool,
}

/// Up-arrow always scrolls up; the letter shortcut only unmodified.
pub open spec fn is_up_key(k: KeyPress) -> bool {
    k.code is Up || (k.code == KeyCode::Char('k') && k.plain)
}

/// Down-arrow always scrolls down; the letter shortcut only unmodified.
pub open spec fn is_down_key(k: KeyPress) -> bool {
    k.code is Down || (k.code == KeyCode::Char('j') && k.plain)
}

/// Escape and Enter both dismiss this read-only viewer.
pub open spec fn is_dismiss_key(k: KeyPress) -> bool {
    k.code is Esc || k.code is Enter
}

/// How a dismiss request was absorbed.
#[derive(Clone, Copy, Debug, PartialEq, Eq, Structural)]
pub enum CancellationEvent {
    Handled,
    Ignored,
}

/// View for displaying session statistics.
pub struct StatsView {
    pub lines: Vec<StyledLine>,
    pub state: ScrollWindow,
    pub complete: bool,
    pub last_visible_rows: usize,
}

/// The row budget a key press navigates with: the cached render-time budget,
/// never more than the list itself.
pub open spec fn spec_rows_for_scroll(v: StatsView) -> usize {
    if v.lines@.len() == 0 {
        0usize
    } else {
        vstd::math::min(v.last_visible_rows as int, v.lines@.len() as int) as usize
    }
}

/// The list height a render pass commits to: the rows left after the footer,
/// the vertical padding, the header and its separator, capped by the list
/// length and the configured maximum.
pub open spec fn spec_list_height(v: StatsView, area_height: int) -> int {
    let inner_h = vstd::math::max(area_height - 3, 0);
    let avail = vstd::math::max(inner_h - 3, 0);
    vstd::math::min(vstd::math::min(MAX_POPUP_ROWS as int, v.lines@.len() as int), avail)
}

impl StatsView {
    /// Snapshot the aggregator into an immutable line list; the first entry
    /// starts selected.
    pub fn new(stats: &SessionStats, now_ms: u64) -> (v: StatsView)
        requires
            stats.wf(),
        ensures
            stats_lines_ok(stats@, now_ms, v.lines@),
            v.lines@.len() > 0,
            !v.complete,
            v.last_visible_rows == MAX_POPUP_ROWS,
            v.state.selected_index == Some(0usize),
            v.state.scroll_top == 0,
    {
        let lines = build_stats_lines(stats, now_ms);
        let mut state = ScrollWindow::new();
        state.selected_index = Some(0);
        StatsView { lines, state, complete: false, last_visible_rows: MAX_POPUP_ROWS }
    }

    pub fn is_complete(&self) -> (r: bool)
        ensures
            r == self.complete,
    {
        self.complete
    }

    /// A cancel request always dismisses the popup.
    pub fn on_ctrl_c(&mut self) -> (r: CancellationEvent)
        ensures
            *final(self) == (StatsView { complete: true, ..*old(self) }),
            r == CancellationEvent::Handled,
    {
        self.complete = true;
        CancellationEvent::Handled
    }

    pub fn line_count(&self) -> (r: usize)
        ensures
            r == self.lines@.len(),
    {
        self.lines.len()
    }

    pub fn line_at(&self, i: usize) -> (r: &StyledLine)
        requires
            i < self.lines@.len(),
        ensures
            *r == self.lines@[i as int],
    {
        &self.lines[i]
    }

    /// The two-line header block above the list.
    pub fn header_lines(&self) -> (r: Vec<StyledLine>)
        ensures
            r@.len() == 2,
            is_bold_line(r@[0], "Session Statistics"@),
            is_sub_header(r@[1], "Performance metrics for this session."@),
    {
        let mut r: Vec<StyledLine> = Vec::new();
        r.push(bold_line("Session Statistics"));
        r.push(dim_line("Performance metrics for this session."));
        r
    }

    fn visible_rows_for_scroll(&self) -> (r: usize)
        ensures
            r == spec_rows_for_scroll(*self),
    {
        let len = self.lines.len();
        if len == 0 {
            return 0;
        }
        if self.last_visible_rows < len {
            self.last_visible_rows
        } else {
            len
        }
    }

    fn move_up(&mut self)
        ensures
            *final(self) == (StatsView {
                state: spec_nav(
                    old(self).state,
                    old(self).lines@.len() as usize,
                    spec_rows_for_scroll(*old(self)),
                    true,
                ),
                ..*old(self)
            }),
    {
        let len = self.lines.len();
        if len == 0 {
            return ;
        }
        let rows = self.visible_rows_for_scroll();
        self.state.move_selection_up(len);
        self.state.ensure_visible(len, rows);
    }

    fn move_down(&mut self)
        ensures
            *final(self) == (StatsView {
                state: spec_nav(
                    old(self).state,
                    old(self).lines@.len() as usize,
                    spec_rows_for_scroll(*old(self)),
                    false,
                ),
                ..*old(self)
            }),
    {
        let len = self.lines.len();
        if len == 0 {
            return ;
        }
        let rows = self.visible_rows_for_scroll();
        self.state.move_selection_down(len);
        self.state.ensure_visible(len, rows);
    }

    /// Route one key press: navigation keys move the cursor with the cached
    /// row budget, dismiss keys close the popup, anything else is ignored,
    /// and a closed popup stays closed and still.
    pub fn handle_key(&mut self, key: KeyPress)
        ensures
            old(self).complete ==> *final(self) == *old(self),
            !old(self).complete ==> {
                &&& final(self).lines == old(self).lines
                &&& final(self).last_visible_rows == old(self).last_visible_rows
                &&& final(self).complete == is_dismiss_key(key)
                &&& (is_up_key(key) ==> final(self).state == spec_nav(
                    old(self).state,
                    old(self).lines@.len() as usize,
                    spec_rows_for_scroll(*old(self)),
                    true,
                ))
                &&& (is_down_key(key) ==> final(self).state == spec_nav(
                    old(self).state,
                    old(self).lines@.len() as usize,
                    spec_rows_for_scroll(*old(self)),
                    false,
                ))
                &&& (!is_up_key(key) && !is_down_key(key) ==> final(self).state == old(
                    self,
                ).state)
            },
    {
        if self.complete {
            return ;
        }
        match key.code {
            KeyCode::Up => self.move_up(),
            KeyCode::Down => self.move_down(),
            KeyCode::Char(c) => {
                if c == 'k' && key.plain {
                    self.move_up();
                } else if c == 'j' && key.plain {
                    self.move_down();
                }
            },
            KeyCode::Esc => {
                self.complete = true;
            },
            KeyCode::Enter => {
                self.complete = true;
            },
            KeyCode::Other => {},
        }
    }

    /// Render-time windowing: commit the row budget for the given area and
    /// return `(scroll_top, list_height)` — the slice of lines to draw.  The
    /// committed cursor itself is untouched; only key presses move it.  A
    /// zero-area target renders nothing and leaves the budget alone.
    pub fn layout_window(&mut self, area_width: usize, area_height: usize) -> (r: (usize, usize))
        ensures
            final(self).lines == old(self).lines,
            final(self).state == old(self).state,
            final(self).complete == old(self).complete,
            area_width == 0 || area_height == 0 ==> *final(self) == *old(self) && r == (
                0usize,
                0usize,
            ),
            area_width > 0 && area_height > 0 ==> {
                let list_h = spec_list_height(*old(self), area_height as int);
                &&& final(self).last_visible_rows as int == list_h
                &&& r.1 as int == list_h
                &&& (list_h == 0 ==> r.0 == 0)
                &&& (list_h > 0 ==> r.0 == spec_ensure_visible(
                    old(self).state,
                    old(self).lines@.len() as usize,
                    r.1,
                ).scroll_top)
                &&& r.0 + r.1 <= old(self).lines@.len()
            },
    {
        if area_width == 0 || area_height == 0 {
            return (0, 0);
        }
        let inner_h = if area_height > 3 {
            area_height - 3
        } else {
            0
        };
        let avail = if inner_h > 3 {
            inner_h - 3
        } else {
            0
        };
        let len = self.lines.len();
        let cap = if MAX_POPUP_ROWS < len {
            MAX_POPUP_ROWS
        } else {
            len
        };
        let list_h = if cap < avail {
            cap
        } else {
            avail
        };
        self.last_visible_rows = list_h;
        if list_h == 0 {
            return (0, list_h);
        }
        let mut probe = self.state;
        probe.ensure_visible(len, list_h);
        (probe.scroll_top, list_h)
    }

    /// Preferred total height for layout negotiation: header, separator, up
    /// to the configured maximum of list rows, footer and padding.  An upper
    /// bound, not a promise.
    pub fn desired_height(&self, _width: usize) -> (r: usize)
        ensures
            r as int == 2 + 1 + vstd::math::min(MAX_POPUP_ROWS as int, self.lines@.len() as int) + 1
                + 2,
    {
        let len = self.lines.len();
        let lh = if MAX_POPUP_ROWS < len {
            MAX_POPUP_ROWS
        } else {
            len
        };
        2 + 1 + lh + 1 + 2
    }
}

} // verus!
