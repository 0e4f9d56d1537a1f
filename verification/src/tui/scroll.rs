use vstd::prelude::*;

verus! {

/// The state of a scrolled list of lines: how many lines there are, how many
/// fit on screen, the selected line and the first line shown (both 0-based).
#[derive(Debug, Clone, Copy, PartialEq, Eq, Structural)]
pub struct ScrollState {
    pub num_lines: usize,
    pub widget_height: usize,
    pub current_line: usize,
    pub scroll_offset: usize,
}

impl ScrollState {
    /// The selected line is a line of the list (line 0 when the list is
    /// empty), and the first line shown is not below it.
    pub open spec fn cursor_in_bounds(self) -> bool {
        &&& self.num_lines == 0 ==> self.current_line == 0
        &&& self.num_lines > 0 ==> self.current_line < self.num_lines
        &&& self.scroll_offset <= self.current_line
    }

    /// The selected line is at most one line below the lines shown.
    pub open spec fn cursor_within(self) -> bool {
        self.current_line <= self.scroll_offset + self.widget_height
    }

    /// The selected line is among the lines shown.
    pub open spec fn cursor_visible(self) -> bool {
        self.scroll_offset <= self.current_line < self.scroll_offset + self.widget_height
    }
}

/// A scrolled list of lines with a selected line.
pub struct Scroll {
    num_lines: usize,
    widget_height: usize,
    pub current_line: usize,
    pub scroll_offset: usize,
}

impl View for Scroll {
    type V = ScrollState;

    closed spec fn view(&self) -> ScrollState {
        ScrollState {
            num_lines: self.num_lines,
            widget_height: self.widget_height,
            current_line: self.current_line,
            scroll_offset: self.scroll_offset,
        }
    }
}

/// The state after moving the selection up by `delta` lines (stopping at the
/// first line) and scrolling up as far as needed to keep it shown.
pub open spec fn scrolled_up(s: ScrollState, delta: usize) -> ScrollState {
    let current = if delta <= s.current_line {
        (s.current_line - delta) as usize
    } else {
        0usize
    };
    ScrollState {
        current_line: current,
        scroll_offset: if s.scroll_offset > current {
            current
        } else {
            s.scroll_offset
        },
        ..s
    }
}

/// The state after moving the selection down by `delta` lines (stopping at
/// the last line) and scrolling down when it passes the bottom of the screen.
pub open spec fn scrolled_down(s: ScrollState, delta: usize) -> ScrollState {
    let current = if s.current_line + delta < s.num_lines {
        (s.current_line + delta) as usize
    } else {
        (s.num_lines - 1) as usize
    };
    ScrollState {
        current_line: current,
        scroll_offset: if s.scroll_offset + s.widget_height <= current {
            (current - s.widget_height) as usize
        } else {
            s.scroll_offset
        },
        ..s
    }
}

/// The state after the screen changes to `new_height` lines, scrolled so that
/// the selection is the bottom line shown when it would fall below the screen.
pub open spec fn resized(s: ScrollState, new_height: usize) -> ScrollState {
    ScrollState {
        widget_height: new_height,
        scroll_offset: if s.current_line >= s.scroll_offset + new_height {
            (s.current_line - new_height + 1) as usize
        } else {
            s.scroll_offset
        },
        ..s
    }
}

impl Scroll {
    /// A list of `num_lines` lines, `widget_height` of them on screen, with the
    /// first line selected and shown at the top.
    pub fn new(num_lines: usize, widget_height: usize) -> (s: Self)
        ensures
            s@ == (ScrollState { num_lines, widget_height, current_line: 0, scroll_offset: 0 }),
            s@.cursor_in_bounds(),
            s@.cursor_within(),
            widget_height > 0 ==> s@.cursor_visible(),
    {
        Self { num_lines, widget_height, current_line: 0, scroll_offset: 0 }
    }

    /// The number of lines of the list.
    pub fn num_lines(&self) -> (n: usize)
        ensures
            n == self@.num_lines,
    {
        self.num_lines
    }

    /// The number of lines on screen.
    pub fn widget_height(&self) -> (h: usize)
        ensures
            h == self@.widget_height,
    {
        self.widget_height
    }

    /// The selected line (0-based).
    pub fn current_line(&self) -> (l: usize)
        ensures
            l == self@.current_line,
    {
        self.current_line
    }

    /// The first line shown (0-based).
    pub fn scroll_offset(&self) -> (l: usize)
        ensures
            l == self@.scroll_offset,
    {
        self.scroll_offset
    }

    /// Moves the selection up by `delta` lines.
    pub fn up(&mut self, delta: usize)
        ensures
            final(self)@ == scrolled_up(old(self)@, delta),
            old(self)@.cursor_in_bounds() ==> final(self)@.cursor_in_bounds(),
            old(self)@.cursor_within() ==> final(self)@.cursor_within(),
            old(self)@.cursor_visible() ==> final(self)@.cursor_visible(),
    {
        if delta <= self.current_line {
            self.current_line -= delta;
        } else {
            self.current_line = 0;
        }

        if self.scroll_offset > self.current_line {
            self.scroll_offset = self.current_line;
        }
    }

    /// Moves the selection down by `delta` lines, within a non-empty list.
    pub fn down(&mut self, delta: usize)
        requires
            old(self)@.num_lines > 0,
            old(self)@.current_line + delta <= usize::MAX,
            old(self)@.scroll_offset + old(self)@.widget_height <= usize::MAX,
        ensures
            final(self)@ == scrolled_down(old(self)@, delta),
            old(self)@.cursor_in_bounds() ==> final(self)@.cursor_in_bounds(),
            final(self)@.cursor_within(),
    {
        if self.current_line + delta < self.num_lines {
            self.current_line += delta;
        } else {
            self.current_line = self.num_lines - 1;
        }
        if self.scroll_offset + self.widget_height <= self.current_line {
            self.scroll_offset = self.current_line - self.widget_height;
        }
    }

    /// Changes the number of lines on screen, keeping the selection shown.
    pub fn resize_height(&mut self, new_height: usize)
        requires
            old(self)@.scroll_offset + new_height <= usize::MAX,
            old(self)@.current_line >= old(self)@.scroll_offset + new_height
                ==> old(self)@.current_line - new_height + 1 <= usize::MAX,
        ensures
            final(self)@ == resized(old(self)@, new_height),
            old(self)@.cursor_in_bounds() && new_height > 0 ==> final(self)@.cursor_in_bounds()
                && final(self)@.cursor_visible(),
            old(self)@.cursor_in_bounds() ==> final(self)@.cursor_within(),
    {
        if self.current_line >= self.scroll_offset + new_height {
            self.scroll_offset = self.current_line - new_height + 1;
        }
        self.widget_height = new_height;
    }

    /// The 1-based numbers of the lines on screen.
    pub fn range(&self) -> (r: std::ops::Range<usize>)
        requires
            1 + self@.scroll_offset + self@.widget_height <= usize::MAX,
            self@.num_lines + 1 <= usize::MAX,
        ensures
            r.start == 1 + self@.scroll_offset,
            r.end == vstd::math::min(1 + self@.scroll_offset + self@.widget_height, self@.num_lines + 1),
    {
        let end = 1 + self.scroll_offset + self.widget_height;
        let last = self.num_lines + 1;
        (1 + self.scroll_offset)..(if end < last {
            end
        } else {
            last
        })
    }
}

/// Moving down undoes moving up, as long as neither move stops at an end
/// of the list.
pub proof fn lemma_down_undoes_up(s: ScrollState, delta: usize)
    requires
        s.cursor_in_bounds(),
        s.num_lines > 0,
        delta <= s.current_line,
    ensures
        scrolled_down(scrolled_up(s, delta), delta).current_line == s.current_line,
{
}

/// Moving up undoes moving down, as long as neither move stops at an end of
/// the list.
pub proof fn lemma_up_undoes_down(s: ScrollState, delta: usize)
    requires
        s.cursor_in_bounds(),
        s.current_line + delta < s.num_lines,
    ensures
        scrolled_up(scrolled_down(s, delta), delta).current_line == s.current_line,
{
}

/// After a resize to a non-empty screen, the selected line (1-based) is among
/// the line numbers that `range` reports.
pub proof fn lemma_selection_in_range(s: ScrollState, new_height: usize)
    requires
        s.cursor_in_bounds(),
        new_height > 0,
        s.num_lines > 0,
    ensures
        ({
            let r = resized(s, new_height);
            &&& 1 + r.scroll_offset <= 1 + r.current_line
            &&& 1 + r.current_line < vstd::math::min(1 + r.scroll_offset + r.widget_height, r.num_lines + 1)
        }),
{
}

} // verus!
