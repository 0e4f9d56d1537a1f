use vstd::prelude::*;

verus! {

/// A rectangle of the screen, in character cells.
#[derive(Debug, Clone, Copy, PartialEq, Eq, Structural)]
pub struct Area {
    pub x: u16,
    pub y: u16,
    pub width: u16,
    pub height: u16,
}

impl Area {
    /// The row just below the area (stopping at the last row of the screen).
    pub open spec fn bottom_row(self) -> int {
        if self.y + self.height > u16::MAX {
            u16::MAX as int
        } else {
            self.y + self.height
        }
    }

    /// The row just below the area (stopping at the last row of the screen).
    pub fn bottom(&self) -> (b: u16)
        ensures
            b == self.bottom_row(),
    {
        if self.height > u16::MAX - self.y {
            u16::MAX
        } else {
            self.y + self.height
        }
    }
}


/// The parts of a screen: the header and the code, each with its bordered
/// block.
pub struct AppLayout {
    pub header: Area,
    pub header_block: Area,
    pub code: Area,
    pub code_block: Area,
}

/// Which optional parts of the screen are shown.
pub struct LayoutToggle {
    _header_toggle: bool,
}

/// The three rows that `ratatui`'s layout solver cuts an area into, top to
/// bottom, inside a margin, with the given percentages of the height.
pub uninterp spec fn vertical_split3(area: Area, margin: u16, p0: u16, p1: u16, p2: u16) -> (
    Area,
    Area,
    Area,
);

/// The area inside a margin of `margin` cells on every side, or the empty
/// area at the origin when the margins do not fit (`Rect::inner`, whose
/// arithmetic saturates).
pub open spec fn inner_area(area: Area, margin: u16) -> Area {
    let doubled: int = if 2 * margin > u16::MAX { u16::MAX as int } else { 2 * margin };
    if area.width < doubled || area.height < doubled {
        Area { x: 0, y: 0, width: 0, height: 0 }
    } else {
        Area {
            x: if area.x + margin > u16::MAX { u16::MAX } else { (area.x + margin) as u16 },
            y: if area.y + margin > u16::MAX { u16::MAX } else { (area.y + margin) as u16 },
            width: (area.width - doubled) as u16,
            height: (area.height - doubled) as u16,
        }
    }
}

/// A row of a vertical split spans the whole width of the area it splits.
pub open spec fn spans_width(part: Area, inner: Area) -> bool {
    part.x == inner.x && part.width == inner.width
}

/// Trusted: `ratatui::layout::Layout::split` on a vertical layout with a
/// margin and three percentage constraints returns one area per constraint
/// (its documentation). Its source cuts the area inside the margin
/// (`Rect::inner`, with the margin on all four sides) and gives every row that
/// area's column and width (`changes_to_rects`); where the rows start and how
/// high they are is the solver's result, named `vertical_split3` (a function
/// of the arguments: the solver's cache only stores results).
#[verifier::external_body]
fn split_vertical3(area: Area, margin: u16, p0: u16, p1: u16, p2: u16) -> (parts: (Area, Area, Area))
    ensures
        parts == vertical_split3(area, margin, p0, p1, p2),
        spans_width(parts.0, inner_area(area, margin)),
        spans_width(parts.1, inner_area(area, margin)),
        spans_width(parts.2, inner_area(area, margin)),
{
    let rect = ratatui::layout::Rect { x: area.x, y: area.y, width: area.width, height: area.height };
    let rects = ratatui::layout::Layout::default()
        .direction(ratatui::layout::Direction::Vertical)
        .margin(margin)
        .constraints([
            ratatui::layout::Constraint::Percentage(p0),
            ratatui::layout::Constraint::Percentage(p1),
            ratatui::layout::Constraint::Percentage(p2),
        ])
        .split(rect);
    let a = |r: ratatui::layout::Rect| Area { x: r.x, y: r.y, width: r.width, height: r.height };
    (a(rects[0]), a(rects[1]), a(rects[2]))
}

/// The screen's rows inside a margin of one cell: a tenth of the height for
/// the header, eight tenths for the code, a tenth for the footer.
pub fn layout(size: Area) -> (parts: Vec<Area>)
    ensures
        ({
            let (a, b, c) = vertical_split3(size, 1, 10, 80, 10);
            parts@ == seq![a, b, c]
        }),
        forall|i: int| 0 <= i < 3 ==> spans_width(#[trigger] parts@[i], inner_area(size, 1)),
{
    let (a, b, c) = split_vertical3(size, 1, 10, 80, 10);
    let mut parts: Vec<Area> = Vec::new();
    parts.push(a);
    parts.push(b);
    parts.push(c);
    parts
}

/// The number of screen rows given to the table of settings.
pub const HEADER_HEIGHT: u16 = 10;

/// The number of screen rows above the main table.
pub const MAIN_TOP: u16 = 5;

/// The areas of the two tables on a screen: the settings in the top rows,
/// and the main table from five rows down to the bottom (drawn over the
/// settings' lower border).
pub fn screen_areas(size: Area) -> (areas: (Area, Area))
    requires
        size.y + MAIN_TOP <= u16::MAX,
        size.height >= MAIN_TOP,
    ensures
        areas.0 == (Area { height: HEADER_HEIGHT, ..size }),
        areas.1 == (Area { y: (size.y + MAIN_TOP) as u16, height: (size.height - MAIN_TOP) as u16, ..size }),
{
    let mut header = size;
    header.height = HEADER_HEIGHT;
    let mut main = size;
    main.y = main.y + MAIN_TOP;
    main.height = main.height - MAIN_TOP;
    (header, main)
}

/// A text to draw with its first character at column `x` of row `y`.
pub struct PlacedText {
    pub x: u16,
    pub y: u16,
    pub text: String,
}

} // verus!
