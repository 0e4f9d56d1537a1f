use vstd::prelude::*;
use crate::tui::layout::Area;

verus! {

/// A text table of `comfy_table`, built row by row and drawn as text lines.
#[verifier::external_type_specification]
#[verifier::external_body]
pub struct ExComfyTable(comfy_table::Table);

/// The header cells of a table, if it has a header.
pub uninterp spec fn table_header(t: comfy_table::Table) -> Option<Seq<Seq<char>>>;

/// The cells of the rows of a table, row by row.
pub uninterp spec fn table_rows(t: comfy_table::Table) -> Seq<Seq<Seq<char>>>;

/// The border preset whose characters a table is drawn with, if it is one of
/// `BorderPreset`'s.
pub uninterp spec fn table_border(t: comfy_table::Table) -> Option<BorderPreset>;

/// The columns of a table (by index) whose cells are aligned right.
pub uninterp spec fn table_right_aligned(t: comfy_table::Table) -> Set<nat>;

/// The width a table was given to be laid out to, if it was given one.
pub uninterp spec fn table_width(t: comfy_table::Table) -> Option<u16>;

/// No cell of a table carries a color or a text attribute, so that how it is
/// drawn does not depend on whether it goes to a terminal.
pub uninterp spec fn table_plain(t: comfy_table::Table) -> bool;

/// The text lines that `comfy_table` draws for a table without colors or text
/// attributes, laid out to the given width.
pub uninterp spec fn table_text_at(t: comfy_table::Table, width: u16) -> Seq<Seq<char>>;

/// Two tables have the same header, rows, right-aligned columns, width and
/// plainness.
pub open spec fn same_but_drawing(a: comfy_table::Table, b: comfy_table::Table) -> bool {
    &&& table_header(a) == table_header(b)
    &&& table_rows(a) == table_rows(b)
    &&& table_right_aligned(a) == table_right_aligned(b)
    &&& table_width(a) == table_width(b)
    &&& table_plain(a) == table_plain(b)
}

/// The border styles that tables are drawn with: full UTF-8 lines, with or
/// without lines between rows (the presets `UTF8_FULL` and
/// `UTF8_FULL_CONDENSED` of `comfy_table`).
#[derive(Debug, Clone, Copy, PartialEq, Eq, Structural)]
pub enum BorderPreset {
    Full,
    FullCondensed,
}

/// The texts of a list of cells.
pub open spec fn texts(cells: Seq<String>) -> Seq<Seq<char>> {
    cells.map_values(|c: String| c@)
}

/// Trusted: `comfy_table::Table::new` builds a table without header, rows or
/// columns (so none aligned right), without a width, and so without a styled
/// cell (its source sets `header: None`, `rows` and `columns` empty and
/// `width: None`); its borders are the `ASCII_FULL` preset, none of
/// `BorderPreset`'s.
#[verifier::external_body]
pub fn new_table() -> (t: comfy_table::Table)
    ensures
        table_header(t) is None,
        table_rows(t) == Seq::<Seq<Seq<char>>>::empty(),
        table_right_aligned(t) == Set::<nat>::empty(),
        table_width(t) is None,
        table_plain(t),
        table_border(t) is None,
{
    comfy_table::Table::new()
}

/// Trusted: `comfy_table::Table::load_preset` changes the border characters
/// only (its source sets or removes style entries), not header, rows,
/// columns, width or cells. Both presets give a character (or a space, which
/// removes the entry) for every one of the 19 table components, so the
/// table's borders are then exactly the preset's.
#[verifier::external_body]
pub fn load_preset(t: &mut comfy_table::Table, preset: BorderPreset)
    ensures
        same_but_drawing(*final(t), *old(t)),
        table_border(*final(t)) == Some(preset),
{
    t.load_preset(
        match preset {
            BorderPreset::Full => comfy_table::presets::UTF8_FULL,
            BorderPreset::FullCondensed => comfy_table::presets::UTF8_FULL_CONDENSED,
        },
    );
}

/// Trusted: `comfy_table::Table::set_header` makes the given cells the header
/// and leaves the rows alone. A cell's text is split at newlines and joined
/// again when read (`Cell::content`), so its text is the string given; cells
/// made from strings carry no style. Columns it adds have no alignment, and
/// the existing ones keep theirs; the width stays.
#[verifier::external_body]
pub fn set_header(t: &mut comfy_table::Table, cells: Vec<String>)
    ensures
        table_header(*final(t)) == Some(texts(cells@)),
        table_rows(*final(t)) == table_rows(*old(t)),
        table_right_aligned(*final(t)) == table_right_aligned(*old(t)),
        table_width(*final(t)) == table_width(*old(t)),
        table_plain(*final(t)) == table_plain(*old(t)),
        table_border(*final(t)) == table_border(*old(t)),
{
    t.set_header(cells);
}

/// Trusted: `comfy_table::Table::add_row` appends the given cells as the last
/// row and leaves the header alone (texts, styles and columns as for
/// `set_header`).
#[verifier::external_body]
pub fn add_row(t: &mut comfy_table::Table, cells: Vec<String>)
    ensures
        table_header(*final(t)) == table_header(*old(t)),
        table_rows(*final(t)) == table_rows(*old(t)).push(texts(cells@)),
        table_right_aligned(*final(t)) == table_right_aligned(*old(t)),
        table_width(*final(t)) == table_width(*old(t)),
        table_plain(*final(t)) == table_plain(*old(t)),
        table_border(*final(t)) == table_border(*old(t)),
{
    t.add_row(cells);
}

/// Trusted: `comfy_table::Table::column_mut` finds the column of an index
/// (a table has a column for every cell position of its header and rows), and
/// `Column::set_cell_alignment` sets how its cells align; no cell text changes.
#[verifier::external_body]
pub fn align_column_right(t: &mut comfy_table::Table, index: usize)
    requires
        table_header(*old(t)) matches Some(h) && index < h.len(),
    ensures
        table_header(*final(t)) == table_header(*old(t)),
        table_rows(*final(t)) == table_rows(*old(t)),
        table_right_aligned(*final(t)) == table_right_aligned(*old(t)).insert(index as nat),
        table_width(*final(t)) == table_width(*old(t)),
        table_plain(*final(t)) == table_plain(*old(t)),
        table_border(*final(t)) == table_border(*old(t)),
{
    t.column_mut(index).unwrap().set_cell_alignment(comfy_table::CellAlignment::Right);
}

/// Trusted: `comfy_table::Table::set_width` sets the width the table is laid
/// out to (its source sets the `width` field and nothing else), so what the
/// table draws at a given width does not change.
#[verifier::external_body]
pub fn set_width(t: &mut comfy_table::Table, width: u16)
    ensures
        table_header(*final(t)) == table_header(*old(t)),
        table_rows(*final(t)) == table_rows(*old(t)),
        table_right_aligned(*final(t)) == table_right_aligned(*old(t)),
        table_width(*final(t)) == Some(width),
        table_plain(*final(t)) == table_plain(*old(t)),
        table_border(*final(t)) == table_border(*old(t)),
        forall|w: u16| #[trigger] table_text_at(*final(t), w) == table_text_at(*old(t), w),
{
    t.set_width(width);
}

/// Trusted: `comfy_table::Table::lines` lays the table out as text lines.
/// When the table has a width and no styled cell, nothing it draws depends on
/// the terminal (its source asks the terminal only for a missing width and,
/// through `should_style`, only to style a styled cell), and the lines are
/// named `table_text_at`. Otherwise nothing is stated of them.
#[verifier::external_body]
pub fn table_lines(t: &comfy_table::Table) -> (lines: Vec<String>)
    ensures
        table_plain(*t) && table_width(*t) is Some ==> texts(lines@) == table_text_at(
            *t,
            table_width(*t)->Some_0,
        ),
{
    t.lines().collect()
}

/// A table to draw, with the row to show in reverse video (counted from the
/// first row under the header).
pub struct TableWidget {
    pub table: comfy_table::Table,
    pub highlight_row: usize,
}

/// A text line to draw at screen row `y`, in reverse video or not.
pub struct PlacedLine {
    pub y: u16,
    pub text: String,
    pub reversed: bool,
}

/// The screen row of the highlighted table row: three rows (top border,
/// header, header separator) below the top of the area.
pub open spec fn highlight_y(area: Area, highlight_row: usize) -> int {
    area.y + (highlight_row as u16) + 3
}

/// `placed` puts `lines` on the rows of `area` from the top, one line a row,
/// as many as fit, with the row `highlight_y` in reverse video.
pub open spec fn is_placement(
    placed: Seq<PlacedLine>,
    lines: Seq<Seq<char>>,
    area: Area,
    highlight_row: usize,
) -> bool {
    &&& placed.len() == if lines.len() < area.bottom_row() - area.y {
        lines.len() as int
    } else {
        area.bottom_row() - area.y
    }
    &&& forall|j: int| 0 <= j < placed.len() ==> {
        &&& (#[trigger] placed[j]).y == area.y + j
        &&& placed[j].text@ == lines[j]
        &&& placed[j].reversed == (area.y + j == highlight_y(area, highlight_row))
    }
}

/// Puts the text lines of a table on the rows of an area from the top, as
/// many as fit, the highlighted row in reverse video.
pub fn place_table_lines(lines: Vec<String>, area: Area, highlight_row: usize) -> (placed: Vec<
    PlacedLine,
>)
    requires
        area.y + (highlight_row as u16) + 3 <= u16::MAX,
    ensures
        is_placement(placed@, texts(lines@), area, highlight_row),
{
    let highlight: u16 = area.y + (highlight_row as u16) + 3;
    let bottom = area.bottom();
    let mut placed: Vec<PlacedLine> = Vec::new();
    let mut y: u16 = area.y;
    let mut j: usize = 0;
    while y < bottom && j < lines.len()
        invariant
            area.y <= y <= bottom,
            bottom == area.bottom_row(),
            j == y - area.y,
            j <= lines@.len(),
            highlight == highlight_y(area, highlight_row),
            placed@.len() == j,
            forall|k: int| 0 <= k < placed@.len() ==> {
                &&& (#[trigger] placed@[k]).y == area.y + k
                &&& placed@[k].text@ == texts(lines@)[k]
                &&& placed@[k].reversed == (area.y + k == highlight)
            },
        decreases bottom - y,
    {
        placed.push(PlacedLine { y, text: lines[j].clone(), reversed: y == highlight });
        y = y + 1;
        j = j + 1;
    }
    placed
}

impl TableWidget {
    /// Lays the table out in an area: its text lines (as `comfy_table` draws
    /// them at the area's width) on the area's rows from the top, as many as
    /// fit, and the highlighted row in reverse video.
    pub fn place_lines(self, area: Area) -> (placed: Vec<PlacedLine>)
        requires
            area.y + (self.highlight_row as u16) + 3 <= u16::MAX,
        ensures
            exists|lines: Seq<Seq<char>>| #[trigger] is_placement(placed@, lines, area, self.highlight_row),
            table_plain(self.table) ==> is_placement(
                placed@,
                table_text_at(self.table, area.width),
                area,
                self.highlight_row,
            ),
            placed@.len() <= area.bottom_row() - area.y,
            forall|j: int| 0 <= j < placed@.len() ==> {
                &&& (#[trigger] placed@[j]).y == area.y + j
                &&& placed@[j].reversed == (area.y + j == highlight_y(area, self.highlight_row))
            },
    {
        let mut table = self.table;
        set_width(&mut table, area.width);
        let lines = table_lines(&table);
        let ghost line_texts = texts(lines@);
        assert(table_plain(self.table) ==> line_texts == table_text_at(self.table, area.width));
        let placed = place_table_lines(lines, area, self.highlight_row);
        assert(is_placement(placed@, line_texts, area, self.highlight_row));
        placed
    }
}

} // verus!
