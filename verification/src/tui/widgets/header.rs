use vstd::prelude::*;
use crate::tui::layout::{Area, PlacedText};

verus! {

/// What the header shows: the watched process, interpreter and source file.
pub struct HeaderState {
    pub pid: String,
    pub python_bin: String,
    pub code_path: String,
}

/// The header of the screen.
pub struct Header;

impl Header {
    /// The header's two text lines inside its border: the process and
    /// interpreter on the first row, the source file on the second, both two
    /// columns in from the area's left edge.
    pub fn text_lines(area: Area, state: &HeaderState) -> (lines: Vec<PlacedText>)
        requires
            area.x + 2 <= u16::MAX,
            area.y + 2 <= u16::MAX,
        ensures
            lines@.len() == 2,
            lines@[0].x == area.x + 2 && lines@[0].y == area.y + 1,
            lines@[0].text@ == "pid: "@ + state.pid@ + " / python binary: "@ + state.python_bin@,
            lines@[1].x == area.x + 2 && lines@[1].y == area.y + 2,
            lines@[1].text@ == "code: "@ + state.code_path@,
    {
        let mut first = String::from_str("pid: ");
        first.append(state.pid.as_str());
        first.append(" / python binary: ");
        first.append(state.python_bin.as_str());
        let mut second = String::from_str("code: ");
        second.append(state.code_path.as_str());
        let mut lines: Vec<PlacedText> = Vec::new();
        lines.push(PlacedText { x: area.x + 2, y: area.y + 1, text: first });
        lines.push(PlacedText { x: area.x + 2, y: area.y + 2, text: second });
        lines
    }
}

} // verus!
