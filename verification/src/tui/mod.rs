pub mod code;
pub mod defs;
pub mod highlight;
pub mod layout;
pub mod scroll;
pub mod widgets;

use vstd::prelude::*;
use std::collections::HashMap;
use crate::profiler::hist::{Summary, format_ns, format_ns_spec};
use crate::profiler::types::Target;
use crate::text::{decimal, u64_to_decimal};
use crate::tui::code::{PythonCode, prev_fn_target, next_fn_target};
use crate::tui::scroll::{Scroll, ScrollState, scrolled_up, scrolled_down, resized};
use crate::tui::widgets::header::HeaderState;
use crate::tui::widgets::table::{
    BorderPreset, TableWidget, table_header, table_rows, texts, new_table, load_preset, set_header,
    add_row, align_column_right, table_right_aligned, table_width, table_plain, table_border,
};
use crate::cli::Config;
use crate::profiler::types::SummaryMap;
use crate::text::{i32_to_decimal, signed_decimal};

verus! {

/// A 1-based line number of the Python source.
pub type LineNum = usize;

/// A key press, as far as the interface tells keys apart.
#[derive(Debug, Clone, Copy, PartialEq, Eq, Structural)]
pub enum Key {
    Char(char),
    Up,
    Down,
    PageUp,
    PageDown,
    Enter,
    Other,
}

/// The messages the interface handles.
#[derive(Debug, Clone, Copy, PartialEq, Eq, Structural)]
pub enum TuiMessage {
    KeyEvent(Key),
    Render,
    Update,
}

/// The keys the interface acts on: `q`, the arrows up and down, page up and
/// page down, and enter.
pub open spec fn is_command_key(key: Key) -> bool {
    ||| key == Key::Char('q')
    ||| key == Key::Up
    ||| key == Key::Down
    ||| key == Key::PageUp
    ||| key == Key::PageDown
    ||| key == Key::Enter
}

/// The message for a key press: one for each command key, none otherwise.
pub fn key_message(key: Key) -> (msg: Option<TuiMessage>)
    ensures
        is_command_key(key) ==> msg == Some(TuiMessage::KeyEvent(key)),
        !is_command_key(key) ==> msg is None,
        key matches Key::Char(c) ==> (msg is Some <==> c == 'q'),
        key == Key::Other ==> msg is None,
{
    match key {
        Key::Char(c) => {
            if c == 'q' {
                Some(TuiMessage::KeyEvent(key))
            } else {
                None
            }
        },
        Key::Up | Key::Down | Key::PageUp | Key::PageDown | Key::Enter => Some(
            TuiMessage::KeyEvent(key),
        ),
        Key::Other => None,
    }
}

/// What the interface does after handling a message.
#[derive(Debug, PartialEq, Eq)]
pub enum TuiAction {
    /// Stop the interface.
    Stop,
    /// Draw the screen again.
    Render,
    /// Ask the profiler to toggle whether a line is watched.
    ToggleFilter(Target),
    /// Ask the profiler for new summaries, then draw the screen again.
    Observe,
    /// Nothing to do.
    Nothing,
}

/// The scroll state and action after a message.
pub open spec fn tui_step(msg: TuiMessage, s: ScrollState, funcs: Seq<(usize, String)>) -> (
    ScrollState,
    TuiAction,
) {
    match msg {
        TuiMessage::KeyEvent(Key::Up) => (scrolled_up(s, 1), TuiAction::Render),
        TuiMessage::KeyEvent(Key::Down) => (scrolled_down(s, 1), TuiAction::Render),
        TuiMessage::KeyEvent(Key::PageUp) => match prev_fn_target(funcs, s.current_line as int) {
            Some(l) => (scrolled_up(s, (s.current_line - l) as usize), TuiAction::Render),
            None => (s, TuiAction::Nothing),
        },
        TuiMessage::KeyEvent(Key::PageDown) => match next_fn_target(funcs, s.current_line as int) {
            Some(l) => (scrolled_down(s, (l - s.current_line) as usize), TuiAction::Render),
            None => (s, TuiAction::Nothing),
        },
        TuiMessage::KeyEvent(Key::Enter) => (
            s,
            TuiAction::ToggleFilter(Target { lineno: (s.current_line + 1) as usize }),
        ),
        TuiMessage::KeyEvent(_) => (s, TuiAction::Stop),
        TuiMessage::Render => (s, TuiAction::Render),
        TuiMessage::Update => (s, TuiAction::Observe),
    }
}

/// The message can be handled in the scroll state: it is a command key, and
/// no move overflows, moves down in an empty list or numbers a line past
/// the largest integer.
pub open spec fn can_handle(msg: TuiMessage, s: ScrollState, funcs: Seq<(usize, String)>) -> bool {
    &&& msg matches TuiMessage::KeyEvent(k) ==> is_command_key(k)
    &&& msg == TuiMessage::KeyEvent(Key::Down) ==> {
        &&& s.num_lines > 0
        &&& s.current_line < usize::MAX
        &&& s.scroll_offset + s.widget_height <= usize::MAX
    }
    &&& msg == TuiMessage::KeyEvent(Key::PageDown) && next_fn_target(funcs, s.current_line as int) is Some
        ==> {
        &&& s.num_lines > 0
        &&& s.scroll_offset + s.widget_height <= usize::MAX
    }
    &&& msg == TuiMessage::KeyEvent(Key::Enter) ==> s.current_line < usize::MAX
}

/// Checks whether a message can be handled in a scroll state.
pub fn handles(msg: TuiMessage, scroll: &Scroll, code: &PythonCode) -> (ok: bool)
    ensures
        ok == can_handle(msg, scroll@, code.funcs@),
{
    let fits = scroll.widget_height() <= usize::MAX - scroll.scroll_offset();
    match msg {
        TuiMessage::KeyEvent(key) => match key {
            Key::Char(c) => c == 'q',
            Key::Down => scroll.num_lines() > 0 && scroll.current_line() < usize::MAX && fits,
            Key::PageDown => match code.jump_to_next_fn(scroll.current_line()) {
                Some(_) => scroll.num_lines() > 0 && fits,
                None => true,
            },
            Key::Enter => scroll.current_line() < usize::MAX,
            Key::Up | Key::PageUp => true,
            Key::Other => false,
        },
        _ => true,
    }
}

/// Of the character keys only `q` is a command key; every other key the
/// interface tells apart is one.
pub proof fn lemma_command_keys(key: Key)
    ensures
        key matches Key::Char(c) ==> (is_command_key(key) <==> c == 'q'),
        key is Up || key is Down || key is PageUp || key is PageDown || key is Enter
            ==> is_command_key(key),
        key is Other ==> !is_command_key(key),
{
}

/// Only `q` stops the interface: a key press that can be handled and stops it
/// is `q`, and a character key other than `q` cannot be handled at all.
pub proof fn lemma_only_q_stops(key: Key, s: ScrollState, funcs: Seq<(usize, String)>)
    ensures
        can_handle(TuiMessage::KeyEvent(key), s, funcs) && tui_step(TuiMessage::KeyEvent(key), s, funcs).1
            == TuiAction::Stop ==> key == Key::Char('q'),
        key matches Key::Char(c) && c != 'q' ==> !can_handle(TuiMessage::KeyEvent(key), s, funcs),
        tui_step(TuiMessage::KeyEvent(Key::Char('q')), s, funcs).1 == TuiAction::Stop,
{
}

/// Down can be handled in every non-empty list whose selection is one of its
/// lines, also on the last line (where it stays), as long as the lines shown
/// can be numbered.
pub proof fn lemma_down_handled(s: ScrollState, funcs: Seq<(usize, String)>)
    requires
        s.num_lines > 0,
        s.current_line < s.num_lines,
        s.scroll_offset + s.widget_height <= usize::MAX,
    ensures
        can_handle(TuiMessage::KeyEvent(Key::Down), s, funcs),
        s.current_line + 1 == s.num_lines ==> tui_step(TuiMessage::KeyEvent(Key::Down), s, funcs).0.current_line
            == s.current_line,
{
}

/// Handles a message: `q` stops, the arrows move the selection by a line,
/// page up and page down jump to the nearest function definition above or
/// below, enter toggles whether the selected line (as a 1-based line number)
/// is watched, and the timer asks for new summaries.
pub fn handle_message(msg: TuiMessage, scroll: &mut Scroll, code: &PythonCode) -> (action: TuiAction)
    requires
        can_handle(msg, old(scroll)@, code.funcs@),
    ensures
        (final(scroll)@, action) == tui_step(msg, old(scroll)@, code.funcs@),
        old(scroll)@.cursor_in_bounds() ==> final(scroll)@.cursor_in_bounds(),
{
    match msg {
        TuiMessage::KeyEvent(key) => match key {
            Key::Up => {
                scroll.up(1);
                TuiAction::Render
            },
            Key::Down => {
                scroll.down(1);
                TuiAction::Render
            },
            Key::PageUp => {
                match code.jump_to_prev_fn(scroll.current_line()) {
                    Some(line) => {
                        let delta = scroll.current_line() - line;
                        scroll.up(delta);
                        TuiAction::Render
                    },
                    None => TuiAction::Nothing,
                }
            },
            Key::PageDown => {
                match code.jump_to_next_fn(scroll.current_line()) {
                    Some(line) => {
                        let delta = line - scroll.current_line();
                        scroll.down(delta);
                        TuiAction::Render
                    },
                    None => TuiAction::Nothing,
                }
            },
            Key::Enter => TuiAction::ToggleFilter(Target { lineno: scroll.current_line() + 1 }),
            _ => TuiAction::Stop,
        },
        TuiMessage::Render => TuiAction::Render,
        TuiMessage::Update => TuiAction::Observe,
    }
}


/// The text of each cell of the main table's row for a (1-based) line: the
/// line's latency percentiles and sample count when it has a summary, empty
/// cells otherwise, then the line number and the line's highlighted code.
pub open spec fn row_cells(line: usize, summaries: Map<usize, Summary>, highlighted: Seq<String>) -> Seq<
    Seq<char>,
> {
    let code = highlighted[line - 1]@;
    if summaries.contains_key(line) {
        let s = summaries[line];
        seq![
            format_ns_spec(s.min as nat),
            format_ns_spec(s.p50 as nat),
            format_ns_spec(s.p90 as nat),
            format_ns_spec(s.p99 as nat),
            format_ns_spec(s.max as nat),
            decimal(s.samples as nat),
            decimal(line as nat),
            code,
        ]
    } else {
        seq![
            Seq::empty(),
            Seq::empty(),
            Seq::empty(),
            Seq::empty(),
            Seq::empty(),
            Seq::empty(),
            decimal(line as nat),
            code,
        ]
    }
}

/// The texts of a row of cells.
pub open spec fn cell_texts(row: Vec<String>) -> Seq<Seq<char>> {
    row@.map_values(|c: String| c@)
}

/// The rows of the main table and the row of the selected line among them.
pub struct MainTable {
    pub rows: Vec<Vec<String>>,
    pub highlight_row: usize,
}

/// The number of text lines of the screen taken by everything but the rows
/// of the main table.
pub const SCREEN_OVERHEAD: u16 = 9;

fn summary_row(line: usize, s: &Summary, code: &String) -> (row: Vec<String>)
    ensures
        cell_texts(row) == seq![
            format_ns_spec(s.min as nat),
            format_ns_spec(s.p50 as nat),
            format_ns_spec(s.p90 as nat),
            format_ns_spec(s.p99 as nat),
            format_ns_spec(s.max as nat),
            decimal(s.samples as nat),
            decimal(line as nat),
            code@,
        ],
{
    let mut row: Vec<String> = Vec::new();
    row.push(format_ns(s.min));
    row.push(format_ns(s.p50));
    row.push(format_ns(s.p90));
    row.push(format_ns(s.p99));
    row.push(format_ns(s.max));
    row.push(u64_to_decimal(s.samples));
    row.push(u64_to_decimal(line as u64));
    row.push(code.clone());
    assert(cell_texts(row) =~= seq![
        format_ns_spec(s.min as nat),
        format_ns_spec(s.p50 as nat),
        format_ns_spec(s.p90 as nat),
        format_ns_spec(s.p99 as nat),
        format_ns_spec(s.max as nat),
        decimal(s.samples as nat),
        decimal(line as nat),
        code@,
    ]);
    row
}

fn blank_row(line: usize, code: &String) -> (row: Vec<String>)
    ensures
        cell_texts(row) == seq![
            Seq::<char>::empty(),
            Seq::<char>::empty(),
            Seq::<char>::empty(),
            Seq::<char>::empty(),
            Seq::<char>::empty(),
            Seq::<char>::empty(),
            decimal(line as nat),
            code@,
        ],
{
    let mut row: Vec<String> = Vec::new();
    let mut k: usize = 0;
    while k < 6
        invariant
            k <= 6,
            row@.len() == k,
            forall|j: int| 0 <= j < k ==> row@[j]@ == Seq::<char>::empty(),
        decreases 6 - k,
    {
        row.push(String::new());
        k = k + 1;
    }
    row.push(u64_to_decimal(line as u64));
    row.push(code.clone());
    assert(cell_texts(row) =~= seq![
        Seq::<char>::empty(),
        Seq::<char>::empty(),
        Seq::<char>::empty(),
        Seq::<char>::empty(),
        Seq::<char>::empty(),
        Seq::<char>::empty(),
        decimal(line as nat),
        code@,
    ]);
    row
}

/// A screen of `frame_height` text lines can show a list of at most `lines`
/// lines in the scroll state: there is room for rows, and once fitted to it
/// the first line shown is not below the selection and the numbers of the
/// lines shown do not overflow.
pub open spec fn can_render(s: ScrollState, frame_height: u16, lines: nat) -> bool {
    let h = (frame_height - SCREEN_OVERHEAD) as usize;
    let r = resized(s, h);
    &&& frame_height > SCREEN_OVERHEAD
    &&& s.num_lines <= lines
    &&& s.scroll_offset + h <= usize::MAX
    &&& r.scroll_offset <= r.current_line
    &&& 1 + r.scroll_offset + r.widget_height <= usize::MAX
    &&& r.num_lines + 1 <= usize::MAX
}

/// Any selection of a list can be drawn on a screen with room for at least
/// one line of it, wherever the selection stands relative to the lines shown
/// (the screen scrolls to bring it back), as long as no line number
/// overflows.
pub proof fn lemma_renders_any_selection(s: ScrollState, frame_height: u16, lines: nat)
    requires
        s.cursor_in_bounds(),
        frame_height > SCREEN_OVERHEAD,
        s.num_lines <= lines,
        s.scroll_offset + (frame_height - SCREEN_OVERHEAD) + 1 <= usize::MAX,
        s.current_line + 2 <= usize::MAX,
        s.num_lines + 1 <= usize::MAX,
    ensures
        can_render(s, frame_height, lines),
{
}

/// Checks whether a screen of `frame_height` text lines can show a list of
/// `lines` lines in a scroll state.
pub fn renders(scroll: &Scroll, frame_height: u16, lines: usize) -> (ok: bool)
    ensures
        ok == can_render(scroll@, frame_height, lines as nat),
{
    if frame_height <= SCREEN_OVERHEAD || scroll.num_lines() > lines {
        return false;
    }
    let h = (frame_height - SCREEN_OVERHEAD) as usize;
    let off = scroll.scroll_offset();
    let cur = scroll.current_line();
    if off > usize::MAX - h {
        return false;
    }
    let new_off = if cur >= off + h {
        cur - h + 1
    } else {
        off
    };
    new_off <= cur && new_off < usize::MAX - h && scroll.num_lines() < usize::MAX
}

/// Fits the selection to a screen of `frame_height` text lines and lays out
/// the main table: one row per line shown, and the row of the selected line.
pub fn main_table_rows(
    scroll: &mut Scroll,
    frame_height: u16,
    summaries: &HashMap<usize, Summary>,
    highlighted: &Vec<String>,
) -> (t: MainTable)
    requires
        can_render(old(scroll)@, frame_height, highlighted@.len()),
    ensures
        final(scroll)@ == resized(old(scroll)@, (frame_height - SCREEN_OVERHEAD) as usize),
        old(scroll)@.cursor_in_bounds() ==> final(scroll)@.cursor_in_bounds() && final(scroll)@.cursor_visible(),
        ({
            let s = final(scroll)@;
            let start = 1 + s.scroll_offset;
            let end = vstd::math::min(1 + s.scroll_offset + s.widget_height, s.num_lines + 1);
            &&& t.rows@.len() == if end >= start {
                end - start
            } else {
                0
            }
            &&& forall|j: int| 0 <= j < t.rows@.len() ==> cell_texts(#[trigger] t.rows@[j]) == row_cells(
                (start + j) as usize,
                summaries@,
                highlighted@,
            )
        }),
        t.highlight_row == final(scroll)@.current_line - final(scroll)@.scroll_offset,
{
    broadcast use vstd::std_specs::hash::group_hash_axioms;
    let height = (frame_height - SCREEN_OVERHEAD) as usize;
    scroll.resize_height(height);
    let range = scroll.range();
    let mut rows: Vec<Vec<String>> = Vec::new();
    let mut i = range.start;
    while i < range.end
        invariant
            scroll@ == resized(old(scroll)@, height),
            scroll@.num_lines <= highlighted@.len(),
            range.start == 1 + scroll@.scroll_offset,
            range.end == vstd::math::min(1 + scroll@.scroll_offset + scroll@.widget_height, scroll@.num_lines + 1),
            range.start <= i,
            i <= range.end || i == range.start,
            rows@.len() == i - range.start,
            forall|j: int| 0 <= j < rows@.len() ==> cell_texts(#[trigger] rows@[j]) == row_cells(
                (range.start + j) as usize,
                summaries@,
                highlighted@,
            ),
        decreases range.end - i,
    {
        let code = &highlighted[i - 1];
        let row = match summaries.get(&i) {
            Some(s) => summary_row(i, s, code),
            None => blank_row(i, code),
        };
        rows.push(row);
        i = i + 1;
    }
    let highlight_row = scroll.current_line() - scroll.scroll_offset();
    MainTable { rows, highlight_row }
}


/// What the header shows for the settings: `ALL` for every process (pid -1)
/// or the pid, the interpreter, and the source file's path.
pub fn header_state(config: &Config) -> (h: HeaderState)
    ensures
        h.pid@ == if config.pid == -1 {
            "ALL"@
        } else {
            signed_decimal(config.pid as int)
        },
        h.python_bin == config.python_bin,
        h.code_path == config.python_code,
{
    let pid = if config.pid == -1 {
        String::from_str("ALL")
    } else {
        i32_to_decimal(config.pid)
    };
    HeaderState { pid, python_bin: config.python_bin.clone(), code_path: config.python_code.clone() }
}

/// The row index that no table reaches: a table drawn with it has no row in
/// reverse video.
pub const NO_HIGHLIGHT: usize = 999;

fn cells2(a: &str, b: &String) -> (row: Vec<String>)
    ensures
        texts(row@) == seq![a@, b@],
{
    let mut row: Vec<String> = Vec::new();
    row.push(String::from_str(a));
    row.push(b.clone());
    assert(texts(row@) =~= seq![a@, b@]);
    row
}

/// The table of settings at the top of the screen: pid, interpreter and
/// source file, one per row, without header and without highlight.
pub fn header_table(state: &HeaderState) -> (t: TableWidget)
    ensures
        table_header(t.table) is None,
        table_rows(t.table) == seq![
            seq!["pid"@, state.pid@],
            seq!["python"@, state.python_bin@],
            seq!["code"@, state.code_path@],
        ],
        t.highlight_row == NO_HIGHLIGHT,
        table_right_aligned(t.table) == Set::<nat>::empty(),
        table_width(t.table) is None,
        table_plain(t.table),
        table_border(t.table) == Some(BorderPreset::FullCondensed),
{
    let mut table = new_table();
    load_preset(&mut table, BorderPreset::FullCondensed);
    add_row(&mut table, cells2("pid", &state.pid));
    add_row(&mut table, cells2("python", &state.python_bin));
    add_row(&mut table, cells2("code", &state.code_path));
    assert(table_rows(table) =~= seq![
        seq!["pid"@, state.pid@],
        seq!["python"@, state.python_bin@],
        seq!["code"@, state.code_path@],
    ]);
    TableWidget { table, highlight_row: NO_HIGHLIGHT }
}

/// The column names of the main table.
pub open spec fn main_header() -> Seq<Seq<char>> {
    seq!["min"@, "p50"@, "p90"@, "p99"@, "max"@, "samples"@, "line"@, "code"@]
}

/// The main table: the column names, the line numbers aligned right, the
/// rows in order, and the selected row highlighted.
pub fn main_table(t: MainTable) -> (w: TableWidget)
    ensures
        table_header(w.table) == Some(main_header()),
        table_rows(w.table) == t.rows@.map_values(|r: Vec<String>| cell_texts(r)),
        w.highlight_row == t.highlight_row,
        table_right_aligned(w.table) == set![6nat],
        table_width(w.table) is None,
        table_plain(w.table),
        table_border(w.table) == Some(BorderPreset::FullCondensed),
{
    let mut table = new_table();
    load_preset(&mut table, BorderPreset::FullCondensed);
    let mut header: Vec<String> = Vec::new();
    header.push(String::from_str("min"));
    header.push(String::from_str("p50"));
    header.push(String::from_str("p90"));
    header.push(String::from_str("p99"));
    header.push(String::from_str("max"));
    header.push(String::from_str("samples"));
    header.push(String::from_str("line"));
    header.push(String::from_str("code"));
    assert(texts(header@) =~= main_header());
    set_header(&mut table, header);
    align_column_right(&mut table, 6);
    let MainTable { rows, highlight_row } = t;
    let ghost all = rows@;
    let mut k: usize = 0;
    while k < rows.len()
        invariant
            k <= rows@.len(),
            rows@ == all,
            table_header(table) == Some(main_header()),
            table_rows(table) == all.take(k as int).map_values(|r: Vec<String>| cell_texts(r)),
            table_right_aligned(table) == set![6nat],
            table_width(table) is None,
            table_plain(table),
            table_border(table) == Some(BorderPreset::FullCondensed),
        decreases rows@.len() - k,
    {
        let row = rows[k].clone();
        assert(cell_texts(row) == cell_texts(all[k as int])) by {
            assert(row@.map_values(|c: String| c@) =~= all[k as int]@.map_values(|c: String| c@)) by {
                assert forall|c: int| 0 <= c < row@.len() implies row@[c]@ == all[k as int]@[c]@ by {
                    assert(vstd::pervasive::cloned::<String>(all[k as int]@[c], row@[c]));
                }
            }
        }
        add_row(&mut table, row);
        assert(all.take(k + 1).map_values(|r: Vec<String>| cell_texts(r)) =~= all.take(
            k as int,
        ).map_values(|r: Vec<String>| cell_texts(r)).push(cell_texts(all[k as int])));
        k = k + 1;
    }
    assert(all.take(k as int) =~= all);
    TableWidget { table, highlight_row }
}


/// The last component of a path, as `std::path::Path::file_name` finds it.
pub uninterp spec fn path_file_name(path: Seq<char>) -> Option<Seq<char>>;

/// The path without its last component, as `std::path::Path::parent` finds it.
pub uninterp spec fn path_parent(path: Seq<char>) -> Option<Seq<char>>;

/// Trusted: `std::path::Path::file_name` returns the last component of a path
/// (none when the path ends in `..` or is a root); the component of a UTF-8
/// path is UTF-8. Which component is named `path_file_name`.
#[verifier::external_body]
fn file_name_of(path: &str) -> (name: Option<String>)
    ensures
        match name {
            Some(n) => path_file_name(path@) == Some(n@),
            None => path_file_name(path@) is None,
        },
{
    std::path::Path::new(path).file_name().and_then(|n| n.to_str()).map(|n| n.to_string())
}

/// Trusted: `std::path::Path::parent` returns the path without its last
/// component (none for a root or an empty path); the parent of a UTF-8 path is
/// UTF-8. Which path is named `path_parent`.
#[verifier::external_body]
fn parent_of(path: &str) -> (parent: Option<String>)
    ensures
        match parent {
            Some(p) => path_parent(path@) == Some(p@),
            None => path_parent(path@) is None,
        },
{
    std::path::Path::new(path).parent().and_then(|p| p.to_str()).map(|p| p.to_string())
}

/// Why a window title cannot be made from a path.
#[derive(Debug, Clone, Copy, PartialEq, Eq, Structural)]
pub enum TitleError {
    NoFileName,
    NoParentDir,
}

/// The window title of a source file: `name (dir/)`.
pub open spec fn title_of(path: Seq<char>) -> Result<Seq<char>, TitleError> {
    match path_file_name(path) {
        None => Err(TitleError::NoFileName),
        Some(name) => match path_parent(path) {
            None => Err(TitleError::NoParentDir),
            Some(dir) => Ok(name + seq![' ', '('] + dir + seq!['/', ')']),
        },
    }
}

/// Makes the window title of a source file: its name, then its directory.
pub fn window_title(path: &str) -> (title: Result<String, TitleError>)
    ensures
        match title {
            Ok(t) => title_of(path@) == Ok::<Seq<char>, TitleError>(t@),
            Err(e) => title_of(path@) == Err::<Seq<char>, TitleError>(e),
        },
{
    let name = match file_name_of(path) {
        Some(n) => n,
        None => return Err(TitleError::NoFileName),
    };
    let dir = match parent_of(path) {
        Some(d) => d,
        None => return Err(TitleError::NoParentDir),
    };
    let mut title = name;
    title.append(" (");
    title.append(dir.as_str());
    title.append("/)");
    proof {
        reveal_strlit(" (");
        reveal_strlit("/)");
    }
    assert(title@ =~= path_file_name(path@).unwrap() + seq![' ', '('] + path_parent(path@).unwrap()
        + seq!['/', ')']);
    Ok(title)
}

/// Everything the interface keeps apart from the terminal and the profiler:
/// what the header shows, the source, its highlighted lines, the window
/// title, the scroll state and the latest summaries.
pub struct TuiState {
    pub header_state: HeaderState,
    pub code: PythonCode,
    pub highlighted: Vec<String>,
    pub title: String,
    pub scroll: Scroll,
    pub summary_map: SummaryMap,
}

/// The number of code lines on screen before the first redraw.
pub const INITIAL_HEIGHT: usize = 10;

impl TuiState {
    /// The interface's state for the settings and source: every highlighted
    /// line in the list, the first one selected, no summaries yet.
    pub fn new(config: &Config, code: PythonCode, highlighted: Vec<String>) -> (r: Result<Self, TitleError>)
        ensures
            match r {
                Ok(s) => {
                    &&& title_of(config.python_code@) == Ok::<Seq<char>, TitleError>(s.title@)
                    &&& s.scroll@ == (ScrollState {
                        num_lines: highlighted.len(),
                        widget_height: INITIAL_HEIGHT,
                        current_line: 0,
                        scroll_offset: 0,
                    })
                    &&& s.header_state.pid@ == if config.pid == -1 {
                        "ALL"@
                    } else {
                        signed_decimal(config.pid as int)
                    }
                    &&& s.header_state.python_bin == config.python_bin
                    &&& s.header_state.code_path == config.python_code
                    &&& s.code == code
                    &&& s.highlighted == highlighted
                    &&& s.summary_map@ == Map::<usize, Summary>::empty()
                },
                Err(e) => title_of(config.python_code@) == Err::<Seq<char>, TitleError>(e),
            },
    {
        broadcast use vstd::std_specs::hash::group_hash_axioms;
        let title = match window_title(config.python_code.as_str()) {
            Ok(t) => t,
            Err(e) => return Err(e),
        };
        let num_lines = highlighted.len();
        let header_state = header_state(config);
        Ok(TuiState {
            header_state,
            code,
            highlighted,
            title,
            scroll: Scroll::new(num_lines, INITIAL_HEIGHT),
            summary_map: HashMap::new(),
        })
    }

    /// Handles a message (see `handle_message`).
    pub fn handle(&mut self, msg: TuiMessage) -> (action: TuiAction)
        requires
            can_handle(msg, old(self).scroll@, old(self).code.funcs@),
        ensures
            (final(self).scroll@, action) == tui_step(msg, old(self).scroll@, old(self).code.funcs@),
            old(self).scroll@.cursor_in_bounds() ==> final(self).scroll@.cursor_in_bounds(),
            final(self).code == old(self).code,
            final(self).highlighted == old(self).highlighted,
            final(self).summary_map == old(self).summary_map,
    {
        handle_message(msg, &mut self.scroll, &self.code)
    }

    /// Keeps the summaries of the latest look at the profiler.
    pub fn set_summaries(&mut self, summaries: SummaryMap)
        ensures
            final(self).summary_map == summaries,
            final(self).scroll@ == old(self).scroll@,
            final(self).code == old(self).code,
            final(self).highlighted == old(self).highlighted,
    {
        self.summary_map = summaries;
    }

    /// The two tables of a screen of `frame_height` text lines: the settings,
    /// and the main table fitted to the rest of the screen (see
    /// `main_table_rows`).
    pub fn render_tables(&mut self, frame_height: u16) -> (tables: (TableWidget, TableWidget))
        requires
            can_render(old(self).scroll@, frame_height, old(self).highlighted@.len()),
        ensures
            final(self).scroll@ == resized(old(self).scroll@, (frame_height - SCREEN_OVERHEAD) as usize),
            old(self).scroll@.cursor_in_bounds() ==> final(self).scroll@.cursor_in_bounds()
                && final(self).scroll@.cursor_visible(),
            final(self).code == old(self).code,
            final(self).highlighted == old(self).highlighted,
            final(self).summary_map == old(self).summary_map,
            final(self).header_state == old(self).header_state,
            final(self).title == old(self).title,
            table_header(tables.0.table) is None,
            table_rows(tables.0.table) == seq![
                seq!["pid"@, old(self).header_state.pid@],
                seq!["python"@, old(self).header_state.python_bin@],
                seq!["code"@, old(self).header_state.code_path@],
            ],
            tables.0.highlight_row == NO_HIGHLIGHT,
            table_header(tables.1.table) == Some(main_header()),
            ({
                let s = final(self).scroll@;
                let start = 1 + s.scroll_offset;
                let end = vstd::math::min(1 + s.scroll_offset + s.widget_height, s.num_lines + 1);
                &&& table_rows(tables.1.table).len() == if end >= start {
                    end - start
                } else {
                    0
                }
                &&& forall|j: int| 0 <= j < table_rows(tables.1.table).len() ==> #[trigger] table_rows(tables.1.table)[j] == row_cells(
                    (start + j) as usize,
                    old(self).summary_map@,
                    old(self).highlighted@,
                )
            }),
            tables.1.highlight_row == final(self).scroll@.current_line - final(self).scroll@.scroll_offset,
    {
        let header = header_table(&self.header_state);
        let rows = main_table_rows(&mut self.scroll, frame_height, &self.summary_map, &self.highlighted);
        let ghost r = rows.rows@;
        let main = main_table(rows);
        assert forall|j: int| 0 <= j < r.len() implies #[trigger] table_rows(main.table)[j] == cell_texts(r[j]) by {}
        (header, main)
    }
}

} // verus!
