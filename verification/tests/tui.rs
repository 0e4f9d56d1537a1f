use std::collections::HashMap;

use downtown::cli::Config;
use downtown::profiler::hist::Summary;
use downtown::profiler::types::Target;
use downtown::tui::code::PythonCode;
use downtown::tui::scroll::Scroll;
use downtown::tui::{
    handle_message, header_state, header_table, key_message, main_table, main_table_rows,
    window_title, Key, TitleError, TuiAction, TuiMessage, TuiState, NO_HIGHLIGHT,
};

#[test]
fn command_keys_become_messages() {
    for key in [Key::Char('q'), Key::Up, Key::Down, Key::PageUp, Key::PageDown, Key::Enter] {
        assert_eq!(key_message(key), Some(TuiMessage::KeyEvent(key)));
    }
}

#[test]
fn other_keys_are_ignored() {
    for key in [Key::Char('x'), Key::Char('Q'), Key::Other] {
        assert_eq!(key_message(key), None);
    }
}

fn code() -> PythonCode {
    let source = "import os\n\ndef f():\n    pass\n\nclass A:\n    def g(self):\n        pass\n".to_string();
    let defs = vec![(11usize, "f".to_string()), (43usize, "g".to_string())];
    PythonCode::from_defs("/a/b.py".to_string(), source, &defs)
}

#[test]
fn q_stops() {
    let mut s = Scroll::new(8, 4);
    assert_eq!(handle_message(TuiMessage::KeyEvent(Key::Char('q')), &mut s, &code()), TuiAction::Stop);
    assert_eq!(s.current_line, 0);
}

#[test]
fn arrows_move_the_selection() {
    let c = code();
    let mut s = Scroll::new(8, 4);
    assert_eq!(handle_message(TuiMessage::KeyEvent(Key::Down), &mut s, &c), TuiAction::Render);
    assert_eq!(handle_message(TuiMessage::KeyEvent(Key::Down), &mut s, &c), TuiAction::Render);
    assert_eq!(s.current_line, 2);
    assert_eq!(handle_message(TuiMessage::KeyEvent(Key::Up), &mut s, &c), TuiAction::Render);
    assert_eq!(s.current_line, 1);
}

#[test]
fn page_keys_jump_between_functions() {
    let c = code();
    let mut s = Scroll::new(8, 4);
    assert_eq!(handle_message(TuiMessage::KeyEvent(Key::PageDown), &mut s, &c), TuiAction::Render);
    assert_eq!(s.current_line, 1);
    assert_eq!(handle_message(TuiMessage::KeyEvent(Key::PageDown), &mut s, &c), TuiAction::Render);
    assert_eq!(s.current_line, 6);
    assert_eq!(handle_message(TuiMessage::KeyEvent(Key::PageDown), &mut s, &c), TuiAction::Nothing);
    assert_eq!(s.current_line, 6);
    assert_eq!(handle_message(TuiMessage::KeyEvent(Key::PageUp), &mut s, &c), TuiAction::Render);
    assert_eq!(s.current_line, 1);
    assert_eq!(handle_message(TuiMessage::KeyEvent(Key::PageUp), &mut s, &c), TuiAction::Nothing);
    assert_eq!(s.current_line, 1);
}

#[test]
fn enter_toggles_the_selected_line() {
    let c = code();
    let mut s = Scroll::new(8, 4);
    s.down(3);
    assert_eq!(
        handle_message(TuiMessage::KeyEvent(Key::Enter), &mut s, &c),
        TuiAction::ToggleFilter(Target { lineno: 4 })
    );
}

#[test]
fn timer_and_render_messages() {
    let c = code();
    let mut s = Scroll::new(8, 4);
    assert_eq!(handle_message(TuiMessage::Render, &mut s, &c), TuiAction::Render);
    assert_eq!(handle_message(TuiMessage::Update, &mut s, &c), TuiAction::Observe);
}

fn lines(n: usize) -> Vec<String> {
    (1..=n).map(|i| format!("code {i}")).collect()
}

#[test]
fn main_rows_show_summaries_and_blank_lines() {
    let highlighted = lines(5);
    let mut summaries = HashMap::new();
    summaries.insert(2usize, Summary { min: 1, p50: 2000, p90: 3_000_000, p99: 4_000_000_000, max: 5, samples: 6 });
    let mut s = Scroll::new(5, 10);
    let t = main_table_rows(&mut s, 12, &summaries, &highlighted);
    // 12 - 9 = 3 rows on screen
    assert_eq!(t.rows.len(), 3);
    assert_eq!(t.rows[0], vec!["", "", "", "", "", "", "1", "code 1"]);
    assert_eq!(t.rows[1], vec!["1 ns", "2 us", "3 ms", "4 s", "5 ns", "6", "2", "code 2"]);
    assert_eq!(t.rows[2][6], "3");
    assert_eq!(t.highlight_row, 0);
}

#[test]
fn main_rows_follow_the_selection() {
    let highlighted = lines(20);
    let mut s = Scroll::new(20, 10);
    s.down(7);
    let t = main_table_rows(&mut s, 12, &HashMap::new(), &highlighted);
    assert_eq!(s.scroll_offset, 5);
    assert_eq!(t.rows.len(), 3);
    assert_eq!(t.rows[0][6], "6");
    assert_eq!(t.rows[2][7], "code 8");
    assert_eq!(t.highlight_row, 2);
}

fn config(pid: i32) -> Config {
    Config { pid, python_bin: "python".to_string(), python_code: "/src/app/main.py".to_string() }
}

#[test]
fn header_state_shows_all_for_every_process() {
    assert_eq!(header_state(&config(-1)).pid, "ALL");
    let h = header_state(&config(123));
    assert_eq!(h.pid, "123");
    assert_eq!(h.python_bin, "python");
    assert_eq!(h.code_path, "/src/app/main.py");
}

#[test]
fn window_title_is_name_then_directory() {
    assert_eq!(window_title("/src/app/main.py"), Ok("main.py (/src/app/)".to_string()));
    assert_eq!(window_title("main.py"), Ok("main.py (/)".to_string()));
    assert_eq!(window_title("/"), Err(TitleError::NoFileName));
    assert_eq!(window_title("/src/.."), Err(TitleError::NoFileName));
}

fn contents(t: &comfy_table::Table) -> Vec<Vec<String>> {
    t.row_iter().map(|r| r.cell_iter().map(|c| c.content()).collect()).collect()
}

#[test]
fn header_table_lists_the_settings() {
    let t = header_table(&header_state(&config(5)));
    assert!(t.table.header().is_none());
    assert_eq!(
        contents(&t.table),
        vec![vec!["pid", "5"], vec!["python", "python"], vec!["code", "/src/app/main.py"]]
    );
    assert_eq!(t.highlight_row, NO_HIGHLIGHT);
}

#[test]
fn main_table_has_the_column_names_and_rows() {
    let highlighted = lines(3);
    let mut s = Scroll::new(3, 10);
    let rows = main_table_rows(&mut s, 20, &HashMap::new(), &highlighted);
    let w = main_table(rows);
    let header: Vec<String> = w.table.header().unwrap().cell_iter().map(|c| c.content()).collect();
    assert_eq!(header, vec!["min", "p50", "p90", "p99", "max", "samples", "line", "code"]);
    let c = contents(&w.table);
    assert_eq!(c.len(), 3);
    assert_eq!(c[2], vec!["", "", "", "", "", "", "3", "code 3"]);
    assert_eq!(w.highlight_row, 0);
}

#[test]
fn tui_state_starts_at_the_top() {
    let state = TuiState::new(&config(-1), PythonCode::from_defs("/src/app/main.py".to_string(), "a\nb\n".to_string(), &Vec::new()), lines(2)).unwrap();
    assert_eq!(state.title, "main.py (/src/app/)");
    assert_eq!(state.header_state.pid, "ALL");
    assert_eq!(state.scroll.current_line, 0);
    assert_eq!(state.scroll.range(), 1..3);
    assert!(state.summary_map.is_empty());
}

#[test]
fn tui_state_refuses_a_path_without_file_name() {
    let c = Config { pid: -1, python_bin: "python".to_string(), python_code: "/".to_string() };
    let r = TuiState::new(&c, PythonCode::from_defs("/".to_string(), String::new(), &Vec::new()), Vec::new());
    assert!(matches!(r, Err(TitleError::NoFileName)));
}

#[test]
fn tui_state_handles_and_renders() {
    let mut state = TuiState::new(&config(9), code(), lines(8)).unwrap();
    assert_eq!(state.handle(TuiMessage::KeyEvent(Key::PageDown)), TuiAction::Render);
    let mut summaries = HashMap::new();
    summaries.insert(2usize, Summary { min: 7, p50: 7, p90: 7, p99: 7, max: 7, samples: 1 });
    state.set_summaries(summaries);
    let (header, main) = state.render_tables(11);
    assert_eq!(contents(&header.table)[0], vec!["pid", "9"]);
    let rows = contents(&main.table);
    assert_eq!(rows.len(), 2);
    assert_eq!(rows[0], vec!["", "", "", "", "", "", "1", "code 1"]);
    assert_eq!(rows[1], vec!["7 ns", "7 ns", "7 ns", "7 ns", "7 ns", "1", "2", "code 2"]);
    assert_eq!(main.highlight_row, 1);
}

#[test]
fn handles_refuses_moves_that_would_fail() {
    let c = code();
    let empty = Scroll::new(0, 4);
    assert!(!downtown::tui::handles(TuiMessage::KeyEvent(Key::Down), &empty, &c));
    assert!(!downtown::tui::handles(TuiMessage::KeyEvent(Key::PageDown), &empty, &c));
    assert!(downtown::tui::handles(TuiMessage::KeyEvent(Key::Up), &empty, &c));
    assert!(!downtown::tui::handles(TuiMessage::KeyEvent(Key::Other), &empty, &c));
    assert!(!downtown::tui::handles(TuiMessage::KeyEvent(Key::Char('x')), &empty, &c));
    let s = Scroll::new(8, 4);
    for key in [Key::Char('q'), Key::Up, Key::Down, Key::PageUp, Key::PageDown, Key::Enter] {
        assert!(downtown::tui::handles(TuiMessage::KeyEvent(key), &s, &c));
    }
    let mut at_end = Scroll::new(8, 4);
    at_end.current_line = usize::MAX;
    assert!(!downtown::tui::handles(TuiMessage::KeyEvent(Key::Enter), &at_end, &c));
    assert!(downtown::tui::handles(TuiMessage::Update, &at_end, &c));
}

#[test]
fn renders_needs_room_for_rows() {
    let s = Scroll::new(8, 4);
    assert!(!downtown::tui::renders(&s, 9, 8));
    assert!(downtown::tui::renders(&s, 10, 8));
    assert!(!downtown::tui::renders(&s, 20, 7));
    let mut below = Scroll::new(8, 4);
    below.scroll_offset = 5;
    assert!(!downtown::tui::renders(&below, 20, 8));
}

#[test]
fn main_rows_past_the_list_are_empty() {
    let highlighted = lines(3);
    let mut s = Scroll::new(3, 10);
    s.current_line = 7;
    s.scroll_offset = 6;
    let t = main_table_rows(&mut s, 12, &HashMap::new(), &highlighted);
    assert!(t.rows.is_empty());
    assert_eq!(t.highlight_row, 1);
}

#[test]
fn tables_on_screen_use_condensed_utf8_borders() {
    let t = header_table(&header_state(&config(5)));
    let lines: Vec<String> = t.table.lines().collect();
    assert!(lines[0].starts_with('┌'));
    // no separator lines between the rows
    assert_eq!(lines.len(), 5);
}

#[test]
fn line_numbers_are_aligned_right() {
    let highlighted = lines(12);
    let mut s = Scroll::new(12, 10);
    let rows = main_table_rows(&mut s, 30, &HashMap::new(), &highlighted);
    let w = main_table(rows);
    let out: Vec<String> = w.table.lines().collect();
    let row = out.iter().find(|l| l.contains(" code 1 ")).unwrap();
    // the column is as wide as its name "line": a right-aligned 1 has three
    // spaces of its own before it, a left-aligned one would have them after
    assert!(row.contains("    1 "), "{row}");
    assert!(!row.contains(" 1    "), "{row}");
}
