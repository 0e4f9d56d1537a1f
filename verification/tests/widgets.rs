use downtown::tui::layout::{layout, screen_areas, Area};
use downtown::tui::widgets::column_config::{ColumnConfig, ColumnConfigState, SWITCHES_WIDTH};
use downtown::tui::widgets::header::{Header, HeaderState};
use downtown::tui::widgets::table::{place_table_lines, TableWidget};

#[test]
fn header_lines_sit_inside_the_border() {
    let state = HeaderState { pid: "ALL".to_string(), python_bin: "python".to_string(), code_path: "/a.py".to_string() };
    let lines = Header::text_lines(Area { x: 3, y: 4, width: 80, height: 5 }, &state);
    assert_eq!(lines.len(), 2);
    assert_eq!((lines[0].x, lines[0].y), (5, 5));
    assert_eq!(lines[0].text, "pid: ALL / python binary: python");
    assert_eq!((lines[1].x, lines[1].y), (5, 6));
    assert_eq!(lines[1].text, "code: /a.py");
}

#[test]
fn switches_sit_side_by_side() {
    let state = ColumnConfigState::new(true, false, true, false, false);
    let items = ColumnConfig::switch_texts(Area { x: 10, y: 2, width: 100, height: 3 }, &state);
    let texts: Vec<&str> = items.iter().map(|i| i.text.as_str()).collect();
    assert_eq!(texts, vec!["[v] Latency/Frequency", "[ ] GC", "[v] Allocation", "[ ] Net", "[ ] Disk"]);
    let xs: Vec<u16> = items.iter().map(|i| i.x).collect();
    assert_eq!(xs, vec![10, 31, 37, 51, 58]);
    assert!(items.iter().all(|i| i.y == 3));
    let total: usize = texts.iter().map(|t| t.len()).sum();
    assert_eq!(total, SWITCHES_WIDTH as usize);
}

fn table(rows: usize) -> comfy_table::Table {
    let mut t = comfy_table::Table::new();
    t.set_header(vec!["a", "b"]);
    for i in 0..rows {
        t.add_row(vec![format!("{i}"), "x".to_string()]);
    }
    t
}

#[test]
fn table_lines_fill_the_area_from_the_top() {
    let w = TableWidget { table: table(10), highlight_row: 2 };
    let placed = w.place_lines(Area { x: 0, y: 5, width: 40, height: 6 });
    assert_eq!(placed.len(), 6);
    for (j, p) in placed.iter().enumerate() {
        assert_eq!(p.y, 5 + j as u16);
        assert_eq!(p.reversed, p.y == 5 + 2 + 3);
    }
    assert!(placed[0].text.starts_with('+'));
}

#[test]
fn table_lines_stop_with_the_table() {
    let w = TableWidget { table: table(1), highlight_row: 999 };
    let placed = w.place_lines(Area { x: 0, y: 0, width: 40, height: 50 });
    // border, header, separator, row, border
    assert_eq!(placed.len(), 5);
    assert!(placed.iter().all(|p| !p.reversed));
}

#[test]
fn layout_splits_inside_a_margin() {
    let area = Area { x: 0, y: 0, width: 100, height: 102 };
    let parts = layout(area);
    assert_eq!(parts.len(), 3);
    assert_eq!(parts[0], Area { x: 1, y: 1, width: 98, height: 10 });
    assert_eq!(parts[1], Area { x: 1, y: 11, width: 98, height: 80 });
    assert_eq!(parts[2], Area { x: 1, y: 91, width: 98, height: 10 });
}

#[test]
fn screen_areas_put_the_main_table_five_rows_down() {
    let (header, main) = screen_areas(Area { x: 2, y: 1, width: 80, height: 24 });
    assert_eq!(header, Area { x: 2, y: 1, width: 80, height: 10 });
    assert_eq!(main, Area { x: 2, y: 6, width: 80, height: 19 });
}

#[test]
fn placed_lines_keep_their_texts_and_stop_at_the_bottom() {
    let lines = vec!["one".to_string(), "two".to_string(), "three".to_string()];
    let placed = place_table_lines(lines.clone(), Area { x: 0, y: 3, width: 10, height: 2 }, 0);
    assert_eq!(placed.len(), 2);
    assert_eq!((placed[0].y, placed[0].text.as_str(), placed[0].reversed), (3, "one", false));
    assert_eq!((placed[1].y, placed[1].text.as_str(), placed[1].reversed), (4, "two", false));
    let placed = place_table_lines(lines, Area { x: 0, y: 0, width: 10, height: 9 }, 0);
    assert_eq!(placed.len(), 3);
    assert_eq!(placed[2].text, "three");
    assert!(placed[2].reversed == false && placed.iter().filter(|p| p.reversed).count() == 0);
    let placed = place_table_lines(vec![String::new(); 5], Area { x: 0, y: 0, width: 10, height: 9 }, 1);
    assert!(placed[4].reversed);
}

#[test]
fn placed_lines_are_the_table_lines_at_the_area_width() {
    let mut expected_table = table(3);
    expected_table.set_width(40);
    let expected: Vec<String> = expected_table.lines().collect();
    let placed = TableWidget { table: table(3), highlight_row: 1 }.place_lines(Area { x: 0, y: 2, width: 40, height: 50 });
    let texts: Vec<String> = placed.iter().map(|p| p.text.clone()).collect();
    assert_eq!(texts, expected);
    assert!(placed[2 + 1 + 3 - 2].reversed);
}

#[test]
fn layout_rows_span_the_width_inside_the_margin() {
    for area in [Area { x: 3, y: 2, width: 50, height: 30 }, Area { x: 0, y: 0, width: 1, height: 30 }] {
        for part in layout(area) {
            if area.width >= 2 {
                assert_eq!((part.x, part.width), (area.x + 1, area.width - 2));
            } else {
                assert_eq!((part.x, part.width), (0, 0));
            }
        }
    }
}
