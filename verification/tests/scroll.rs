use downtown::tui::scroll::Scroll;

#[test]
fn new_scroll_selects_the_first_line() {
    let s = Scroll::new(100, 10);
    assert_eq!(s.current_line, 0);
    assert_eq!(s.scroll_offset, 0);
    assert_eq!(s.range(), 1..11);
}

#[test]
fn up_stops_at_the_first_line() {
    let mut s = Scroll::new(100, 10);
    s.down(5);
    s.up(2);
    assert_eq!(s.current_line, 3);
    s.up(10);
    assert_eq!(s.current_line, 0);
    assert_eq!(s.scroll_offset, 0);
}

#[test]
fn down_stops_at_the_last_line() {
    let mut s = Scroll::new(20, 5);
    s.down(50);
    assert_eq!(s.current_line, 19);
    // the offset follows once the selection passes the screen
    assert_eq!(s.scroll_offset, 14);
}

#[test]
fn down_scrolls_when_passing_the_bottom() {
    let mut s = Scroll::new(100, 10);
    s.down(9);
    assert_eq!(s.scroll_offset, 0);
    s.down(1);
    assert_eq!(s.current_line, 10);
    assert_eq!(s.scroll_offset, 0);
    s.down(1);
    assert_eq!(s.current_line, 11);
    assert_eq!(s.scroll_offset, 1);
}

#[test]
fn up_scrolls_to_keep_the_selection() {
    let mut s = Scroll::new(100, 10);
    s.down(30);
    assert_eq!(s.scroll_offset, 20);
    s.up(15);
    assert_eq!(s.current_line, 15);
    assert_eq!(s.scroll_offset, 15);
}

#[test]
fn resize_brings_the_selection_on_screen() {
    let mut s = Scroll::new(100, 10);
    s.down(10);
    s.resize_height(10);
    assert_eq!(s.scroll_offset, 1);
    assert!(s.scroll_offset <= s.current_line && s.current_line < s.scroll_offset + 10);
    let r = s.range();
    assert!(r.contains(&(s.current_line + 1)));
    s.resize_height(3);
    assert_eq!(s.scroll_offset, 8);
    assert_eq!(s.range(), 9..12);
}

#[test]
fn range_stops_at_the_last_line() {
    let mut s = Scroll::new(12, 10);
    s.down(11);
    s.resize_height(10);
    assert_eq!(s.range(), 3..13);
    let empty = Scroll::new(0, 10);
    assert_eq!(empty.range(), 1..1);
}

#[test]
fn down_undoes_up() {
    let mut s = Scroll::new(50, 10);
    s.down(20);
    let line = s.current_line;
    s.up(7);
    s.down(7);
    assert_eq!(s.current_line, line);
}

#[test]
fn up_undoes_down() {
    let mut s = Scroll::new(50, 10);
    s.down(20);
    let line = s.current_line;
    s.down(7);
    s.up(7);
    assert_eq!(s.current_line, line);
}

#[test]
fn cursor_stays_in_bounds() {
    let mut s = Scroll::new(30, 4);
    for step in 0..200usize {
        if step % 3 == 0 {
            s.up(step % 7);
        } else {
            s.down(step % 11);
        }
        if step % 5 == 0 {
            s.resize_height(1 + step % 6);
            assert!(s.current_line < s.scroll_offset + 1 + step % 6);
        }
        assert!(s.current_line < 30);
        assert!(s.scroll_offset <= s.current_line);
    }
}

#[test]
fn down_leaves_the_selection_at_most_one_line_below_the_screen() {
    let mut s = Scroll::new(100, 10);
    for step in [3, 9, 1, 40, 2] {
        s.down(step);
        assert!(s.scroll_offset <= s.current_line && s.current_line <= s.scroll_offset + 10);
    }
    s.down(100);
    assert_eq!(s.current_line, 99);
    assert_eq!(s.scroll_offset + 10, 99);
    s.resize_height(10);
    assert!(s.current_line < s.scroll_offset + 10);
}
