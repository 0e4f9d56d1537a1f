use downtown::tui::code::{line_of_offset, line_offsets, PythonCode};

#[test]
fn line_offsets_end_after_each_newline() {
    assert_eq!(line_offsets("a\nbc\n"), vec![2, 5]);
    assert_eq!(line_offsets("a\nbc"), vec![2, 4]);
    assert_eq!(line_offsets(""), Vec::<usize>::new());
    assert_eq!(line_offsets("\n\n"), vec![1, 2]);
    assert_eq!(line_offsets("é\n"), vec![3]);
}

#[test]
fn line_of_offset_counts_line_ends_before() {
    let ends = line_offsets("x = 1\ndef f():\n    pass\n");
    assert_eq!(ends, vec![6, 15, 24]);
    assert_eq!(line_of_offset(&ends, 0), 1);
    assert_eq!(line_of_offset(&ends, 3), 1);
    // an offset at the very start of a line counts only the ends before it
    assert_eq!(line_of_offset(&ends, 6), 1);
    assert_eq!(line_of_offset(&ends, 7), 2);
    assert_eq!(line_of_offset(&ends, 19), 3);
    assert_eq!(line_of_offset(&ends, 100), 4);
}

fn code() -> PythonCode {
    let source = "import os\n\ndef f():\n    pass\n\nclass A:\n    def g(self):\n        pass\n".to_string();
    let defs = vec![(11usize, "f".to_string()), (43usize, "g".to_string())];
    PythonCode::from_defs("/a/b.py".to_string(), source, &defs)
}

#[test]
fn from_source_numbers_the_functions() {
    let c = code();
    assert_eq!(c.path, "/a/b.py");
    // `f` starts a line, so only the two line ends before its offset count
    assert_eq!(c.funcs, vec![(2, "f".to_string()), (7, "g".to_string())]);
}

#[test]
fn jump_to_prev_fn() {
    let c = code();
    assert_eq!(c.jump_to_prev_fn(0), None);
    assert_eq!(c.jump_to_prev_fn(1), None);
    assert_eq!(c.jump_to_prev_fn(2), Some(1));
    assert_eq!(c.jump_to_prev_fn(6), Some(1));
    assert_eq!(c.jump_to_prev_fn(7), Some(6));
    assert_eq!(c.jump_to_prev_fn(100), Some(6));
}

#[test]
fn jump_to_next_fn() {
    let c = code();
    assert_eq!(c.jump_to_next_fn(0), Some(1));
    assert_eq!(c.jump_to_next_fn(1), Some(6));
    assert_eq!(c.jump_to_next_fn(5), Some(6));
    assert_eq!(c.jump_to_next_fn(6), None);
}

#[test]
fn parsing_finds_the_functions() {
    let source = "import os\n\ndef f():\n    pass\n\nclass A:\n    def g(self):\n        pass\n\nasync def h():\n    def inner():\n        pass\n".to_string();
    let c = PythonCode::new("/a/b.py".to_string(), source.clone()).unwrap();
    assert_eq!(c.source, source);
    assert_eq!(
        c.funcs,
        vec![(2, "f".to_string()), (7, "g".to_string()), (9, "h".to_string()), (11, "inner".to_string())]
    );
}

#[test]
fn source_that_does_not_parse_gives_the_parse_error() {
    let err = PythonCode::new("/a/b.py".to_string(), "def (:\n".to_string()).err().unwrap();
    assert!(!err.is_empty());
    let defs = downtown::tui::defs::function_defs("x = 1\n", "/x.py").unwrap();
    assert!(defs.is_empty());
}
