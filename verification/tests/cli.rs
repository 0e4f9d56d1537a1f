use downtown::cli::{determine_python, validate_config, Args, Config, ResolvedPath};
use downtown::error::Error;

fn args(pid: i32, python_bin: Option<&str>) -> Args {
    Args { python_code: "main.py".to_string(), pid, python_bin: python_bin.map(|s| s.to_string()) }
}

#[test]
fn every_process_of_the_default_interpreter() {
    assert_eq!(determine_python(&args(-1, None)), "python");
}

#[test]
fn every_process_of_a_given_interpreter() {
    assert_eq!(determine_python(&args(-1, Some("./python"))), "./python");
}

#[test]
fn one_process_uses_its_executable() {
    assert_eq!(determine_python(&args(148213, None)), "/proc/148213/exe");
    assert_eq!(determine_python(&args(0, None)), "/proc/0/exe");
    assert_eq!(determine_python(&args(-5, None)), "/proc/-5/exe");
    assert_eq!(determine_python(&args(i32::MIN, None)), "/proc/-2147483648/exe");
}

#[test]
fn a_given_interpreter_wins_over_the_pid() {
    assert_eq!(determine_python(&args(7, Some("/usr/bin/python3"))), "/usr/bin/python3");
}

#[test]
fn config_takes_the_full_path() {
    let c = Config::new(args(7, None), ResolvedPath::Utf8("/src/main.py".to_string())).unwrap();
    assert_eq!(c.pid, 7);
    assert_eq!(c.python_bin, "/proc/7/exe");
    assert_eq!(c.python_code, "/src/main.py");
    assert!(validate_config(&c).is_ok());
}

#[test]
fn config_of_an_unreadable_file() {
    match Config::new(args(-1, None), ResolvedPath::Unreadable("No such file".to_string())) {
        Err(Error::CannotReadFile { source, path }) => {
            assert_eq!(source, "No such file");
            assert_eq!(path, "main.py");
        }
        _ => panic!("expected CannotReadFile"),
    }
}

#[test]
fn config_of_a_non_utf8_path() {
    match Config::new(args(-1, None), ResolvedPath::NotUtf8) {
        Err(Error::NonUtf8Path { path }) => assert_eq!(path, "main.py"),
        _ => panic!("expected NonUtf8Path"),
    }
}
