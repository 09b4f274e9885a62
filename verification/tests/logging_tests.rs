use cliup::logging::{
    command_result_lines, format_exit_code, info_line, run_header_lines, timestamp, LineTail,
};

#[test]
fn exit_codes() {
    assert_eq!(format_exit_code(Some(0)), "0");
    assert_eq!(format_exit_code(Some(-9)), "-9");
    assert_eq!(format_exit_code(None), "terminated by signal");
}

#[test]
fn command_results_are_logged_line_by_line() {
    let lines = command_result_lines("npm ls -g", b"a\nb\n", b"", Some(1));
    assert_eq!(
        lines,
        vec!["$ npm ls -g", "exit code: 1", "stdout:", "a", "b", "stderr:", "(empty)"]
    );
    let lines = command_result_lines("x", b"\xffz", b"\n", None);
    assert_eq!(
        lines,
        vec!["$ x", "exit code: terminated by signal", "stdout:", "\u{fffd}z", "stderr:", ""]
    );
}

#[test]
fn header_and_info_lines() {
    let rule = "=".repeat(60);
    assert_eq!(
        run_header_lines("2024-01-02 03:04:05"),
        vec![
            String::new(),
            rule.clone(),
            "run started at 2024-01-02 03:04:05".to_string(),
            rule
        ]
    );
    assert_eq!(info_line("2024-01-02 03:04:05", "run finished"), "[2024-01-02 03:04:05] run finished");
}

#[test]
fn timestamp_has_the_log_format() {
    let ts = timestamp();
    assert_eq!(ts.len(), 19);
    let b = ts.as_bytes();
    assert_eq!(b[4], b'-');
    assert_eq!(b[7], b'-');
    assert_eq!(b[10], b' ');
    assert_eq!(b[13], b':');
    assert_eq!(b[16], b':');
}

#[test]
fn tail_keeps_the_last_lines() {
    let mut tail = LineTail::new(2);
    for l in ["a", "b", "c", "d"] {
        tail.push(l.to_string());
    }
    assert_eq!(tail.into_lines(), vec!["c", "d"]);
    let mut tail = LineTail::new(5);
    tail.push("x".to_string());
    assert_eq!(tail.into_lines(), vec!["x"]);
    let mut tail = LineTail::new(0);
    tail.push("x".to_string());
    assert!(tail.into_lines().is_empty());
}
