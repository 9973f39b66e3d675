use mcp_stdio::logs::{ProcessLogInner, ProcessLogs, ReadFailed, STDIO_LOG_CAPACITY};
use mcp_stdio::text::trim_line_ends;
use std::collections::VecDeque;

const EMPTY: &str = "no stdout/stderr captured yet";

#[test]
fn line_ends_are_trimmed_at_the_end_only() {
    assert_eq!(trim_line_ends("plain"), "plain");
    assert_eq!(trim_line_ends("one\n"), "one");
    assert_eq!(trim_line_ends("two\r\n"), "two");
    assert_eq!(trim_line_ends("many\n\r\r\n\n"), "many");
    assert_eq!(trim_line_ends("\ninner\r\nlines\n"), "\ninner\r\nlines");
    assert_eq!(trim_line_ends("spaces \t\n"), "spaces \t");
    assert_eq!(trim_line_ends("gr\u{fc}\u{df}e \u{1f600}\n"), "gr\u{fc}\u{df}e \u{1f600}");
    assert_eq!(trim_line_ends("\r\n"), "");
    assert_eq!(trim_line_ends(""), "");
}

#[test]
fn trimming_twice_is_trimming_once() {
    let once = trim_line_ends("a\n b\r\n\r");
    assert_eq!(once, "a\n b");
    assert_eq!(trim_line_ends(&once), once);
}

#[test]
fn an_empty_log_says_so() {
    let logs = ProcessLogs::new(5);
    assert_eq!(logs.formatted(), EMPTY);
}

#[test]
fn lines_of_line_ends_are_not_recorded() {
    let mut logs = ProcessLogs::new(5);
    logs.record_stdout_line("");
    logs.record_stdout_line("\n");
    logs.record_stderr_line("\r\n\r\n");
    assert_eq!(logs.formatted(), EMPTY);
    logs.record_stdout_line(" \n");
    assert_eq!(logs.formatted(), "stdout:\n ");
}

#[test]
fn stdout_alone_is_formatted() {
    let mut logs = ProcessLogs::new(5);
    logs.record_stdout_line("first");
    logs.record_stdout_line("second\n");
    assert_eq!(logs.formatted(), "stdout:\nfirst\nsecond");
}

#[test]
fn stderr_alone_is_formatted() {
    let mut logs = ProcessLogs::new(5);
    logs.record_stderr_line("only\n");
    assert_eq!(logs.formatted(), "stderr:\nonly");
}

#[test]
fn stderr_comes_before_stdout() {
    let mut logs = ProcessLogs::new(5);
    logs.record_stdout_line("out 1");
    logs.record_stderr_line("err 1");
    logs.record_stdout_line("out 2");
    logs.record_stderr_line("err 2");
    assert_eq!(
        logs.formatted(),
        "stderr:\nerr 1\nerr 2\nstdout:\nout 1\nout 2"
    );
}

#[test]
fn a_full_stream_gives_up_its_oldest_line() {
    let mut logs = ProcessLogs::new(2);
    for line in ["a", "b", "", "c", "d"] {
        logs.record_stdout_line(line);
    }
    logs.record_stderr_line("kept");
    assert_eq!(logs.formatted(), "stderr:\nkept\nstdout:\nc\nd");
}

#[test]
fn the_default_capacity_is_fifty() {
    assert_eq!(STDIO_LOG_CAPACITY, 50);
    let mut logs = ProcessLogs::new(STDIO_LOG_CAPACITY);
    for number in 0..60 {
        logs.record_stderr_line(&number.to_string());
    }
    let expected: Vec<String> = (10..60).map(|number| number.to_string()).collect();
    assert_eq!(logs.formatted(), format!("stderr:\n{}", expected.join("\n")));
}

#[test]
fn a_capacity_of_zero_sets_no_limit() {
    let mut logs = ProcessLogs::new(0);
    for line in ["a", "b", "c"] {
        logs.record_stdout_line(line);
    }
    assert_eq!(logs.formatted(), "stdout:\na\nb\nc");
}

#[test]
fn push_works_on_any_queue() {
    let mut queue: VecDeque<String> = VecDeque::new();
    ProcessLogInner::push(&mut queue, 1, "a".to_string());
    assert_eq!(queue, ["a"]);
    ProcessLogInner::push(&mut queue, 1, "b".to_string());
    assert_eq!(queue, ["b"]);
    ProcessLogInner::push(&mut queue, 3, "c".to_string());
    assert_eq!(queue, ["b", "c"]);
}

#[test]
fn serialized_messages_are_recorded_under_their_prefix() {
    let mut logs = ProcessLogs::new(5);
    logs.record_serialized(">>>", Some("{\"id\":1}".to_string()));
    logs.record_serialized("<<<", None);
    logs.record_serialized("<<<", Some(String::new()));
    assert_eq!(logs.formatted(), "stdout:\n>>> {\"id\":1}\n<<< ");
}

#[test]
fn reading_stderr_goes_on_until_its_end() {
    let mut logs = ProcessLogs::new(5);
    assert!(logs.record_stderr_read(Ok(5), "oops\n"));
    assert!(logs.record_stderr_read(Ok(1), "\n"));
    assert!(!logs.record_stderr_read(Ok(0), "stale"));
    assert!(!logs.record_stderr_read(Err(ReadFailed), "stale"));
    assert_eq!(logs.formatted(), "stderr:\noops");
}
