use tui_watcher::daemon::{parse_pid, pid_file_path, stop_decision, StopOutcome};

#[test]
fn stop_without_pid_file_is_a_noop() {
    assert_eq!(stop_decision(None), StopOutcome::NoDaemon);
}

#[test]
fn stop_with_pid_file_terminates_that_pid() {
    let outcome = stop_decision(Some(b"1234\n".to_vec()));
    assert_eq!(outcome, StopOutcome::Terminate { pid: 1234 });
}

#[test]
fn stop_with_malformed_pid_file_is_an_error() {
    assert_eq!(stop_decision(Some(b"not a pid".to_vec())), StopOutcome::MalformedPid);
    assert_eq!(stop_decision(Some(b"".to_vec())), StopOutcome::MalformedPid);
    assert_eq!(stop_decision(Some(b"  \n".to_vec())), StopOutcome::MalformedPid);
}

#[test]
fn pid_parsing_accepts_surrounding_whitespace_and_sign() {
    assert_eq!(parse_pid(b" 42 \n"), Some(42));
    assert_eq!(parse_pid(b"\t7\r\n"), Some(7));
    assert_eq!(parse_pid(b"+8"), Some(8));
    assert_eq!(parse_pid(b"-5"), Some(-5));
    assert_eq!(parse_pid(b"007"), Some(7));
}

#[test]
fn pid_parsing_rejects_what_is_not_a_number() {
    assert_eq!(parse_pid(b""), None);
    assert_eq!(parse_pid(b"   "), None);
    assert_eq!(parse_pid(b"12a4"), None);
    assert_eq!(parse_pid(b"1 2"), None);
    assert_eq!(parse_pid(b"+"), None);
    assert_eq!(parse_pid(b"-"), None);
    assert_eq!(parse_pid(b"--4"), None);
}

#[test]
fn pid_parsing_respects_the_i32_range() {
    assert_eq!(parse_pid(b"2147483647"), Some(i32::MAX));
    assert_eq!(parse_pid(b"2147483648"), None);
    assert_eq!(parse_pid(b"-2147483648"), Some(i32::MIN));
    assert_eq!(parse_pid(b"-2147483649"), None);
    assert_eq!(parse_pid(b"999999999999999999999999"), None);
}

#[test]
fn pid_file_stands_at_the_well_known_path() {
    assert_eq!(pid_file_path(), "/tmp/tui-watcher.pid");
}
