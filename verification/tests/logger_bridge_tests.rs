use sts2_rs::bridge::{driver_reply, error_body, invalid_command_reply, unreadable_body_reply, ReplyBody};
use sts2_rs::driver::{DriverError, MockDriver, SimulatorDriver};
use sts2_rs::logger::{is_expired_log, log_file_name, EntryKind, GameLogger, LogEntry, DEFAULT_RETENTION_DAYS};
use sts2_rs::protocol::{Command, GameState};

#[test]
fn expired_logs() {
    let week = DEFAULT_RETENTION_DAYS * 86400;
    assert!(is_expired_log(true, Some("jsonl"), Some((week + 1, 0)), DEFAULT_RETENTION_DAYS));
    assert!(is_expired_log(true, Some("jsonl"), Some((week, 1)), DEFAULT_RETENTION_DAYS));
    assert!(!is_expired_log(true, Some("jsonl"), Some((week, 0)), DEFAULT_RETENTION_DAYS));
    assert!(!is_expired_log(true, Some("json"), Some((week + 1, 0)), DEFAULT_RETENTION_DAYS));
    assert!(!is_expired_log(false, Some("jsonl"), Some((week + 1, 0)), DEFAULT_RETENTION_DAYS));
    assert!(!is_expired_log(true, None, Some((week + 1, 0)), DEFAULT_RETENTION_DAYS));
    assert!(!is_expired_log(true, Some("jsonl"), None, DEFAULT_RETENTION_DAYS));
    assert!(is_expired_log(true, Some("jsonl"), Some((0, 1)), 0));
}

#[test]
fn seeds_are_sanitized_in_file_names() {
    assert_eq!(log_file_name("T", "Silent", "a/b\\c"), "T_Silent_a_b_c.jsonl");
    assert_eq!(log_file_name("T", "X", "//"), "T_X___.jsonl");
    assert_eq!(log_file_name("", "", ""), "__.jsonl");
}

#[test]
fn disabled_logger_records_nothing() {
    let mut off = GameLogger::new(None, true);
    assert!(!off.enabled());
    assert_eq!(off.log_state(), None);
    assert_eq!(off.log_action(), None);
    assert_eq!(off.path(), None);
    let mut unopened = GameLogger::new(Some("x.jsonl".to_string()), false);
    assert!(!unopened.enabled());
    assert_eq!(unopened.log_state(), None);
    assert_eq!(unopened.path(), Some("x.jsonl"));
}

#[test]
fn steps_count_states() {
    let mut l = GameLogger::new(Some("x.jsonl".to_string()), true);
    assert_eq!(l.log_action(), Some(LogEntry { step: 0, kind: EntryKind::Action }));
    assert_eq!(l.log_state(), Some(LogEntry { step: 1, kind: EntryKind::State }));
    assert_eq!(l.log_state(), Some(LogEntry { step: 2, kind: EntryKind::State }));
    assert_eq!(l.log_action(), Some(LogEntry { step: 2, kind: EntryKind::Action }));
    assert_eq!(l.log_action(), Some(LogEntry { step: 2, kind: EntryKind::Action }));
}

fn text(body: &ReplyBody) -> &str {
    match body {
        ReplyBody::Text(t) => t.as_str(),
        ReplyBody::State(_) => panic!("not text"),
    }
}

#[test]
fn error_replies() {
    assert_eq!(error_body("boom"), "{\"type\":\"error\",\"message\":\"boom\"}");
    let r = unreadable_body_reply("stream did not contain valid UTF-8");
    assert_eq!(r.status, 400);
    assert!(!r.json_content_type);
    assert_eq!(text(&r.body), "{\"type\":\"error\",\"message\":\"stream did not contain valid UTF-8\"}");
    let r = invalid_command_reply("expected value at line 1 column 1");
    assert_eq!(r.status, 400);
    assert!(r.json_content_type);
    assert_eq!(text(&r.body), "{\"type\":\"error\",\"message\":\"Invalid JSON: expected value at line 1 column 1\"}");
    let r = driver_reply(Err(DriverError { message: "EOF received from simulator process".to_string() }));
    assert_eq!(r.status, 500);
    assert_eq!(text(&r.body), "{\"type\":\"error\",\"message\":\"EOF received from simulator process\"}");
    let r = driver_reply(Ok(GameState::bare("ready")));
    assert_eq!(r.status, 200);
    assert!(matches!(r.body, ReplyBody::State(ref s) if s.msg_type == "ready"));
}

#[test]
fn replies_to_mock_answers() {
    let mut m = MockDriver::new();
    let r = driver_reply(m.send(&Command::Quit { path: None }));
    assert_eq!(r.status, 200);
    assert!(matches!(r.body, ReplyBody::State(ref s) if s.msg_type == "quit_result"));
    m.floor = i32::MAX;
    let r = driver_reply(m.send(&Command::leave_room()));
    assert_eq!(r.status, 500);
    assert!(text(&r.body).starts_with("{\"type\":\"error\""));
}
