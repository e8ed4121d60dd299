use yinx::input::{Key, KeyPress};
use yinx::logs_pane::{FocusedField, LogEntry, LogLevel, LogsPane, LogsTab, Timestamp};
use yinx::request::{Method, Request};

fn press(code: Key) -> KeyPress {
    KeyPress { code, ctrl: false, alt: false, shift: false }
}

fn pane() -> LogsPane<u16> {
    LogsPane::new()
}

#[test]
fn test_log_entry_new() {
    let entry = LogEntry::new(LogLevel::Info, "test message");
    assert_eq!(entry.level, LogLevel::Info);
    assert_eq!(entry.message, "test message");
    assert!(entry.context.is_none());
}

#[test]
fn test_log_entry_with_context() {
    let entry = LogEntry::new(LogLevel::Error, "error occurred").with_context("stack trace here");
    assert_eq!(entry.context, Some("stack trace here".to_string()));
}

#[test]
fn test_logs_pane_add_log() {
    let mut pane = pane();
    pane.add_log(LogLevel::Info, "test message");
    assert_eq!(pane.logs.len(), 1);
    assert_eq!(pane.logs[0].level, LogLevel::Info);
}

#[test]
fn test_logs_pane_add_error_log() {
    let mut pane = pane();
    pane.add_log(LogLevel::Error, "error message");
    assert_eq!(pane.errors.len(), 1);
    assert_eq!(pane.errors[0].message, "error message");
}

#[test]
fn test_logs_pane_add_log_with_context() {
    let mut pane = pane();
    pane.add_log_with_context(LogLevel::Error, "error", "context info");
    assert_eq!(pane.logs.len(), 1);
    assert_eq!(pane.errors.len(), 1);
}

#[test]
fn test_logs_pane_max_logs() {
    let mut pane = pane().with_max_logs(3);
    pane.add_log(LogLevel::Info, "msg1");
    pane.add_log(LogLevel::Info, "msg2");
    pane.add_log(LogLevel::Info, "msg3");
    pane.add_log(LogLevel::Info, "msg4");
    assert_eq!(pane.logs.len(), 3);
}

#[test]
fn test_logs_pane_add_chunk_interval() {
    let mut pane = pane();
    pane.add_chunk_interval(50);
    pane.add_chunk_interval(75);
    assert_eq!(pane.chunk_intervals.len(), 2);
}

#[test]
fn test_logs_pane_clear_logs() {
    let mut pane = pane();
    pane.add_log(LogLevel::Error, "error");
    pane.add_log(LogLevel::Info, "info");
    pane.clear_logs();
    assert!(pane.logs.is_empty());
    assert!(pane.errors.is_empty());
}

#[test]
fn test_logs_pane_handle_tabs_key_left() {
    let mut pane = pane();
    pane.selected_tab = 2;
    pane.focused_field = FocusedField::Tabs;
    assert!(pane.handle_key(&press(Key::Left)));
    assert_eq!(pane.selected_tab, 1);
}

#[test]
fn test_logs_pane_handle_tabs_key_right() {
    let mut pane = pane();
    pane.focused_field = FocusedField::Tabs;
    assert!(pane.handle_key(&press(Key::Right)));
    assert_eq!(pane.selected_tab, 1);
}

#[test]
fn test_logs_pane_handle_tabs_key_enter() {
    let mut pane = pane();
    pane.focused_field = FocusedField::Tabs;
    assert!(pane.handle_key(&press(Key::Enter)));
    assert_eq!(pane.focused_field, FocusedField::TabContent);
}

#[test]
fn test_logs_pane_handle_logs_key_up() {
    let mut pane = pane();
    pane.add_log(LogLevel::Info, "msg1");
    pane.add_log(LogLevel::Info, "msg2");
    pane.selected_log = 1;
    assert!(pane.handle_key(&press(Key::Up)));
    assert_eq!(pane.selected_log, 0);
}

#[test]
fn test_logs_pane_handle_logs_key_down() {
    let mut pane = pane();
    pane.add_log(LogLevel::Info, "msg1");
    pane.add_log(LogLevel::Info, "msg2");
    assert!(pane.handle_key(&press(Key::Down)));
    assert_eq!(pane.selected_log, 1);
}

#[test]
fn test_logs_pane_handle_errors_key_up() {
    let mut pane = pane();
    pane.add_log(LogLevel::Error, "err1");
    pane.add_log(LogLevel::Error, "err2");
    pane.selected_error = 1;
    pane.selected_tab = LogsTab::all().iter().position(|&t| t == LogsTab::Errors).unwrap();
    assert!(pane.handle_key(&press(Key::Up)));
    assert_eq!(pane.selected_error, 0);
}

#[test]
fn test_log_entry_timestamp_format() {
    let entry = LogEntry::new(LogLevel::Info, "test");
    let ts = entry.format_timestamp();
    assert!(ts.contains(':'));
}

#[test]
fn test_logs_pane_with_max_logs() {
    let pane = pane().with_max_logs(500);
    assert_eq!(pane.max_logs, 500);
}

fn stamped(secs: i64, level: LogLevel, message: &str) -> LogEntry {
    LogEntry { timestamp: Timestamp { secs, nanos: 0 }, level, message: message.to_string(), context: None }
}

#[test]
fn timestamp_is_the_utc_time_of_day_to_the_millisecond() {
    let entry = LogEntry {
        timestamp: Timestamp { secs: 86_400 + 3723, nanos: 45_600_000 },
        level: LogLevel::Info,
        message: String::new(),
        context: None,
    };
    assert_eq!(entry.format_timestamp(), "01:02:03.045");
}

#[test]
fn timestamp_before_the_epoch_counts_back_from_midnight() {
    let entry = LogEntry {
        timestamp: Timestamp { secs: -1, nanos: 999_999_999 },
        level: LogLevel::Info,
        message: String::new(),
        context: None,
    };
    assert_eq!(entry.format_timestamp(), "23:59:59.999");
}

#[test]
fn an_error_leaving_the_log_takes_its_copies_with_it() {
    let mut pane = pane().with_max_logs(2);
    pane.push_entry(stamped(10, LogLevel::Error, "first"));
    pane.push_entry(stamped(11, LogLevel::Error, "second"));
    pane.push_entry(stamped(12, LogLevel::Info, "third"));
    assert_eq!(pane.logs.len(), 2);
    assert_eq!(pane.logs[0].message, "second");
    assert_eq!(pane.errors.len(), 1);
    assert_eq!(pane.errors[0].message, "second");
}

#[test]
fn errors_with_the_same_stamp_leave_together() {
    let mut pane = pane().with_max_logs(2);
    pane.push_entry(stamped(10, LogLevel::Error, "a"));
    pane.push_entry(stamped(10, LogLevel::Error, "b"));
    pane.push_entry(stamped(11, LogLevel::Info, "c"));
    assert_eq!(pane.logs.len(), 2);
    assert!(pane.errors.is_empty());
}

#[test]
fn a_zero_limit_keeps_nothing() {
    let mut pane = pane().with_max_logs(0);
    pane.add_log(LogLevel::Error, "gone");
    assert!(pane.logs.is_empty());
    assert!(pane.errors.is_empty());
}

#[test]
fn chunk_intervals_keep_the_latest_fifty() {
    let mut pane = pane();
    for i in 0..60u64 {
        pane.add_chunk_interval(i);
    }
    assert_eq!(pane.chunk_intervals.len(), 50);
    assert_eq!(pane.chunk_intervals[0], 10);
    assert_eq!(pane.chunk_intervals[49], 59);
}

#[test]
fn compact_until_there_is_something_to_show() {
    let mut pane = pane();
    assert!(pane.should_compact());
    pane.add_log(LogLevel::Info, "one");
    pane.add_log(LogLevel::Info, "two");
    assert!(pane.should_compact());
    pane.add_log(LogLevel::Info, "three");
    assert!(!pane.should_compact());
    pane.clear_logs();
    pane.set_metrics(200);
    assert!(!pane.should_compact());
    pane.clear_metrics();
    assert!(pane.should_compact());
    pane.set_current_request(Request::new(Method::Get, "https://example.com"));
    assert!(!pane.should_compact());
    assert!(pane.current_request().is_some());
    pane.clear_current_request();
    assert!(pane.should_compact());
}

#[test]
fn log_keys_jump_and_leave() {
    let mut pane = pane();
    for m in ["a", "b", "c"] {
        pane.add_log(LogLevel::Info, m);
    }
    assert!(pane.handle_key(&press(Key::Char('G'))));
    assert_eq!(pane.selected_log, 2);
    assert!(pane.handle_key(&press(Key::Char('j'))));
    assert_eq!(pane.selected_log, 2);
    assert!(pane.handle_key(&press(Key::Char('g'))));
    assert_eq!(pane.selected_log, 0);
    assert!(!pane.handle_key(&press(Key::Char('x'))));
    assert!(pane.handle_key(&press(Key::Tab)));
    assert_eq!(pane.focused_field, FocusedField::Tabs);
    assert!(pane.latest_entry().map(|e| e.message == "c").unwrap_or(false));
    assert_eq!(pane.log_count(), 3);
}

#[test]
fn curl_tab_moves_without_jumps() {
    let mut pane = pane();
    pane.add_log(LogLevel::Info, "a");
    pane.add_log(LogLevel::Info, "b");
    pane.selected_tab = 5;
    assert!(pane.handle_key(&press(Key::Down)));
    assert_eq!(pane.selected_log, 1);
    assert!(!pane.handle_key(&press(Key::Char('g'))));
    assert!(!pane.handle_key(&press(Key::Tab)));
    pane.selected_tab = 1;
    assert!(pane.handle_key(&press(Key::Tab)));
    assert_eq!(pane.focused_field, FocusedField::Tabs);
    pane.selected_tab = 5;
    assert!(pane.handle_key(&press(Key::Right)));
    assert_eq!(pane.selected_tab, 5);
}

#[test]
fn test_logs_pane_new() {
    let pane = pane();
    assert_eq!(pane.selected_tab, 0);
    assert!(pane.logs.is_empty());
    assert!(pane.metrics.is_none());
}
