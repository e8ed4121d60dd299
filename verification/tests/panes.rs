use yinx::engine::WorkflowState;
use yinx::layout::{bounded_height, bounded_width, LayoutContext, LayoutPreset, PaneConstraints, PaneConstraintsMap};
use yinx::logs_pane::{format_bytes, LogLevel, LogsTab};
use yinx::request_pane::{AuthType, BodyType, RequestTab};
use yinx::response_pane::{human_size, ResponseViewMode};
use yinx::terminal::{AppError, TerminalGuard};
use yinx::theme::Theme;
use yinx::workflow_pane::{NodeStatus, WorkflowTab};

#[test]
fn test_terminal_guard_suspend_is_noop_when_inactive() {
    let mut guard = TerminalGuard { raw_mode: false };
    assert!(guard.suspend().is_ok());
    assert!(!guard.raw_mode);
}

#[test]
fn resume_is_a_noop_when_active() {
    let mut guard = TerminalGuard { raw_mode: true };
    assert!(guard.resume().is_ok());
    assert!(guard.raw_mode);
}

#[test]
fn app_error_messages() {
    assert_eq!(AppError::Render("x".to_string()).message(), "Render error: x");
    assert_eq!(AppError::TerminalRestore("y".to_string()).message(), "Terminal restore failed: y");
    assert_eq!(AppError::Panic("z".to_string()).message(), "Panic: z");
}

#[test]
fn test_layout_preset_variants() {
    let presets = vec![LayoutPreset::Default, LayoutPreset::Mixed, LayoutPreset::Wide];
    assert_eq!(presets.len(), 3);
}

#[test]
fn layout_defaults() {
    let c = PaneConstraintsMap::default();
    assert_eq!(c.request.min_width, 50);
    assert_eq!(c.status_bar.max_height, Some(3));
    assert_eq!(PaneConstraints::default().min_height, 10);
    assert!(LayoutContext::default().show_logs);
    assert_eq!(bounded_width(10, 20, None), 20);
    assert_eq!(bounded_height(10, 2, Some(5)), 5);
}

#[test]
fn test_logs_tab_all() {
    let tabs = LogsTab::all();
    assert_eq!(tabs.len(), 6);
}

#[test]
fn test_logs_tab_as_str() {
    assert_eq!(LogsTab::Logs.as_str(), "Logs");
    assert_eq!(LogsTab::Metrics.as_str(), "Metrics");
    assert_eq!(LogsTab::Histogram.as_str(), "Histogram");
    assert_eq!(LogsTab::StatusCodes.as_str(), "Status");
    assert_eq!(LogsTab::Errors.as_str(), "Errors");
}

#[test]
fn test_log_level_as_str() {
    assert_eq!(LogLevel::Debug.as_str(), "DEBUG");
    assert_eq!(LogLevel::Info.as_str(), "INFO");
    assert_eq!(LogLevel::Warning.as_str(), "WARN");
    assert_eq!(LogLevel::Error.as_str(), "ERROR");
}

#[test]
fn test_log_level_all() {
    let levels = LogLevel::all();
    assert_eq!(levels.len(), 4);
}

#[test]
fn test_format_bytes_b() {
    assert_eq!(format_bytes(512), "512 B");
}

#[test]
fn test_format_bytes_kb() {
    assert_eq!(format_bytes(2048), "2.00 KB");
}

#[test]
fn test_format_bytes_mb() {
    assert_eq!(format_bytes(1048576), "1.00 MB");
}

#[test]
fn test_format_bytes_gb() {
    assert_eq!(format_bytes(1073741824), "1.00 GB");
}

#[test]
fn format_bytes_rounds_to_two_decimals() {
    assert_eq!(format_bytes(1023), "1023 B");
    assert_eq!(format_bytes(1536), "1.50 KB");
    assert_eq!(format_bytes(1100), "1.07 KB");
    assert_eq!(format_bytes(1048575), "1024.00 KB");
    assert_eq!(format_bytes(5 * 1073741824 + 536870912), "5.50 GB");
}

#[test]
fn test_body_type_as_str() {
    assert_eq!(BodyType::Raw.as_str(), "Raw");
    assert_eq!(BodyType::Json.as_str(), "JSON");
    assert_eq!(BodyType::Form.as_str(), "Form");
}

#[test]
fn test_auth_type_as_str() {
    assert_eq!(AuthType::NoAuth.as_str(), "None");
    assert_eq!(AuthType::Basic.as_str(), "Basic");
    assert_eq!(AuthType::Bearer.as_str(), "Bearer");
    assert_eq!(AuthType::ApiKey.as_str(), "API Key");
}

#[test]
fn test_auth_type_all() {
    let types = AuthType::all();
    assert_eq!(types.len(), 4);
}

#[test]
fn request_tabs_in_order() {
    assert_eq!(RequestTab::all(), vec![RequestTab::Headers, RequestTab::Body, RequestTab::Auth, RequestTab::Params]);
    assert_eq!(RequestTab::Params.as_str(), "Params");
    assert_eq!(BodyType::all().len(), 3);
}

#[test]
fn test_view_mode_cycle() {
    let mode = ResponseViewMode::Pretty;
    assert_eq!(mode.next(), ResponseViewMode::Raw);
    assert_eq!(mode.next().next(), ResponseViewMode::Headers);
    assert_eq!(mode.next().next().next(), ResponseViewMode::Preview);
    assert_eq!(mode.next().next().next().next(), ResponseViewMode::Pretty);
}

#[test]
fn test_view_mode_as_str() {
    assert_eq!(ResponseViewMode::Pretty.as_str(), "Pretty");
    assert_eq!(ResponseViewMode::Raw.as_str(), "Raw");
    assert_eq!(ResponseViewMode::Headers.as_str(), "Headers");
    assert_eq!(ResponseViewMode::Preview.as_str(), "Preview");
}

#[test]
fn test_human_size() {
    assert_eq!(human_size(500), "500b");
    assert_eq!(human_size(2048), "2.0KB");
    assert_eq!(human_size(1048576), "1.0MB");
}

#[test]
fn human_size_rounds_to_one_decimal() {
    assert_eq!(human_size(1126), "1.1KB");
    assert_eq!(human_size(3 * 1073741824), "3.0GB");
}

#[test]
fn test_workflow_tab_all() {
    let tabs = WorkflowTab::all();
    assert_eq!(tabs.len(), 3);
    assert!(matches!(tabs[0], WorkflowTab::Graph));
    assert!(matches!(tabs[1], WorkflowTab::Nodes));
    assert!(matches!(tabs[2], WorkflowTab::Variables));
}

#[test]
fn test_workflow_tab_as_str() {
    assert_eq!(WorkflowTab::Graph.as_str(), "Graph");
    assert_eq!(WorkflowTab::Nodes.as_str(), "Nodes");
    assert_eq!(WorkflowTab::Variables.as_str(), "Variables");
}

#[test]
fn test_node_status_symbol() {
    assert_eq!(NodeStatus::Pending.symbol(), "○");
    assert_eq!(NodeStatus::Running.symbol(), "◉");
    assert_eq!(NodeStatus::Success.symbol(), "●");
    assert_eq!(NodeStatus::Error.symbol(), "✕");
}

#[test]
fn test_node_status_to_workflow_state() {
    assert!(matches!(NodeStatus::Pending.to_workflow_state(), WorkflowState::Pending));
    assert!(matches!(NodeStatus::Running.to_workflow_state(), WorkflowState::Running));
    assert!(matches!(NodeStatus::Success.to_workflow_state(), WorkflowState::Done));
    assert!(matches!(NodeStatus::Error.to_workflow_state(), WorkflowState::Failed));
}

#[test]
fn node_status_colors_come_from_the_theme() {
    let theme = Theme::dark();
    assert_eq!(NodeStatus::Error.color(&theme), theme.semantic.error);
    assert_eq!(NodeStatus::Pending.color(&theme), theme.foreground);
}

use yinx::response_pane::SpanKind;

fn spans(line: &str) -> Vec<(String, SpanKind)> {
    yinx::response_pane::syntax_highlight_line(line).into_iter().map(|s| (s.text, s.kind)).collect()
}

#[test]
fn highlight_keys_strings_and_separators() {
    assert_eq!(
        spans("  \"name\": \"John\","),
        vec![
            (" ".to_string(), SpanKind::Plain),
            (" ".to_string(), SpanKind::Plain),
            ("\"name\"".to_string(), SpanKind::Key),
            (": ".to_string(), SpanKind::Separator),
            (" ".to_string(), SpanKind::Plain),
            ("\"John\"".to_string(), SpanKind::Text),
            (",".to_string(), SpanKind::Separator),
        ]
    );
}

#[test]
fn highlight_numbers_keywords_and_brackets() {
    assert_eq!(
        spans("[1,-2.5e3,true,null,x]"),
        vec![
            ("[".to_string(), SpanKind::Bracket),
            ("1".to_string(), SpanKind::Number),
            (",".to_string(), SpanKind::Separator),
            ("-2.5e3".to_string(), SpanKind::Number),
            (",".to_string(), SpanKind::Separator),
            ("true".to_string(), SpanKind::Keyword),
            (",".to_string(), SpanKind::Separator),
            ("null".to_string(), SpanKind::Null),
            (",".to_string(), SpanKind::Separator),
            ("x".to_string(), SpanKind::Plain),
            ("]".to_string(), SpanKind::Bracket),
        ]
    );
}

#[test]
fn highlight_escapes_and_non_ascii() {
    assert_eq!(spans("\"a\\\"b\""), vec![("\"a\\\"b\"".to_string(), SpanKind::Text)]);
    assert_eq!(spans("é"), vec![("\u{c3}".to_string(), SpanKind::Plain), ("\u{a9}".to_string(), SpanKind::Plain)]);
    assert_eq!(spans("tru"), vec![("t".to_string(), SpanKind::Plain), ("r".to_string(), SpanKind::Plain), ("u".to_string(), SpanKind::Plain)]);
    assert!(spans("   ").is_empty());
}

use yinx::response_pane::{build_error_lines, truncate_inline};
use yinx::terminal::truncate_status_text;
use yinx::text::lines_of;

#[test]
fn lines_split_like_str_lines() {
    assert_eq!(lines_of("a\r\nb\n\nc\n"), vec!["a", "b", "", "c"]);
    assert_eq!(lines_of(""), Vec::<String>::new());
    assert_eq!(lines_of("x\r"), vec!["x\r"]);
    assert_eq!(lines_of("\n"), vec![""]);
}

#[test]
fn error_lines_list_details_then_checks() {
    let lines = build_error_lines("  connection refused \n\n timed out");
    assert_eq!(
        lines,
        vec![
            "Request failed.",
            "",
            "Details:",
            "  connection refused",
            "  timed out",
            "",
            "Checks:",
            "  - Verify the URL, DNS, and network connectivity",
            "  - Check TLS, proxy, or firewall settings",
            "  - Inspect the activity log for request lifecycle details",
        ]
    );
    let empty = build_error_lines("  \n");
    assert_eq!(empty[3], "  Unknown transport error");
    assert_eq!(empty.len(), 9);
}

#[test]
fn inline_text_is_cut_with_dots() {
    assert_eq!(truncate_inline("abcdef", 3), "abc...");
    assert_eq!(truncate_inline("abc", 3), "abc");
    assert_eq!(truncate_status_text("héllo", 2), "hé...");
    assert_eq!(truncate_status_text("", 0), "");
}
