use yinx::input::Key;
use yinx::json::JsonValue;
use yinx::response_pane::{
    collapse_value, syntax_highlight_line, Response, ResponseBody, ResponsePane, ResponseViewMode,
};

fn response_with(body: ResponseBody) -> Response {
    Response { status: 200, headers: Vec::new(), body, timing_ms: 0 }
}

fn numbered_lines(prefix: &str, n: usize) -> String {
    (0..n).map(|i| format!("{}{}\n", prefix, i)).collect::<String>()
}

#[test]
fn test_response_pane_new() {
    let pane = ResponsePane::new();
    assert!(!pane.has_content());
    assert_eq!(pane.view_mode(), ResponseViewMode::Pretty);
}

#[test]
fn test_set_response() {
    let mut pane = ResponsePane::new();
    let body = JsonValue::Object(vec![("key".to_string(), JsonValue::Str("value".to_string()))]);
    let response = Response { status: 200, headers: Vec::new(), body: ResponseBody::Json(body), timing_ms: 100 };
    pane.set_response(response);
    assert!(pane.has_content());
    assert!(pane.response().is_some());
}

#[test]
fn pretty_view_indents_json() {
    let mut pane = ResponsePane::new();
    let body = JsonValue::Object(vec![("key".to_string(), JsonValue::Str("value".to_string()))]);
    pane.set_response(response_with(ResponseBody::Json(body)));
    assert_eq!(pane.lines_cache, vec!["{", "  \"key\": \"value\"", "}"]);
}

#[test]
fn raw_view_is_compact_json() {
    let mut pane = ResponsePane::new();
    pane.view_mode = ResponseViewMode::Raw;
    let body = JsonValue::Array(vec![JsonValue::from_u64(1), JsonValue::Bool(true), JsonValue::Null]);
    pane.set_response(response_with(ResponseBody::Json(body)));
    assert_eq!(pane.lines_cache, vec!["[1,true,null]"]);
}

#[test]
fn headers_view_lists_each_header() {
    let mut pane = ResponsePane::new();
    pane.view_mode = ResponseViewMode::Headers;
    let response = Response {
        status: 200,
        headers: vec![
            ("Content-Type".to_string(), "text/plain".to_string()),
            ("X-Id".to_string(), "7".to_string()),
        ],
        body: ResponseBody::Empty,
        timing_ms: 5,
    };
    pane.set_response(response);
    assert_eq!(pane.lines_cache, vec!["Content-Type: text/plain", "X-Id: 7"]);
    pane.set_response(response_with(ResponseBody::Empty));
    assert_eq!(pane.lines_cache, vec!["(no headers)"]);
}

#[test]
fn bodies_without_text_are_described() {
    let mut pane = ResponsePane::new();
    pane.set_response(response_with(ResponseBody::Binary(vec![0, 1, 2])));
    assert_eq!(pane.lines_cache, vec!["<binary 3 bytes>"]);
    pane.set_response(response_with(ResponseBody::Stream(vec![9; 12])));
    assert_eq!(pane.lines_cache, vec!["<stream 12 bytes>"]);
    pane.set_response(response_with(ResponseBody::Empty));
    assert_eq!(pane.lines_cache, vec!["(empty body)"]);
    pane.view_mode = ResponseViewMode::Raw;
    pane.set_response(response_with(ResponseBody::Empty));
    assert_eq!(pane.lines_cache, vec!["(empty body)"]);
}

#[test]
fn long_responses_are_cut_with_a_note() {
    let mut pane = ResponsePane::new();
    pane.max_visible_lines = 1;
    pane.set_response(response_with(ResponseBody::Text(numbered_lines("row", 15))));
    assert_eq!(pane.total_lines(), 11);
    assert_eq!(pane.lines_cache[9], "row9");
    assert_eq!(pane.lines_cache[10], "[Response truncated: showing first 10 lines]");
    assert!(pane.truncation_warned);
}

#[test]
fn test_set_error() {
    let mut pane = ResponsePane::new();
    pane.set_error("timeout".to_string());
    assert!(pane.has_content());
    assert_eq!(pane.error(), Some("timeout"));
    assert!(pane.total_lines() >= 4);
}

#[test]
fn test_search_no_results() {
    let mut pane = ResponsePane::new();
    pane.set_response(response_with(ResponseBody::Text("hello world".to_string())));
    pane.handle_key(&Key::Char('/'));
    assert!(pane.is_search_visible());
    pane.handle_key(&Key::Char('x'));
    pane.handle_key(&Key::Enter);
    assert_eq!(pane.search_match_count(), 0);
}

#[test]
fn test_search_with_results() {
    let mut pane = ResponsePane::new();
    pane.set_response(response_with(ResponseBody::Text("hello world\nfoo bar\nhello again".to_string())));
    pane.handle_key(&Key::Char('/'));
    pane.handle_key(&Key::Char('h'));
    pane.handle_key(&Key::Enter);
    assert!(pane.search_match_count() > 0);
}

#[test]
fn search_ignores_case_and_cycles_through_matches() {
    let mut pane = ResponsePane::new();
    pane.set_response(response_with(ResponseBody::Text("Hello\nfoo\nHELLO again\nhello".to_string())));
    pane.handle_key(&Key::Char('/'));
    for c in "hElLo".chars() {
        pane.handle_key(&Key::Char(c));
    }
    assert_eq!(pane.search_matches, vec![0, 2, 3]);
    pane.handle_key(&Key::Backspace);
    assert_eq!(pane.search_term(), "hElL");
    pane.handle_key(&Key::Enter);
    assert!(!pane.is_search_visible());
    assert_eq!(pane.search_selected_index(), 0);
    pane.handle_key(&Key::Char('n'));
    assert_eq!(pane.search_selected_index(), 1);
    pane.handle_key(&Key::Char('n'));
    pane.handle_key(&Key::Char('n'));
    assert_eq!(pane.search_selected_index(), 0);
    pane.handle_key(&Key::Char('N'));
    assert_eq!(pane.search_selected_index(), 2);
    pane.handle_key(&Key::Char('/'));
    pane.handle_key(&Key::Esc);
    assert!(!pane.is_search_visible());
    assert_eq!(pane.search_term(), "");
}

#[test]
fn far_matches_scroll_into_view() {
    let mut pane = ResponsePane::new();
    pane.max_visible_lines = 5;
    let mut text = numbered_lines("x", 40);
    text.push_str("needle\n");
    pane.set_response(response_with(ResponseBody::Text(text)));
    pane.handle_key(&Key::Char('/'));
    for c in "needle".chars() {
        pane.handle_key(&Key::Char(c));
    }
    pane.handle_key(&Key::Enter);
    assert_eq!(pane.scroll_offset(), 30);
}

#[test]
fn test_scroll_down() {
    let mut pane = ResponsePane::new();
    pane.set_response(response_with(ResponseBody::Text("line1\nline2\nline3".to_string())));
    pane.handle_key(&Key::Char('j'));
    assert_eq!(pane.scroll_offset(), 1);
}

#[test]
fn test_scroll_up() {
    let mut pane = ResponsePane::new();
    pane.set_response(response_with(ResponseBody::Text("line1\nline2\nline3".to_string())));
    pane.handle_key(&Key::Char('j'));
    pane.handle_key(&Key::Char('j'));
    pane.handle_key(&Key::Char('k'));
    assert_eq!(pane.scroll_offset(), 1);
}

#[test]
fn scrolling_stops_at_the_last_line_and_the_top() {
    let mut pane = ResponsePane::new();
    pane.set_response(response_with(ResponseBody::Text("a\nb\nc".to_string())));
    for _ in 0..5 {
        pane.handle_key(&Key::Down);
    }
    assert_eq!(pane.scroll_offset(), 2);
    assert!(pane.handle_key(&Key::Char('g')));
    assert_eq!(pane.scroll_offset(), 0);
    assert!(!pane.handle_key(&Key::Char('g')));
    assert!(!pane.handle_key(&Key::Home));
    assert!(pane.handle_key(&Key::Up));
    assert_eq!(pane.scroll_offset(), 0);
    assert!(!pane.handle_key(&Key::Char('z')));
}

#[test]
fn paging_and_end_keys() {
    let mut pane = ResponsePane::new();
    pane.set_response(response_with(ResponseBody::Text(numbered_lines("l", 50))));
    pane.max_visible_lines = 20;
    pane.handle_key(&Key::PageDown);
    assert_eq!(pane.scroll_offset(), 20);
    pane.handle_key(&Key::PageDown);
    pane.handle_key(&Key::PageDown);
    assert_eq!(pane.scroll_offset(), 49);
    pane.handle_key(&Key::PageUp);
    assert_eq!(pane.scroll_offset(), 29);
    pane.handle_key(&Key::Char('G'));
    assert_eq!(pane.scroll_offset(), 30);
}

#[test]
fn view_mode_key_rebuilds_lines() {
    let mut pane = ResponsePane::new();
    pane.set_response(response_with(ResponseBody::Text("a\nb".to_string())));
    pane.handle_key(&Key::Char('j'));
    assert!(pane.handle_key(&Key::Char('t')));
    assert_eq!(pane.view_mode(), ResponseViewMode::Raw);
    assert_eq!(pane.scroll_offset(), 0);
    pane.handle_key(&Key::Char('t'));
    assert_eq!(pane.view_mode(), ResponseViewMode::Headers);
    assert_eq!(pane.lines_cache, vec!["(no headers)"]);
}

#[test]
fn test_json_highlighting() {
    let line = syntax_highlight_line(r#"  "key": "value","#);
    assert!(!line.is_empty());
}

#[test]
fn test_empty_response_pane_render_no_panic() {
    let mut pane = ResponsePane::new();
    pane.set_response(response_with(ResponseBody::Empty));
    assert!(pane.has_content());
}

#[test]
fn test_follow_stream_default_false() {
    let pane = ResponsePane::new();
    assert!(!pane.follow_stream());
}

#[test]
fn test_set_follow_stream() {
    let mut pane = ResponsePane::new();
    pane.set_follow_stream(true);
    assert!(pane.follow_stream());
    pane.set_follow_stream(false);
    assert!(!pane.follow_stream());
}

#[test]
fn test_stream_chunk_appends() {
    let mut pane = ResponsePane::new();
    pane.stream_chunk(b"hello ".to_vec());
    assert!(pane.total_lines() > 0);
    let first = pane.total_lines();
    pane.stream_chunk(b"world".to_vec());
    assert!(pane.total_lines() >= first);
}

#[test]
fn stream_chunks_join_and_replace_invalid_bytes() {
    let mut pane = ResponsePane::new();
    pane.stream_chunk(b"hel".to_vec());
    pane.stream_chunk(b"lo\nwor\xffld".to_vec());
    assert_eq!(pane.lines_cache, vec!["hello".to_string(), "wor\u{FFFD}ld".to_string()]);
    assert_eq!(pane.stream_bytes.len(), 12);
}

#[test]
fn test_follow_stream_scrolls_to_bottom() {
    let mut pane = ResponsePane::new();
    pane.set_follow_stream(true);
    pane.max_visible_lines = 2;
    for i in 0..10 {
        pane.stream_chunk(format!("line {}\n", i).into_bytes());
    }
    assert!(pane.scroll_offset() > 5);
}

#[test]
fn test_scroll_half_page_down() {
    let mut pane = ResponsePane::new();
    pane.set_response(response_with(ResponseBody::Text(numbered_lines("line", 100))));
    pane.max_visible_lines = 20;
    pane.handle_key(&Key::Char('d'));
    assert!(pane.scroll_offset() >= 10);
}

#[test]
fn test_scroll_half_page_up() {
    let mut pane = ResponsePane::new();
    pane.set_response(response_with(ResponseBody::Text(numbered_lines("line", 100))));
    pane.max_visible_lines = 20;
    pane.scroll_offset = 50;
    pane.handle_key(&Key::Char('u'));
    assert!(pane.scroll_offset <= 40);
}

#[test]
fn test_collapse_large_arrays() {
    let large: Vec<JsonValue> = (0..100).map(|i| JsonValue::from_u64(i)).collect();
    let collapsed = collapse_value(&JsonValue::Array(large));
    if let JsonValue::Array(items) = collapsed {
        assert_eq!(items.len(), 51);
        assert!(matches!(items[50], JsonValue::Str(_)));
        assert!(items[50].as_str().unwrap().contains("50 more items"));
    } else {
        panic!("Expected array");
    }
}

#[test]
fn test_small_arrays_not_collapsed() {
    let small: Vec<JsonValue> = (0..10).map(|i| JsonValue::from_u64(i)).collect();
    let collapsed = collapse_value(&JsonValue::Array(small));
    if let JsonValue::Array(items) = collapsed {
        assert_eq!(items.len(), 10);
    } else {
        panic!("Expected array");
    }
}

#[test]
fn pretty_view_collapses_large_arrays() {
    let mut pane = ResponsePane::new();
    let large: Vec<JsonValue> = (0..60).map(|i| JsonValue::from_u64(i)).collect();
    pane.set_response(response_with(ResponseBody::Json(JsonValue::Array(large))));
    assert_eq!(pane.total_lines(), 53);
    assert_eq!(pane.lines_cache[51], "  \"[+ 10 more items]\"");
}

#[test]
fn test_preview_view_mode() {
    let mut pane = ResponsePane::new();
    pane.view_mode = ResponseViewMode::Preview;
    pane.set_response(response_with(ResponseBody::Text("<html><body>Hello</body></html>".to_string())));
    let has_html = pane.lines_cache.iter().any(|l| l.contains("<html>"));
    assert!(has_html);
}

#[test]
fn test_stream_chunk_empty() {
    let mut pane = ResponsePane::new();
    pane.stream_chunk(Vec::new());
    assert_eq!(pane.total_lines(), 0);
}

fn theme() -> yinx::theme::Theme {
    yinx::theme::Theme::dark()
}

#[test]
fn view_window_marks_matches_and_highlights_json() {
    let mut pane = ResponsePane::new();
    pane.set_response(response_with(ResponseBody::Text("{\n  \"a\": 1,\n  \"b\": true\n}\nend".to_string())));
    pane.handle_key(&Key::Char('/'));
    pane.handle_key(&Key::Char('b'));
    pane.handle_key(&Key::Enter);
    assert_eq!(pane.search_matches, vec![2]);
    assert!(pane.view_ready(4));
    let view = pane.prepare_view(4);
    assert_eq!(view.viewport, 3);
    assert_eq!(view.scroll, 0);
    assert_eq!(view.rows.len(), 3);
    assert_eq!(pane.max_visible_lines, 3);
    assert!(matches!(view.rows[0].style, yinx::response_pane::RowStyle::Highlighted(_)));
    assert!(matches!(view.rows[2].style, yinx::response_pane::RowStyle::SelectedMatch));
    assert_eq!(view.rows[1].text, "  \"a\": 1,");
    if let yinx::response_pane::RowStyle::Highlighted(spans) = &view.rows[1].style {
        let kinds: Vec<_> = spans.iter().map(|s| s.kind).collect();
        assert_eq!(kinds[2], yinx::response_pane::SpanKind::Key);
    } else {
        panic!("the second row is colored");
    }
}

#[test]
fn view_window_stops_at_a_full_last_page() {
    let mut pane = ResponsePane::new();
    pane.view_mode = ResponseViewMode::Raw;
    pane.set_response(response_with(ResponseBody::Text(numbered_lines("r", 10))));
    pane.scroll_offset = 9;
    let view = pane.prepare_view(5);
    assert_eq!(view.scroll, 6);
    assert_eq!(view.rows.len(), 4);
    assert!(matches!(view.rows[0].style, yinx::response_pane::RowStyle::Plain));
    assert_eq!(view.rows[3].text, "r9");
    let tiny = pane.prepare_view(1);
    assert_eq!(tiny.viewport, 0);
    assert!(tiny.rows.is_empty());
    assert_eq!(pane.max_visible_lines, 1);
}

#[test]
fn unterminated_escapes_cannot_be_highlighted() {
    assert!(yinx::response_pane::highlightable("  \"ok\": \"fine\""));
    assert!(yinx::response_pane::highlightable("   "));
    assert!(!yinx::response_pane::highlightable("\"abc\\"));
    let mut pane = ResponsePane::new();
    pane.set_response(response_with(ResponseBody::Text("\"abc\\".to_string())));
    assert!(!pane.view_ready(3));
}

#[test]
fn title_shows_status_timing_size_and_type() {
    let t = theme();
    let mut pane = ResponsePane::new();
    let response = Response {
        status: 404,
        headers: vec![("Content-Type".to_string(), "text/plain".to_string())],
        body: ResponseBody::Text("héllo".to_string()),
        timing_ms: 250,
    };
    assert_eq!(response.body_size(), 6);
    assert_eq!(response.content_type(), Some("text/plain"));
    pane.set_response(response);
    let title = pane.build_title(&t);
    let texts: Vec<&str> = title.iter().map(|s| s.text.as_str()).collect();
    assert_eq!(texts, vec![" RESPONSE ", "  404 ", "  250ms ", "  6b  text/plain"]);
    assert_eq!(title[1].fg, Some(yinx::theme::ColorDef::Indexed(208)));
    assert_eq!(title[2].fg, Some(t.semantic.warning));
    assert!(title[1].bold && !title[3].bold);
}

#[test]
fn title_of_an_error_cuts_the_message() {
    let t = theme();
    let mut pane = ResponsePane::new();
    pane.set_error("x".repeat(70));
    let title = pane.build_title(&t);
    assert_eq!(title.len(), 3);
    assert_eq!(title[1].text, "  ERROR ");
    assert_eq!(title[2].text, format!("  {}... ", "x".repeat(64)));
    let empty = ResponsePane::new().build_title(&t);
    assert_eq!(empty.len(), 1);
}

#[test]
fn json_body_size_counts_compact_text() {
    let body = JsonValue::Array(vec![JsonValue::from_u64(10), JsonValue::Null]);
    let r = response_with(ResponseBody::Json(body));
    assert_eq!(r.body_size(), "[10,null]".len());
    assert_eq!(r.content_type(), None);
}
