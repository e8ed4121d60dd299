use yinx::input::{InputBuffer, Key, KeyPress};
use yinx::request::{Method, Request};
use yinx::request_pane::{
    normalize_single_line, AuthType, BodyType, EditableField, FocusedField, HeaderField, RequestPane, RequestTab,
};

fn key(code: Key) -> KeyPress {
    KeyPress { code, ctrl: false, alt: false, shift: false }
}

#[test]
fn test_backspace_empty_url_buffer_returns_true() {
    let mut pane = RequestPane::new();
    pane.url_buffer = InputBuffer::new();
    pane.focused_field = FocusedField::Url;

    let result = pane.handle_key(&key(Key::Backspace));

    assert!(result);
    assert_eq!(pane.focused_field, FocusedField::Url);
}

#[test]
fn test_left_arrow_at_start_moves_to_method() {
    let mut pane = RequestPane::new();
    pane.url_buffer = InputBuffer::with_content("hello");
    pane.url_buffer.cursor_pos = 0;
    pane.focused_field = FocusedField::Url;

    pane.handle_key(&key(Key::Left));

    assert_eq!(pane.focused_field, FocusedField::Method);
}

#[test]
fn test_up_arrow_empty_url_moves_to_method() {
    let mut pane = RequestPane::new();
    pane.url_buffer = InputBuffer::new();
    pane.focused_field = FocusedField::Url;

    pane.handle_key(&key(Key::Up));

    assert_eq!(pane.focused_field, FocusedField::Method);
}

#[test]
fn test_request_pane_new() {
    let pane = RequestPane::new();
    assert_eq!(pane.method(), Method::Get);
    assert!(pane.url().is_empty());
    assert_eq!(pane.focused_field(), FocusedField::Url);
}

#[test]
fn test_request_pane_with_method() {
    let pane = RequestPane::new().with_method(Method::Post);
    assert_eq!(pane.method(), Method::Post);
}

#[test]
fn test_request_pane_with_url() {
    let pane = RequestPane::new().with_url("https://example.com");
    assert_eq!(pane.url(), "https://example.com");
}

#[test]
fn test_request_tab_all() {
    let tabs = RequestTab::all();
    assert_eq!(tabs.len(), 4);
    assert!(matches!(tabs[0], RequestTab::Headers));
    assert!(matches!(tabs[3], RequestTab::Params));
}

#[test]
fn test_request_tab_as_str() {
    assert_eq!(RequestTab::Headers.as_str(), "Headers");
    assert_eq!(RequestTab::Body.as_str(), "Body");
    assert_eq!(RequestTab::Auth.as_str(), "Auth");
    assert_eq!(RequestTab::Params.as_str(), "Params");
}

#[test]
fn test_focused_field_set_get() {
    let mut pane = RequestPane::new();
    pane.set_focused_field(FocusedField::Method);
    assert_eq!(pane.focused_field(), FocusedField::Method);

    pane.set_focused_field(FocusedField::Tabs);
    assert_eq!(pane.focused_field(), FocusedField::Tabs);
}

#[test]
fn test_request_pane_url_history() {
    let history = vec!["https://example.com".to_string(), "https://google.com".to_string()];
    let pane = RequestPane::new().with_url_history(history);
    assert_eq!(pane.url_history.len(), 2);
}

#[test]
fn test_request_pane_default_headers() {
    let pane = RequestPane::new();
    assert_eq!(pane.headers.len(), 1);
}

#[test]
fn test_focused_editable_field_tracks_header_value_context() {
    let mut pane = RequestPane::new();
    pane.selected_tab = 0;
    pane.focused_field = FocusedField::TabContent;
    pane.header_selected = 0;
    pane.header_field_focus = HeaderField::Value;

    assert_eq!(pane.focused_editable_field(), EditableField::HeaderValue(0));
}

#[test]
fn test_request_pane_default_params() {
    let pane = RequestPane::new();
    assert_eq!(pane.params.len(), 1);
}

#[test]
fn test_handle_method_key_enter() {
    let mut pane = RequestPane::new();
    pane.set_focused_field(FocusedField::Method);
    let result = pane.handle_key(&key(Key::Enter));
    assert!(result);
    assert!(pane.method_popup_visible);
}

#[test]
fn test_handle_method_key_right() {
    let mut pane = RequestPane::new();
    pane.set_focused_field(FocusedField::Method);
    let result = pane.handle_key(&key(Key::Right));
    assert!(result);
    assert_eq!(pane.focused_field(), FocusedField::Url);
}

#[test]
fn test_handle_url_key_left() {
    let mut pane = RequestPane::new();
    pane.set_focused_field(FocusedField::Url);
    let result = pane.handle_key(&key(Key::Left));
    assert!(result);
    assert_eq!(pane.focused_field(), FocusedField::Method);
}

#[test]
fn test_handle_url_key_tab() {
    let mut pane = RequestPane::new();
    pane.set_focused_field(FocusedField::Url);
    let result = pane.handle_key(&key(Key::Tab));
    assert!(result);
    assert_eq!(pane.focused_field(), FocusedField::Tabs);
}

#[test]
fn test_handle_url_typing() {
    let mut pane = RequestPane::new();
    pane.set_focused_field(FocusedField::Url);
    pane.handle_key(&key(Key::Char('h')));
    assert_eq!(pane.url(), "h");
    pane.handle_key(&key(Key::Char('i')));
    assert_eq!(pane.url(), "hi");
}

#[test]
fn test_handle_url_backspace() {
    let mut pane = RequestPane::new();
    pane.set_focused_field(FocusedField::Url);
    pane.handle_key(&key(Key::Char('h')));
    pane.handle_key(&key(Key::Char('i')));
    pane.handle_key(&key(Key::Backspace));
    assert_eq!(pane.url(), "h");
}

#[test]
fn test_url_focus_handles_printable_keys() {
    let mut pane = RequestPane::new();
    pane.set_focused_field(FocusedField::Url);

    assert!(pane.handle_key(&key(Key::Char('p'))));
    assert_eq!(pane.url(), "p");
}

#[test]
fn test_paste_text_inserts_into_url_buffer() {
    let mut pane = RequestPane::new();
    pane.set_focused_field(FocusedField::Url);

    assert!(pane.paste_text("https://example.com"));
    assert_eq!(pane.url(), "https://example.com");
    assert!(pane.url_autocomplete_visible);
}

#[test]
fn test_handle_tabs_key_left_from_first() {
    let mut pane = RequestPane::new();
    pane.set_focused_field(FocusedField::Tabs);
    pane.selected_tab = 0;
    let result = pane.handle_key(&key(Key::Left));
    assert!(result);
    assert_eq!(pane.focused_field(), FocusedField::Url);
}

#[test]
fn test_handle_tabs_key_right_to_content() {
    let mut pane = RequestPane::new();
    pane.set_focused_field(FocusedField::Tabs);
    pane.selected_tab = RequestTab::all().len() - 1;
    let result = pane.handle_key(&key(Key::Right));
    assert!(result);
    assert_eq!(pane.focused_field(), FocusedField::TabContent);
}

#[test]
fn test_handle_tabs_key_down_to_content() {
    let mut pane = RequestPane::new();
    pane.set_focused_field(FocusedField::Tabs);
    let result = pane.handle_key(&key(Key::Down));
    assert!(result);
    assert_eq!(pane.focused_field(), FocusedField::TabContent);
}

#[test]
fn test_handle_tab_content_key_up_to_tabs() {
    let mut pane = RequestPane::new();
    pane.set_focused_field(FocusedField::TabContent);
    let result = pane.handle_key(&key(Key::Up));
    assert!(result);
    assert_eq!(pane.focused_field(), FocusedField::Tabs);
}

#[test]
fn test_handle_headers_add_delete() {
    let mut pane = RequestPane::new();
    pane.set_focused_field(FocusedField::TabContent);
    pane.selected_tab = 0;

    pane.handle_key(&key(Key::Char('a')));
    assert_eq!(pane.headers.len(), 2);

    pane.handle_key(&key(Key::Char('d')));
    assert_eq!(pane.headers.len(), 1);
}

#[test]
fn test_handle_headers_edit() {
    let mut pane = RequestPane::new();
    pane.set_focused_field(FocusedField::TabContent);
    pane.selected_tab = 0;

    pane.handle_key(&key(Key::Char('C')));
    assert!(pane.headers[0].0.as_str().contains('C'));

    pane.handle_key(&key(Key::Right));

    pane.handle_key(&key(Key::Char('v')));
    assert!(pane.headers[0].1.as_str().contains('v'));
}

#[test]
fn test_handle_body_edit() {
    let mut pane = RequestPane::new();
    pane.set_focused_field(FocusedField::TabContent);
    pane.selected_tab = 1;

    pane.handle_key(&key(Key::Char('h')));
    pane.handle_key(&key(Key::Char('i')));
    assert!(pane.body_content.as_str().contains("hi"));
}

#[test]
fn test_handle_body_type_change() {
    let mut pane = RequestPane::new();
    pane.set_focused_field(FocusedField::TabContent);
    pane.selected_tab = 1;

    assert_eq!(pane.body_type, BodyType::Raw);
    pane.handle_key(&key(Key::Char('t')));
    assert_eq!(pane.body_type, BodyType::Json);
}

#[test]
fn test_handle_auth_type_change() {
    let mut pane = RequestPane::new();
    pane.set_focused_field(FocusedField::TabContent);
    pane.selected_tab = 2;

    assert_eq!(pane.auth_type, AuthType::NoAuth);
    pane.handle_key(&key(Key::Char('t')));
    assert_eq!(pane.auth_type, AuthType::Basic);
}

#[test]
fn test_handle_auth_basic_edit() {
    let mut pane = RequestPane::new();
    pane.set_focused_field(FocusedField::TabContent);
    pane.selected_tab = 2;
    pane.auth_type = AuthType::Basic;

    pane.handle_key(&key(Key::Right));
    pane.handle_key(&key(Key::Char('u')));
    assert!(pane.auth_username.as_str().contains('u'));

    pane.handle_key(&key(Key::Down));
    pane.handle_key(&key(Key::Char('p')));
    assert!(pane.auth_password.as_str().contains('p'));
}

#[test]
fn test_handle_params_add_delete() {
    let mut pane = RequestPane::new();
    pane.set_focused_field(FocusedField::TabContent);
    pane.selected_tab = 3;

    pane.handle_key(&key(Key::Char('a')));
    assert_eq!(pane.params.len(), 2);

    pane.handle_key(&key(Key::Char('d')));
    assert_eq!(pane.params.len(), 1);
}

#[test]
fn test_handle_params_edit() {
    let mut pane = RequestPane::new();
    pane.set_focused_field(FocusedField::TabContent);
    pane.selected_tab = 3;

    pane.handle_key(&key(Key::Char('k')));
    assert!(pane.params[0].0.as_str().contains('k'));

    pane.handle_key(&key(Key::Right));

    pane.handle_key(&key(Key::Char('v')));
    assert!(pane.params[0].1.as_str().contains('v'));
}

#[test]
fn test_method_popup_navigation() {
    let mut pane = RequestPane::new();
    pane.method_popup_visible = true;
    pane.method_selected = Some(0);

    pane.handle_key(&key(Key::Down));
    assert_eq!(pane.method_selected, Some(1));

    pane.handle_key(&key(Key::Up));
    assert_eq!(pane.method_selected, Some(0));
}

#[test]
fn test_method_popup_enter_selects() {
    let mut pane = RequestPane::new();
    pane.method = Method::Get;
    pane.method_popup_visible = true;
    pane.method_selected = Some(1);

    pane.handle_key(&key(Key::Enter));
    assert!(!pane.method_popup_visible);
    assert_eq!(pane.method(), Method::Post);
}

#[test]
fn test_method_popup_esc_cancels() {
    let mut pane = RequestPane::new();
    pane.method_popup_visible = true;

    pane.handle_key(&key(Key::Esc));
    assert!(!pane.method_popup_visible);
}

#[test]
fn test_url_autocomplete() {
    let mut pane = RequestPane::new();
    pane.url_history = vec![
        "https://example.com".to_string(),
        "https://google.com".to_string(),
        "https://github.com".to_string(),
    ];
    pane.url_buffer = InputBuffer::with_content("https://e");
    pane.url_autocomplete_visible = true;

    let matches = pane.get_url_matches();
    assert_eq!(matches.len(), 1);
    assert_eq!(matches[0], "https://example.com");

    pane.handle_key(&key(Key::Enter));
    assert!(!pane.url_autocomplete_visible);
    assert_eq!(pane.url(), "https://example.com");
}

#[test]
fn test_url_autocomplete_navigation() {
    let mut pane = RequestPane::new();
    pane.url_history = vec!["https://example.com".to_string(), "https://google.com".to_string()];
    pane.url_buffer = InputBuffer::with_content("https://");
    pane.url_autocomplete_visible = true;
    pane.url_autocomplete_selected = 0;

    pane.handle_key(&key(Key::Down));
    assert!(pane.url_autocomplete_selected <= 1);
}

#[test]
fn test_layout_renders() {
    let pane = RequestPane::new();
    assert_eq!(pane.focused_field(), FocusedField::Url);
}

#[test]
fn test_enter_with_method_popup_selects_and_closes() {
    let mut pane = RequestPane::new();
    pane.method_popup_visible = true;
    pane.method_selected = Some(1);
    pane.focused_field = FocusedField::Method;

    let result = pane.handle_key(&key(Key::Enter));

    assert!(result);
    assert!(!pane.method_popup_visible);
    assert_eq!(pane.method, Method::Post);
}

#[test]
fn test_method_popup_blocks_other_key_handling() {
    let mut pane = RequestPane::new();
    pane.method_popup_visible = true;
    pane.focused_field = FocusedField::Method;

    let result = pane.handle_key(&key(Key::Left));

    assert!(result);
    assert_eq!(pane.focused_field, FocusedField::Method);
}

#[test]
fn test_up_down_navigates_method_list() {
    let mut pane = RequestPane::new();
    pane.method_popup_visible = true;
    pane.method_selected = Some(0);

    pane.handle_key(&key(Key::Down));
    assert_eq!(pane.method_selected, Some(1));

    pane.handle_key(&key(Key::Up));
    assert_eq!(pane.method_selected, Some(0));
}

#[test]
fn test_ctrl_f_opens_search() {
    let mut pane = RequestPane::new();
    pane.focused_field = FocusedField::TabContent;

    let result = pane.handle_key(&KeyPress { code: Key::Char('f'), ctrl: true, alt: false, shift: false });

    assert!(pane.search_visible);
    assert!(result);
}

#[test]
fn line_breaks_at_the_end_are_dropped() {
    assert_eq!(normalize_single_line("a\r\n\n"), "a");
    assert_eq!(normalize_single_line("a\nb\n"), "a\nb");
    assert_eq!(normalize_single_line(""), "");
}

#[test]
fn pasting_goes_into_the_focused_field() {
    let mut pane = RequestPane::new();
    assert!(!pane.paste_text(""));
    pane.focused_field = FocusedField::TabContent;
    pane.selected_tab = 0;
    assert!(pane.paste_text("Accept\n"));
    assert_eq!(pane.headers[0].0.as_str(), "Accept");
    pane.header_selected = 5;
    assert!(!pane.paste_text("x"));
    pane.selected_tab = 1;
    assert!(pane.paste_text("line\n"));
    assert_eq!(pane.body_content.as_str(), "line\n");
    pane.selected_tab = 2;
    assert!(!pane.paste_text("x"));
    pane.focused_field = FocusedField::Tabs;
    pane.selected_tab = 0;
    assert!(!pane.paste_text("x"));
}

#[test]
fn header_rows_do_not_grow_past_a_blank_one() {
    let mut pane = RequestPane::new();
    pane.focused_field = FocusedField::TabContent;
    assert!(pane.handle_key(&key(Key::Down)));
    assert_eq!(pane.header_selected, 0);
    pane.handle_key(&key(Key::Char('X')));
    pane.handle_key(&key(Key::Char('a')));
    assert_eq!(pane.header_selected, 1);
    pane.handle_key(&key(Key::Up));
    assert_eq!(pane.header_selected, 0);
    pane.handle_key(&key(Key::Down));
    assert_eq!(pane.header_selected, 1);
    pane.handle_key(&key(Key::Char('d')));
    assert_eq!(pane.header_selected, 0);
    assert_eq!(pane.headers.len(), 1);
}

#[test]
fn completions_close_when_nothing_matches() {
    let mut pane = RequestPane::new().with_url_history(vec!["https://Example.com".to_string()]);
    pane.handle_key(&key(Key::Char('H')));
    assert!(pane.url_autocomplete_visible);
    assert_eq!(pane.get_url_matches(), vec!["https://Example.com".to_string()]);
    pane.handle_key(&key(Key::Char('x')));
    assert!(!pane.url_autocomplete_visible);
}

#[test]
fn auth_fields_follow_the_kind() {
    let mut pane = RequestPane::new();
    pane.focused_field = FocusedField::TabContent;
    pane.selected_tab = 2;
    for _ in 0..3 {
        pane.handle_key(&key(Key::Char('t')));
    }
    assert_eq!(pane.auth_type, AuthType::ApiKey);
    pane.handle_key(&key(Key::Right));
    pane.handle_key(&key(Key::Down));
    pane.handle_key(&key(Key::Char('v')));
    assert_eq!(pane.auth_key_value.as_str(), "v");
    pane.handle_key(&key(Key::Char('t')));
    assert_eq!(pane.auth_type, AuthType::NoAuth);
}

#[test]
fn tab_titles_count_filled_rows() {
    let mut pane = RequestPane::new().with_headers(vec![
        ("Accept".to_string(), "*/*".to_string()),
        (String::new(), String::new()),
    ]);
    pane.auth_type = AuthType::ApiKey;
    assert_eq!(
        pane.tab_titles(),
        vec!["HEADERS 1".to_string(), "BODY Raw".to_string(), "AUTH API KEY".to_string(), "PARAMS 0".to_string()]
    );
}

#[test]
fn showing_a_request_fills_the_pane() {
    let mut pane = RequestPane::new();
    let mut request = Request::new(Method::Put, "https://example.com/a");
    request.headers.push(("X-A".to_string(), "1".to_string()));
    request.body = Some("{}".to_string());
    pane.set_request(request);
    assert_eq!(pane.method(), Method::Put);
    assert_eq!(pane.url(), "https://example.com/a");
    assert_eq!(pane.headers.len(), 1);
    assert_eq!(pane.headers[0].1.as_str(), "1");
    assert_eq!(pane.body_content.as_str(), "{}");
}

#[test]
fn the_url_view_follows_the_cursor() {
    let mut pane = RequestPane::new().with_url("https://example.com/a/long/path");
    pane.update_url_scroll(10);
    assert_eq!(pane.url_scroll_offset(), 21);
    pane.url_buffer.cursor_pos = 3;
    pane.update_url_scroll(10);
    assert_eq!(pane.url_scroll_offset(), 3);
    pane.update_url_scroll(100);
    assert_eq!(pane.url_scroll_offset(), 0);
}

#[test]
fn auth_form_lists_the_fields_of_the_kind() {
    let mut pane = RequestPane::new();
    let form = pane.auth_form(true);
    assert_eq!(form.kind_label, "None");
    assert_eq!(form.note.as_deref(), Some("No authentication configured"));
    assert!(form.fields.is_empty());
    pane.auth_type = AuthType::Basic;
    pane.focused_field = FocusedField::TabContent;
    pane.auth_field_focus = yinx::request_pane::AuthField::Password;
    pane.auth_password = InputBuffer::with_content("pw");
    let form = pane.auth_form(true);
    let labels: Vec<&str> = form.fields.iter().map(|f| f.label.as_str()).collect();
    assert_eq!(labels, vec!["Username ", "Password "]);
    assert!(!form.fields[0].focused && form.fields[1].focused);
    assert_eq!(form.fields[1].value, "pw");
    assert_eq!(form.fields[1].cursor_pos, 2);
    assert!(!pane.auth_form(false).fields[1].focused);
    pane.auth_type = AuthType::Bearer;
    assert_eq!(pane.auth_form(true).fields[0].label, "Bearer Token ");
}

#[test]
fn test_editor_spec_uses_expected_formats() {
    let mut pane = RequestPane::new()
        .with_url("https://example.com")
        .with_headers(vec![("Content-Type".to_string(), "application/json".to_string())]);
    pane.body_type = BodyType::Json;
    pane.body_content = InputBuffer::with_content("{\"ok\":true}");
    assert_eq!(pane.editor_spec_for(EditableField::Url).unwrap().format, yinx::editor::EditorFormat::Text);
    assert_eq!(pane.editor_spec_for(EditableField::Headers).unwrap().format, yinx::editor::EditorFormat::Yaml);
    assert_eq!(pane.editor_spec_for(EditableField::Body).unwrap().format, yinx::editor::EditorFormat::Json);
}

#[test]
fn headers_are_edited_as_yaml_records() {
    let pane = RequestPane::new().with_headers(vec![
        ("Accept".to_string(), "text/plain".to_string()),
        ("  ".to_string(), "ignored".to_string()),
    ]);
    let spec = pane.editor_spec_for(EditableField::Headers).unwrap();
    assert_eq!(spec.content, "- name: Accept\n  value: text/plain\n");
    assert!(matches!(
        pane.editor_spec_for(EditableField::HeaderName(5)),
        Err(yinx::editor::EditorError::Validation(ref m)) if m == "Header index 5 is out of bounds"
    ));
}

#[test]
fn test_apply_edited_url_trims_trailing_newline() {
    let mut pane = RequestPane::new();
    pane.apply_edited_content(EditableField::Url, "https://example.com/path\n").unwrap();
    assert_eq!(pane.url(), "https://example.com/path");
}

#[test]
fn test_apply_edited_json_body_validates() {
    let mut pane = RequestPane::new();
    pane.body_type = BodyType::Json;
    pane.body_content = InputBuffer::with_content("{}");
    let result = pane.apply_edited_content(EditableField::Body, "{invalid");
    assert!(matches!(result, Err(yinx::editor::EditorError::Validation(_))));
    assert_eq!(pane.body_content.as_str(), "{}");
}

#[test]
fn test_apply_edited_headers_replaces_collection() {
    let mut pane = RequestPane::new();
    pane.apply_edited_content(
        EditableField::Headers,
        "- name: Accept\n  value: application/json\n- name: X-Test\n  value: true\n",
    )
    .unwrap();
    let rows: Vec<(&str, &str)> = pane.headers.iter().map(|(n, v)| (n.as_str(), v.as_str())).collect();
    assert_eq!(rows, vec![("Accept", "application/json"), ("X-Test", "true")]);
    assert_eq!(rows.len(), 2);
}

#[test]
fn test_apply_edited_header_name_validates_name() {
    let mut pane = RequestPane::new();
    let result = pane.apply_edited_content(EditableField::HeaderName(0), "Bad Header");
    assert!(matches!(result, Err(yinx::editor::EditorError::Validation(_))));
}

#[test]
fn test_cursor_context_is_preserved_after_external_edit_apply() {
    let mut pane = RequestPane::new();
    pane.selected_tab = 0;
    pane.focused_field = FocusedField::TabContent;
    pane.header_selected = 0;
    pane.header_field_focus = HeaderField::Value;
    let original_focus = pane.focused_field();
    let original_selection = pane.header_selected;
    pane.apply_edited_content(EditableField::HeaderValue(0), "application/json\n").unwrap();
    assert_eq!(pane.focused_field(), original_focus);
    assert_eq!(pane.header_selected, original_selection);
    assert_eq!(pane.headers[0].1.as_str(), "application/json");
}

#[test]
fn edits_check_auth_kinds_urls_and_form_keys() {
    let mut pane = RequestPane::new();
    pane.apply_edited_content(EditableField::AuthType, "  API Key\n").unwrap();
    assert_eq!(pane.auth_type, AuthType::ApiKey);
    assert!(matches!(
        pane.apply_edited_content(EditableField::AuthType, "Digest"),
        Err(yinx::editor::EditorError::Validation(ref m)) if m == "Unknown auth type 'digest'"
    ));
    assert!(pane.apply_edited_content(EditableField::Url, "not a url").is_err());
    pane.body_type = BodyType::Form;
    assert!(matches!(
        pane.apply_edited_content(EditableField::Body, "- name: ' '\n  value: x\n"),
        Err(yinx::editor::EditorError::Validation(ref m)) if m == "Form keys cannot be empty"
    ));
    assert!(matches!(
        pane.apply_edited_content(EditableField::Body, "- value: x\n"),
        Err(yinx::editor::EditorError::Validation(ref m)) if m == "missing field `name`"
    ));
    pane.param_selected = 3;
    pane.apply_edited_content(EditableField::Body, "- name: q\n  value: rust\n").unwrap();
    assert_eq!(pane.params.len(), 1);
    assert_eq!(pane.params[0].0.as_str(), "q");
    assert_eq!(pane.param_selected, 0);
    assert!(pane.apply_edited_content(EditableField::ParamValue(4), "x").is_err());
}

fn auth_pane(auth: AuthType) -> RequestPane {
    let mut pane = RequestPane::new();
    pane.auth_type = auth;
    pane
}

#[test]
fn basic_auth_header_is_base64_of_user_and_password() {
    let mut pane = auth_pane(AuthType::Basic);
    pane.auth_username = InputBuffer::with_content(" user ");
    pane.auth_password = InputBuffer::with_content("pass");
    assert_eq!(pane.auth_header(), Some(("Authorization".to_string(), "Basic dXNlcjpwYXNz".to_string())));
}

#[test]
fn basic_auth_with_password_only_still_sends_a_header() {
    let mut pane = auth_pane(AuthType::Basic);
    pane.auth_password = InputBuffer::with_content("pw");
    assert_eq!(pane.auth_header(), Some(("Authorization".to_string(), "Basic OnB3".to_string())));
}

#[test]
fn empty_credentials_send_no_header() {
    let mut pane = auth_pane(AuthType::Basic);
    pane.auth_username = InputBuffer::with_content("   ");
    assert_eq!(pane.auth_header(), None);
    let pane = auth_pane(AuthType::Bearer);
    assert_eq!(pane.auth_header(), None);
    let mut pane = auth_pane(AuthType::ApiKey);
    pane.auth_key_value = InputBuffer::with_content("v");
    assert_eq!(pane.auth_header(), None);
    let mut pane = auth_pane(AuthType::NoAuth);
    pane.auth_token = InputBuffer::with_content("t");
    assert_eq!(pane.auth_header(), None);
}

#[test]
fn bearer_and_api_key_headers_are_trimmed() {
    let mut pane = auth_pane(AuthType::Bearer);
    pane.auth_token = InputBuffer::with_content("  tok ");
    assert_eq!(pane.auth_header(), Some(("Authorization".to_string(), "Bearer tok".to_string())));
    let mut pane = auth_pane(AuthType::ApiKey);
    pane.auth_key_name = InputBuffer::with_content(" X-Key ");
    pane.auth_key_value = InputBuffer::with_content(" v ");
    assert_eq!(pane.auth_header(), Some(("X-Key".to_string(), "v".to_string())));
}

#[test]
fn header_rows_without_a_name_are_left_out() {
    let mut pane = RequestPane::new();
    pane.headers = vec![
        (InputBuffer::with_content("  A "), InputBuffer::with_content(" 1 ")),
        (InputBuffer::with_content(""), InputBuffer::with_content("x")),
        (InputBuffer::with_content(" "), InputBuffer::with_content("y")),
        (InputBuffer::with_content("B"), InputBuffer::with_content("2")),
    ];
    assert_eq!(
        pane.header_entries(),
        vec![("A".to_string(), "1".to_string()), ("B".to_string(), "2".to_string())]
    );
}
