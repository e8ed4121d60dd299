use yinx::widgets::{InputField, ScrollableList, TableWidget, TabsWidget};

#[test]
fn test_scrollable_list_new() {
    let items = vec!["a".to_string(), "b".to_string()];
    let list = ScrollableList::new(items);
    assert_eq!(list.items.len(), 2);
}

#[test]
fn test_scrollable_list_with_selected() {
    let items = vec!["a".to_string(), "b".to_string(), "c".to_string()];
    let list = ScrollableList::new(items).with_selected(Some(1));
    assert_eq!(list.selected, Some(1));
}

#[test]
fn test_scrollable_list_with_title() {
    let items = vec!["a".to_string()];
    let list = ScrollableList::new(items).with_title("My List");
    assert_eq!(list.title, Some("My List"));
}

#[test]
fn test_table_widget_new() {
    let headers = vec!["Name", "Value"];
    let table = TableWidget::new(headers.clone());
    assert_eq!(table.headers.len(), 2);
}

#[test]
fn test_table_widget_with_rows() {
    let headers = vec!["Name", "Value"];
    let rows = vec![
        vec!["foo".to_string(), "1".to_string()],
        vec!["bar".to_string(), "2".to_string()],
    ];
    let table = TableWidget::new(headers).with_rows(rows.clone());
    assert_eq!(table.rows.len(), 2);
}

#[test]
fn test_table_widget_with_sort() {
    let headers = vec!["Name"];
    let table = TableWidget::new(headers).with_sort(Some(0), false);
    assert_eq!(table.sort_col, Some(0));
    assert!(!table.sort_asc);
}

#[test]
fn test_tabs_widget_new() {
    let titles = vec!["Tab1", "Tab2", "Tab3"];
    let tabs = TabsWidget::new(titles.clone());
    assert_eq!(tabs.titles.len(), 3);
}

#[test]
fn test_tabs_widget_with_selected() {
    let titles = vec!["Tab1", "Tab2", "Tab3"];
    let tabs = TabsWidget::new(titles).with_selected(2);
    assert_eq!(tabs.selected, 2);
}

#[test]
fn test_tabs_widget_selected_out_of_bounds() {
    let titles = vec!["Tab1", "Tab2"];
    let tabs = TabsWidget::new(titles).with_selected(10);
    assert_eq!(tabs.selected, 1);
}

#[test]
fn test_input_field_new() {
    let field = InputField::new("hello");
    assert_eq!(field.content, "hello");
    assert_eq!(field.cursor_pos, 5);
}

#[test]
fn test_input_field_with_cursor() {
    let field = InputField::new("hello").with_cursor(2);
    assert_eq!(field.cursor_pos, 2);
}

#[test]
fn test_input_field_cursor_out_of_bounds() {
    let field = InputField::new("hi").with_cursor(100);
    assert_eq!(field.cursor_pos, 2);
}

#[test]
fn header_labels_mark_the_sorted_column() {
    let table = TableWidget::new(vec!["Name", "Value"]).with_sort(Some(1), true);
    assert_eq!(table.header_labels(), vec!["Name".to_string(), "Value ▲".to_string()]);
    let table = TableWidget::new(vec!["Name", "Value"]).with_sort(Some(0), false);
    assert_eq!(table.header_labels(), vec!["Name ▼".to_string(), "Value".to_string()]);
    let table = TableWidget::new(vec!["Name"]).with_sort(Some(5), true);
    assert_eq!(table.header_labels(), vec!["Name".to_string()]);
}

#[test]
fn columns_share_the_width() {
    assert_eq!(TableWidget::new(vec!["a", "b", "c"]).column_percent(), 33);
    assert_eq!(TableWidget::new(vec![]).column_percent(), 100);
}

#[test]
fn tabs_with_no_titles_select_the_first() {
    let tabs = TabsWidget::new(vec![]).with_selected(3);
    assert_eq!(tabs.selected, 0);
}

use yinx::theme::{BorderType, Theme};
use yinx::widgets::{Modal, NetworkState, Panel, StatusBar};

#[test]
fn test_panel_new() {
    let panel = Panel::new("Test");
    assert_eq!(panel.title, "Test");
    assert!(!panel.is_active);
}

#[test]
fn test_panel_active() {
    let panel = Panel::new("Test").active(true);
    assert!(panel.is_active);
}

#[test]
fn test_panel_border_type() {
    let panel = Panel::new("Test").border_type(BorderType::Double);
    assert!(panel.border_style.is_some());
}

#[test]
fn test_status_bar_new() {
    let bar = StatusBar::new("NORMAL");
    assert_eq!(bar.mode, "NORMAL");
    assert!(bar.hints.is_empty());
    assert!(bar.network_state.is_none());
    assert_eq!(bar.cursor_line, 0);
    assert_eq!(bar.cursor_col, 0);
}

#[test]
fn test_status_bar_with_hints() {
    let hints = vec![("q", "quit"), ("i", "insert")];
    let bar = StatusBar::new("NORMAL").with_hints(hints);
    assert_eq!(bar.hints.len(), 2);
}

#[test]
fn test_status_bar_with_network_state() {
    let state = NetworkState::Loading;
    let bar = StatusBar::new("NORMAL").with_network_state(&state);
    assert!(bar.network_state.is_some());
}

#[test]
fn test_status_bar_with_cursor() {
    let bar = StatusBar::new("NORMAL").with_cursor(10, 5);
    assert_eq!(bar.cursor_line, 10);
    assert_eq!(bar.cursor_col, 5);
}

#[test]
fn test_status_bar_mode_colors() {
    let bar_normal = StatusBar::new("NORMAL");
    let bar_insert = StatusBar::new("INSERT");
    let bar_visual = StatusBar::new("VISUAL");
    assert_eq!(bar_normal.mode, "NORMAL");
    assert_eq!(bar_insert.mode, "INSERT");
    assert_eq!(bar_visual.mode, "VISUAL");
}

#[test]
fn test_modal_new() {
    let modal = Modal::new("Confirm");
    assert_eq!(modal.title, "Confirm");
    assert!(modal.content.is_empty());
}

#[test]
fn test_modal_with_actions() {
    let actions = vec![("y", "Yes"), ("n", "No")];
    let modal = Modal::new("Confirm").with_actions(actions);
    assert_eq!(modal.actions.len(), 2);
}

#[test]
fn test_modal_with_selected_action() {
    let actions = vec![("y", "Yes"), ("n", "No")];
    let modal = Modal::new("Confirm").with_actions(actions).with_selected_action(1);
    assert_eq!(modal.selected_action, 1);
}

#[test]
fn test_modal_selected_action_out_of_bounds() {
    let actions = vec![("y", "Yes")];
    let modal = Modal::new("Confirm").with_actions(actions).with_selected_action(10);
    assert_eq!(modal.selected_action, 0);
}

#[test]
fn test_status_bar_has_three_sections() {
    let bar = StatusBar::new("NORMAL").with_left("Yinx").with_center("GET https://example.com").with_right("100ms");

    assert_eq!(bar.left, "Yinx");
    assert_eq!(bar.center, "GET https://example.com");
    assert_eq!(bar.right, "100ms");
}

#[test]
fn test_mode_pill_color_matches_mode() {
    let bar = StatusBar::new("NORMAL");
    let color = bar.mode_color(&Theme::dark());
    assert_eq!(color, Theme::dark().semantic.info);
}

#[test]
fn test_statusline_shows_response_info() {
    let mut bar = StatusBar::new("NORMAL");
    bar.set_response_info(200, 150);

    assert_eq!(bar.status_code, Some(200));
    assert_eq!(bar.response_time_ms, Some(150));
}

#[test]
fn network_state_labels_and_colors() {
    let theme = Theme::dark();
    let bar = StatusBar::new("INSERT");
    assert_eq!(bar.network_status_text(), "IDLE");
    assert_eq!(bar.network_status_color(&theme), theme.foreground);
    assert_eq!(bar.mode_color(&theme), theme.semantic.success);
    let failed = NetworkState::Error("timeout".to_string());
    let bar = StatusBar::new("OTHER").with_network_state(&failed);
    assert_eq!(bar.network_status_text(), "ERROR");
    assert_eq!(bar.network_status_color(&theme), theme.semantic.error);
    assert_eq!(bar.mode_color(&theme), theme.foreground);
}
