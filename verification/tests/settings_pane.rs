use yinx::settings_pane::{Settings, SettingsEvent, SettingsMode, SettingsPane};

fn test_settings() -> Settings {
    Settings {
        theme: "terminal".to_string(),
        default_timeout_secs: 30,
        follow_redirects: true,
        verify_tls: true,
        max_history_entries: 1000,
        keybindings: Vec::new(),
    }
}

fn create_test_pane() -> SettingsPane {
    SettingsPane::new(test_settings(), None)
}

#[test]
fn test_settings_pane_new() {
    let pane = create_test_pane();
    assert!(!pane.is_open());
    assert_eq!(pane.config.theme, "terminal");
}

#[test]
fn test_settings_pane_open_close() {
    let mut pane = create_test_pane();
    pane.open();
    assert!(pane.is_open());

    pane.close();
    assert!(!pane.is_open());
}

#[test]
fn test_settings_pane_select_navigation() {
    let mut pane = create_test_pane();
    pane.open();
    assert_eq!(pane.selected_index, 0);

    pane.select_next();
    assert_eq!(pane.selected_index, 1);

    pane.select_prev();
    assert_eq!(pane.selected_index, 0);
}

#[test]
fn test_settings_pane_start_editing() {
    let mut pane = create_test_pane();
    pane.open();
    pane.selected_index = 0;

    pane.start_editing();
    assert!(matches!(pane.mode, SettingsMode::Editing(0)));
    assert_eq!(pane.edit_buffer, "terminal");
}

#[test]
fn test_settings_pane_confirm_edit() {
    let mut pane = create_test_pane();
    pane.open();
    pane.selected_index = 0;

    pane.start_editing();
    pane.edit_buffer = "light".to_string();
    pane.confirm_edit(0);

    assert_eq!(pane.config.theme, "light");
    assert!(matches!(pane.mode, SettingsMode::Viewing));
}

#[test]
fn test_settings_pane_edit_timeout() {
    let mut pane = create_test_pane();
    pane.open();
    pane.selected_index = 1;

    pane.start_editing();
    pane.edit_buffer = "60".to_string();
    pane.confirm_edit(1);

    assert_eq!(pane.config.default_timeout_secs, 60);
}

#[test]
fn test_settings_pane_edit_boolean() {
    let mut pane = create_test_pane();
    pane.open();
    pane.selected_index = 2;

    pane.start_editing();
    pane.edit_buffer = "false".to_string();
    pane.confirm_edit(2);

    assert!(!pane.config.follow_redirects);
}

#[test]
fn values_that_do_not_read_leave_the_setting() {
    let mut pane = create_test_pane();
    pane.open();
    pane.selected_index = 1;
    pane.start_editing();
    assert_eq!(pane.edit_buffer, "30");
    pane.edit_buffer = "soon".to_string();
    pane.confirm_edit(1);
    assert_eq!(pane.config.default_timeout_secs, 30);
    assert_eq!(pane.message.as_deref(), Some("Setting updated"));
    pane.edit_buffer = "+45".to_string();
    pane.confirm_edit(4);
    assert_eq!(pane.config.max_history_entries, 45);
    pane.edit_buffer = "True".to_string();
    pane.confirm_edit(3);
    assert!(pane.config.verify_tls);
}

#[test]
fn test_settings_pane_cancel_edit() {
    let mut pane = create_test_pane();
    pane.open();
    pane.selected_index = 0;

    pane.start_editing();
    pane.edit_buffer = "light".to_string();
    pane.mode = SettingsMode::Viewing;
    pane.edit_buffer.clear();

    assert_eq!(pane.config.theme, "terminal");
}

#[test]
fn escape_while_editing_drops_the_edit() {
    let mut pane = create_test_pane();
    pane.open();
    pane.handle_key("e");
    pane.handle_key("x");
    assert_eq!(pane.edit_buffer, "terminalx");
    let events = pane.handle_key("Esc");
    assert!(events.is_empty());
    assert!(matches!(pane.mode, SettingsMode::Viewing));
    assert_eq!(pane.edit_buffer, "");
    assert_eq!(pane.config.theme, "terminal");
    assert!(pane.is_open());
}

#[test]
fn test_settings_pane_save() {
    let mut pane = create_test_pane();
    pane.open();

    pane.config.theme = "light".to_string();
    let path = pane.save_path();
    assert_eq!(path, ".yinxrc.yaml");
    pane.save_finished(path, Ok(()));

    assert!(pane.message.is_some());
    assert_eq!(pane.config_path.as_deref(), Some(".yinxrc.yaml"));
}

#[test]
fn a_failed_save_shows_the_error() {
    let mut pane = create_test_pane();
    pane.save_finished(".yinxrc.yaml".to_string(), Err("denied".to_string()));
    assert_eq!(pane.message.as_deref(), Some("Save failed: denied"));
    assert_eq!(pane.config_path, None);
}

#[test]
fn test_settings_pane_setting_count() {
    let pane = create_test_pane();
    assert_eq!(pane.setting_count(), 5);
}

#[test]
fn test_settings_pane_handle_event_close() {
    let mut pane = create_test_pane();
    pane.open();

    let events = pane.handle_key("q");
    assert!(events.contains(&SettingsEvent::Closed));
    assert!(!pane.is_open());
}

#[test]
fn test_settings_pane_handle_event_edit() {
    let mut pane = create_test_pane();
    pane.open();

    let events = pane.handle_key("e");
    assert!(matches!(pane.mode, SettingsMode::Editing(_)));
    assert!(events.is_empty());
}

#[test]
fn test_settings_pane_handle_event_save() {
    let mut pane = create_test_pane();
    pane.open();

    let events = pane.handle_key("s");
    assert!(events.contains(&SettingsEvent::Saved));
}

#[test]
fn enter_confirms_and_names_the_setting() {
    let mut pane = create_test_pane();
    pane.open();
    pane.handle_key("e");
    pane.edit_buffer = "dark".to_string();
    let events = pane.handle_key("Enter");
    assert_eq!(events, vec![SettingsEvent::Changed("theme".to_string(), String::new())]);
    assert_eq!(pane.config.theme, "dark");
}

#[test]
fn a_closed_pane_ignores_keys() {
    let mut pane = create_test_pane();
    assert!(pane.handle_key("e").is_empty());
    assert!(matches!(pane.mode, SettingsMode::Viewing));
}

#[test]
fn test_settings_pane_handle_cursor_movement() {
    let mut pane = create_test_pane();
    pane.open();
    assert_eq!(pane.selected_index, 0);

    pane.cursor_moved(1);
    assert_eq!(pane.selected_index, 1);
}

#[test]
fn test_settings_pane_handle_scroll() {
    let mut pane = create_test_pane();
    pane.open();

    pane.scrolled(2);
    assert_eq!(pane.selected_index, 2);
    pane.scrolled(10);
    assert_eq!(pane.selected_index, 4);
    pane.scrolled(-3);
    assert_eq!(pane.selected_index, 1);
    pane.scrolled(-3);
    assert_eq!(pane.selected_index, 0);
}

#[test]
fn test_settings_pane_setting_key_at() {
    let pane = create_test_pane();
    assert_eq!(pane.setting_key_at(0), "theme");
    assert_eq!(pane.setting_key_at(1), "default_timeout_secs");
    assert_eq!(pane.setting_key_at(2), "follow_redirects");
    assert_eq!(pane.setting_key_at(3), "verify_tls");
    assert_eq!(pane.setting_key_at(4), "max_history_entries");
}

#[test]
fn test_settings_pane_with_keybindings() {
    let mut pane = create_test_pane();
    pane.config.keybindings.push(("quit".to_string(), "Ctrl+c".to_string()));
    pane.open();

    assert_eq!(pane.setting_count(), 6);
    assert_eq!(pane.setting_key_at(5), "quit");
    pane.selected_index = 5;
    pane.start_editing();
    assert_eq!(pane.edit_buffer, "Ctrl+c");
    pane.edit_buffer = "q".to_string();
    pane.confirm_edit(5);
    assert_eq!(pane.config.keybindings, vec![("quit".to_string(), "q".to_string())]);
}

#[test]
fn test_settings_pane_message_after_save() {
    let mut pane = create_test_pane();
    pane.open();
    let path = pane.save_path();
    pane.save_finished(path, Ok(()));

    assert!(pane.message.is_some());
}

#[test]
fn test_settings_pane_close_clears_message() {
    let mut pane = create_test_pane();
    pane.open();
    pane.message = Some("test".to_string());
    pane.close();
    assert!(pane.message.is_none());
}

#[test]
fn test_toggle_boolean_setting() {
    let mut pane = create_test_pane();
    pane.open();
    pane.selected_index = 2;
    pane.start_editing();

    pane.toggle_current_boolean();

    assert_ne!(pane.config.follow_redirects, test_settings().follow_redirects);
    assert_eq!(pane.message.as_deref(), Some("Setting toggled"));
}

#[test]
fn test_theme_dropdown_lists_all_themes() {
    let mut pane = create_test_pane();
    pane.open();
    pane.selected_index = 0;

    let themes = pane.get_theme_list();
    assert!(themes.contains(&"terminal".to_string()));
    assert!(themes.contains(&"dark".to_string()));
    assert!(themes.contains(&"light".to_string()));
    assert!(themes.contains(&"forest".to_string()));
}

#[test]
fn test_confirm_edit_emits_config_changed() {
    let mut pane = create_test_pane();
    pane.open();
    pane.selected_index = 0;
    pane.start_editing();
    pane.edit_buffer = "light".to_string();

    let events = pane.confirm_edit_and_get_events(0);
    assert!(events.iter().any(|e| matches!(e, SettingsEvent::ConfigChanged { .. })));
    assert_eq!(events, vec![SettingsEvent::ConfigChanged("theme".to_string(), "light".to_string())]);
}

#[test]
fn an_edited_binding_is_what_the_next_edit_starts_from() {
    let mut pane = create_test_pane();
    pane.config.keybindings.push(("quit".to_string(), "Ctrl+c".to_string()));
    pane.open();
    pane.edit_buffer = "F10".to_string();
    pane.confirm_edit(6);
    assert_eq!(pane.setting_key_at(6), "");
    assert_eq!(
        pane.config.keybindings,
        vec![("quit".to_string(), "Ctrl+c".to_string()), (String::new(), "F10".to_string())]
    );
    pane.selected_index = 5;
    pane.start_editing();
    assert_eq!(pane.edit_buffer, "Ctrl+c");
    pane.edit_buffer = "q".to_string();
    pane.confirm_edit(5);
    pane.start_editing();
    assert_eq!(pane.edit_buffer, "q");
}
