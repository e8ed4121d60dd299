use yinx::input::{
    ActivePane, AppEvent, InputBuffer, InputHandler, InputMode, Key, KeyAction, KeyBinding, KeyBindingConfig,
    KeyPress,
};

fn press(code: Key, ctrl: bool) -> KeyPress {
    KeyPress { code, ctrl, alt: false, shift: false }
}

#[test]
fn test_key_action_display() {
    assert_eq!(KeyAction::Quit.to_string(), "quit");
    assert_eq!(KeyAction::CursorUp.to_string(), "cursor_up");
    assert_eq!(KeyAction::ModeInsert.to_string(), "mode_insert");
}

#[test]
fn test_key_binding_new() {
    let binding = KeyBinding::new("a", &["Ctrl"]);
    assert_eq!(binding.key, "a");
    assert_eq!(binding.modifiers.len(), 1);
    assert_eq!(binding.modifiers[0], "Ctrl");
}

#[test]
fn test_key_binding_display() {
    let binding = KeyBinding::new("s", &["Ctrl"]);
    assert_eq!(binding.to_string(), "Ctrl+s");

    let binding = KeyBinding::new("a", &[]);
    assert_eq!(binding.to_string(), "a");
}

#[test]
fn test_key_binding_from_key_event() {
    let event = press(Key::Char('a'), false);
    let binding = KeyBinding::from_key_event(&event);
    assert_eq!(binding.key, "a");
    assert!(binding.modifiers.is_empty());

    let event = press(Key::Char('s'), true);
    let binding = KeyBinding::from_key_event(&event);
    assert_eq!(binding.key, "s");
    assert_eq!(binding.modifiers.len(), 1);
    assert_eq!(binding.modifiers[0], "Ctrl");

    let event = press(Key::Up, false);
    let binding = KeyBinding::from_key_event(&event);
    assert_eq!(binding.key, "Up");
}

#[test]
fn test_key_binding_matches() {
    let event = press(Key::Char('c'), true);
    let binding = KeyBinding::new("c", &["Ctrl"]);
    assert!(binding.matches(&event));

    let event2 = press(Key::Char('c'), false);
    assert!(!binding.matches(&event2));
}

#[test]
fn test_key_binding_config_default() {
    let config = KeyBindingConfig::default_bindings();
    assert!(!config.is_empty());

    let event = press(Key::Char('q'), false);
    let action = config.get_action(&event);
    assert_eq!(action, KeyAction::Quit);
}

#[test]
fn test_key_binding_config_get_action() {
    let config = KeyBindingConfig::default_bindings();

    let event = press(Key::Char('j'), false);
    assert_eq!(config.get_action(&event), KeyAction::CursorDown);

    let event = press(Key::Char('k'), false);
    assert_eq!(config.get_action(&event), KeyAction::CursorUp);
}

#[test]
fn test_key_binding_config_set_remove() {
    let mut config = KeyBindingConfig::default_bindings();

    config.set_binding("x", &[], KeyAction::Quit);
    let event = press(Key::Char('x'), false);
    assert_eq!(config.get_action(&event), KeyAction::Quit);

    config.remove_binding("x", &[]);
    assert_eq!(config.get_action(&event), KeyAction::Unknown);
}

#[test]
fn test_input_handler_new() {
    let handler = InputHandler::new();
    assert_eq!(handler.current_mode(), InputMode::Normal);
}

#[test]
fn test_input_handler_normal_mode_quit() {
    let mut handler = InputHandler::new();
    let events = handler.handle_key(press(Key::Char('q'), false));
    assert!(!events.is_empty());
    assert!(matches!(events[0], AppEvent::Quit));
}

#[test]
fn test_input_handler_normal_mode_switch_to_insert() {
    let mut handler = InputHandler::new();
    let events = handler.handle_key(press(Key::Char('i'), false));
    assert_eq!(handler.current_mode(), InputMode::Insert);
    assert!(matches!(events[0], AppEvent::ModeChanged(InputMode::Insert)));
}

#[test]
fn test_input_handler_normal_mode_navigation() {
    let mut handler = InputHandler::new();
    let events = handler.handle_key(press(Key::Char('j'), false));
    assert!(matches!(events[0], AppEvent::CursorMoved { lines: 1, cols: 0 }));

    let events = handler.handle_key(press(Key::Char('k'), false));
    assert!(matches!(events[0], AppEvent::CursorMoved { lines: -1, cols: 0 }));
}

#[test]
fn test_input_handler_insert_mode_escape() {
    let mut handler = InputHandler::new();
    handler.switch_mode(InputMode::Insert);
    let events = handler.handle_key(press(Key::Esc, false));
    assert_eq!(handler.current_mode(), InputMode::Normal);
    assert!(matches!(events[0], AppEvent::ModeChanged(InputMode::Normal)));
}

#[test]
fn test_input_handler_insert_mode_typing() {
    let mut handler = InputHandler::new();
    handler.switch_mode(InputMode::Insert);
    let events = handler.handle_key(press(Key::Char('a'), false));
    assert!(matches!(events[0], AppEvent::KeyPressed(ref s) if s == "a"));
}

#[test]
fn test_input_handler_vim_top_bottom() {
    let mut handler = InputHandler::new();

    let events = handler.handle_key(press(Key::Char('g'), false));
    assert!(events.is_empty());
    assert_eq!(handler.pending_key, Some('g'));

    let events = handler.handle_key(press(Key::Char('g'), false));
    assert!(matches!(events[0], AppEvent::CursorMoved { lines: i64::MIN, .. }));
    assert_eq!(handler.pending_key, None);

    let events = handler.handle_key(press(Key::Char('G'), false));
    assert!(matches!(events[0], AppEvent::CursorMoved { lines: i64::MAX, .. }));
}

#[test]
fn test_input_handler_page_up_down() {
    let mut handler = InputHandler::new();
    let events = handler.handle_key(press(Key::Char('d'), true));
    assert!(matches!(events[0], AppEvent::Scrolled(20)));

    let events = handler.handle_key(press(Key::Char('u'), true));
    assert!(matches!(events[0], AppEvent::Scrolled(-20)));
}

#[test]
fn test_input_handler_pane_switching() {
    let mut handler = InputHandler::new();
    let events = handler.handle_key(press(Key::Char('1'), false));
    assert!(matches!(events[0], AppEvent::PaneChanged(ActivePane::Request)));

    let events = handler.handle_key(press(Key::Char('2'), false));
    assert!(matches!(events[0], AppEvent::PaneChanged(ActivePane::Response)));
}

#[test]
fn test_input_buffer_new() {
    let buffer = InputBuffer::new();
    assert!(buffer.is_empty());
    assert_eq!(buffer.cursor_pos, 0);
}

#[test]
fn test_input_buffer_with_content() {
    let buffer = InputBuffer::with_content("hello");
    assert_eq!(buffer.as_str(), "hello");
    assert_eq!(buffer.cursor_pos, 5);
}

#[test]
fn test_input_buffer_insert_char() {
    let mut buffer = InputBuffer::new();
    buffer.insert_char('a');
    assert_eq!(buffer.as_str(), "a");
    assert_eq!(buffer.cursor_pos, 1);

    buffer.insert_char('b');
    assert_eq!(buffer.as_str(), "ab");
    assert_eq!(buffer.cursor_pos, 2);
}

#[test]
fn test_input_buffer_insert_str() {
    let mut buffer = InputBuffer::new();
    buffer.insert_str("hello");
    assert_eq!(buffer.as_str(), "hello");
    assert_eq!(buffer.cursor_pos, 5);
}

#[test]
fn test_input_buffer_delete_char() {
    let mut buffer = InputBuffer::with_content("abc");
    let deleted = buffer.delete_char();
    assert_eq!(deleted, Some('c'));
    assert_eq!(buffer.as_str(), "ab");
    assert_eq!(buffer.cursor_pos, 2);

    let mut buffer = InputBuffer::with_content("abc");
    buffer.move_cursor_to_end();
    buffer.move_cursor_left();
    buffer.move_cursor_left();
    let deleted = buffer.delete_char();
    assert_eq!(deleted, Some('a'));
    assert_eq!(buffer.as_str(), "bc");
    assert_eq!(buffer.cursor_pos, 0);
}

#[test]
fn test_input_buffer_delete_char_at_start() {
    let mut buffer = InputBuffer::with_content("a");
    buffer.move_cursor_to_start();
    let deleted = buffer.delete_char();
    assert_eq!(deleted, None);
    assert_eq!(buffer.as_str(), "a");
    assert_eq!(buffer.cursor_pos, 0);
}

#[test]
fn test_input_buffer_delete_word() {
    let mut buffer = InputBuffer::with_content("hello world");
    buffer.move_cursor_to_end();
    let deleted = buffer.delete_word();
    assert_eq!(deleted, "world");
    assert_eq!(buffer.as_str(), "hello ");
}

#[test]
fn test_input_buffer_cursor_movement() {
    let mut buffer = InputBuffer::with_content("abc");
    assert_eq!(buffer.cursor_pos, 3);
    buffer.move_cursor_left();
    assert_eq!(buffer.cursor_pos, 2);
    buffer.move_cursor_left();
    assert_eq!(buffer.cursor_pos, 1);
    buffer.move_cursor_right();
    assert_eq!(buffer.cursor_pos, 2);
}

#[test]
fn test_input_buffer_clear() {
    let mut buffer = InputBuffer::with_content("hello");
    buffer.clear();
    assert!(buffer.is_empty());
    assert_eq!(buffer.cursor_pos, 0);
}

#[test]
fn test_input_buffer_delete_char_forward() {
    let mut buffer = InputBuffer::with_content("abc");
    let deleted = buffer.delete_char_forward();
    assert_eq!(deleted, None);
    assert_eq!(buffer.as_str(), "abc");

    let mut buffer = InputBuffer::with_content("abc");
    buffer.move_cursor_to_start();
    let deleted = buffer.delete_char_forward();
    assert_eq!(deleted, Some('a'));
    assert_eq!(buffer.as_str(), "bc");
    assert_eq!(buffer.cursor_pos, 0);
}

#[test]
fn insert_char_counts_the_cursor_in_bytes() {
    let mut buffer = InputBuffer::with_content("é");
    assert_eq!(buffer.cursor_pos, 2);
    assert_eq!(buffer.len(), 2);
    buffer.insert_char('x');
    assert_eq!(buffer.as_str(), "éx");
    assert_eq!(buffer.cursor_pos, 3);
}

#[test]
fn delete_word_stops_at_white_space_before_the_cursor() {
    let mut buffer = InputBuffer::with_content("one two three");
    buffer.cursor_pos = 7;
    let deleted = buffer.delete_word();
    assert_eq!(deleted, "two");
    assert_eq!(buffer.as_str(), "one  three");
    assert_eq!(buffer.cursor_pos, 4);
}

#[test]
fn function_keys_and_other_keys_are_named() {
    let b = KeyBinding::from_key_event(&KeyPress { code: Key::F(12), ctrl: false, alt: true, shift: true });
    assert_eq!(b.to_string(), "Alt+Shift+F12");
    let b = KeyBinding::from_key_event(&press(Key::Other("BackTab".to_string()), false));
    assert_eq!(b.key, "BackTab");
}

#[test]
fn normal_mode_ignores_unbound_keys_and_keeps_a_pending_g() {
    let mut handler = InputHandler::new();
    handler.handle_key(press(Key::Char('g'), false));
    let events = handler.handle_key(press(Key::Char('z'), false));
    assert!(events.is_empty());
    assert_eq!(handler.pending_key, Some('g'));
}

#[test]
fn send_request_asks_for_the_example_request() {
    let mut handler = InputHandler::new();
    let events = handler.handle_key(press(Key::Enter, false));
    match &events[0] {
        AppEvent::SendRequest(r) => assert_eq!(r.url, "https://example.com"),
        _ => panic!("expected a request"),
    }
}

#[test]
fn visual_mode_moves_and_leaves_with_escape() {
    let mut handler = InputHandler::new();
    handler.handle_key(press(Key::Char('v'), false));
    assert_eq!(handler.current_mode(), InputMode::Visual);
    let events = handler.handle_key(press(Key::Char('h'), false));
    assert!(matches!(events[0], AppEvent::CursorMoved { lines: 0, cols: -1 }));
    handler.handle_key(press(Key::Esc, false));
    assert_eq!(handler.current_mode(), InputMode::Normal);
}

#[test]
fn binding_twice_keeps_one_binding() {
    let mut config = KeyBindingConfig::new();
    config.set_binding("x", &["Ctrl"], KeyAction::Save);
    config.set_binding("x", &["Ctrl"], KeyAction::Quit);
    assert_eq!(config.len(), 1);
    assert_eq!(config.get_action(&press(Key::Char('x'), true)), KeyAction::Quit);
}

#[test]
fn test_input_handler_quit_key_ctrl_c() {
    let mut handler = InputHandler::new();
    let events = handler.handle_key(press(Key::Char('c'), true));
    assert!(!events.is_empty());
    assert!(matches!(events[0], AppEvent::Quit));
}

#[test]
fn test_input_handler_quit_key_q() {
    let mut handler = InputHandler::new();
    let events = handler.handle_key(press(Key::Char('q'), false));
    assert!(!events.is_empty());
    assert!(matches!(events[0], AppEvent::Quit));
}

#[test]
fn test_input_handler_not_quit_key_others() {
    let mut handler = InputHandler::new();
    let events = handler.handle_key(press(Key::Char('j'), false));
    assert!(!events.iter().any(|e| matches!(e, AppEvent::Quit)));
}

#[test]
fn test_t_key_cycles_theme() {
    let mut handler = InputHandler::new();
    let events = handler.handle_key(press(Key::Char('T'), false));
    assert!(events.iter().any(|e| matches!(e, AppEvent::ThemeChanged(_))));
    assert!(matches!(&events[0], AppEvent::ThemeChanged(n) if n == "next"));
    assert_eq!(KeyAction::CycleTheme.to_string(), "cycle_theme");
}

#[test]
fn command_mode_leaves_on_escape_only() {
    let mut handler = InputHandler::new();
    handler.switch_mode(InputMode::Command);
    assert!(handler.handle_key(press(Key::Char('x'), false)).is_empty());
    assert_eq!(handler.current_mode(), InputMode::Command);
    let events = handler.handle_key(press(Key::Esc, false));
    assert!(matches!(events[0], AppEvent::ModeChanged(InputMode::Normal)));
    assert_eq!(handler.current_mode(), InputMode::Normal);
}

#[test]
fn delete_undoes_insert() {
    let mut b = InputBuffer::with_content("ab");
    b.insert_char('x');
    assert_eq!(b.delete_char(), Some('x'));
    assert_eq!(b.as_str(), "ab");
    assert_eq!(b.cursor_pos, 2);
}
