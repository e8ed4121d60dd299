use yinx::command_palette::{CommandPalette, PaletteStep};
use yinx::input::{InputBuffer, Key, KeyPress};

/// Names standing for the commands that a search of the empty query finds.
fn commands() -> Vec<String> {
    [
        "send", "save", "quit", "search", "settings", "import", "new_tab", "focus_request",
        "focus_response", "focus_workflow", "focus_logs", "clear_logs", "maximize", "definition",
        "search_response", "close_others", "theme", "help", "history", "export",
    ]
    .iter()
    .map(|s| s.to_string())
    .collect()
}

fn key(code: Key) -> KeyPress {
    KeyPress { code, ctrl: false, alt: false, shift: false }
}

fn shown() -> CommandPalette {
    let mut palette = CommandPalette::new(commands());
    palette.show();
    palette
}

#[test]
fn test_command_palette_new() {
    let palette = CommandPalette::new(commands());
    assert!(!palette.visible);
    assert_eq!(palette.input.as_str(), ":");
    assert!(!palette.matches.is_empty());
}

#[test]
fn test_command_palette_toggle() {
    let mut palette = CommandPalette::new(commands());
    palette.toggle();
    assert!(palette.visible);
    palette.toggle();
    assert!(!palette.visible);
}

#[test]
fn test_command_palette_show_hide() {
    let mut palette = CommandPalette::new(commands());
    palette.show();
    assert!(palette.visible);
    assert_eq!(palette.input.as_str(), ":");

    palette.hide_palette();
    assert!(!palette.visible);
}

#[test]
fn test_command_palette_esc_closes() {
    let mut palette = shown();
    let action = palette.handle_key(&key(Key::Esc));
    assert_eq!(action, PaletteStep::Close);
    assert!(!palette.visible);
}

#[test]
fn test_command_palette_enter_executes() {
    let mut palette = shown();
    let action = palette.handle_key(&key(Key::Enter));
    assert!(matches!(action, PaletteStep::Execute(_)));
    assert!(!palette.visible);
}

#[test]
fn enter_runs_the_selected_match_or_only_closes() {
    let mut palette = shown();
    palette.selected = 3;
    assert_eq!(palette.handle_key(&key(Key::Enter)), PaletteStep::Execute(3));
    let mut palette = shown();
    palette.selected = 99;
    assert_eq!(palette.handle_key(&key(Key::Enter)), PaletteStep::Execute(19));
    let mut palette = CommandPalette::new(Vec::new());
    palette.show();
    assert_eq!(palette.handle_key(&key(Key::Enter)), PaletteStep::Close);
    assert!(!palette.visible);
}

#[test]
fn test_command_palette_navigation() {
    let mut palette = shown();
    assert_eq!(palette.selected, 0);

    palette.handle_key(&key(Key::Down));
    assert_eq!(palette.selected, 1);

    palette.handle_key(&key(Key::Up));
    assert_eq!(palette.selected, 0);
}

#[test]
fn test_command_palette_vim_keys_navigation() {
    let mut palette = shown();
    assert_eq!(palette.selected, 0);

    palette.handle_key(&key(Key::Char('j')));
    assert_eq!(palette.selected, 1);

    palette.handle_key(&key(Key::Char('k')));
    assert_eq!(palette.selected, 0);
}

#[test]
fn typing_edits_the_query_and_asks_for_a_search() {
    let mut palette = shown();
    palette.selected = 4;
    assert_eq!(palette.handle_key(&key(Key::Char('s'))), PaletteStep::Requery);
    assert_eq!(palette.handle_key(&key(Key::Char('e'))), PaletteStep::Requery);
    assert_eq!(palette.input.as_str(), ":se");
    assert_eq!(palette.selected, 0);
    assert_eq!(palette.query(), "se");
    palette.set_matches(vec!["send".to_string(), "search".to_string()]);
    assert_eq!(palette.selected_command(), Some("send".to_string()));
    let ctrl_x = KeyPress { code: Key::Char('x'), ctrl: true, alt: false, shift: false };
    assert_eq!(palette.handle_key(&ctrl_x), PaletteStep::Nothing);
    assert_eq!(palette.input.as_str(), ":se");
}

#[test]
fn test_command_palette_backspace() {
    let mut palette = shown();
    palette.input.insert_str("se");

    let action = palette.handle_key(&key(Key::Backspace));
    assert_eq!(palette.input.as_str(), ":s");
    assert_eq!(action, PaletteStep::Requery);
}

#[test]
fn test_command_palette_selected_command() {
    let palette = shown();
    assert!(palette.selected_command().is_some());
    let empty = CommandPalette::new(Vec::new());
    assert_eq!(empty.selected_command(), None);
}

#[test]
fn test_command_palette_home_end() {
    let mut palette = shown();

    palette.handle_key(&key(Key::End));
    assert_eq!(palette.selected, palette.matches.len() - 1);

    palette.handle_key(&key(Key::Home));
    assert_eq!(palette.selected, 0);
}

#[test]
fn test_command_palette_page_up_down() {
    let mut palette = shown();
    palette.selected = 15;

    palette.handle_key(&key(Key::PageUp));
    assert_eq!(palette.selected, 5);

    palette.handle_key(&key(Key::PageDown));
    assert_eq!(palette.selected, 15);
}

#[test]
fn test_command_palette_handle_key_when_hidden() {
    let mut palette = CommandPalette::new(commands());
    let action = palette.handle_key(&key(Key::Char('x')));
    assert_eq!(action, PaletteStep::Nothing);
    assert_eq!(palette.input.as_str(), ":");
}

#[test]
fn test_command_palette_tab_cycles() {
    let mut palette = shown();
    let first_selected = palette.selected;

    palette.handle_key(&key(Key::Tab));
    assert_ne!(palette.selected, first_selected);
    assert!(palette.selected < palette.matches.len());

    palette.selected = 19;
    palette.handle_key(&key(Key::Tab));
    assert_eq!(palette.selected, 0);
}

#[test]
fn test_command_palette_input_buffer_starts_with_colon() {
    let palette = CommandPalette::new(commands());
    assert!(palette.input.as_str().starts_with(':'));
}

#[test]
fn the_query_leaves_out_the_leading_colons() {
    let mut palette = shown();
    palette.input = InputBuffer::with_content("::a:b");
    assert_eq!(palette.query(), "a:b");
}

#[test]
fn test_is_visible() {
    let mut palette = CommandPalette::new(commands());
    assert!(!palette.is_visible());
    palette.show();
    assert!(palette.is_visible());
}
