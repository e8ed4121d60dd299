use yinx::input::{ActivePane, InputMode, Key, KeyPress};
use yinx::shell::{
    forward_key, Forward, settings_key_name, settings_theme, shell_key_step, shell_palette_step, PaletteEvent, PaletteOutcome, ShellAction, ShellState,
    SplitStep,
};

fn key(code: Key) -> KeyPress {
    KeyPress { code, ctrl: false, alt: false, shift: false }
}

fn ctrl(c: char) -> KeyPress {
    KeyPress { code: Key::Char(c), ctrl: true, alt: false, shift: false }
}

#[test]
fn ctrl_c_quits_even_with_the_palette_open() {
    let mut s = ShellState::new();
    s.palette_visible = true;
    assert!(shell_key_step(&mut s, ctrl('c')).is_empty());
    assert!(s.should_quit);
}

#[test]
fn help_opens_on_question_mark_and_swallows_keys() {
    let mut s = ShellState::new();
    assert!(shell_key_step(&mut s, key(Key::Char('?'))).is_empty());
    assert!(s.show_help);
    assert!(shell_key_step(&mut s, key(Key::Char('j'))).is_empty());
    assert!(s.show_help);
    shell_key_step(&mut s, key(Key::Esc));
    assert!(!s.show_help);
}

#[test]
fn colon_opens_the_palette_which_then_takes_keys() {
    let mut s = ShellState::new();
    let a = shell_key_step(&mut s, key(Key::Char(':')));
    assert!(matches!(a[..], [ShellAction::ShowPalette]));
    assert!(s.palette_visible);
    assert_eq!(s.input.current_mode(), InputMode::Command);
    let a = shell_key_step(&mut s, key(Key::Char('w')));
    assert!(matches!(&a[..], [ShellAction::RoutePaletteKey(k)] if k.code == Key::Char('w')));
    let a = shell_palette_step(&mut s, PaletteOutcome::Close);
    assert!(a.is_empty());
    assert!(!s.palette_visible);
    assert_eq!(s.input.current_mode(), InputMode::Normal);
}

#[test]
fn palette_commands_act_in_turn() {
    let mut s = ShellState::new();
    s.palette_visible = true;
    let a = shell_palette_step(
        &mut s,
        PaletteOutcome::Execute(vec![
            PaletteEvent::SaveState,
            PaletteEvent::PaneChanged(ActivePane::Logs),
            PaletteEvent::SettingsOpened,
            PaletteEvent::ExecuteRequest,
            PaletteEvent::Quit,
        ]),
    );
    assert!(matches!(&a[0], ShellAction::Log(t) if t == "State saved"));
    assert!(matches!(a[1], ShellAction::OpenSettings));
    assert!(matches!(a[2], ShellAction::ExecuteRequest));
    assert_eq!(a.len(), 3);
    assert_eq!(s.active_pane, ActivePane::Logs);
    assert!(s.settings_open && s.show_help && s.should_quit && !s.palette_visible);
}

#[test]
fn settings_take_keys_until_escape() {
    let mut s = ShellState::new();
    s.settings_open = true;
    let a = shell_key_step(&mut s, key(Key::Down));
    assert!(matches!(&a[..], [ShellAction::RouteSettingsKey(k)] if k.code == Key::Down));
    let a = shell_key_step(&mut s, key(Key::Char('q')));
    assert!(matches!(a[..], [ShellAction::CloseSettings]));
    assert!(!s.settings_open);
    assert!(!s.should_quit);
}

#[test]
fn layout_and_theme_keys_in_normal_mode() {
    let mut s = ShellState::new();
    assert!(matches!(shell_key_step(&mut s, ctrl('b'))[..], [ShellAction::ToggleSidebar]));
    assert!(matches!(
        shell_key_step(&mut s, key(Key::Char('+')))[..],
        [ShellAction::ResizeCenterSplit(SplitStep::Grow)]
    ));
    s.active_pane = ActivePane::Sidebar;
    assert!(matches!(shell_key_step(&mut s, key(Key::Char('-')))[..], [ShellAction::ResizeSidebar(-5)]));
    s.active_pane = ActivePane::Logs;
    assert!(shell_key_step(&mut s, key(Key::Char('=')))[..].is_empty());
    assert!(matches!(shell_key_step(&mut s, key(Key::F(10)))[..], [ShellAction::CycleTheme]));
    assert!(matches!(shell_key_step(&mut s, key(Key::Char('T')))[..], [ShellAction::CycleTheme]));
}

#[test]
fn handler_events_act_and_the_rest_goes_to_the_pane() {
    let mut s = ShellState::new();
    assert!(shell_key_step(&mut s, key(Key::Char('2'))).is_empty());
    assert_eq!(s.active_pane, ActivePane::Response);
    let a = shell_key_step(&mut s, key(Key::Char('j')));
    assert!(matches!(&a[..], [ShellAction::ForwardKey(k)] if k.code == Key::Char('j')));
    let a = shell_key_step(&mut s, key(Key::Enter));
    assert!(matches!(&a[..], [ShellAction::SendRequest(r)] if r.url == "https://example.com"));
    let a = shell_key_step(&mut s, key(Key::Char('i')));
    assert!(a.is_empty());
    assert_eq!(s.input.current_mode(), InputMode::Insert);
    let a = shell_key_step(&mut s, key(Key::Char('?')));
    assert!(matches!(&a[..], [ShellAction::ForwardKey(_)]));
    assert!(!s.show_help);
    assert!(shell_key_step(&mut s, key(Key::Char('q'))).len() == 1);
    assert!(!s.should_quit);
    shell_key_step(&mut s, key(Key::Esc));
    shell_key_step(&mut s, key(Key::Char('q')));
    assert!(s.should_quit);
}

#[test]
fn only_a_non_empty_theme_setting_names_a_theme() {
    assert_eq!(settings_theme("theme", "dark"), Some("dark".to_string()));
    assert_eq!(settings_theme("theme", ""), None);
    assert_eq!(settings_theme("font", "x"), None);
}

#[test]
fn unhandled_keys_become_pane_navigation() {
    assert!(matches!(forward_key(ActivePane::Response, InputMode::Normal, Key::Char('j')), Forward::Navigate(ActivePane::Response, Key::Down)));
    assert!(matches!(forward_key(ActivePane::Request, InputMode::Normal, Key::Char('x')), Forward::Nothing));
    assert!(matches!(forward_key(ActivePane::Request, InputMode::Insert, Key::Char('x')), Forward::Navigate(ActivePane::Request, Key::Char('x'))));
    assert!(matches!(forward_key(ActivePane::Sidebar, InputMode::Normal, Key::Char('r')), Forward::LoadHistory));
    assert!(matches!(forward_key(ActivePane::Sidebar, InputMode::Insert, Key::Char('D')), Forward::ClearHistory));
    assert!(matches!(forward_key(ActivePane::Logs, InputMode::Normal, Key::Tab), Forward::Navigate(ActivePane::Logs, Key::Tab)));
    assert!(matches!(forward_key(ActivePane::Workflow, InputMode::Normal, Key::Down), Forward::Nothing));
}

#[test]
fn settings_keys_go_by_name() {
    let press = |code: Key| KeyPress { code, ctrl: false, alt: false, shift: false };
    assert_eq!(settings_key_name(&press(Key::Char('e'))), Some("e".to_string()));
    assert_eq!(settings_key_name(&press(Key::Enter)), Some("Enter".to_string()));
    assert_eq!(settings_key_name(&press(Key::Esc)), Some("Esc".to_string()));
    assert_eq!(settings_key_name(&press(Key::Backspace)), Some("Backspace".to_string()));
    assert_eq!(settings_key_name(&press(Key::Up)), None);
}
