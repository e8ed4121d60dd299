use yinx::theme::{BorderType, ColorDef, TextEmphasis, Theme, ThemeRegistry};

#[test]
fn test_terminal_theme_uses_derived_colors() {
    let theme = Theme::terminal_default();
    assert_eq!(theme.name, "terminal");
    assert!(theme.background.is_none());
    assert_eq!(theme.foreground, ColorDef::Reset);
    assert_ne!(theme.border.color, ColorDef::Reset);
}

#[test]
fn test_dark_theme_semantic_colors() {
    let theme = Theme::dark();
    match theme.semantic.success {
        ColorDef::Rgb(_, g, _) => assert_eq!(g, 187),
        _ => panic!("expected rgb"),
    }
}

#[test]
fn test_light_theme_background() {
    let theme = Theme::light();
    match theme.background {
        Some(ColorDef::Rgb(r, g, b)) => {
            assert_eq!((r, g, b), (248, 245, 239));
        }
        _ => panic!("expected rgb background"),
    }
}

#[test]
fn test_forest_theme_exists() {
    let theme = Theme::forest();
    assert_eq!(theme.name, "forest");
}

#[test]
fn test_postman_theme_exists() {
    let theme = Theme::postman();
    assert_eq!(theme.name, "postman");
    assert_eq!(theme.border.style, BorderType::Plain);
}

#[test]
fn test_get_by_name_supports_all_builtins() {
    for name in ["postman", "terminal", "dark", "light", "forest"] {
        assert!(Theme::get_by_name(name).is_some(), "{name} should resolve");
    }
}

#[test]
fn test_builtin_theme_names_are_stable() {
    assert_eq!(
        Theme::builtin_theme_names(),
        vec![
            "postman".to_string(),
            "dark".to_string(),
            "light".to_string(),
            "forest".to_string(),
            "terminal".to_string(),
        ]
    );
}

#[test]
fn test_theme_helpers_use_pane_styles() {
    let theme = Theme::dark();
    assert_eq!(theme.border_color(true), theme.border.active_color);
    assert_eq!(theme.title_color(false), theme.pane.inactive_title);
    assert_eq!(theme.pane_bg(true), theme.pane.active_background.unwrap());
}

#[test]
fn test_theme_registry_defaults_have_order() {
    let registry = ThemeRegistry::with_defaults();
    assert_eq!(
        registry.names(),
        vec![
            "postman".to_string(),
            "dark".to_string(),
            "light".to_string(),
            "forest".to_string(),
            "terminal".to_string(),
        ]
    );
}

#[test]
fn test_theme_registry_cycle_next_rotates_in_order() {
    let mut registry = ThemeRegistry::with_defaults();
    registry.set_current("terminal");
    assert_eq!(registry.cycle_next().name, "postman");
    assert_eq!(registry.cycle_next().name, "dark");
}

#[test]
fn terminal_default_has_the_derived_colors() {
    let theme = Theme::terminal_default();
    assert_eq!(theme.border.color, ColorDef::Rgb(48, 48, 52));
    assert_eq!(theme.border.active_color, ColorDef::Rgb(150, 200, 255));
    assert_eq!(theme.highlight.selected_bg, ColorDef::Rgb(70, 85, 104));
    assert_eq!(theme.pane.muted, ColorDef::Rgb(78, 78, 82));
    assert_eq!(theme.semantic.success, ColorDef::Rgb(80, 200, 120));
}

#[test]
fn terminal_default_is_another_name_of_terminal() {
    assert_eq!(Theme::get_by_name("terminal_default").unwrap().name, "terminal");
    assert!(Theme::get_by_name("solarized").is_none());
}

#[test]
fn dim_border_mixes_two_thirds_of_the_background() {
    let theme = Theme::dark();
    // border (82, 96, 116), pane background (16, 20, 28)
    assert_eq!(theme.dim_border_color(), ColorDef::Rgb(92, 109, 134));
    let postman = Theme::postman();
    assert_eq!(postman.dim_border_color(), ColorDef::Indexed(242));
}

#[test]
fn dim_border_wraps_to_a_byte() {
    let mut theme = Theme::light();
    // border (187, 177, 165), pane background (252, 250, 246)
    theme.pane.background = Some(ColorDef::Rgb(252, 250, 246));
    assert_eq!(theme.dim_border_color(), ColorDef::Rgb(((187 + 168) % 256) as u8, ((177 + 166) % 256) as u8, ((165 + 164) % 256) as u8));
}

#[test]
fn typography_levels_pick_color_and_emphasis() {
    let theme = Theme::dark();
    assert_eq!(theme.typography_level(0), (theme.pane.typography.title, TextEmphasis::Bold));
    assert_eq!(theme.typography_level(2), (theme.pane.typography.body, TextEmphasis::Plain));
    assert_eq!(theme.typography_level(9), (theme.pane.typography.dim, TextEmphasis::Dim));
}

#[test]
fn pane_backgrounds_fall_back_to_reset() {
    let theme = Theme::postman();
    assert_eq!(theme.pane_bg(true), ColorDef::Reset);
    assert_eq!(theme.subtle_bg(), ColorDef::Reset);
    assert_eq!(theme.bg_panel(), ColorDef::Reset);
}

#[test]
fn cycle_next_goes_round_and_starts_at_the_first() {
    let mut registry = ThemeRegistry::new();
    registry.register("a".to_string(), Theme::dark());
    registry.register("b".to_string(), Theme::light());
    assert!(registry.current().is_none());
    assert_eq!(registry.cycle_next().name, "dark");
    assert_eq!(registry.cycle_next().name, "light");
    assert_eq!(registry.cycle_next().name, "dark");
    registry.register("a".to_string(), Theme::forest());
    assert_eq!(registry.names(), vec!["a".to_string(), "b".to_string()]);
    assert_eq!(registry.len(), 2);
    registry.set_current("missing");
    assert_eq!(registry.current().unwrap().name, "forest");
}
