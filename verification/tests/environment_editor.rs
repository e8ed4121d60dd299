use yinx::environment_editor::EnvironmentEditor;
use yinx::environments::{Environment, EnvironmentVariable};
use yinx::input::AppEvent;

fn env_with(vars: &[(&str, &str)]) -> Environment {
    Environment {
        id: "env-1".to_string(),
        name: "Dev".to_string(),
        variables: vars
            .iter()
            .map(|(k, v)| EnvironmentVariable::new(k.to_string(), v.to_string()))
            .collect(),
    }
}

fn keys(editor: &EnvironmentEditor) -> Vec<String> {
    editor.environment.as_ref().unwrap().variables.iter().map(|v| v.key.clone()).collect()
}

#[test]
fn closed_editor_ignores_keys() {
    let mut editor = EnvironmentEditor::new();
    assert!(!editor.is_open());
    assert!(editor.handle_key("j").is_empty());
    assert_eq!(editor.selected_index, 0);
}

#[test]
fn open_selects_the_first_variable() {
    let mut editor = EnvironmentEditor::default();
    editor.selected_index = 3;
    editor.open(env_with(&[("a", "1"), ("b", "2")]));
    assert!(editor.is_open());
    assert_eq!(editor.selected_index, 0);
    assert!(!editor.editing_key && !editor.editing_value);
}

#[test]
fn selection_moves_within_the_variables() {
    let mut editor = EnvironmentEditor::new();
    editor.open(env_with(&[("a", "1"), ("b", "2")]));
    editor.handle_key("j");
    editor.handle_key("Down");
    assert_eq!(editor.selected_index, 1);
    editor.handle_key("k");
    editor.handle_key("Up");
    assert_eq!(editor.selected_index, 0);
}

#[test]
fn editing_a_key_and_a_value() {
    let mut editor = EnvironmentEditor::new();
    editor.open(env_with(&[("host", "localhost")]));
    editor.handle_key("i");
    assert!(editor.editing_key);
    assert_eq!(editor.edit_buffer, "host");
    editor.handle_key("Backspace");
    editor.handle_key("x");
    editor.handle_key("Enter");
    assert!(!editor.editing_key);
    assert_eq!(keys(&editor), vec!["hosx"]);
    editor.handle_key("v");
    assert!(editor.editing_value);
    assert_eq!(editor.edit_buffer, "localhost");
    editor.handle_key("Tab");
    editor.handle_key("!");
    editor.handle_key("Enter");
    assert_eq!(editor.environment.as_ref().unwrap().variables[0].value, "localhost!");
    assert_eq!(editor.edit_buffer, "");
}

#[test]
fn enter_toggles_a_variable_when_not_editing() {
    let mut editor = EnvironmentEditor::new();
    editor.open(env_with(&[("a", "1")]));
    assert!(editor.environment.as_ref().unwrap().variables[0].enabled);
    editor.handle_key("Enter");
    assert!(!editor.environment.as_ref().unwrap().variables[0].enabled);
    editor.handle_key("Enter");
    assert!(editor.environment.as_ref().unwrap().variables[0].enabled);
}

#[test]
fn new_variables_are_numbered_and_selected() {
    let mut editor = EnvironmentEditor::new();
    editor.open(env_with(&[("a", "1")]));
    editor.handle_key("o");
    assert_eq!(keys(&editor), vec!["a", "var_2"]);
    assert_eq!(editor.selected_index, 1);
    assert!(editor.editing_key);
    assert_eq!(editor.edit_buffer, "var_2");
}

#[test]
fn delete_removes_the_selected_key_and_keeps_the_selection_in_range() {
    let mut editor = EnvironmentEditor::new();
    editor.open(env_with(&[("a", "1"), ("b", "2"), ("a", "3")]));
    editor.handle_key("d");
    assert_eq!(keys(&editor), vec!["b"]);
    assert_eq!(editor.selected_index, 0);
    editor.handle_key("d");
    assert!(keys(&editor).is_empty());
    editor.handle_key("d");
    assert_eq!(editor.selected_index, 0);
}

#[test]
fn escape_closes_and_reports() {
    let mut editor = EnvironmentEditor::new();
    editor.open(env_with(&[("a", "1")]));
    let events = editor.handle_key("Esc");
    assert!(!editor.is_open());
    assert!(editor.environment.is_none());
    assert!(matches!(&events[..], [AppEvent::EnvironmentEditOpened { id }] if id.is_empty()));
}

#[test]
fn save_reports_the_environment_and_closes() {
    let mut editor = EnvironmentEditor::new();
    editor.open(env_with(&[("a", "1")]));
    let events = editor.handle_key("Ctrl+s");
    assert!(!editor.is_open());
    assert!(matches!(&events[..], [AppEvent::EnvironmentUpdated { id }] if id == "env-1"));
}

#[test]
fn take_environment_leaves_none() {
    let mut editor = EnvironmentEditor::new();
    editor.open(env_with(&[("a", "1")]));
    let env = editor.take_environment();
    assert_eq!(env.unwrap().name, "Dev");
    assert!(editor.environment.is_none());
}

#[test]
fn remove_variable_keeps_the_others_in_order() {
    let mut env = env_with(&[("a", "1"), ("b", "2"), ("a", "3"), ("c", "4")]);
    env.remove_variable("a");
    let names: Vec<&str> = env.variables.iter().map(|v| v.key.as_str()).collect();
    assert_eq!(names, vec!["b", "c"]);
    env.add_variable(EnvironmentVariable::new("d".to_string(), String::new()));
    assert_eq!(env.variables.last().unwrap().key, "d");
}

#[test]
fn rows_show_marks_and_the_text_being_edited() {
    let theme = yinx::theme::Theme::dark();
    let mut editor = EnvironmentEditor::new();
    editor.open(env_with(&[("host", "local"), ("port", "80")]));
    editor.handle_key("j");
    editor.handle_key("Enter");
    editor.handle_key("v");
    editor.handle_key("1");
    let rows = editor.rows(5, &theme);
    assert_eq!(rows.len(), 2);
    assert!(!rows[0].selected && rows[1].selected);
    let texts: Vec<&str> = rows[1].spans.iter().map(|s| s.text.as_str()).collect();
    assert_eq!(texts, vec![" ✗ ", " port ", " = ", "801"]);
    assert_eq!(rows[1].spans[3].fg, Some(theme.semantic.info));
    assert_eq!(rows[0].spans[0].text, " ✓ ");
    assert_eq!(editor.rows(1, &theme).len(), 1);
}
