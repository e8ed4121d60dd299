use yinx::engine::WorkflowState;
use yinx::graph::{Workflow, WorkflowEdge, WorkflowNode};
use yinx::input::{Key, KeyPress};
use yinx::json::JsonValue;
use yinx::request::{Method, Request};
use yinx::workflow_pane::{FocusedField, NodeStatus, WorkflowPane};

fn create_test_request(method: Method, url: &str) -> Request {
    Request::new(method, url)
}

fn create_test_workflow(name: &str) -> Workflow {
    let mut workflow = Workflow::new(name);
    let request = create_test_request(Method::Get, "https://api.example.com/users");
    let node = WorkflowNode::new(request).with_id("get-users");
    workflow.add_node(node).unwrap();

    let request2 = create_test_request(Method::Post, "https://api.example.com/users");
    let node2 = WorkflowNode::new(request2).with_id("create-user");
    workflow.add_node(node2).unwrap();

    workflow.add_edge(WorkflowEdge::new("get-users", "create-user")).unwrap();
    workflow
}

fn key(code: Key) -> KeyPress {
    KeyPress { code, ctrl: false, alt: false, shift: false }
}

#[test]
fn test_workflow_pane_new() {
    let pane = WorkflowPane::new();
    assert_eq!(pane.focused_field(), FocusedField::Sidebar);
}

#[test]
fn test_workflow_pane_with_workflow() {
    let workflow = create_test_workflow("Test Workflow");
    let pane = WorkflowPane::new().with_workflow(workflow);
    assert_eq!(pane.workflows.len(), 1);
}

#[test]
fn test_focused_field_transitions() {
    let mut pane = WorkflowPane::new();
    assert_eq!(pane.focused_field(), FocusedField::Sidebar);

    pane.set_focused_field(FocusedField::Tabs);
    assert_eq!(pane.focused_field(), FocusedField::Tabs);

    pane.set_focused_field(FocusedField::TabContent);
    assert_eq!(pane.focused_field(), FocusedField::TabContent);
}

#[test]
fn test_sidebar_key_navigation() {
    let workflow1 = create_test_workflow("Workflow 1");
    let workflow2 = create_test_workflow("Workflow 2");
    let mut pane = WorkflowPane::new().with_workflow(workflow1).with_workflow(workflow2);

    assert_eq!(pane.selected_workflow, 0);

    pane.handle_key(&key(Key::Down));
    assert_eq!(pane.selected_workflow, 1);

    pane.handle_key(&key(Key::Up));
    assert_eq!(pane.selected_workflow, 0);
}

#[test]
fn test_tab_navigation() {
    let workflow = create_test_workflow("Test");
    let mut pane = WorkflowPane::new().with_workflow(workflow);
    pane.set_focused_field(FocusedField::Tabs);

    assert_eq!(pane.selected_tab, 0);

    pane.handle_key(&key(Key::Right));
    assert_eq!(pane.selected_tab, 1);

    pane.handle_key(&key(Key::Left));
    assert_eq!(pane.selected_tab, 0);
}

#[test]
fn test_run_all() {
    let workflow = create_test_workflow("Test");
    let mut pane = WorkflowPane::new().with_workflow(workflow);
    pane.set_focused_field(FocusedField::TabContent);
    pane.selected_tab = 0;
    pane.handle_key(&key(Key::Char('r')));

    assert!(matches!(pane.workflow_state, WorkflowState::Running));
}

#[test]
fn test_set_node_status() {
    let workflow = create_test_workflow("Test");
    let mut pane = WorkflowPane::new().with_workflow(workflow);

    pane.set_node_status("get-users", NodeStatus::Success);
    assert!(matches!(pane.node_statuses.get("get-users"), Some(NodeStatus::Success)));

    pane.set_node_status("create-user", NodeStatus::Error);
    assert!(matches!(pane.workflow_state, WorkflowState::Failed));
}

#[test]
fn test_workflow_state_transitions() {
    let workflow = create_test_workflow("Test");
    let mut pane = WorkflowPane::new().with_workflow(workflow);

    pane.set_workflow_state(WorkflowState::Running);
    assert!(matches!(pane.workflow_state, WorkflowState::Running));

    pane.set_workflow_state(WorkflowState::Done);
    assert!(matches!(pane.workflow_state, WorkflowState::Done));

    pane.set_workflow_state(WorkflowState::Failed);
    assert!(matches!(pane.workflow_state, WorkflowState::Failed));
}

#[test]
fn test_sidebar_toggle() {
    let workflow = create_test_workflow("Test");
    let mut pane = WorkflowPane::new().with_workflow(workflow);
    assert!(pane.sidebar_visible);

    pane.handle_key(&key(Key::Char('s')));
    assert!(!pane.sidebar_visible);

    pane.handle_key(&key(Key::Char('s')));
    assert!(pane.sidebar_visible);
}

#[test]
fn empty_pane_ignores_keys() {
    let mut pane = WorkflowPane::new();
    assert!(!pane.handle_key(&key(Key::Down)));
    assert_eq!(pane.selected_workflow, 0);
}

#[test]
fn selecting_a_workflow_selects_its_first_node() {
    let pane = WorkflowPane::new().with_workflow(create_test_workflow("Test"));
    assert_eq!(pane.selected_node.as_deref(), Some("get-users"));
    assert_eq!(pane.node_selected, Some(0));
    assert_eq!(pane.sidebar_selected, Some(0));
}

#[test]
fn node_list_moves_and_runs_the_selected_node() {
    let mut pane = WorkflowPane::new().with_workflow(create_test_workflow("Test"));
    pane.set_focused_field(FocusedField::TabContent);
    pane.selected_tab = 1;
    assert!(pane.handle_key(&key(Key::Down)));
    assert_eq!(pane.selected_node.as_deref(), Some("create-user"));
    assert!(pane.handle_key(&key(Key::Down)));
    assert_eq!(pane.node_selected, Some(1));
    assert!(pane.handle_key(&key(Key::Enter)));
    assert!(matches!(pane.node_statuses.get("create-user"), Some(NodeStatus::Running)));
    assert!(pane.node_statuses.get("get-users").is_none());
    assert!(matches!(pane.workflow_state, WorkflowState::Running));
    assert!(pane.handle_key(&key(Key::Up)));
    assert_eq!(pane.selected_node.as_deref(), Some("get-users"));
    assert!(pane.handle_key(&key(Key::Up)));
    assert_eq!(pane.focused_field(), FocusedField::Tabs);
}

#[test]
fn run_all_marks_every_node_running() {
    let mut pane = WorkflowPane::new().with_workflow(create_test_workflow("Test"));
    pane.set_focused_field(FocusedField::TabContent);
    assert!(pane.handle_key(&key(Key::Char('r'))));
    assert!(matches!(pane.node_statuses.get("get-users"), Some(NodeStatus::Running)));
    assert!(matches!(pane.node_statuses.get("create-user"), Some(NodeStatus::Running)));
}

#[test]
fn all_successes_finish_the_run() {
    let mut pane = WorkflowPane::new().with_workflow(create_test_workflow("Test"));
    pane.set_node_status("get-users", NodeStatus::Success);
    assert!(matches!(pane.workflow_state, WorkflowState::Done));
    pane.set_node_status("create-user", NodeStatus::Running);
    assert!(matches!(pane.workflow_state, WorkflowState::Done));
    pane.set_node_status("create-user", NodeStatus::Success);
    assert!(matches!(pane.workflow_state, WorkflowState::Done));
}

#[test]
fn graph_offset_scrolls_and_stops_at_zero() {
    let mut pane = WorkflowPane::new().with_workflow(create_test_workflow("Test"));
    pane.set_focused_field(FocusedField::TabContent);
    pane.handle_key(&key(Key::Left));
    assert_eq!(pane.graph_offset_x, 0);
    pane.handle_key(&key(Key::Right));
    pane.handle_key(&key(Key::Right));
    assert_eq!(pane.graph_offset_x, 2);
    pane.handle_key(&key(Key::Left));
    assert_eq!(pane.graph_offset_x, 1);
    assert!(!pane.handle_key(&key(Key::Char('x'))));
}

#[test]
fn variables_are_listed_with_their_json_text() {
    let mut workflow = create_test_workflow("Test");
    workflow.set_variable("base", JsonValue::Str("https://x".to_string()));
    workflow.set_variable("count", JsonValue::from_u64(3));
    let mut pane = WorkflowPane::new().with_workflow(workflow);
    assert_eq!(
        pane.variables,
        vec![
            ("base".to_string(), "\"https://x\"".to_string()),
            ("count".to_string(), "3".to_string()),
        ]
    );
    pane.set_focused_field(FocusedField::TabContent);
    pane.selected_tab = 2;
    pane.handle_key(&key(Key::Down));
    assert_eq!(pane.variable_selected, Some(1));
    pane.handle_key(&key(Key::Down));
    assert_eq!(pane.variable_selected, Some(1));
    pane.handle_key(&key(Key::Up));
    pane.handle_key(&key(Key::Up));
    assert_eq!(pane.focused_field(), FocusedField::Tabs);
}

#[test]
fn tabs_wrap_focus_at_their_ends() {
    let mut pane = WorkflowPane::new().with_workflow(create_test_workflow("Test"));
    pane.set_focused_field(FocusedField::Tabs);
    pane.handle_key(&key(Key::Left));
    assert_eq!(pane.focused_field(), FocusedField::Sidebar);
    pane.handle_key(&key(Key::Tab));
    assert_eq!(pane.focused_field(), FocusedField::Tabs);
    pane.handle_key(&key(Key::Right));
    pane.handle_key(&key(Key::Right));
    assert_eq!(pane.selected_tab, 2);
    pane.handle_key(&key(Key::Right));
    assert_eq!(pane.focused_field(), FocusedField::TabContent);
}
