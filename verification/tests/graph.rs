use yinx::graph::{GraphError, ValidationError, ValidationResult, Workflow, WorkflowEdge, WorkflowNode};
use yinx::json::JsonValue;
use yinx::request::{Method, Request};

fn make_request(url: &str) -> Request {
    Request::new(Method::Get, url)
}

fn node(id: &str, url: &str) -> WorkflowNode {
    WorkflowNode::new(make_request(url)).with_id(id)
}

fn s(t: &str) -> JsonValue {
    JsonValue::Str(t.to_string())
}

fn position(sorted: &[String], name: &str) -> usize {
    sorted.iter().position(|n| n == name).unwrap()
}

fn chain(ids: &[&str]) -> Workflow {
    let mut workflow = Workflow::new("Test");
    for id in ids {
        workflow.add_node(node(id, "https://example.com")).unwrap();
    }
    workflow
}

#[test]
fn test_workflow_node_creation() {
    let node = WorkflowNode::new(make_request("https://example.com"));
    assert!(!node.id.is_empty());
    assert_eq!(node.metadata.len(), 0);
}

#[test]
fn test_workflow_node_with_id() {
    let node = WorkflowNode::new(make_request("https://example.com")).with_id("node-1");
    assert_eq!(node.id, "node-1");
}

#[test]
fn test_workflow_node_with_metadata() {
    let node = WorkflowNode::new(make_request("https://example.com")).with_metadata("description", s("Get users"));
    assert_eq!(node.metadata.len(), 1);
    assert_eq!(node.metadata.get("description"), Some(&s("Get users")));
}

#[test]
fn test_workflow_node_validate_valid() {
    let node = WorkflowNode::new(make_request("https://example.com"));
    assert!(node.validate().is_ok());
}

#[test]
fn test_workflow_node_validate_invalid() {
    let node = WorkflowNode::new(make_request("https://example.com"));
    assert!(node.validate().is_ok());
}

#[test]
fn test_workflow_edge_creation() {
    let edge = WorkflowEdge::new("node-1", "node-2");
    assert_eq!(edge.from, "node-1");
    assert_eq!(edge.to, "node-2");
    assert!(edge.condition.is_none());
    assert!(edge.transforms.is_empty());
}

#[test]
fn test_workflow_edge_with_condition() {
    let edge = WorkflowEdge::new("node-1", "node-2").with_condition("status == 200");
    assert_eq!(edge.condition, Some("status == 200".to_string()));
}

#[test]
fn test_workflow_edge_with_transform() {
    let transform = JsonValue::Object(vec![("type".to_string(), s("extract")), ("path".to_string(), s("$.data.id"))]);
    let edge = WorkflowEdge::new("node-1", "node-2").with_transform(transform);
    assert_eq!(edge.transforms.len(), 1);
}

#[test]
fn test_workflow_creation() {
    let workflow = Workflow::new("Test Workflow");
    assert_eq!(workflow.name, "Test Workflow");
    assert!(workflow.nodes.is_empty());
    assert!(workflow.edges.is_empty());
}

#[test]
fn test_workflow_add_node() {
    let mut workflow = Workflow::new("Test");
    assert!(workflow.add_node(WorkflowNode::new(make_request("https://example.com"))).is_ok());
    assert_eq!(workflow.nodes.len(), 1);
}

#[test]
fn test_workflow_add_duplicate_node() {
    let mut workflow = Workflow::new("Test");
    workflow.add_node(node("node-1", "https://example.com")).unwrap();
    let result = workflow.add_node(node("node-1", "https://example.com"));
    assert!(matches!(result, Err(GraphError::NodeAlreadyExists(_))));
}

#[test]
fn test_workflow_remove_node() {
    let mut workflow = Workflow::new("Test");
    workflow.add_node(node("node-1", "https://example.com")).unwrap();
    assert!(workflow.remove_node("node-1").is_some());
    assert!(workflow.nodes.is_empty());
}

#[test]
fn test_workflow_remove_node_removes_edges() {
    let mut workflow = Workflow::new("Test");
    workflow.add_node(node("node-1", "https://example.com/1")).unwrap();
    workflow.add_node(node("node-2", "https://example.com/2")).unwrap();
    workflow.add_edge(WorkflowEdge::new("node-1", "node-2")).unwrap();
    workflow.remove_node("node-1");
    assert!(workflow.edges.is_empty());
}

#[test]
fn test_workflow_add_edge() {
    let mut workflow = chain(&["node-1", "node-2"]);
    assert!(workflow.add_edge(WorkflowEdge::new("node-1", "node-2")).is_ok());
    assert_eq!(workflow.edges.len(), 1);
}

#[test]
fn test_workflow_add_edge_missing_source() {
    let mut workflow = chain(&["node-2"]);
    let result = workflow.add_edge(WorkflowEdge::new("node-1", "node-2"));
    assert!(matches!(result, Err(GraphError::SourceNodeNotFound(_))));
}

#[test]
fn test_workflow_add_edge_missing_target() {
    let mut workflow = chain(&["node-1"]);
    let result = workflow.add_edge(WorkflowEdge::new("node-1", "node-2"));
    assert!(matches!(result, Err(GraphError::TargetNodeNotFound(_))));
}

#[test]
fn test_workflow_add_duplicate_edge() {
    let mut workflow = chain(&["node-1", "node-2"]);
    workflow.add_edge(WorkflowEdge::new("node-1", "node-2")).unwrap();
    let result = workflow.add_edge(WorkflowEdge::new("node-1", "node-2"));
    assert!(matches!(result, Err(GraphError::EdgeAlreadyExists(_, _))));
}

#[test]
fn test_workflow_remove_edge() {
    let mut workflow = chain(&["node-1", "node-2"]);
    workflow.add_edge(WorkflowEdge::new("node-1", "node-2")).unwrap();
    assert!(workflow.remove_edge("node-1", "node-2"));
    assert!(workflow.edges.is_empty());
}

#[test]
fn test_workflow_validate_dag_no_cycle() {
    let mut workflow = chain(&["node-1", "node-2", "node-3"]);
    workflow.add_edge(WorkflowEdge::new("node-1", "node-2")).unwrap();
    workflow.add_edge(WorkflowEdge::new("node-2", "node-3")).unwrap();
    assert!(workflow.validate_dag().is_ok());
}

#[test]
fn test_workflow_validate_dag_with_cycle() {
    let mut workflow = chain(&["node-1", "node-2", "node-3"]);
    workflow.add_edge(WorkflowEdge::new("node-1", "node-2")).unwrap();
    workflow.add_edge(WorkflowEdge::new("node-2", "node-3")).unwrap();
    workflow.add_edge(WorkflowEdge::new("node-3", "node-1")).unwrap();
    assert!(matches!(workflow.validate_dag(), Err(GraphError::CycleDetected)));
}

#[test]
fn test_workflow_validate_dag_self_loop() {
    let mut workflow = chain(&["node-1"]);
    workflow.add_edge(WorkflowEdge::new("node-1", "node-1")).unwrap();
    assert!(matches!(workflow.validate_dag(), Err(GraphError::CycleDetected)));
}

#[test]
fn test_workflow_variables() {
    let mut workflow = Workflow::new("Test");
    workflow.set_variable("base_url", s("https://api.example.com"));
    assert_eq!(workflow.get_variable("base_url"), Some(&s("https://api.example.com")));
    assert_eq!(workflow.get_variable("nonexistent"), None);
}

#[test]
fn test_workflow_topological_sort() {
    let mut workflow = chain(&["node-1", "node-2", "node-3"]);
    workflow.add_edge(WorkflowEdge::new("node-1", "node-2")).unwrap();
    workflow.add_edge(WorkflowEdge::new("node-2", "node-3")).unwrap();
    let sorted = workflow.topological_sort().unwrap();
    assert_eq!(sorted.len(), 3);
    assert!(position(&sorted, "node-1") < position(&sorted, "node-2"));
    assert!(position(&sorted, "node-2") < position(&sorted, "node-3"));
}

#[test]
fn test_workflow_topological_sort_cycle() {
    let mut workflow = chain(&["node-1", "node-2"]);
    workflow.add_edge(WorkflowEdge::new("node-1", "node-2")).unwrap();
    workflow.add_edge(WorkflowEdge::new("node-2", "node-1")).unwrap();
    assert!(matches!(workflow.topological_sort(), Err(GraphError::CycleDetected)));
}

#[test]
fn test_workflow_topological_sort_multiple_sources() {
    let mut workflow = chain(&["node-1", "node-2", "node-3"]);
    workflow.add_edge(WorkflowEdge::new("node-1", "node-3")).unwrap();
    workflow.add_edge(WorkflowEdge::new("node-2", "node-3")).unwrap();
    let sorted = workflow.topological_sort().unwrap();
    assert_eq!(sorted.len(), 3);
    assert!(position(&sorted, "node-1") < position(&sorted, "node-3"));
    assert!(position(&sorted, "node-2") < position(&sorted, "node-3"));
}

#[test]
fn test_workflow_builder_api() {
    let workflow = Workflow::new("Test")
        .with_node(node("node-1", "https://example.com/1"))
        .unwrap()
        .with_node(node("node-2", "https://example.com/2"))
        .unwrap()
        .with_edge(WorkflowEdge::new("node-1", "node-2"))
        .unwrap();
    assert_eq!(workflow.nodes.len(), 2);
    assert_eq!(workflow.edges.len(), 1);
}

#[test]
fn test_6_21_validate_dangling_source() {
    let mut workflow = chain(&["node-2"]);
    workflow.edges.push(WorkflowEdge::new("node-1", "node-2"));
    let result = workflow.validate();
    assert!(!result.is_valid());
    assert!(result.errors.iter().any(|e| matches!(e, ValidationError::DanglingEdgeSource(_))));
}

#[test]
fn test_6_21_validate_dangling_target() {
    let mut workflow = chain(&["node-1"]);
    workflow.edges.push(WorkflowEdge::new("node-1", "node-3"));
    let result = workflow.validate();
    assert!(!result.is_valid());
    assert!(result.errors.iter().any(|e| matches!(e, ValidationError::DanglingEdgeTarget(_))));
}

#[test]
fn test_6_21_valid_references_pass() {
    let mut workflow = chain(&["node-1", "node-2"]);
    workflow.add_edge(WorkflowEdge::new("node-1", "node-2")).unwrap();
    assert!(workflow.validate().is_valid());
}

#[test]
fn test_6_22_undefined_var_in_condition_warning() {
    let mut workflow = chain(&["node-1"]);
    workflow.edges.push(WorkflowEdge::new("node-1", "node-2").with_condition("has_var(undefined_var)"));
    let result = workflow.validate();
    assert!(result.warnings.iter().any(|e| matches!(e, ValidationError::UndefinedVariable(_))));
}

#[test]
fn test_6_22_defined_var_no_warning() {
    let mut workflow = chain(&["node-1"]);
    workflow.set_variable("my_var", s("test"));
    workflow.edges.push(WorkflowEdge::new("node-1", "node-2").with_condition("has_var(my_var)"));
    let result = workflow.validate();
    assert!(result.warnings.is_empty());
}

#[test]
fn test_6_23_cycle_detection() {
    let mut workflow = chain(&["node-1", "node-2"]);
    workflow.add_edge(WorkflowEdge::new("node-1", "node-2")).unwrap();
    workflow.add_edge(WorkflowEdge::new("node-2", "node-1")).unwrap();
    assert!(!workflow.validate().is_valid());
}

#[test]
fn test_6_23_no_cycle_valid() {
    let mut workflow = chain(&["node-1", "node-2", "node-3"]);
    workflow.add_edge(WorkflowEdge::new("node-1", "node-2")).unwrap();
    workflow.add_edge(WorkflowEdge::new("node-2", "node-3")).unwrap();
    assert!(workflow.validate().is_valid());
}

#[test]
fn test_6_24_node_id_mismatch() {
    let mut workflow = Workflow::new("Test");
    workflow.nodes.insert("different-key".to_string(), node("node-1", "https://example.com"));
    let result = workflow.validate();
    assert!(!result.is_valid());
    assert!(result.errors.iter().any(|e| matches!(e, ValidationError::DuplicateNodeId(_))));
}

#[test]
fn test_6_24_unique_ids_valid() {
    let workflow = chain(&["node-1", "node-2"]);
    assert!(workflow.validate().is_valid());
}

#[test]
fn test_6_25_condition_with_dollar_syntax_undefined_var() {
    let mut workflow = chain(&["node-1"]);
    workflow.edges.push(WorkflowEdge::new("node-1", "node-2").with_condition("${undefined_var} == 'test'"));
    let result = workflow.validate();
    assert!(result.warnings.iter().any(|e| matches!(e, ValidationError::UndefinedVariable(_))));
}

#[test]
fn test_6_25_condition_with_brace_syntax_undefined_var() {
    let mut workflow = chain(&["node-1"]);
    workflow.set_variable("my_var", s("test"));
    workflow.edges.push(WorkflowEdge::new("node-1", "node-2").with_condition("{{my_var}} == 'test'"));
    let result = workflow.validate();
    assert!(result.warnings.is_empty());
}

#[test]
fn test_6_26_empty_workflow_error() {
    let workflow = Workflow::new("Test");
    let result = workflow.validate();
    assert!(!result.is_valid());
    assert!(result.errors.iter().any(|e| matches!(e, ValidationError::EmptyWorkflow)));
}

#[test]
fn test_6_26_non_empty_workflow_valid() {
    let workflow = chain(&["node-1"]);
    assert!(workflow.validate().is_valid());
}

#[test]
fn test_6_27_invalid_request_in_node() {
    let mut workflow = Workflow::new("Test");
    let invalid_request = make_request("not-a-valid-url");
    match invalid_request.validate() {
        Ok(()) => {
            workflow.add_node(WorkflowNode::new(invalid_request).with_id("node-1")).unwrap();
            assert!(!workflow.validate().is_valid());
        }
        Err(_) => {
            let result = workflow.add_node(WorkflowNode::new(invalid_request).with_id("node-1"));
            assert!(result.is_err());
        }
    }
}

#[test]
fn test_6_27_valid_request_in_node() {
    let workflow = chain(&["node-1"]);
    assert!(workflow.validate().is_valid());
}

#[test]
fn invalid_url_is_refused_by_add_node() {
    let mut workflow = Workflow::new("Test");
    let result = workflow.add_node(node("n", "ftp://example.com"));
    match result {
        Err(GraphError::RequestError(e)) => assert_eq!(e.message(), "Invalid URL: ftp://example.com"),
        _ => panic!("expected an invalid URL"),
    }
}

#[test]
fn invalid_request_in_a_node_is_reported_by_validate() {
    let mut workflow = Workflow::new("Test");
    workflow.nodes.insert("n".to_string(), node("n", "nope"));
    let result = workflow.validate();
    assert!(result.errors.iter().any(|e| matches!(e, ValidationError::InvalidRequest(_, _))));
}

#[test]
fn from_requests_numbers_the_nodes() {
    let workflow = Workflow::from_requests(
        vec![make_request("https://a.example"), make_request("bad"), make_request("http://c.example")],
        "Imported",
    );
    assert_eq!(workflow.name, "Imported");
    assert_eq!(workflow.nodes.len(), 2);
    assert!(workflow.nodes.contains_key("node_0"));
    assert!(!workflow.nodes.contains_key("node_1"));
    assert!(workflow.nodes.contains_key("node_2"));
}

#[test]
fn graph_error_messages() {
    assert_eq!(GraphError::CycleDetected.message(), "Cycle detected in workflow graph");
    assert_eq!(GraphError::EdgeAlreadyExists("a".into(), "b".into()).message(), "Edge from a to b already exists");
}

#[test]
fn validation_results_merge() {
    let mut a = ValidationResult::new();
    a.add_warning(ValidationError::EmptyWorkflow);
    let mut b = ValidationResult::new();
    b.add_error(ValidationError::DuplicateNodeId("x".to_string()));
    a.merge(b);
    assert!(!a.is_valid());
    assert_eq!(a.errors.len(), 1);
    assert_eq!(a.warnings.len(), 1);
}

#[test]
fn topological_order_includes_dangling_targets() {
    let mut workflow = chain(&["a"]);
    workflow.edges.push(WorkflowEdge::new("a", "ghost"));
    // the dangling target would make the order longer than the nodes
    assert!(matches!(workflow.topological_sort(), Err(GraphError::CycleDetected)));
}
