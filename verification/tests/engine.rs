use yinx::engine::{validate_retry_config, ErrorStrategy, ExecutionError, NodeExecutionResult, WorkflowExecutor, WorkflowState};
use yinx::graph::{ValidationError, Workflow, WorkflowEdge, WorkflowNode};
use yinx::json::JsonValue;
use yinx::request::{Method, Request};
use yinx::runs::{AttemptStep, BatchStep, NodeAttempts, ParallelRun, ResponseAction, RunStep, SequentialRun};
use yinx::strmap::StrMap;
use yinx::variables::{VariableScope, VariableStore};

fn result_for(id: &str, error: Option<&str>) -> NodeExecutionResult {
    NodeExecutionResult {
        node_id: id.to_string(),
        status: Some(200),
        error: error.map(|e| e.to_string()),
        extracted_variables: StrMap::new(),
    }
}

fn executor_with(key: &str, value: JsonValue) -> WorkflowExecutor {
    let mut variables = VariableStore::new();
    variables.set(key, value, VariableScope::Local);
    WorkflowExecutor::new().with_variables(variables)
}

fn condition(executor: &WorkflowExecutor, c: &str) -> Result<bool, ExecutionError> {
    let edge = WorkflowEdge::new("node-1", "node-2").with_condition(c);
    executor.evaluate_edge_condition(&edge, &result_for("node-1", None))
}

fn workflow(ids: &[&str], edges: &[(&str, &str)]) -> Workflow {
    let mut w = Workflow::new("Test");
    for id in ids {
        w.add_node(WorkflowNode::new(Request::new(Method::Get, "https://example.com")).with_id(id)).unwrap();
    }
    for (a, b) in edges {
        w.add_edge(WorkflowEdge::new(a, b)).unwrap();
    }
    w
}

#[test]
fn test_6_28_retry_config_zero_max_attempts() {
    let r = validate_retry_config(0, 100, 2.0 > 0.0);
    assert!(r.is_err());
    if let Err(ValidationError::InvalidRetryConfig(msg)) = r {
        assert!(msg.contains("max_attempts"));
    } else {
        panic!("Expected InvalidRetryConfig error");
    }
}

#[test]
fn test_6_28_retry_config_zero_base_delay() {
    let r = validate_retry_config(3, 0, 2.0 > 0.0);
    assert!(r.is_err());
    if let Err(ValidationError::InvalidRetryConfig(msg)) = r {
        assert!(msg.contains("base_delay_ms"));
    } else {
        panic!("Expected InvalidRetryConfig error");
    }
}

#[test]
fn test_6_28_retry_config_zero_backoff() {
    let multiplier: f64 = 0.0;
    let r = validate_retry_config(3, 100, !(multiplier <= 0.0));
    assert!(r.is_err());
    if let Err(ValidationError::InvalidRetryConfig(msg)) = r {
        assert!(msg.contains("backoff_multiplier"));
    } else {
        panic!("Expected InvalidRetryConfig error");
    }
}

#[test]
fn test_6_28_valid_retry_config() {
    assert!(validate_retry_config(3, 1000, true).is_ok());
}

#[test]
fn test_6_14_edge_condition_evaluation_true() {
    let executor = executor_with("status_code", JsonValue::from_u64(200));
    assert!(condition(&executor, "status == 200").unwrap());
}

#[test]
fn test_6_14_edge_condition_evaluation_false() {
    let executor = executor_with("status_code", JsonValue::from_u64(200));
    assert!(!condition(&executor, "status == 404").unwrap());
}

#[test]
fn test_6_14_edge_condition_no_condition_always_true() {
    let executor = WorkflowExecutor::new();
    let edge = WorkflowEdge::new("node-1", "node-2");
    assert!(executor.evaluate_edge_condition(&edge, &result_for("node-1", None)).unwrap());
}

#[test]
fn test_6_14_edge_condition_has_var() {
    let executor = executor_with("my_var", JsonValue::Str("exists".to_string()));
    assert!(condition(&executor, "has_var(my_var)").unwrap());
}

#[test]
fn status_comparisons() {
    let executor = executor_with("status_code", JsonValue::from_u64(404));
    assert!(condition(&executor, "status != 200").unwrap());
    assert!(condition(&executor, "status >= 400").unwrap());
    assert!(!condition(&executor, "status < 400").unwrap());
    assert!(condition(&executor, "status <  500").unwrap());
    assert!(condition(&executor, "status == +404").unwrap());
}

#[test]
fn status_code_is_taken_modulo_two_to_the_sixteen() {
    let executor = executor_with("status_code", JsonValue::from_u64(65536 + 200));
    assert!(condition(&executor, "status == 200").unwrap());
}

#[test]
fn status_without_a_stored_code_is_false() {
    let executor = WorkflowExecutor::new();
    assert!(!condition(&executor, "status == 200").unwrap());
    let executor = executor_with("status_code", JsonValue::Str("200".to_string()));
    assert!(!condition(&executor, "status == 200").unwrap());
}

#[test]
fn invalid_status_number_is_an_error() {
    let executor = WorkflowExecutor::new();
    match condition(&executor, "status == abc") {
        Err(ExecutionError::ConditionEvaluationFailed(m)) => {
            assert_eq!(m, "Invalid status code in condition: status == abc")
        }
        _ => panic!("expected an error"),
    }
    assert!(condition(&executor, "status == 70000").is_err());
    assert!(condition(&executor, "status == -1").is_err());
}

#[test]
fn literal_conditions_and_equality() {
    let executor = executor_with("name", JsonValue::Str("bob".to_string()));
    assert!(condition(&executor, "true").unwrap());
    assert!(!condition(&executor, "false").unwrap());
    assert!(condition(&executor, "name == \"bob\"").unwrap());
    assert!(condition(&executor, " name == bob ").unwrap());
    assert!(!condition(&executor, "name == alice").unwrap());
    assert!(!condition(&executor, "other == bob").unwrap());
}

#[test]
fn unsupported_conditions_are_errors() {
    let executor = WorkflowExecutor::new();
    match condition(&executor, "a == b == c") {
        Err(e) => assert_eq!(e.message(), "Condition evaluation failed: Unsupported condition: a == b == c"),
        Ok(_) => panic!("expected an error"),
    }
    assert!(condition(&executor, "whatever").is_err());
}

#[test]
fn has_var_trims_the_name() {
    let executor = executor_with("x", JsonValue::Null);
    assert!(condition(&executor, "has_var( x )").unwrap());
    assert!(!condition(&executor, "has_var(y)").unwrap());
}

#[test]
fn test_6_15_sequential_workflow_executor() {
    let w = workflow(&["node-1", "node-2"], &[("node-1", "node-2")]);
    let mut run = SequentialRun::start(&w).ok().unwrap();
    let mut order = Vec::new();
    loop {
        match run.next_step(false, &w).ok().unwrap() {
            RunStep::Execute(id) => {
                order.push(id.clone());
                run.record(result_for(&id, None), ErrorStrategy::Stop);
            }
            RunStep::Finished => break,
        }
    }
    let result = run.into_result();
    assert_eq!(result.state, WorkflowState::Done);
    assert_eq!(result.node_results.len(), 2);
    assert_eq!(order, vec!["node-1".to_string(), "node-2".to_string()]);
}

#[test]
fn test_6_17_error_handling_stop() {
    let w = workflow(&["node-1", "node-2"], &[("node-1", "node-2")]);
    let mut run = SequentialRun::start(&w).ok().unwrap();
    match run.next_step(false, &w).ok().unwrap() {
        RunStep::Execute(id) => run.record(result_for(&id, Some("connection refused")), ErrorStrategy::Stop),
        RunStep::Finished => panic!("expected a node"),
    }
    assert!(matches!(run.next_step(false, &w).ok().unwrap(), RunStep::Finished));
    let result = run.into_result();
    assert_eq!(result.state, WorkflowState::Failed);
    assert_eq!(result.error, Some("Node 'node-1' failed: connection refused".to_string()));
    assert_eq!(result.node_results.len(), 1);
}

#[test]
fn continue_strategy_runs_every_node() {
    let w = workflow(&["a", "b"], &[]);
    let mut run = SequentialRun::start(&w).ok().unwrap();
    while let RunStep::Execute(id) = run.next_step(false, &w).ok().unwrap() {
        run.record(result_for(&id, Some("boom")), ErrorStrategy::Continue);
    }
    let result = run.into_result();
    assert_eq!(result.state, WorkflowState::Done);
    assert_eq!(result.node_results.len(), 2);
}

#[test]
fn test_6_20_workflow_cancellation() {
    let w = workflow(&["node-1"], &[]);
    let mut run = SequentialRun::start(&w).ok().unwrap();
    assert!(matches!(run.next_step(true, &w).ok().unwrap(), RunStep::Finished));
    let result = run.into_result();
    assert_eq!(result.state, WorkflowState::Cancelled);
    assert_eq!(result.error, Some("Workflow was cancelled".to_string()));
}

#[test]
fn cancelled_node_cancels_the_run() {
    let w = workflow(&["node-1", "node-2"], &[]);
    let mut run = SequentialRun::start(&w).ok().unwrap();
    if let RunStep::Execute(id) = run.next_step(false, &w).ok().unwrap() {
        run.record(result_for(&id, Some("Cancelled")), ErrorStrategy::Continue);
    }
    assert_eq!(run.result.state, WorkflowState::Cancelled);
}

#[test]
fn a_cycle_stops_a_run_before_it_starts() {
    let w = workflow(&["a", "b"], &[("a", "b"), ("b", "a")]);
    assert!(matches!(SequentialRun::start(&w), Err(ExecutionError::Graph(_))));
    assert!(matches!(ParallelRun::start(&w), Err(ExecutionError::Graph(_))));
}

#[test]
fn test_6_16_parallel_execution() {
    let w = workflow(&["node-1", "node-2", "node-3"], &[("node-1", "node-3"), ("node-2", "node-3")]);
    let mut run = ParallelRun::start(&w).ok().unwrap();
    let mut rounds = Vec::new();
    loop {
        match run.next_batch(false, &w).ok().unwrap() {
            BatchStep::Execute(ids) => {
                let mut round = ids.clone();
                round.sort();
                rounds.push(round);
                for id in ids {
                    run.record(&id, Ok(result_for(&id, None)), ErrorStrategy::Stop);
                }
            }
            BatchStep::Finished => break,
        }
    }
    let result = run.into_result();
    assert_eq!(result.state, WorkflowState::Done);
    assert_eq!(result.node_results.len(), 3);
    assert_eq!(rounds, vec![vec!["node-1".to_string(), "node-2".to_string()], vec!["node-3".to_string()]]);
}

#[test]
fn join_error_fails_a_parallel_run() {
    let w = workflow(&["a"], &[]);
    let mut run = ParallelRun::start(&w).ok().unwrap();
    if let BatchStep::Execute(ids) = run.next_batch(false, &w).ok().unwrap() {
        run.record(&ids[0], Err("panicked".to_string()), ErrorStrategy::Stop);
    }
    let result = run.into_result();
    assert_eq!(result.state, WorkflowState::Failed);
    assert_eq!(result.error, Some("Task join error: panicked".to_string()));
}

#[test]
fn test_6_18_retry_logic_with_backoff() {
    let mut attempts = NodeAttempts::new(3, ErrorStrategy::Retry);
    let mut sends = 0;
    let last = loop {
        match attempts.next(false) {
            AttemptStep::Send(_) => {
                sends += 1;
                match attempts.on_response(true, "500") {
                    ResponseAction::Retry => {}
                    ResponseAction::Finish(e) => break e,
                }
            }
            AttemptStep::Finished(e) => break e,
        }
    };
    assert_eq!(sends, 3);
    assert_eq!(last, Some("HTTP error: 500".to_string()));
}

#[test]
fn failure_without_retry_stops_at_once() {
    let mut attempts = NodeAttempts::new(3, ErrorStrategy::Stop);
    assert!(matches!(attempts.next(false), AttemptStep::Send(0)));
    attempts.on_failure("refused".to_string());
    match attempts.next(false) {
        AttemptStep::Finished(e) => assert_eq!(e, Some("refused".to_string())),
        _ => panic!("expected the end"),
    }
}

#[test]
fn cancelled_attempts_report_cancelled() {
    let attempts = NodeAttempts::new(3, ErrorStrategy::Retry);
    match attempts.next(true) {
        AttemptStep::Finished(e) => assert_eq!(e, Some("Cancelled".to_string())),
        _ => panic!("expected the end"),
    }
}

#[test]
fn success_finishes_without_error() {
    let mut attempts = NodeAttempts::new(2, ErrorStrategy::Retry);
    assert!(matches!(attempts.next(false), AttemptStep::Send(0)));
    assert!(matches!(attempts.on_response(false, "200"), ResponseAction::Finish(None)));
}

#[test]
fn executor_cancel_sets_the_flag() {
    let mut executor = WorkflowExecutor::new();
    assert!(!executor.is_cancelled());
    executor.cancel();
    assert!(executor.is_cancelled());
}
