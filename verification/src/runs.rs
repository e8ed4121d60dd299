use vstd::prelude::*;

use crate::engine::{ErrorStrategy, ExecutionError, NodeExecutionResult, WorkflowState};
use crate::graph::{GraphError, Workflow, names_view};
use crate::matching::opt_view;
use crate::strmap::StrMap;
use crate::text::{copy_str, push_str, str_eq};

verus! {

/// What a run of a workflow gave: how it ended, the result of each node
/// that ran, and the reason when it did not finish.
pub struct WorkflowExecutionResult {
    pub state: WorkflowState,
    pub node_results: StrMap<NodeExecutionResult>,
    pub error: Option<String>,
}

/// The text a run records when it was cancelled.
pub open spec fn cancelled_text() -> Seq<char> {
    "Workflow was cancelled"@
}

/// The text a run records when node `id` failed with `e`.
pub open spec fn failure_text(id: Seq<char>, e: Seq<char>) -> Seq<char> {
    "Node '"@ + id + "' failed: "@ + e
}

/// `Some(text)` as a string.
fn some_text(prefix: &str, a: &str, middle: &str, b: &str) -> (r: Option<String>)
    ensures
        r matches Some(t) && t@ == prefix@ + a@ + middle@ + b@,
{
    let mut t = String::new();
    push_str(&mut t, prefix);
    push_str(&mut t, a);
    push_str(&mut t, middle);
    push_str(&mut t, b);
    Some(t)
}

impl WorkflowExecutionResult {
    /// A result for a run that has just started.
    pub fn running() -> (r: Self)
        ensures
            r.state == WorkflowState::Running,
            r.node_results@ == Map::<Seq<char>, NodeExecutionResult>::empty(),
            r.error is None,
    {
        let node_results = StrMap::new();
        proof { assert(node_results@ =~= Map::<Seq<char>, NodeExecutionResult>::empty()); }
        WorkflowExecutionResult { state: WorkflowState::Running, node_results, error: None }
    }
}

/// What the driver of a sequential run does next.
pub enum RunStep {
    /// Run the node with this id and record its result.
    Execute(String),
    /// The run is over.
    Finished,
}

/// A run of a workflow that executes one node at a time in topological
/// order. The driver asks `next_step`, executes the node it names and
/// hands the node's result to `record`.
pub struct SequentialRun {
    pub order: Vec<String>,
    pub position: usize,
    pub result: WorkflowExecutionResult,
}

impl SequentialRun {
    /// The run has results exactly for the nodes before its position, and
    /// it is done only once every node of the order ran.
    pub open spec fn wf(&self) -> bool {
        &&& self.position <= self.order@.len()
        &&& self.result.node_results@.dom() == names_view(self.order@).take(self.position as int).to_set()
        &&& self.result.state == WorkflowState::Done ==> self.position == self.order@.len()
    }

    /// Starts a run over the nodes of `workflow` in topological order;
    /// refused when the graph has a cycle.
    pub fn start(workflow: &Workflow) -> (r: Result<Self, ExecutionError>)
        ensures
            r is Err ==> r matches Err(ExecutionError::Graph(GraphError::CycleDetected)),
            workflow.cycle_reachable() ==> r is Err,
            !workflow.cycle_reachable() && workflow.edges_internal() ==> r is Ok,
            r matches Ok(run) ==> {
                &&& run.wf()
                &&& workflow.sorted_order(run.order@)
                &&& run.position == 0
                &&& run.result.state == WorkflowState::Running
                &&& run.result.node_results@ == Map::<Seq<char>, NodeExecutionResult>::empty()
                &&& run.result.error is None
            },
    {
        match workflow.topological_sort() {
            Ok(order) => {
                let run = SequentialRun { order, position: 0, result: WorkflowExecutionResult::running() };
                proof {
                    assert(names_view(run.order@).take(0).to_set() =~= Set::<Seq<char>>::empty());
                    assert(run.result.node_results@.dom() =~= Set::<Seq<char>>::empty());
                }
                Ok(run)
            },
            Err(e) => Err(ExecutionError::Graph(e)),
        }
    }

    /// The next thing to do: nothing once the run has ended; otherwise the
    /// run is done when every node ran, cancelled when asked to stop, and
    /// else the next node in order runs (an error when it is no node of
    /// `workflow`).
    pub fn next_step(&mut self, cancelled: bool, workflow: &Workflow) -> (r: Result<RunStep, ExecutionError>)
        requires
            old(self).wf(),
        ensures
            final(self).wf(),
            final(self).order == old(self).order,
            final(self).position == old(self).position,
            final(self).result.node_results == old(self).result.node_results,
            old(self).result.state != WorkflowState::Running ==> (r matches Ok(RunStep::Finished)) && final(self).result == old(self).result,
            old(self).result.state == WorkflowState::Running && old(self).position == old(self).order@.len() ==> (
            r matches Ok(RunStep::Finished)) && final(self).result.state == WorkflowState::Done && final(self).result.error == old(self).result.error,
            old(self).result.state == WorkflowState::Running && old(self).position < old(self).order@.len() && cancelled
                ==> (r matches Ok(RunStep::Finished)) && final(self).result.state == WorkflowState::Cancelled
                && opt_view(final(self).result.error) == Some(cancelled_text()),
            old(self).result.state == WorkflowState::Running && old(self).position < old(self).order@.len() && !cancelled
                ==> final(self).result == old(self).result && if workflow.nodes@.contains_key(
                old(self).order@[old(self).position as int]@,
            ) {
                r matches Ok(RunStep::Execute(id)) && id@ == old(self).order@[old(self).position as int]@
            } else {
                r matches Err(ExecutionError::NodeNotFound(id)) && id@ == old(self).order@[old(self).position as int]@
            },
    {
        if self.result.state != WorkflowState::Running {
            return Ok(RunStep::Finished);
        }
        if self.position >= self.order.len() {
            self.result.state = WorkflowState::Done;
            return Ok(RunStep::Finished);
        }
        if cancelled {
            self.result.state = WorkflowState::Cancelled;
            self.result.error = Some(copy_str("Workflow was cancelled"));
            return Ok(RunStep::Finished);
        }
        let id = self.order[self.position].clone();
        if workflow.nodes.contains_key(id.as_str()) {
            Ok(RunStep::Execute(id))
        } else {
            Err(ExecutionError::NodeNotFound(id))
        }
    }

    /// Records the result of the node that `next_step` named: the node's
    /// result is kept under its id; a node cancelled ends the run as
    /// cancelled, and a failed node ends it as failed under the `Stop`
    /// strategy.
    pub fn record(&mut self, node_result: NodeExecutionResult, strategy: ErrorStrategy)
        requires
            old(self).wf(),
            old(self).position < old(self).order@.len(),
            old(self).result.state == WorkflowState::Running,
        ensures
            final(self).wf(),
            final(self).order == old(self).order,
            final(self).position == old(self).position + 1,
            final(self).result.node_results@ == old(self).result.node_results@.insert(
                old(self).order@[old(self).position as int]@,
                node_result,
            ),
            match opt_view(node_result.error) {
                Some(e) => if e == "Cancelled"@ {
                    final(self).result.state == WorkflowState::Cancelled && opt_view(final(self).result.error) == Some(
                        cancelled_text(),
                    )
                } else if strategy == ErrorStrategy::Stop {
                    final(self).result.state == WorkflowState::Failed && opt_view(final(self).result.error) == Some(
                        failure_text(old(self).order@[old(self).position as int]@, e),
                    )
                } else {
                    final(self).result.state == WorkflowState::Running && final(self).result.error == old(self).result.error
                },
                None => final(self).result.state == WorkflowState::Running && final(self).result.error == old(self).result.error,
            },
    {
        let id = self.order[self.position].clone();
        let n = self.order.len();
        match &node_result.error {
            Some(e) => {
                if str_eq(e.as_str(), "Cancelled") {
                    self.result.state = WorkflowState::Cancelled;
                    self.result.error = Some(copy_str("Workflow was cancelled"));
                } else if strategy == ErrorStrategy::Stop {
                    self.result.state = WorkflowState::Failed;
                    self.result.error = some_text("Node '", id.as_str(), "' failed: ", e.as_str());
                }
            },
            None => {},
        }
        let ghost before = self.result.node_results@;
        let ghost pos = self.position as int;
        self.result.node_results.insert(id, node_result);
        self.position = self.position + 1;
        proof {
            let nv = names_view(self.order@);
            let a_seq = nv.take(pos + 1);
            let b_seq = nv.take(pos);
            assert forall|a: Seq<char>| a_seq.to_set().contains(a) <==> b_seq.to_set().insert(nv[pos]).contains(a) by {
                if a_seq.contains(a) {
                    let i = choose|i: int| 0 <= i < a_seq.len() && a_seq[i] == a;
                    if i < pos {
                        assert(b_seq[i] == a);
                    }
                }
                if b_seq.contains(a) {
                    let i = choose|i: int| 0 <= i < b_seq.len() && b_seq[i] == a;
                    assert(a_seq[i] == a);
                }
                if a == nv[pos] {
                    assert(a_seq[pos] == a);
                }
            }
            assert(a_seq.to_set() =~= b_seq.to_set().insert(nv[pos]));
            assert(self.result.node_results@.dom() =~= before.dom().insert(nv[pos]));
        }
    }

    /// What the run gave.
    pub fn into_result(self) -> (r: WorkflowExecutionResult)
        ensures
            r == self.result,
    {
        self.result
    }
}

/// Whether node `n` may run: it has not run, and every edge into it comes
/// from a node that has.
pub open spec fn node_ready(workflow: &Workflow, done: Set<Seq<char>>, n: Seq<char>) -> bool {
    &&& !done.contains(n)
    &&& forall|j: int| 0 <= j < workflow.edges@.len() && #[trigger] workflow.pairs()[j].1 == n ==> done.contains(
        workflow.pairs()[j].0,
    )
}

/// The names of `names` that may run, in order.
pub open spec fn ready_names(names: Seq<Seq<char>>, workflow: &Workflow, done: Set<Seq<char>>) -> Seq<Seq<char>>
    decreases names.len(),
{
    if names.len() == 0 {
        Seq::empty()
    } else {
        let rest = ready_names(names.drop_last(), workflow, done);
        if node_ready(workflow, done, names.last()) {
            rest.push(names.last())
        } else {
            rest
        }
    }
}

/// Whether node `n` may run.
fn is_ready(workflow: &Workflow, completed: &StrMap<()>, n: &str) -> (r: bool)
    ensures
        r == node_ready(workflow, completed@.dom(), n@),
{
    if completed.contains_key(n) {
        return false;
    }
    let mut j: usize = 0;
    while j < workflow.edges.len()
        invariant
            j <= workflow.edges@.len(),
            !completed@.contains_key(n@),
            forall|q: int| 0 <= q < j && #[trigger] workflow.pairs()[q].1 == n@ ==> completed@.dom().contains(
                workflow.pairs()[q].0,
            ),
        decreases workflow.edges@.len() - j,
    {
        let e = &workflow.edges[j];
        proof { assert(workflow.pairs()[j as int] == (e.from@, e.to@)); }
        if str_eq(e.to.as_str(), n) && !completed.contains_key(e.from.as_str()) {
            proof {
                assert(workflow.pairs()[j as int].1 == n@ && !completed@.dom().contains(workflow.pairs()[j as int].0));
            }
            return false;
        }
        j += 1;
    }
    true
}

/// The nodes of `order` that may run, in order.
pub fn ready_nodes(order: &Vec<String>, workflow: &Workflow, completed: &StrMap<()>) -> (r: Vec<String>)
    ensures
        names_view(r@) == ready_names(names_view(order@), workflow, completed@.dom()),
{
    let mut out: Vec<String> = Vec::new();
    let mut i: usize = 0;
    while i < order.len()
        invariant
            i <= order@.len(),
            names_view(out@) == ready_names(names_view(order@).take(i as int), workflow, completed@.dom()),
        decreases order@.len() - i,
    {
        let ghost before = out@;
        proof {
            assert(names_view(order@).take(i + 1).drop_last() =~= names_view(order@).take(i as int));
            assert(names_view(order@).take(i + 1).last() == order@[i as int]@);
        }
        if is_ready(workflow, completed, order[i].as_str()) {
            out.push(order[i].clone());
            proof { assert(names_view(out@) =~= names_view(before).push(order@[i as int]@)); }
        }
        i += 1;
    }
    proof { assert(names_view(order@).take(order@.len() as int) =~= names_view(order@)); }
    out
}

/// What the driver of a parallel run does next.
pub enum BatchStep {
    /// Run these nodes side by side and record each result.
    Execute(Vec<String>),
    /// The run is over.
    Finished,
}

/// A run of a workflow that executes, in rounds, every node whose
/// predecessors have all completed.
pub struct ParallelRun {
    pub order: Vec<String>,
    pub completed: StrMap<()>,
    pub result: WorkflowExecutionResult,
}

/// The first name of `names` that is no node of `workflow`, if any.
pub open spec fn first_missing(names: Seq<Seq<char>>, workflow: &Workflow) -> int
    decreases names.len(),
{
    if names.len() == 0 {
        -1
    } else if !workflow.nodes@.contains_key(names[0]) {
        0
    } else {
        let r = first_missing(names.drop_first(), workflow);
        if r < 0 { -1 } else { r + 1 }
    }
}

proof fn lemma_first_missing_is_first(names: Seq<Seq<char>>, workflow: &Workflow, i: int)
    requires
        0 <= i < names.len(),
        !workflow.nodes@.contains_key(names[i]),
        forall|q: int| 0 <= q < i ==> workflow.nodes@.contains_key(#[trigger] names[q]),
    ensures
        first_missing(names, workflow) == i,
    decreases names.len(),
{
    if i > 0 {
        assert(workflow.nodes@.contains_key(names[0]));
        assert forall|q: int| 0 <= q < i - 1 implies workflow.nodes@.contains_key(#[trigger] names.drop_first()[q]) by {
            assert(names.drop_first()[q] == names[q + 1]);
        }
        lemma_first_missing_is_first(names.drop_first(), workflow, i - 1);
    }
}

proof fn lemma_first_missing_none(names: Seq<Seq<char>>, workflow: &Workflow)
    requires
        forall|q: int| 0 <= q < names.len() ==> workflow.nodes@.contains_key(#[trigger] names[q]),
    ensures
        first_missing(names, workflow) == -1,
    decreases names.len(),
{
    if names.len() > 0 {
        assert(workflow.nodes@.contains_key(names[0]));
        assert forall|q: int| 0 <= q < names.len() - 1 implies workflow.nodes@.contains_key(#[trigger] names.drop_first()[q]) by {
            assert(names.drop_first()[q] == names[q + 1]);
        }
        lemma_first_missing_none(names.drop_first(), workflow);
    }
}

/// The position of the first name of `names` that is no node of
/// `workflow`.
fn find_missing(names: &Vec<String>, workflow: &Workflow) -> (r: Option<usize>)
    ensures
        match r {
            Some(i) => i < names@.len() && i as int == first_missing(names_view(names@), workflow),
            None => first_missing(names_view(names@), workflow) == -1,
        },
{
    let ghost rv = names_view(names@);
    let mut i: usize = 0;
    while i < names.len()
        invariant
            i <= names@.len(),
            rv == names_view(names@),
            forall|q: int| 0 <= q < i ==> workflow.nodes@.contains_key(#[trigger] rv[q]),
        decreases names@.len() - i,
    {
        if !workflow.nodes.contains_key(names[i].as_str()) {
            proof { lemma_first_missing_is_first(rv, workflow, i as int); }
            return Some(i);
        }
        i += 1;
    }
    proof { lemma_first_missing_none(rv, workflow); }
    None
}

impl ParallelRun {
    /// Starts a run over the nodes of `workflow`; refused when the graph
    /// has a cycle.
    pub fn start(workflow: &Workflow) -> (r: Result<Self, ExecutionError>)
        ensures
            r is Err ==> r matches Err(ExecutionError::Graph(GraphError::CycleDetected)),
            workflow.cycle_reachable() ==> r is Err,
            !workflow.cycle_reachable() && workflow.edges_internal() ==> r is Ok,
            r matches Ok(run) ==> {
                &&& workflow.sorted_order(run.order@)
                &&& run.completed@.dom() == Set::<Seq<char>>::empty()
                &&& run.result.state == WorkflowState::Running
                &&& run.result.node_results@ == Map::<Seq<char>, NodeExecutionResult>::empty()
                &&& run.result.error is None
            },
    {
        match workflow.topological_sort() {
            Ok(order) => {
                let completed = StrMap::new();
                proof { assert(completed@.dom() =~= Set::<Seq<char>>::empty()); }
                Ok(ParallelRun { order, completed, result: WorkflowExecutionResult::running() })
            },
            Err(e) => Err(ExecutionError::Graph(e)),
        }
    }

    /// The next round: nothing once the run has ended; done when as many
    /// nodes completed as there are in the order or when none is ready;
    /// cancelled when asked to stop; otherwise the ready nodes, an error
    /// naming the first of them that is no node of `workflow`.
    pub fn next_batch(&mut self, cancelled: bool, workflow: &Workflow) -> (r: Result<BatchStep, ExecutionError>)
        ensures
            final(self).order == old(self).order,
            final(self).completed == old(self).completed,
            final(self).result.node_results == old(self).result.node_results,
            old(self).result.state != WorkflowState::Running ==> (r matches Ok(BatchStep::Finished)) && final(self).result
                == old(self).result,
            old(self).result.state == WorkflowState::Running && old(self).completed@.dom().len() >= old(self).order@.len()
                ==> (r matches Ok(BatchStep::Finished)) && final(self).result.state == WorkflowState::Done
                && final(self).result.error == old(self).result.error,
            old(self).result.state == WorkflowState::Running && old(self).completed@.dom().len() < old(self).order@.len()
                && cancelled ==> (r matches Ok(BatchStep::Finished)) && final(self).result.state
                == WorkflowState::Cancelled && opt_view(final(self).result.error) == Some(cancelled_text()),
            old(self).result.state == WorkflowState::Running && old(self).completed@.dom().len() < old(self).order@.len()
                && !cancelled ==> {
                let ready = ready_names(names_view(old(self).order@), workflow, old(self).completed@.dom());
                if ready.len() == 0 {
                    (r matches Ok(BatchStep::Finished)) && final(self).result.state == WorkflowState::Done
                        && final(self).result.error == old(self).result.error
                } else if first_missing(ready, workflow) >= 0 {
                    (r matches Err(ExecutionError::NodeNotFound(id)) && id@ == ready[first_missing(ready, workflow)])
                        && final(self).result == old(self).result
                } else {
                    (r matches Ok(BatchStep::Execute(ids)) && names_view(ids@) == ready) && final(self).result == old(self).result
                }
            },
    {
        if self.result.state != WorkflowState::Running {
            return Ok(BatchStep::Finished);
        }
        if self.completed.len() >= self.order.len() {
            self.result.state = WorkflowState::Done;
            return Ok(BatchStep::Finished);
        }
        if cancelled {
            self.result.state = WorkflowState::Cancelled;
            self.result.error = Some(copy_str("Workflow was cancelled"));
            return Ok(BatchStep::Finished);
        }
        let ready = ready_nodes(&self.order, workflow, &self.completed);
        if ready.len() == 0 {
            self.result.state = WorkflowState::Done;
            return Ok(BatchStep::Finished);
        }
        match find_missing(&ready, workflow) {
            Some(i) => Err(ExecutionError::NodeNotFound(ready[i].clone())),
            None => Ok(BatchStep::Execute(ready)),
        }
    }

    /// Records the outcome of one node of a round: a failed node under the
    /// `Stop` strategy ends the run as failed; otherwise the result is kept
    /// and the node counts as completed. A task that could not be joined
    /// (`Err` with its text) ends the run as failed.
    pub fn record(&mut self, node_id: &str, outcome: Result<NodeExecutionResult, String>, strategy: ErrorStrategy)
        requires
            old(self).result.state == WorkflowState::Running,
        ensures
            final(self).order == old(self).order,
            match outcome {
                Ok(res) => if res.error is Some && strategy == ErrorStrategy::Stop {
                    &&& final(self).result.state == WorkflowState::Failed
                    &&& opt_view(final(self).result.error) == Some(failure_text(node_id@, res.error->0@))
                    &&& final(self).result.node_results@ == old(self).result.node_results@.insert(node_id@, res)
                    &&& final(self).completed == old(self).completed
                } else {
                    &&& final(self).result.state == WorkflowState::Running
                    &&& final(self).result.error == old(self).result.error
                    &&& final(self).result.node_results@ == old(self).result.node_results@.insert(node_id@, res)
                    &&& final(self).completed@ == old(self).completed@.insert(node_id@, ())
                },
                Err(e) => {
                    &&& final(self).result.state == WorkflowState::Failed
                    &&& opt_view(final(self).result.error) == Some("Task join error: "@ + e@)
                    &&& final(self).result.node_results == old(self).result.node_results
                    &&& final(self).completed == old(self).completed
                },
            },
    {
        match outcome {
            Ok(res) => {
                let stop = match &res.error {
                    Some(e) => {
                        if strategy == ErrorStrategy::Stop {
                            self.result.state = WorkflowState::Failed;
                            self.result.error = some_text("Node '", node_id, "' failed: ", e.as_str());
                            true
                        } else {
                            false
                        }
                    },
                    None => false,
                };
                self.result.node_results.insert(copy_str(node_id), res);
                if !stop {
                    self.completed.insert(copy_str(node_id), ());
                }
            },
            Err(e) => {
                self.result.state = WorkflowState::Failed;
                self.result.error = some_text("Task join error: ", e.as_str(), "", "");
                proof { assert("Task join error: "@ + e@ + ""@ + ""@ =~= "Task join error: "@ + e@) by { reveal_strlit(""); } }
            },
        }
    }

    /// What the run gave.
    pub fn into_result(self) -> (r: WorkflowExecutionResult)
        ensures
            r == self.result,
    {
        self.result
    }
}

/// What the driver of one node's attempts does next.
pub enum AttemptStep {
    /// Send the request; `attempt` counts from 0, and every attempt after
    /// the first waits its backoff delay first.
    Send(u32),
    /// No more attempts: the node ends with this error (none when it
    /// succeeded).
    Finished(Option<String>),
}

/// What the driver does with a response.
pub enum ResponseAction {
    /// Try again.
    Retry,
    /// Read the variables of the response and end the node with this error.
    Finish(Option<String>),
}

/// The attempts at running one node: up to `max_attempts` sends, retried
/// under the `Retry` strategy after an error status or a failed send.
pub struct NodeAttempts {
    pub attempt: u32,
    pub max_attempts: u32,
    pub strategy: ErrorStrategy,
    pub last_error: Option<String>,
    pub stopped: bool,
}

impl NodeAttempts {
    /// No more attempts were made than allowed.
    pub open spec fn wf(&self) -> bool {
        self.attempt <= self.max_attempts
    }

    pub fn new(max_attempts: u32, strategy: ErrorStrategy) -> (r: Self)
        ensures
            r.wf(),
            r.attempt == 0,
            r.max_attempts == max_attempts,
            r.strategy == strategy,
            r.last_error is None,
            !r.stopped,
    {
        NodeAttempts { attempt: 0, max_attempts, strategy, last_error: None, stopped: false }
    }

    /// The next step: the last error once the attempts are used up or a
    /// failure stopped them; `Cancelled` when asked to stop; otherwise send.
    pub fn next(&self, cancelled: bool) -> (r: AttemptStep)
        ensures
            self.stopped || self.attempt >= self.max_attempts ==> (r matches AttemptStep::Finished(e) && opt_view(e)
                == opt_view(self.last_error)),
            !(self.stopped || self.attempt >= self.max_attempts) && cancelled ==> (r matches AttemptStep::Finished(e)
                && opt_view(e) == Some("Cancelled"@)),
            !(self.stopped || self.attempt >= self.max_attempts) && !cancelled ==> (r matches AttemptStep::Send(a) && a
                == self.attempt),
            r matches AttemptStep::Send(a) ==> a < self.max_attempts,
    {
        if self.stopped || self.attempt >= self.max_attempts {
            let e = match &self.last_error {
                Some(t) => Some(t.clone()),
                None => None,
            };
            return AttemptStep::Finished(e);
        }
        if cancelled {
            return AttemptStep::Finished(Some(copy_str("Cancelled")));
        }
        AttemptStep::Send(self.attempt)
    }

    /// A response came with the given status text: an error status is
    /// retried under `Retry`; otherwise the node ends, with `HTTP error:`
    /// and the status when it is an error status.
    pub fn on_response(&mut self, is_error: bool, status_text: &str) -> (r: ResponseAction)
        requires
            !old(self).stopped,
            old(self).attempt < old(self).max_attempts,
        ensures
            final(self).wf(),
            final(self).max_attempts == old(self).max_attempts,
            final(self).strategy == old(self).strategy,
            final(self).stopped == old(self).stopped,
            is_error && old(self).strategy == ErrorStrategy::Retry ==> (r matches ResponseAction::Retry) && final(
                self).attempt == old(self).attempt + 1 && opt_view(final(self).last_error) == Some(
                "HTTP error: "@ + status_text@),
            is_error && old(self).strategy != ErrorStrategy::Retry ==> (r matches ResponseAction::Finish(e) && opt_view(e)
                == Some("HTTP error: "@ + status_text@)),
            !is_error ==> (r matches ResponseAction::Finish(e) && e is None),
    {
        if is_error {
            let mut t = String::new();
            push_str(&mut t, "HTTP error: ");
            push_str(&mut t, status_text);
            if self.strategy == ErrorStrategy::Retry {
                self.last_error = Some(t);
                self.attempt = self.attempt + 1;
                ResponseAction::Retry
            } else {
                ResponseAction::Finish(Some(t))
            }
        } else {
            ResponseAction::Finish(None)
        }
    }

    /// Sending failed with `error`: it is kept as the last error; without
    /// `Retry` the attempts stop.
    pub fn on_failure(&mut self, error: String)
        requires
            !old(self).stopped,
            old(self).attempt < old(self).max_attempts,
        ensures
            final(self).wf(),
            final(self).last_error == Some(error),
            final(self).max_attempts == old(self).max_attempts,
            final(self).strategy == old(self).strategy,
            final(self).attempt == old(self).attempt + 1,
            final(self).stopped == (old(self).strategy != ErrorStrategy::Retry),
    {
        self.last_error = Some(error);
        self.attempt = self.attempt + 1;
        self.stopped = self.strategy != ErrorStrategy::Retry;
    }
}

} // verus!
