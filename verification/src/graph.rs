use vstd::prelude::*;

use crate::json::JsonValue;
use crate::request::{Request, RequestError, request_sendable};
use crate::strmap::StrMap;
use crate::text::{chars_of, copy_str, push_str, str_eq};

verus! {

/// Why a change to a workflow graph was refused.
#[derive(Debug, PartialEq)]
pub enum GraphError {
    NodeAlreadyExists(String),
    NodeNotFound(String),
    EdgeAlreadyExists(String, String),
    SourceNodeNotFound(String),
    TargetNodeNotFound(String),
    CycleDetected,
    RequestError(RequestError),
}

impl GraphError {
    /// The human-readable text of the error.
    pub open spec fn text(&self) -> Seq<char> {
        match self {
            GraphError::NodeAlreadyExists(id) => "Node with id "@ + id@ + " already exists"@,
            GraphError::NodeNotFound(id) => "Node with id "@ + id@ + " not found"@,
            GraphError::EdgeAlreadyExists(a, b) => "Edge from "@ + a@ + " to "@ + b@ + " already exists"@,
            GraphError::SourceNodeNotFound(id) => "Source node "@ + id@ + " not found"@,
            GraphError::TargetNodeNotFound(id) => "Target node "@ + id@ + " not found"@,
            GraphError::CycleDetected => "Cycle detected in workflow graph"@,
            GraphError::RequestError(RequestError::InvalidUrl(u)) => "Request error: "@ + "Invalid URL: "@ + u@,
        }
    }

    /// The human-readable text of the error.
    pub fn message(&self) -> (r: String)
        ensures
            r@ == self.text(),
    {
        let mut out = String::new();
        match self {
            GraphError::NodeAlreadyExists(id) => {
                push_str(&mut out, "Node with id ");
                push_str(&mut out, id.as_str());
                push_str(&mut out, " already exists");
            },
            GraphError::NodeNotFound(id) => {
                push_str(&mut out, "Node with id ");
                push_str(&mut out, id.as_str());
                push_str(&mut out, " not found");
            },
            GraphError::EdgeAlreadyExists(a, b) => {
                push_str(&mut out, "Edge from ");
                push_str(&mut out, a.as_str());
                push_str(&mut out, " to ");
                push_str(&mut out, b.as_str());
                push_str(&mut out, " already exists");
            },
            GraphError::SourceNodeNotFound(id) => {
                push_str(&mut out, "Source node ");
                push_str(&mut out, id.as_str());
                push_str(&mut out, " not found");
            },
            GraphError::TargetNodeNotFound(id) => {
                push_str(&mut out, "Target node ");
                push_str(&mut out, id.as_str());
                push_str(&mut out, " not found");
            },
            GraphError::CycleDetected => {
                push_str(&mut out, "Cycle detected in workflow graph");
            },
            GraphError::RequestError(e) => {
                push_str(&mut out, "Request error: ");
                let m = e.message();
                push_str(&mut out, m.as_str());
            },
        }
        out
    }
}

/// A problem that validation reports about a workflow.
#[derive(Debug, PartialEq, Clone)]
pub enum ValidationError {
    DanglingEdgeSource(String),
    DanglingEdgeTarget(String),
    UndefinedVariable(String),
    DuplicateNodeId(String),
    EmptyWorkflow,
    InvalidRequest(String, String),
    InvalidRetryConfig(String),
}

/// The content of a validation problem.
pub enum Problem {
    DanglingEdgeSource(Seq<char>),
    DanglingEdgeTarget(Seq<char>),
    UndefinedVariable(Seq<char>),
    DuplicateNodeId(Seq<char>),
    EmptyWorkflow,
    InvalidRequest(Seq<char>, Seq<char>),
    InvalidRetryConfig(Seq<char>),
}

impl View for ValidationError {
    type V = Problem;

    open spec fn view(&self) -> Problem {
        match self {
            ValidationError::DanglingEdgeSource(s) => Problem::DanglingEdgeSource(s@),
            ValidationError::DanglingEdgeTarget(s) => Problem::DanglingEdgeTarget(s@),
            ValidationError::UndefinedVariable(s) => Problem::UndefinedVariable(s@),
            ValidationError::DuplicateNodeId(s) => Problem::DuplicateNodeId(s@),
            ValidationError::EmptyWorkflow => Problem::EmptyWorkflow,
            ValidationError::InvalidRequest(a, b) => Problem::InvalidRequest(a@, b@),
            ValidationError::InvalidRetryConfig(s) => Problem::InvalidRetryConfig(s@),
        }
    }
}

/// The problems of a list, by content.
pub open spec fn problems(s: Seq<ValidationError>) -> Seq<Problem> {
    s.map_values(|e: ValidationError| e@)
}

/// The errors and warnings that validation found.
#[derive(Debug)]
pub struct ValidationResult {
    pub errors: Vec<ValidationError>,
    pub warnings: Vec<ValidationError>,
}

impl ValidationResult {
    pub fn new() -> (r: Self)
        ensures
            r.errors@.len() == 0,
            r.warnings@.len() == 0,
    {
        ValidationResult { errors: Vec::new(), warnings: Vec::new() }
    }

    pub fn add_error(&mut self, error: ValidationError)
        ensures
            final(self).errors@ == old(self).errors@.push(error),
            final(self).warnings@ == old(self).warnings@,
    {
        self.errors.push(error);
    }

    pub fn add_warning(&mut self, warning: ValidationError)
        ensures
            final(self).warnings@ == old(self).warnings@.push(warning),
            final(self).errors@ == old(self).errors@,
    {
        self.warnings.push(warning);
    }

    /// A workflow is valid when no error was found; warnings do not count.
    pub fn is_valid(&self) -> (r: bool)
        ensures
            r == (self.errors@.len() == 0),
    {
        self.errors.len() == 0
    }

    /// Appends the errors and warnings of `other` to those here.
    pub fn merge(&mut self, other: ValidationResult)
        ensures
            final(self).errors@ == old(self).errors@ + other.errors@,
            final(self).warnings@ == old(self).warnings@ + other.warnings@,
    {
        let mut errors = other.errors;
        let mut warnings = other.warnings;
        self.errors.append(&mut errors);
        self.warnings.append(&mut warnings);
    }
}

/// A fresh random identifier (`uuid::Uuid::new_v4`, written in its
/// hyphenated form). Only its length is stated: the rest is chance.
#[verifier::external_body]
fn random_id() -> (r: String)
    ensures
        r@.len() == 36,
{
    uuid::Uuid::new_v4().to_string()
}

/// One request of a workflow, with an id and free-form metadata.
#[derive(Debug)]
pub struct WorkflowNode {
    pub id: String,
    pub request: Request,
    pub metadata: StrMap<JsonValue>,
}

impl WorkflowNode {
    /// A node with a fresh random id and no metadata.
    pub fn new(request: Request) -> (r: Self)
        ensures
            r.id@.len() == 36,
            r.request == request,
            r.metadata@.len() == 0,
    {
        let m = StrMap::new();
        proof { assert(m@.dom() =~= Set::<Seq<char>>::empty()); }
        WorkflowNode { id: random_id(), request, metadata: m }
    }

    pub fn with_id(self, id: &str) -> (r: Self)
        ensures
            r.id@ == id@,
            r.request == self.request,
            r.metadata == self.metadata,
    {
        WorkflowNode { id: copy_str(id), request: self.request, metadata: self.metadata }
    }

    pub fn with_metadata(self, key: &str, value: JsonValue) -> (r: Self)
        ensures
            r.id == self.id,
            r.request == self.request,
            r.metadata@ == self.metadata@.insert(key@, value),
    {
        let mut m = self.metadata;
        m.insert(copy_str(key), value);
        WorkflowNode { id: self.id, request: self.request, metadata: m }
    }

    /// A node is valid when its request can be sent.
    pub fn validate(&self) -> (r: Result<(), GraphError>)
        ensures
            request_sendable(self.request.url@) ==> r is Ok,
            !request_sendable(self.request.url@) ==> (r matches Err(
                GraphError::RequestError(RequestError::InvalidUrl(u)),
            ) && u@ == self.request.url@),
    {
        match self.request.validate() {
            Ok(()) => Ok(()),
            Err(e) => Err(GraphError::RequestError(e)),
        }
    }
}

/// A dependency between two nodes, taken when its condition (if any) holds.
#[derive(Debug)]
pub struct WorkflowEdge {
    pub from: String,
    pub to: String,
    pub condition: Option<String>,
    pub transforms: Vec<JsonValue>,
}

impl WorkflowEdge {
    pub fn new(from: &str, to: &str) -> (r: Self)
        ensures
            r.from@ == from@,
            r.to@ == to@,
            r.condition is None,
            r.transforms@.len() == 0,
    {
        WorkflowEdge { from: copy_str(from), to: copy_str(to), condition: None, transforms: Vec::new() }
    }

    pub fn with_condition(self, condition: &str) -> (r: Self)
        ensures
            r.from == self.from,
            r.to == self.to,
            r.condition matches Some(c) && c@ == condition@,
            r.transforms == self.transforms,
    {
        WorkflowEdge { from: self.from, to: self.to, condition: Some(copy_str(condition)), transforms: self.transforms }
    }

    pub fn with_transform(self, transform: JsonValue) -> (r: Self)
        ensures
            r.from == self.from,
            r.to == self.to,
            r.condition == self.condition,
            r.transforms@ == self.transforms@.push(transform),
    {
        let mut t = self.transforms;
        t.push(transform);
        WorkflowEdge { from: self.from, to: self.to, condition: self.condition, transforms: t }
    }
}

/// The endpoints of the edges, as character sequences.
pub open spec fn edge_pairs(edges: Seq<WorkflowEdge>) -> Seq<(Seq<char>, Seq<char>)> {
    edges.map_values(|e: WorkflowEdge| (e.from@, e.to@))
}

/// A named graph of requests with workflow variables.
#[derive(Debug)]
pub struct Workflow {
    pub name: String,
    pub nodes: StrMap<WorkflowNode>,
    pub edges: Vec<WorkflowEdge>,
    pub variables: StrMap<JsonValue>,
}

impl Workflow {
    /// The edges as pairs of node ids.
    pub open spec fn pairs(&self) -> Seq<(Seq<char>, Seq<char>)> {
        edge_pairs(self.edges@)
    }

    pub fn new(name: &str) -> (r: Self)
        ensures
            r.name@ == name@,
            r.nodes@ == Map::<Seq<char>, WorkflowNode>::empty(),
            r.nodes@.len() == 0,
            r.edges@.len() == 0,
            r.variables@.len() == 0,
    {
        let nodes = StrMap::new();
        let variables = StrMap::new();
        proof {
            assert(nodes@.dom() =~= Set::<Seq<char>>::empty());
            assert(variables@.dom() =~= Set::<Seq<char>>::empty());
        }
        Workflow { name: copy_str(name), nodes, edges: Vec::new(), variables }
    }

    /// Adds a node under its id. Refused when the id is taken or the node's
    /// request cannot be sent; the workflow is then unchanged.
    pub fn add_node(&mut self, node: WorkflowNode) -> (r: Result<(), GraphError>)
        ensures
            old(self).nodes@.contains_key(node.id@) ==> (r matches Err(GraphError::NodeAlreadyExists(i))
                && i@ == node.id@),
            !old(self).nodes@.contains_key(node.id@) && !request_sendable(node.request.url@) ==> (r matches Err(
                GraphError::RequestError(RequestError::InvalidUrl(u)),
            ) && u@ == node.request.url@),
            !old(self).nodes@.contains_key(node.id@) && request_sendable(node.request.url@) ==> r is Ok,
            r is Ok ==> final(self).nodes@ == old(self).nodes@.insert(node.id@, node),
            r is Ok ==> final(self).nodes.keys() == old(self).nodes.keys().push(node.id@),
            r is Err ==> final(self).nodes == old(self).nodes,
            final(self).edges == old(self).edges,
            final(self).variables == old(self).variables,
            final(self).name == old(self).name,
    {
        if self.nodes.contains_key(node.id.as_str()) {
            return Err(GraphError::NodeAlreadyExists(node.id.clone()));
        }
        match node.validate() {
            Ok(()) => {},
            Err(e) => return Err(e),
        }
        let id = node.id.clone();
        self.nodes.insert(id, node);
        Ok(())
    }

    /// The workflow with `node` added.
    pub fn with_node(self, node: WorkflowNode) -> (r: Result<Self, GraphError>)
        ensures
            self.nodes@.contains_key(node.id@) ==> (r matches Err(GraphError::NodeAlreadyExists(i))
                && i@ == node.id@),
            !self.nodes@.contains_key(node.id@) && !request_sendable(node.request.url@) ==> r is Err,
            !self.nodes@.contains_key(node.id@) && request_sendable(node.request.url@) ==> (r matches Ok(w)
                && w.nodes@ == self.nodes@.insert(node.id@, node) && w.edges == self.edges
                && w.variables == self.variables && w.name == self.name),
    {
        let mut w = self;
        match w.add_node(node) {
            Ok(()) => Ok(w),
            Err(e) => Err(e),
        }
    }

    /// Whether an edge `from -> to` is already there.
    fn has_edge(&self, from: &str, to: &str) -> (r: bool)
        ensures
            r == exists|j: int| 0 <= j < self.edges@.len() && #[trigger] self.pairs()[j] == (from@, to@),
    {
        let mut j: usize = 0;
        while j < self.edges.len()
            invariant
                j <= self.edges@.len(),
                forall|k: int| 0 <= k < j ==> #[trigger] self.pairs()[k] != (from@, to@),
            decreases self.edges@.len() - j,
        {
            if str_eq(self.edges[j].from.as_str(), from) && str_eq(self.edges[j].to.as_str(), to) {
                proof { assert(self.pairs()[j as int] == (from@, to@)); }
                return true;
            }
            proof { assert(self.pairs()[j as int] == (self.edges@[j as int].from@, self.edges@[j as int].to@)); }
            j += 1;
        }
        false
    }

    /// Adds an edge between two existing nodes, at most once per pair.
    pub fn add_edge(&mut self, edge: WorkflowEdge) -> (r: Result<(), GraphError>)
        ensures
            !old(self).nodes@.contains_key(edge.from@) ==> (r matches Err(GraphError::SourceNodeNotFound(i))
                && i@ == edge.from@),
            old(self).nodes@.contains_key(edge.from@) && !old(self).nodes@.contains_key(edge.to@) ==> (r matches Err(
                GraphError::TargetNodeNotFound(i),
            ) && i@ == edge.to@),
            old(self).nodes@.contains_key(edge.from@) && old(self).nodes@.contains_key(edge.to@) && (exists|j: int|
                0 <= j < old(self).edges@.len() && #[trigger] old(self).pairs()[j] == (edge.from@, edge.to@))
                ==> (r matches Err(GraphError::EdgeAlreadyExists(a, b)) && a@ == edge.from@ && b@ == edge.to@),
            old(self).nodes@.contains_key(edge.from@) && old(self).nodes@.contains_key(edge.to@) && !(exists|j: int|
                0 <= j < old(self).edges@.len() && #[trigger] old(self).pairs()[j] == (edge.from@, edge.to@))
                ==> r is Ok,
            r is Ok ==> final(self).edges@ == old(self).edges@.push(edge),
            r is Err ==> final(self).edges == old(self).edges,
            final(self).nodes == old(self).nodes,
            final(self).variables == old(self).variables,
            final(self).name == old(self).name,
    {
        if !self.nodes.contains_key(edge.from.as_str()) {
            return Err(GraphError::SourceNodeNotFound(edge.from.clone()));
        }
        if !self.nodes.contains_key(edge.to.as_str()) {
            return Err(GraphError::TargetNodeNotFound(edge.to.clone()));
        }
        if self.has_edge(edge.from.as_str(), edge.to.as_str()) {
            return Err(GraphError::EdgeAlreadyExists(edge.from.clone(), edge.to.clone()));
        }
        self.edges.push(edge);
        Ok(())
    }

    /// The workflow with `edge` added.
    pub fn with_edge(self, edge: WorkflowEdge) -> (r: Result<Self, GraphError>)
        ensures
            !(self.nodes@.contains_key(edge.from@) && self.nodes@.contains_key(edge.to@)) ==> r is Err,
            self.nodes@.contains_key(edge.from@) && self.nodes@.contains_key(edge.to@) && !(exists|j: int|
                0 <= j < self.edges@.len() && #[trigger] self.pairs()[j] == (edge.from@, edge.to@)) ==> (r matches Ok(w)
                && w.edges@ == self.edges@.push(edge) && w.nodes == self.nodes && w.variables == self.variables
                && w.name == self.name),
            (exists|j: int| 0 <= j < self.edges@.len() && #[trigger] self.pairs()[j] == (edge.from@, edge.to@))
                ==> r is Err,
    {
        let mut w = self;
        match w.add_edge(edge) {
            Ok(()) => Ok(w),
            Err(e) => Err(e),
        }
    }

    /// Removes the edges `from -> to`; tells whether there was one.
    pub fn remove_edge(&mut self, from: &str, to: &str) -> (r: bool)
        ensures
            final(self).edges@ == old(self).edges@.filter(|e: WorkflowEdge| !drops(e, from@, to@, true)),
            r == exists|j: int| 0 <= j < old(self).edges@.len() && #[trigger] old(self).pairs()[j] == (from@, to@),
            final(self).nodes == old(self).nodes,
            final(self).variables == old(self).variables,
            final(self).name == old(self).name,
    {
        let mut taken: Vec<WorkflowEdge> = Vec::new();
        std::mem::swap(&mut taken, &mut self.edges);
        let ghost orig = taken@;
        assert(orig == old(self).edges@);
        let (kept, removed) = retain_edges(taken, from, to, true);
        self.edges = kept;
        proof {
            assert(old(self).pairs() == edge_pairs(orig));
            if removed {
                let j = choose|j: int| 0 <= j < orig.len() && drops(orig[j], from@, to@, true);
                assert(edge_pairs(orig)[j] == (from@, to@));
            }
            if exists|j: int| 0 <= j < orig.len() && #[trigger] edge_pairs(orig)[j] == (from@, to@) {
                let j = choose|j: int| 0 <= j < orig.len() && #[trigger] edge_pairs(orig)[j] == (from@, to@);
                assert(drops(orig[j], from@, to@, true));
            }
        }
        removed
    }

    /// Removes the node `id` and every edge that touches it.
    pub fn remove_node(&mut self, id: &str) -> (r: Option<WorkflowNode>)
        ensures
            final(self).nodes@ == old(self).nodes@.remove(id@),
            r matches Some(n) ==> old(self).nodes@.contains_key(id@) && n == old(self).nodes@[id@]
                && final(self).edges@ == old(self).edges@.filter(|e: WorkflowEdge| !drops(e, id@, id@, false)),
            r is None ==> !old(self).nodes@.contains_key(id@) && final(self).edges == old(self).edges,
            final(self).variables == old(self).variables,
            final(self).name == old(self).name,
    {
        let node = self.nodes.remove(id);
        if node.is_some() {
            let mut taken: Vec<WorkflowEdge> = Vec::new();
            std::mem::swap(&mut taken, &mut self.edges);
            let (kept, _removed) = retain_edges(taken, id, id, false);
            self.edges = kept;
        }
        node
    }
}

/// Whether the edge goes: with `both`, the edge `a -> b`; without, any edge
/// that starts or ends at `a`.
pub open spec fn drops(e: WorkflowEdge, a: Seq<char>, b: Seq<char>, both: bool) -> bool {
    if both {
        e.from@ == a && e.to@ == b
    } else {
        e.from@ == a || e.to@ == a
    }
}

/// The edges that do not go, in order, and whether any went.
fn retain_edges(edges: Vec<WorkflowEdge>, a: &str, b: &str, both: bool) -> (r: (Vec<WorkflowEdge>, bool))
    ensures
        r.0@ == edges@.filter(|e: WorkflowEdge| !drops(e, a@, b@, both)),
        r.1 == exists|j: int| 0 <= j < edges@.len() && drops(#[trigger] edges@[j], a@, b@, both),
{
    let ghost pred = |e: WorkflowEdge| !drops(e, a@, b@, both);
    let ghost orig = edges@;
    let mut rest = edges;
    let mut kept: Vec<WorkflowEdge> = Vec::new();
    let mut removed = false;
    let mut i: usize = 0;
    let total = rest.len();
    assert(orig.len() <= usize::MAX);
    proof {
        assert(orig.take(0) =~= Seq::<WorkflowEdge>::empty());
        reveal_with_fuel(Seq::filter, 1);
        assert(orig.skip(0) =~= orig);
    }
    while rest.len() > 0
        invariant
            i <= orig.len(),
            rest@.len() + i == orig.len(),
            orig.len() <= usize::MAX,
            pred == (|e: WorkflowEdge| !drops(e, a@, b@, both)),
            rest@ == orig.skip(i as int),
            kept@ == orig.take(i as int).filter(pred),
            removed == exists|j: int| 0 <= j < i && drops(#[trigger] orig[j], a@, b@, both),
        decreases rest@.len(),
    {
        let e = rest.remove(0);
        proof {
            assert(e == orig[i as int]);
            assert(orig.take(i + 1).drop_last() =~= orig.take(i as int));
            assert(orig.take(i + 1).last() == e);
            reveal_with_fuel(Seq::filter, 1);
            assert(orig.skip(i as int).drop_first() =~= orig.skip(i + 1));
        }
        let go = if both {
            str_eq(e.from.as_str(), a) && str_eq(e.to.as_str(), b)
        } else {
            str_eq(e.from.as_str(), a) || str_eq(e.to.as_str(), a)
        };
        let ghost old_kept = kept@;
        proof { assert(go == drops(e, a@, b@, both)); assert(pred(e) == !go); }
        if go {
            removed = true;
        } else {
            kept.push(e);
        }
        proof {
            reveal_with_fuel(Seq::filter, 1);
            assert(orig.take(i + 1).filter(pred) == if pred(e) {
                orig.take(i as int).filter(pred).push(e)
            } else {
                orig.take(i as int).filter(pred)
            });
            assert(kept@ == if pred(e) { old_kept.push(e) } else { old_kept });
        }
        i += 1;
    }
    proof {
        assert(orig.take(i as int) =~= orig);
    }
    (kept, removed)
}

} // verus!

verus! {

use crate::digraph::{edge, walk, reaches, on_cycle, reached, cycle_reached, edges_below, has_reachable_cycle, peel, Peeling};

/// `u -> v` is one of the edges.
pub open spec fn str_edge(ps: Seq<(Seq<char>, Seq<char>)>, u: Seq<char>, v: Seq<char>) -> bool {
    exists|j: int| 0 <= j < ps.len() && #[trigger] ps[j] == (u, v)
}

/// `w` is a non-empty walk along the edges.
pub open spec fn str_walk(ps: Seq<(Seq<char>, Seq<char>)>, w: Seq<Seq<char>>) -> bool {
    &&& w.len() >= 1
    &&& forall|i: int| #![trigger w[i]] 0 <= i < w.len() - 1 ==> str_edge(ps, w[i], w[i + 1])
}

/// A walk leads from `u` to `v`.
pub open spec fn str_reaches(ps: Seq<(Seq<char>, Seq<char>)>, u: Seq<char>, v: Seq<char>) -> bool {
    exists|w: Seq<Seq<char>>| #[trigger] str_walk(ps, w) && w[0] == u && w.last() == v
}

/// A walk of at least one edge leads from `v` back to `v`.
pub open spec fn str_on_cycle(ps: Seq<(Seq<char>, Seq<char>)>, v: Seq<char>) -> bool {
    exists|w: Seq<Seq<char>>| #[trigger] str_walk(ps, w) && w.len() >= 2 && w[0] == v && w.last() == v
}

/// The names of a list of strings.
pub open spec fn names_view(names: Seq<String>) -> Seq<Seq<char>> {
    names.map_values(|s: String| s@)
}

/// The vertices of a workflow numbered: the node ids first, in order, then
/// the other ends of edges; and the edges by number.
pub struct IndexGraph {
    pub names: Vec<String>,
    pub edges: Vec<(usize, usize)>,
}

impl IndexGraph {
    /// The numbering matches the workflow.
    pub open spec fn matches(self, keys: Seq<Seq<char>>, ps: Seq<(Seq<char>, Seq<char>)>) -> bool {
        let nv = names_view(self.names@);
        &&& nv.no_duplicates()
        &&& nv.len() >= keys.len()
        &&& forall|i: int| 0 <= i < keys.len() ==> #[trigger] nv[i] == keys[i]
        &&& self.edges@.len() == ps.len()
        &&& edges_below(self.edges@, nv.len())
        &&& forall|j: int| 0 <= j < ps.len() ==> nv[(#[trigger] self.edges@[j]).0 as int] == ps[j].0
            && nv[self.edges@[j].1 as int] == ps[j].1
    }
}

/// The position of `s` in `names`, if it is there.
fn position(names: &Vec<String>, s: &str) -> (r: Option<usize>)
    ensures
        match r {
            Some(i) => i < names@.len() && names@[i as int]@ == s@,
            None => forall|i: int| 0 <= i < names@.len() ==> names@[i]@ != s@,
        },
{
    let mut i: usize = 0;
    while i < names.len()
        invariant
            i <= names@.len(),
            forall|k: int| 0 <= k < i ==> names@[k]@ != s@,
        decreases names@.len() - i,
    {
        if str_eq(names[i].as_str(), s) {
            return Some(i);
        }
        i += 1;
    }
    None
}

/// Adds `s` to `names` unless it is there; gives its position.
fn intern(names: &mut Vec<String>, s: &String) -> (r: usize)
    requires
        names_view(old(names)@).no_duplicates(),
    ensures
        names_view(final(names)@).no_duplicates(),
        r < final(names)@.len(),
        final(names)@[r as int]@ == s@,
        names_view(old(names)@).contains(s@) ==> final(names)@ == old(names)@,
        !names_view(old(names)@).contains(s@) ==> final(names)@.len() == old(names)@.len() + 1
            && final(names)@.drop_last() == old(names)@,
        names_view(final(names)@) == if names_view(old(names)@).contains(s@) {
            names_view(old(names)@)
        } else {
            names_view(old(names)@).push(s@)
        },
{
    match position(names, s.as_str()) {
        Some(i) => {
            proof {
                assert(names_view(names@)[i as int] == s@);
            }
            i
        },
        None => {
            let ghost before = names@;
            proof {
                assert(!names_view(before).contains(s@)) by {
                    if names_view(before).contains(s@) {
                        let k = choose|k: int| 0 <= k < names_view(before).len() && names_view(before)[k] == s@;
                        assert(before[k]@ == s@);
                    }
                }
            }
            names.push(s.clone());
            proof {
                assert(names_view(names@) =~= names_view(before).push(s@));
                assert(names@.drop_last() =~= before);
            }
            names.len() - 1
        },
    }
}

impl Workflow {
    /// The vertices and edges of the workflow, numbered.
    pub fn index_graph(&self) -> (g: IndexGraph)
        ensures
            g.matches(self.nodes.keys(), self.pairs()),
    {
        let mut names: Vec<String> = Vec::new();
        let k = self.nodes.len();
        self.nodes.keys_are_unique();
        let ghost keys = self.nodes.keys();
        let mut i: usize = 0;
        while i < k
            invariant
                k == self.nodes.entries().len(),
                keys == self.nodes.keys(),
                crate::strmap::unique_keys(self.nodes.entries()),
                i <= k,
                names@.len() == i,
                forall|q: int| 0 <= q < i ==> #[trigger] names@[q]@ == keys[q],
            decreases k - i,
        {
            let (key, _) = self.nodes.entry_at(i);
            names.push(key.clone());
            i += 1;
        }
        proof {
            assert(keys.len() == k);
            assert forall|a: int, b: int| 0 <= a < names_view(names@).len() && 0 <= b < names_view(names@).len()
                && a != b implies names_view(names@)[a] != names_view(names@)[b] by {
                assert(keys[a] == self.nodes.entries()[a].0);
                assert(keys[b] == self.nodes.entries()[b].0);
            }
        }
        let mut ies: Vec<(usize, usize)> = Vec::new();
        let mut j: usize = 0;
        while j < self.edges.len()
            invariant
                j <= self.edges@.len(),
                keys == self.nodes.keys(),
                keys.len() == k,
                names@.len() >= k,
                names_view(names@).no_duplicates(),
                forall|q: int| 0 <= q < k ==> #[trigger] names@[q]@ == keys[q],
                ies@.len() == j,
                edges_below(ies@, names@.len() as nat),
                forall|q: int| 0 <= q < j ==> names@[(#[trigger] ies@[q]).0 as int]@ == self.pairs()[q].0
                    && names@[ies@[q].1 as int]@ == self.pairs()[q].1,
            decreases self.edges@.len() - j,
        {
            let ghost before = names@;
            let ghost ies_before = ies@;
            let a = intern(&mut names, &self.edges[j].from);
            let ghost mid = names@;
            let b = intern(&mut names, &self.edges[j].to);
            proof {
                assert forall|q: int| 0 <= q < before.len() implies names@[q] == before[q] by {
                    assert(mid.len() >= before.len());
                    if mid.len() > before.len() { assert(mid.drop_last() == before); assert(mid[q] == mid.drop_last()[q]); }
                    if names@.len() > mid.len() { assert(names@.drop_last() == mid); assert(names@[q] == names@.drop_last()[q]); }
                }
                assert(names@[a as int] == mid[a as int]) by {
                    if names@.len() > mid.len() { assert(names@[a as int] == names@.drop_last()[a as int]); }
                }
            }
            ies.push((a, b));
            proof {
                assert forall|q: int| 0 <= q < k implies #[trigger] names@[q]@ == keys[q] by {
                    assert(names@[q] == before[q]);
                }
                assert(self.pairs()[j as int] == (self.edges@[j as int].from@, self.edges@[j as int].to@));
                assert forall|q: int| 0 <= q < j + 1 implies names@[(#[trigger] ies@[q]).0 as int]@ == self.pairs()[q].0
                    && names@[ies@[q].1 as int]@ == self.pairs()[q].1 by {
                    if q < j {
                        assert(ies@[q] == ies_before[q]);
                    }
                }
            }
            j += 1;
        }
        proof {
            assert forall|q: int| 0 <= q < k implies #[trigger] names_view(names@)[q] == keys[q] by {}
        }
        IndexGraph { names, edges: ies }
    }
}

/// A numbered walk read back as names.
pub proof fn lemma_walk_to_names(g: IndexGraph, keys: Seq<Seq<char>>, ps: Seq<(Seq<char>, Seq<char>)>, w: Seq<usize>)
    requires
        g.matches(keys, ps),
        walk(g.edges@, w),
        forall|i: int| 0 <= i < w.len() ==> (#[trigger] w[i]) < g.names@.len(),
    ensures
        str_walk(ps, w.map_values(|x: usize| names_view(g.names@)[x as int])),
{
    let nv = names_view(g.names@);
    let sw = w.map_values(|x: usize| nv[x as int]);
    assert forall|i: int| #![trigger sw[i]] 0 <= i < sw.len() - 1 implies str_edge(ps, sw[i], sw[i + 1]) by {
        assert(edge(g.edges@, w[i], w[i + 1]));
        let j = choose|j: int| 0 <= j < g.edges@.len() && #[trigger] g.edges@[j] == (w[i], w[i + 1]);
        assert(ps[j] == (sw[i], sw[i + 1]));
    }
}

/// A walk by names, from a numbered vertex, numbered.
pub proof fn lemma_walk_to_numbers(g: IndexGraph, keys: Seq<Seq<char>>, ps: Seq<(Seq<char>, Seq<char>)>, sw: Seq<Seq<char>>, x: usize) -> (w: Seq<usize>)
    requires
        g.matches(keys, ps),
        str_walk(ps, sw),
        x < g.names@.len(),
        names_view(g.names@)[x as int] == sw[0],
    ensures
        walk(g.edges@, w),
        w.len() == sw.len(),
        w[0] == x,
        forall|i: int| 0 <= i < w.len() ==> (#[trigger] w[i]) < g.names@.len()
            && names_view(g.names@)[w[i] as int] == sw[i],
    decreases sw.len(),
{
    let nv = names_view(g.names@);
    if sw.len() == 1 {
        let w = seq![x];
        w
    } else {
        let sw0 = sw.drop_last();
        assert forall|i: int| #![trigger sw0[i]] 0 <= i < sw0.len() - 1 implies str_edge(ps, sw0[i], sw0[i + 1]) by {
            assert(sw0[i] == sw[i] && sw0[i + 1] == sw[i + 1]);
            assert(str_edge(ps, sw[i], sw[i + 1]));
        }
        let w0 = lemma_walk_to_numbers(g, keys, ps, sw0, x);
        let m = sw.len() - 2;
        assert(str_edge(ps, sw[m], sw[m + 1]));
        let j = choose|j: int| 0 <= j < ps.len() && #[trigger] ps[j] == (sw[m], sw[m + 1]);
        let (a, b) = g.edges@[j];
        assert(nv[a as int] == sw[m]);
        assert(nv[w0[m] as int] == sw0[m]);
        assert(a == w0[m]) by {
            assert(nv.no_duplicates());
        }
        assert(g.edges@[j] == (w0.last(), b));
        crate::digraph::lemma_walk_push(g.edges@, w0, b);
        let w = w0.push(b);
        assert forall|i: int| 0 <= i < w.len() implies (#[trigger] w[i]) < g.names@.len()
            && nv[w[i] as int] == sw[i] by {
            if i < w0.len() {
                assert(w[i] == w0[i]);
            }
        }
        w
    }
}

impl Workflow {
    /// Some cycle of the graph can be reached from a node.
    pub open spec fn cycle_reachable(&self) -> bool {
        exists|k: Seq<char>, v: Seq<char>|
            self.nodes@.contains_key(k) && #[trigger] str_reaches(self.pairs(), k, v) && str_on_cycle(self.pairs(), v)
    }

    /// The numbered graph has a cycle reached from a node exactly when the
    /// workflow has.
    proof fn lemma_cycle_numbered(&self, g: IndexGraph, starts: Seq<usize>)
        requires
            g.matches(self.nodes.keys(), self.pairs()),
            g.names@.len() <= usize::MAX,
            crate::strmap::unique_keys(self.nodes.entries()),
            starts.len() == self.nodes.keys().len(),
            forall|i: int| 0 <= i < starts.len() ==> #[trigger] starts[i] == i,
        ensures
            cycle_reached(g.edges@, starts) <==> self.cycle_reachable(),
    {
        let keys = self.nodes.keys();
        let ps = self.pairs();
        let nv = names_view(g.names@);
        if cycle_reached(g.edges@, starts) {
            let x = choose|x: usize| #[trigger] reached(g.edges@, starts, x) && on_cycle(g.edges@, x);
            let s = choose|s: usize| #[trigger] starts.contains(s) && reaches(g.edges@, s, x);
            let p = choose|p: Seq<usize>| #[trigger] walk(g.edges@, p) && p[0] == s && p.last() == x;
            let c = choose|c: Seq<usize>| #[trigger] walk(g.edges@, c) && c.len() >= 2 && c[0] == x && c.last() == x;
            let si = choose|i: int| 0 <= i < starts.len() && starts[i] == s;
            assert(s < keys.len());
            assert forall|i: int| 0 <= i < p.len() implies (#[trigger] p[i]) < g.names@.len() by {
                if i == 0 {
                } else {
                    assert(edge(g.edges@, p[i - 1], p[i]));
                    let j = choose|j: int| 0 <= j < g.edges@.len() && #[trigger] g.edges@[j] == (p[i - 1], p[i]);
                }
            }
            assert forall|i: int| 0 <= i < c.len() implies (#[trigger] c[i]) < g.names@.len() by {
                if i == 0 {
                    assert(c[0] == p.last());
                } else {
                    assert(edge(g.edges@, c[i - 1], c[i]));
                    let j = choose|j: int| 0 <= j < g.edges@.len() && #[trigger] g.edges@[j] == (c[i - 1], c[i]);
                }
            }
            lemma_walk_to_names(g, keys, ps, p);
            lemma_walk_to_names(g, keys, ps, c);
            let sp = p.map_values(|y: usize| nv[y as int]);
            let sc = c.map_values(|y: usize| nv[y as int]);
            let k = nv[s as int];
            let v = nv[x as int];
            assert(k == keys[s as int]);
            crate::strmap::lemma_assoc_dom(self.nodes.entries(), k);
            assert(self.nodes.entries()[s as int].0 == k);
            assert(self.nodes@.contains_key(k));
            assert(str_reaches(ps, k, v));
            assert(str_on_cycle(ps, v));
        }
        if self.cycle_reachable() {
            let (k, v) = choose|k: Seq<char>, v: Seq<char>|
                self.nodes@.contains_key(k) && #[trigger] str_reaches(ps, k, v) && str_on_cycle(ps, v);
            let sp = choose|w: Seq<Seq<char>>| #[trigger] str_walk(ps, w) && w[0] == k && w.last() == v;
            let sc = choose|w: Seq<Seq<char>>| #[trigger] str_walk(ps, w) && w.len() >= 2 && w[0] == v && w.last() == v;
            crate::strmap::lemma_assoc_dom(self.nodes.entries(), k);
            let ki = choose|i: int| 0 <= i < self.nodes.entries().len() && self.nodes.entries()[i].0 == k;
            assert(keys[ki] == k);
            assert(nv[ki] == k);
            assert((ki as usize) as int == ki);
            let p = lemma_walk_to_numbers(g, keys, ps, sp, ki as usize);
            let xv = p.last();
            assert(nv[xv as int] == v);
            let c = lemma_walk_to_numbers(g, keys, ps, sc, xv);
            assert(c.last() == xv) by {
                assert(nv[c.last() as int] == v);
                assert(nv.no_duplicates());
            }
            assert(starts[ki] == ki);
            assert(starts.contains(ki as usize));
            assert(reaches(g.edges@, ki as usize, xv));
            assert(on_cycle(g.edges@, xv));
            assert(reached(g.edges@, starts, xv));
        }
    }

    /// Checks that no cycle can be reached from any node.
    pub fn validate_dag(&self) -> (r: Result<(), GraphError>)
        ensures
            r is Ok <==> !self.cycle_reachable(),
            r is Err ==> r matches Err(GraphError::CycleDetected),
    {
        let g = self.index_graph();
        let k = self.nodes.len();
        let n = g.names.len();
        self.nodes.keys_are_unique();
        let mut starts: Vec<usize> = Vec::new();
        let mut i: usize = 0;
        while i < k
            invariant
                i <= k,
                k <= g.names@.len(),
                starts@.len() == i,
                forall|q: int| 0 <= q < i ==> #[trigger] starts@[q] == q,
            decreases k - i,
        {
            starts.push(i);
            i += 1;
        }
        proof {
            self.lemma_cycle_numbered(g, starts@);
        }
        if has_reachable_cycle(g.names.len(), &g.edges, &starts) {
            Err(GraphError::CycleDetected)
        } else {
            Ok(())
        }
    }
}

/// `v` is one of the entries.
pub open spec fn appears(order: Seq<usize>, v: int) -> bool {
    exists|p: int| 0 <= p < order.len() && order[p] == v
}

/// A list of distinct numbers below `k` that holds each of them has `k`
/// entries.
proof fn lemma_permutation_len(order: Seq<usize>, k: nat)
    requires
        forall|p: int, q: int| 0 <= p < q < order.len() ==> order[p] != order[q],
        forall|p: int| 0 <= p < order.len() ==> (#[trigger] order[p]) < k,
        forall|v: int| 0 <= v < k ==> #[trigger] appears(order, v),
    ensures
        order.len() == k,
{
    let ws = order.map_values(|x: usize| x as int);
    let range = vstd::set_lib::set_int_range(0, k as int);
    vstd::set_lib::lemma_int_range(0, k as int);
    assert(ws.no_duplicates()) by {
        assert forall|p: int, q: int| 0 <= p < ws.len() && 0 <= q < ws.len() && p != q implies ws[p] != ws[q] by {
            if p < q { assert(order[p] != order[q]); } else { assert(order[q] != order[p]); }
        }
    }
    ws.unique_seq_to_set();
    assert forall|x: int| ws.to_set().contains(x) <==> range.contains(x) by {
        if ws.to_set().contains(x) {
            let p = choose|p: int| 0 <= p < ws.len() && ws[p] == x;
            assert(order[p] < k);
        }
        if range.contains(x) {
            assert(appears(order, x));
            let p = choose|p: int| 0 <= p < order.len() && order[p] == x;
            assert(ws[p] == x);
        }
    }
    assert(ws.to_set() =~= range);
}

impl Workflow {
    /// Every edge joins two nodes of the workflow.
    pub open spec fn edges_internal(&self) -> bool {
        forall|j: int| 0 <= j < self.edges@.len() ==> self.nodes@.contains_key(#[trigger] self.pairs()[j].0)
            && self.nodes@.contains_key(self.pairs()[j].1)
    }

    /// Whether `order` lists the nodes so that every edge runs forwards: as
    /// many names as nodes, none twice, each a node or the target of an
    /// edge, the source of each edge before its target, and every node
    /// listed when the edges join nodes.
    pub open spec fn sorted_order(&self, order: Seq<String>) -> bool {
        &&& order.len() == self.nodes@.len()
        &&& names_view(order).no_duplicates()
        &&& forall|p: int| 0 <= p < order.len() ==> self.nodes@.contains_key(#[trigger] order[p]@)
            || exists|j: int| 0 <= j < self.edges@.len() && self.pairs()[j].1 == order[p]@
        &&& forall|j: int, p: int| 0 <= j < self.edges@.len() && 0 <= p < order.len()
            && #[trigger] self.pairs()[j].1 == #[trigger] order[p]@ ==> exists|q: int|
            0 <= q < p && order[q]@ == self.pairs()[j].0
        &&& self.edges_internal() ==> forall|key: Seq<char>| #[trigger] self.nodes@.contains_key(key)
            ==> names_view(order).contains(key)
    }

    /// The nodes in an order in which every edge runs forwards.
    ///
    /// Refused when a cycle can be reached from a node. Otherwise the graph
    /// is peeled: a node (or an edge's target that is no node) comes off once
    /// every edge into it comes from one that already came off; when the
    /// number that came off differs from the number of nodes, that too is
    /// refused as a cycle.
    pub fn topological_sort(&self) -> (r: Result<Vec<String>, GraphError>)
        ensures
            r is Err ==> r matches Err(GraphError::CycleDetected),
            self.cycle_reachable() ==> r is Err,
            !self.cycle_reachable() && self.edges_internal() ==> r is Ok,
            r matches Ok(order) ==> self.sorted_order(order@),
    {
        match self.validate_dag() {
            Ok(()) => {},
            Err(e) => return Err(e),
        }
        let g = self.index_graph();
        let k = self.nodes.len();
        let n = g.names.len();
        self.nodes.keys_are_unique();
        let ghost nv = names_view(g.names@);
        let ghost keys = self.nodes.keys();
        let mut active: Vec<bool> = Vec::new();
        let mut v: usize = 0;
        while v < n
            invariant
                v <= n,
                n == g.names@.len(),
                g.matches(keys, self.pairs()),
                active@.len() == v,
                forall|u: int| 0 <= u < v ==> (active@[u] <==> (u < k || exists|j: int|
                    0 <= j < g.edges@.len() && (#[trigger] g.edges@[j]).1 == u)),
            decreases n - v,
        {
            let mut is_target = false;
            let mut j: usize = 0;
            while j < g.edges.len()
                invariant
                    j <= g.edges@.len(),
                    is_target <==> exists|q: int| 0 <= q < j && (#[trigger] g.edges@[q]).1 == v,
                decreases g.edges@.len() - j,
            {
                if g.edges[j].1 == v {
                    is_target = true;
                }
                j += 1;
            }
            active.push(v < k || is_target);
            v += 1;
        }
        let pl = peel(n, &g.edges, &active, false);
        if pl.order.len() != k {
            proof {
                if !self.cycle_reachable() && self.edges_internal() {
                    self.lemma_peel_complete(g, active@, pl);
                }
            }
            return Err(GraphError::CycleDetected);
        }
        let mut out: Vec<String> = Vec::new();
        let mut p: usize = 0;
        while p < pl.order.len()
            invariant
                p <= pl.order@.len(),
                n == g.names@.len(),
                pl.valid(n as nat, g.edges@, active@, false),
                out@.len() == p,
                forall|q: int| 0 <= q < p ==> #[trigger] out@[q]@ == nv[pl.order@[q] as int],
                nv == names_view(g.names@),
            decreases pl.order@.len() - p,
        {
            let x = pl.order[p];
            out.push(g.names[x].clone());
            p += 1;
        }
        proof {
            if self.edges_internal() {
                self.lemma_peel_complete(g, active@, pl);
            }
            self.lemma_sorted(g, active@, pl, out@);
        }
        Ok(out)
    }
}

impl Workflow {
    /// Without a reachable cycle, and with every edge between nodes, the
    /// peeling takes off exactly the nodes.
    proof fn lemma_peel_complete(&self, g: IndexGraph, active: Seq<bool>, pl: Peeling)
        requires
            g.matches(self.nodes.keys(), self.pairs()),
            g.names@.len() <= usize::MAX,
            crate::strmap::unique_keys(self.nodes.entries()),
            active.len() == g.names@.len(),
            forall|u: int| 0 <= u < g.names@.len() ==> (active[u] <==> (u < self.nodes.keys().len()
                || exists|j: int| 0 <= j < g.edges@.len() && (#[trigger] g.edges@[j]).1 == u)),
            pl.valid(g.names@.len() as nat, g.edges@, active, false),
            pl.stuck(g.names@.len() as nat, g.edges@, active, false),
            !self.cycle_reachable(),
            self.edges_internal(),
        ensures
            pl.order@.len() == self.nodes.keys().len(),
            forall|v: int| 0 <= v < self.nodes.keys().len() ==> pl.done@[v],
    {
        let keys = self.nodes.keys();
        let k = keys.len();
        let n = g.names@.len();
        let nv = names_view(g.names@);
        let es = g.edges@;
        // a name of a node is numbered below k
        assert forall|x: int| 0 <= x < n && self.nodes@.contains_key(#[trigger] nv[x]) implies x < k by {
            crate::strmap::lemma_assoc_dom(self.nodes.entries(), nv[x]);
            let i = choose|i: int| 0 <= i < self.nodes.entries().len() && self.nodes.entries()[i].0 == nv[x];
            assert(keys[i] == nv[x]);
            assert(nv[i] == nv[x]);
        }
        assert forall|u: int| 0 <= u < n implies (active[u] <==> u < k) by {
            if active[u] && u >= k {
                let j = choose|j: int| 0 <= j < es.len() && (#[trigger] es[j]).1 == u;
                assert(nv[u] == self.pairs()[j].1);
                assert(self.nodes@.contains_key(self.pairs()[j].1));
            }
        }
        let starts = Seq::new(k, |i: int| i as usize);
        if exists|v: int| 0 <= v < k && !pl.done@[v] {
            let v = choose|v: int| 0 <= v < k && !pl.done@[v];
            let held = Seq::new(n, |u: int| active[u] && !pl.done@[u]);
            assert forall|u: int| 0 <= u < held.len() && held[u] implies exists|j: int|
                0 <= j < es.len() && es[j].1 == u && #[trigger] held[es[j].0 as int] by {
                let j = choose|j: int| 0 <= j < es.len() && es[j].1 == u
                    && crate::digraph::counts(es, active, false, j) && !(#[trigger] pl.done@[es[j].0 as int]);
                let s = es[j].0;
                assert(nv[s as int] == self.pairs()[j].0);
                assert(self.nodes@.contains_key(self.pairs()[j].0));
                assert(held[s as int]);
            }
            let c = crate::digraph::lemma_held_back_cycle(es, held, v as usize);
            let x = c[0];
            assert(held[x as int]);
            assert(x < k);
            let w = seq![x];
            assert(walk(es, w));
            assert(starts[x as int] == x);
            assert(starts.contains(x));
            assert(reaches(es, x, x));
            assert(on_cycle(es, x));
            assert(reached(es, starts, x));
            assert forall|i: int| 0 <= i < starts.len() implies #[trigger] starts[i] == i by {}
            self.lemma_cycle_numbered(g, starts);
            assert(false);
        }
        let order = pl.order@;
        assert forall|p: int, q: int| 0 <= p < q < order.len() implies order[p] != order[q] by {
            assert(pl.rank@[order[p] as int] == p);
            assert(pl.rank@[order[q] as int] == q);
        }
        assert forall|p: int| 0 <= p < order.len() implies (#[trigger] order[p]) < k by {
            assert(pl.done@[order[p] as int]);
            assert(active[order[p] as int]);
        }
        assert forall|v: int| 0 <= v < k implies #[trigger] appears(order, v) by {
            assert(pl.done@[v]);
            assert(order[pl.rank@[v] as int] == v);
        }
        lemma_permutation_len(order, k);
    }

    /// The names of the peeled vertices, in order, have the properties that
    /// `topological_sort` promises.
    proof fn lemma_sorted(&self, g: IndexGraph, active: Seq<bool>, pl: Peeling, out: Seq<String>)
        requires
            g.matches(self.nodes.keys(), self.pairs()),
            crate::strmap::unique_keys(self.nodes.entries()),
            active.len() == g.names@.len(),
            forall|u: int| 0 <= u < g.names@.len() ==> (active[u] <==> (u < self.nodes.keys().len()
                || exists|j: int| 0 <= j < g.edges@.len() && (#[trigger] g.edges@[j]).1 == u)),
            pl.valid(g.names@.len() as nat, g.edges@, active, false),
            pl.order@.len() == self.nodes.keys().len(),
            out.len() == pl.order@.len(),
            forall|q: int| 0 <= q < out.len() ==> #[trigger] out[q]@ == names_view(g.names@)[pl.order@[q] as int],
            self.edges_internal() ==> forall|v: int| 0 <= v < self.nodes.keys().len() ==> pl.done@[v],
        ensures
            out.len() == self.nodes@.len(),
            names_view(out).no_duplicates(),
            forall|p: int| 0 <= p < out.len() ==> self.nodes@.contains_key(#[trigger] out[p]@)
                || exists|j: int| 0 <= j < self.edges@.len() && self.pairs()[j].1 == out[p]@,
            forall|j: int, p: int| 0 <= j < self.edges@.len() && 0 <= p < out.len()
                && #[trigger] self.pairs()[j].1 == #[trigger] out[p]@ ==> exists|q: int|
                0 <= q < p && out[q]@ == self.pairs()[j].0,
            self.edges_internal() ==> forall|key: Seq<char>| #[trigger] self.nodes@.contains_key(key)
                ==> names_view(out).contains(key),
    {
        let keys = self.nodes.keys();
        let k = keys.len();
        let nv = names_view(g.names@);
        let es = g.edges@;
        let order = pl.order@;
        crate::strmap::lemma_assoc_len(self.nodes.entries());
        assert(self.nodes@.len() == k);
        assert forall|a: int, b: int| 0 <= a < names_view(out).len() && 0 <= b < names_view(out).len() && a != b
            implies names_view(out)[a] != names_view(out)[b] by {
            assert(pl.rank@[order[a] as int] == a);
            assert(pl.rank@[order[b] as int] == b);
            assert(order[a] != order[b]);
            assert(nv.no_duplicates());
        }
        assert forall|p: int| 0 <= p < out.len() implies self.nodes@.contains_key(#[trigger] out[p]@)
            || exists|j: int| 0 <= j < self.edges@.len() && self.pairs()[j].1 == out[p]@ by {
            let x = order[p];
            assert(pl.done@[x as int]);
            assert(active[x as int]);
            if (x as int) < k {
                crate::strmap::lemma_assoc_dom(self.nodes.entries(), keys[x as int]);
                assert(self.nodes.entries()[x as int].0 == keys[x as int]);
            } else {
                let j = choose|j: int| 0 <= j < es.len() && (#[trigger] es[j]).1 == x;
                assert(self.pairs()[j].1 == out[p]@);
            }
        }
        assert forall|j: int, p: int| 0 <= j < self.edges@.len() && 0 <= p < out.len()
            && #[trigger] self.pairs()[j].1 == #[trigger] out[p]@ implies exists|q: int|
            0 <= q < p && out[q]@ == self.pairs()[j].0 by {
            let x = order[p];
            assert(nv[es[j].1 as int] == nv[x as int]);
            assert(es[j].1 == x) by { assert(nv.no_duplicates()); }
            assert(pl.done@[es[j].1 as int]);
            assert(crate::digraph::counts(es, active, false, j));
            let s = es[j].0;
            assert(pl.done@[s as int]);
            let q = pl.rank@[s as int] as int;
            assert(q < pl.rank@[x as int]);
            assert(pl.rank@[x as int] == p);
            assert(order[q] == s);
            assert(out[q]@ == self.pairs()[j].0);
        }
        if self.edges_internal() {
            assert forall|key: Seq<char>| #[trigger] self.nodes@.contains_key(key) implies names_view(out).contains(key) by {
                crate::strmap::lemma_assoc_dom(self.nodes.entries(), key);
                let i = choose|i: int| 0 <= i < self.nodes.entries().len() && self.nodes.entries()[i].0 == key;
                assert(keys[i] == key);
                assert(pl.done@[i]);
                let p = pl.rank@[i] as int;
                assert(order[p] == i);
                assert(names_view(out)[p] == key);
            }
        }
    }
}

/// The problem that a key not matching its node's id gives.
pub open spec fn key_mismatch(key: Seq<char>, id: Seq<char>) -> Problem {
    Problem::DuplicateNodeId("Key '"@ + key + "' doesn't match node.id '"@ + id + "'"@)
}

/// The entries whose key differs from their node's id, as problems.
pub open spec fn mismatch_problems(es: Seq<(Seq<char>, WorkflowNode)>) -> Seq<Problem>
    decreases es.len(),
{
    if es.len() == 0 {
        Seq::empty()
    } else {
        mismatch_problems(es.drop_last()) + if es.last().0 != es.last().1.id@ {
            seq![key_mismatch(es.last().0, es.last().1.id@)]
        } else {
            Seq::empty()
        }
    }
}

/// The ends of the edges that are no node, as problems, edge by edge.
pub open spec fn dangling_problems(ps: Seq<(Seq<char>, Seq<char>)>, nodes: Map<Seq<char>, WorkflowNode>) -> Seq<Problem>
    decreases ps.len(),
{
    if ps.len() == 0 {
        Seq::empty()
    } else {
        let (a, b) = ps.last();
        dangling_problems(ps.drop_last(), nodes) + (if !nodes.contains_key(a) {
            seq![Problem::DanglingEdgeSource(a)]
        } else {
            Seq::empty()
        }) + (if !nodes.contains_key(b) {
            seq![Problem::DanglingEdgeTarget(b)]
        } else {
            Seq::empty()
        })
    }
}

/// The nodes whose request cannot be sent, as problems.
pub open spec fn request_problems(es: Seq<(Seq<char>, WorkflowNode)>) -> Seq<Problem>
    decreases es.len(),
{
    if es.len() == 0 {
        Seq::empty()
    } else {
        request_problems(es.drop_last()) + if !request_sendable(es.last().1.request.url@) {
            seq![Problem::InvalidRequest(es.last().0, "Request error: "@ + "Invalid URL: "@ + es.last().1.request.url@)]
        } else {
            Seq::empty()
        }
    }
}

/// The pattern of a `has_var(name)` test in a condition.
pub const HAS_VAR_PATTERN: &'static str = "has_var\\((\\w+)\\)";

/// The pattern of a `${name}` reference in a condition.
pub const DOLLAR_PATTERN: &'static str = "\\$\\{(\\w+)\\}";

/// The pattern of a `{{name}}` reference in a condition.
pub const BRACE_PATTERN: &'static str = "\\{\\{(\\w+)\\}\\}";

/// The names that the matches' first groups hold which are no variable.
pub open spec fn undefined_names(ms: Seq<Seq<Option<Seq<char>>>>, vars: Map<Seq<char>, JsonValue>) -> Seq<Problem>
    decreases ms.len(),
{
    if ms.len() == 0 {
        Seq::empty()
    } else {
        let g = ms.last();
        undefined_names(ms.drop_last(), vars) + if g.len() > 1 && g[1] is Some && !vars.contains_key(g[1]->0) {
            seq![Problem::UndefinedVariable(g[1]->0)]
        } else {
            Seq::empty()
        }
    }
}

/// The undefined names that one pattern finds in a condition.
pub open spec fn pattern_warnings(pattern: Seq<char>, cond: Seq<char>, vars: Map<Seq<char>, JsonValue>) -> Seq<Problem> {
    if crate::matching::regex_compile(pattern) is None {
        undefined_names(crate::matching::regex_all_groups(pattern, cond), vars)
    } else {
        Seq::empty()
    }
}

/// `p` occurs somewhere in `s`.
pub open spec fn contains_text(s: Seq<char>, p: Seq<char>) -> bool {
    exists|i: int| crate::text::occurs_at(s, i, p)
}

/// The warnings about one condition: undefined names in `has_var(..)`
/// tests (looked for only when the condition mentions `has_var(`), then in
/// `${..}` references, then in `{{..}}` references.
pub open spec fn condition_warnings(cond: Seq<char>, vars: Map<Seq<char>, JsonValue>) -> Seq<Problem> {
    (if contains_text(cond, "has_var("@) {
        pattern_warnings(HAS_VAR_PATTERN@, cond, vars)
    } else {
        Seq::empty()
    }) + pattern_warnings(DOLLAR_PATTERN@, cond, vars) + pattern_warnings(BRACE_PATTERN@, cond, vars)
}

/// The warnings about the conditions of the edges, edge by edge.
pub open spec fn edge_warnings(edges: Seq<WorkflowEdge>, vars: Map<Seq<char>, JsonValue>) -> Seq<Problem>
    decreases edges.len(),
{
    if edges.len() == 0 {
        Seq::empty()
    } else {
        edge_warnings(edges.drop_last(), vars) + match edges.last().condition {
            Some(c) => condition_warnings(c@, vars),
            None => Seq::empty(),
        }
    }
}

impl Workflow {
    /// The errors that `validate` reports, in order.
    pub open spec fn validation_errors(&self) -> Seq<Problem> {
        (if self.nodes@.len() == 0 { seq![Problem::EmptyWorkflow] } else { Seq::empty() })
            + mismatch_problems(self.nodes.entries())
            + dangling_problems(self.pairs(), self.nodes@)
            + (if self.cycle_reachable() {
                seq![Problem::InvalidRequest("workflow"@, "Cycle detected in workflow graph"@)]
            } else {
                Seq::empty()
            })
            + request_problems(self.nodes.entries())
    }

    /// Reports every problem of the workflow: no node, a key that is not its
    /// node's id, an edge end that is no node, a reachable cycle, a request
    /// that cannot be sent (errors); a condition naming an undefined
    /// variable (warnings).
    pub fn validate(&self) -> (r: ValidationResult)
        ensures
            problems(r.errors@) == self.validation_errors(),
            problems(r.warnings@) == edge_warnings(self.edges@, self.variables@),
    {
        let mut result = ValidationResult::new();
        let ghost e0 = problems(result.errors@);
        proof { assert(e0 =~= Seq::<Problem>::empty()); }
        self.validate_not_empty(&mut result);
        self.validate_unique_node_ids(&mut result);
        self.validate_node_references(&mut result);
        self.validate_no_cycles(&mut result);
        self.validate_variable_references(&mut result);
        self.validate_requests(&mut result);
        proof {
            assert(problems(result.errors@) =~= self.validation_errors());
            assert(problems(result.warnings@) =~= Seq::<Problem>::empty() + edge_warnings(self.edges@, self.variables@));
        }
        result
    }

    fn validate_not_empty(&self, result: &mut ValidationResult)
        ensures
            problems(final(result).errors@) == problems(old(result).errors@) + if self.nodes@.len() == 0 {
                seq![Problem::EmptyWorkflow]
            } else {
                Seq::empty()
            },
            final(result).warnings@ == old(result).warnings@,
    {
        if self.nodes.is_empty() {
            result.add_error(ValidationError::EmptyWorkflow);
        }
        proof {
            assert(problems(result.errors@) =~= problems(old(result).errors@) + if self.nodes@.len() == 0 {
                seq![Problem::EmptyWorkflow]
            } else {
                Seq::empty()
            });
        }
    }

    fn validate_unique_node_ids(&self, result: &mut ValidationResult)
        ensures
            problems(final(result).errors@) == problems(old(result).errors@) + mismatch_problems(self.nodes.entries()),
            final(result).warnings@ == old(result).warnings@,
    {
        let ghost es = self.nodes.entries();
        let ghost start = problems(result.errors@);
        let n = self.nodes.len();
        let mut i: usize = 0;
        proof { assert(es.take(0) =~= Seq::<(Seq<char>, WorkflowNode)>::empty()); assert(start + Seq::<Problem>::empty() =~= start); }
        while i < n
            invariant
                n == es.len(),
                es == self.nodes.entries(),
                i <= n,
                problems(result.errors@) == start + mismatch_problems(es.take(i as int)),
                result.warnings@ == old(result).warnings@,
            decreases n - i,
        {
            let (key, node) = self.nodes.entry_at(i);
            let ghost before = problems(result.errors@);
            proof { assert(es.take(i + 1).drop_last() =~= es.take(i as int)); }
            if !str_eq(key.as_str(), node.id.as_str()) {
                let mut m = String::new();
                push_str(&mut m, "Key '");
                push_str(&mut m, key.as_str());
                push_str(&mut m, "' doesn't match node.id '");
                push_str(&mut m, node.id.as_str());
                push_str(&mut m, "'");
                result.add_error(ValidationError::DuplicateNodeId(m));
                proof { assert(problems(result.errors@) =~= before + seq![key_mismatch(key@, node.id@)]); }
            } else {
                proof { assert(before + Seq::<Problem>::empty() =~= before); }
            }
            proof {
                assert(start + mismatch_problems(es.take(i + 1)) =~= problems(result.errors@));
            }
            i += 1;
        }
        proof { assert(es.take(n as int) =~= es); }
    }

    fn validate_node_references(&self, result: &mut ValidationResult)
        ensures
            problems(final(result).errors@) == problems(old(result).errors@) + dangling_problems(self.pairs(), self.nodes@),
            final(result).warnings@ == old(result).warnings@,
    {
        let ghost ps = self.pairs();
        let ghost start = problems(result.errors@);
        let mut j: usize = 0;
        proof { assert(ps.take(0) =~= Seq::<(Seq<char>, Seq<char>)>::empty()); assert(start + Seq::<Problem>::empty() =~= start); }
        while j < self.edges.len()
            invariant
                ps == self.pairs(),
                j <= self.edges@.len(),
                problems(result.errors@) == start + dangling_problems(ps.take(j as int), self.nodes@),
                result.warnings@ == old(result).warnings@,
            decreases self.edges@.len() - j,
        {
            let e = &self.edges[j];
            let ghost before = problems(result.errors@);
            proof {
                assert(ps.take(j + 1).drop_last() =~= ps.take(j as int));
                assert(ps.take(j + 1).last() == (e.from@, e.to@));
            }
            let has_from = self.nodes.contains_key(e.from.as_str());
            if !has_from {
                result.add_error(ValidationError::DanglingEdgeSource(e.from.clone()));
            }
            let ghost mid = problems(result.errors@);
            proof {
                assert(mid =~= before + if !has_from { seq![Problem::DanglingEdgeSource(e.from@)] } else { Seq::empty() });
            }
            let has_to = self.nodes.contains_key(e.to.as_str());
            if !has_to {
                result.add_error(ValidationError::DanglingEdgeTarget(e.to.clone()));
            }
            proof {
                assert(problems(result.errors@) =~= mid + if !has_to { seq![Problem::DanglingEdgeTarget(e.to@)] } else { Seq::empty() });
                assert(start + dangling_problems(ps.take(j + 1), self.nodes@) =~= problems(result.errors@));
            }
            j += 1;
        }
        proof { assert(ps.take(self.edges@.len() as int) =~= ps); }
    }

    fn validate_no_cycles(&self, result: &mut ValidationResult)
        ensures
            problems(final(result).errors@) == problems(old(result).errors@) + if self.cycle_reachable() {
                seq![Problem::InvalidRequest("workflow"@, "Cycle detected in workflow graph"@)]
            } else {
                Seq::empty()
            },
            final(result).warnings@ == old(result).warnings@,
    {
        let ghost before = problems(result.errors@);
        match self.validate_dag() {
            Err(GraphError::CycleDetected) => {
                result.add_error(ValidationError::InvalidRequest(
                    copy_str("workflow"),
                    copy_str("Cycle detected in workflow graph"),
                ));
                proof { assert(problems(result.errors@) =~= before + seq![Problem::InvalidRequest("workflow"@, "Cycle detected in workflow graph"@)]); }
            },
            _ => {
                proof { assert(before + Seq::<Problem>::empty() =~= before); }
            },
        }
    }

    fn validate_requests(&self, result: &mut ValidationResult)
        ensures
            problems(final(result).errors@) == problems(old(result).errors@) + request_problems(self.nodes.entries()),
            final(result).warnings@ == old(result).warnings@,
    {
        let ghost es = self.nodes.entries();
        let ghost start = problems(result.errors@);
        let n = self.nodes.len();
        let mut i: usize = 0;
        proof { assert(es.take(0) =~= Seq::<(Seq<char>, WorkflowNode)>::empty()); assert(start + Seq::<Problem>::empty() =~= start); }
        while i < n
            invariant
                n == es.len(),
                es == self.nodes.entries(),
                i <= n,
                problems(result.errors@) == start + request_problems(es.take(i as int)),
                result.warnings@ == old(result).warnings@,
            decreases n - i,
        {
            let (key, node) = self.nodes.entry_at(i);
            let ghost before = problems(result.errors@);
            proof { assert(es.take(i + 1).drop_last() =~= es.take(i as int)); }
            match node.validate() {
                Err(e) => {
                    let m = e.message();
                    result.add_error(ValidationError::InvalidRequest(key.clone(), m));
                    proof {
                        assert(problems(result.errors@) =~= before + seq![Problem::InvalidRequest(key@,
                            "Request error: "@ + "Invalid URL: "@ + node.request.url@)]);
                    }
                },
                Ok(()) => {
                    proof { assert(before + Seq::<Problem>::empty() =~= before); }
                },
            }
            proof {
                assert(start + request_problems(es.take(i + 1)) =~= problems(result.errors@));
            }
            i += 1;
        }
        proof { assert(es.take(n as int) =~= es); }
    }
}

/// Whether `p` occurs somewhere in `s`.
pub fn contains_text_exec(s: &Vec<char>, p: &Vec<char>) -> (r: bool)
    ensures
        r == contains_text(s@, p@),
{
    let mut i: usize = 0;
    while i < s.len()
        invariant
            i <= s@.len(),
            forall|k: int| 0 <= k < i ==> !crate::text::occurs_at(s@, k, p@),
        decreases s@.len() - i,
    {
        if crate::text::occurs_at_exec(s, i, p) {
            return true;
        }
        i += 1;
    }
    if crate::text::occurs_at_exec(s, i, p) {
        return true;
    }
    proof {
        assert forall|k: int| !crate::text::occurs_at(s@, k, #[trigger] p@) by {
            if 0 <= k && k < i {
            } else if k > i {
                assert(!(k + p@.len() <= s@.len()));
            }
        }
    }
    false
}

impl Workflow {
    fn validate_variable_references(&self, result: &mut ValidationResult)
        ensures
            problems(final(result).warnings@) == problems(old(result).warnings@) + edge_warnings(self.edges@, self.variables@),
            final(result).errors@ == old(result).errors@,
    {
        let ghost es = self.edges@;
        let ghost start = problems(result.warnings@);
        let mut j: usize = 0;
        proof { assert(es.take(0) =~= Seq::<WorkflowEdge>::empty()); assert(start + Seq::<Problem>::empty() =~= start); }
        while j < self.edges.len()
            invariant
                es == self.edges@,
                j <= es.len(),
                problems(result.warnings@) == start + edge_warnings(es.take(j as int), self.variables@),
                result.errors@ == old(result).errors@,
            decreases es.len() - j,
        {
            let ghost before = problems(result.warnings@);
            proof { assert(es.take(j + 1).drop_last() =~= es.take(j as int)); }
            match &self.edges[j].condition {
                Some(c) => {
                    self.validate_condition_variables(c.as_str(), result);
                },
                None => {
                    proof { assert(before + Seq::<Problem>::empty() =~= before); }
                },
            }
            proof {
                assert(start + edge_warnings(es.take(j + 1), self.variables@) =~= problems(result.warnings@));
            }
            j += 1;
        }
        proof { assert(es.take(es.len() as int) =~= es); }
    }

    fn validate_condition_variables(&self, condition: &str, result: &mut ValidationResult)
        ensures
            problems(final(result).warnings@) == problems(old(result).warnings@) + condition_warnings(condition@, self.variables@),
            final(result).errors@ == old(result).errors@,
    {
        let ghost start = problems(result.warnings@);
        let cs = chars_of(condition);
        let probe = chars_of("has_var(");
        if contains_text_exec(&cs, &probe) {
            self.warn_undefined(HAS_VAR_PATTERN, condition, result);
        }
        let ghost mid = problems(result.warnings@);
        proof {
            assert(mid =~= start + if contains_text(condition@, "has_var("@) {
                pattern_warnings(HAS_VAR_PATTERN@, condition@, self.variables@)
            } else {
                Seq::empty()
            });
        }
        self.warn_undefined(DOLLAR_PATTERN, condition, result);
        self.warn_undefined(BRACE_PATTERN, condition, result);
        proof {
            assert(problems(result.warnings@) =~= start + condition_warnings(condition@, self.variables@));
        }
    }

    /// Warns about each name that `pattern`'s first group finds in
    /// `condition` and that is no workflow variable.
    fn warn_undefined(&self, pattern: &str, condition: &str, result: &mut ValidationResult)
        ensures
            problems(final(result).warnings@) == problems(old(result).warnings@) + pattern_warnings(pattern@, condition@, self.variables@),
            final(result).errors@ == old(result).errors@,
    {
        let ghost start = problems(result.warnings@);
        if crate::matching::pattern_error(pattern).is_some() {
            proof { assert(start + Seq::<Problem>::empty() =~= start); }
            return;
        }
        let ms = crate::matching::all_groups(pattern, condition);
        let ghost mv = crate::matching::matches_view(ms@);
        let mut i: usize = 0;
        proof { assert(mv.take(0) =~= Seq::<Seq<Option<Seq<char>>>>::empty()); assert(start + Seq::<Problem>::empty() =~= start); }
        while i < ms.len()
            invariant
                mv == crate::matching::matches_view(ms@),
                mv.len() == ms@.len(),
                i <= ms@.len(),
                problems(result.warnings@) == start + undefined_names(mv.take(i as int), self.variables@),
                result.errors@ == old(result).errors@,
            decreases ms@.len() - i,
        {
            let g = &ms[i];
            let ghost before = problems(result.warnings@);
            let ghost gv = crate::matching::groups_view(g@);
            proof {
                assert(mv.take(i + 1).drop_last() =~= mv.take(i as int));
                assert(mv.take(i + 1).last() == gv);
                assert(gv.len() == g@.len());
                if g@.len() > 1 { assert(gv[1] == crate::matching::opt_view(g@[1])); }
            }
            if g.len() > 1 {
                if let Some(name) = &g[1] {
                    if !self.variables.contains_key(name.as_str()) {
                        result.add_warning(ValidationError::UndefinedVariable(name.clone()));
                        proof { assert(problems(result.warnings@) =~= before + seq![Problem::UndefinedVariable(name@)]); }
                    } else {
                        proof { assert(before + Seq::<Problem>::empty() =~= before); }
                    }
                } else {
                    proof { assert(before + Seq::<Problem>::empty() =~= before); }
                }
            } else {
                proof { assert(before + Seq::<Problem>::empty() =~= before); }
            }
            proof {
                assert(start + undefined_names(mv.take(i + 1), self.variables@) =~= problems(result.warnings@));
            }
            i += 1;
        }
        proof { assert(mv.take(mv.len() as int) =~= mv); }
    }
}

/// The id that `from_requests` gives the `i`-th request.
pub open spec fn generated_id(i: nat) -> Seq<char> {
    "node_"@ + crate::json::decimal(i)
}

pub(crate) proof fn lemma_decimal_value(n: nat)
    ensures
        crate::json::digits_value(crate::json::decimal(n)) == n,
        crate::json::decimal(n).len() > 0,
    decreases n,
{
    let t = crate::json::decimal(n);
    if n < 10 {
        assert(t.drop_last() =~= Seq::<char>::empty());
        assert(t.last() as int == 48 + n);
        assert(crate::json::digits_value(t) == crate::json::digits_value(t.drop_last()) * 10
            + ((t.last() as int - 48) as nat));
    } else {
        lemma_decimal_value(n / 10);
        let s = crate::json::decimal(n / 10);
        assert(t.drop_last() =~= s);
        assert(t.last() as int == 48 + n % 10);
        assert(crate::json::digits_value(t) == crate::json::digits_value(s) * 10
            + ((t.last() as int - 48) as nat));
        assert(n == (n / 10) * 10 + n % 10);
    }
}

proof fn lemma_generated_ids_differ(i: nat, j: nat)
    requires
        i != j,
    ensures
        generated_id(i) != generated_id(j),
{
    reveal_strlit("node_");
    lemma_decimal_value(i);
    lemma_decimal_value(j);
    let a = generated_id(i);
    let b = generated_id(j);
    if a == b {
        assert(a.subrange(5, a.len() as int) =~= crate::json::decimal(i));
        assert(b.subrange(5, b.len() as int) =~= crate::json::decimal(j));
    }
}

impl Workflow {
    /// A workflow whose nodes are the given requests, the `i`-th under the
    /// id `node_i`; a request that cannot be sent is left out.
    pub fn from_requests(requests: Vec<Request>, name: &str) -> (r: Self)
        ensures
            r.name@ == name@,
            r.edges@.len() == 0,
            r.variables@.len() == 0,
            forall|i: int| 0 <= i < requests@.len() ==> (r.nodes@.contains_key(#[trigger] generated_id(i as nat))
                <==> request_sendable(requests@[i].url@)),
            forall|i: int| 0 <= i < requests@.len() && r.nodes@.contains_key(#[trigger] generated_id(i as nat))
                ==> r.nodes@[generated_id(i as nat)].request == requests@[i],
            forall|k: Seq<char>| #[trigger] r.nodes@.contains_key(k) ==> exists|i: int|
                0 <= i < requests@.len() && k == #[trigger] generated_id(i as nat),
    {
        let mut workflow = Self::new(name);
        let ghost orig = requests@;
        let mut rest = requests;
        let total = rest.len();
        let mut i: usize = 0;
        proof { assert(orig.skip(0) =~= orig); }
        while rest.len() > 0
            invariant
                i <= orig.len(),
                rest@.len() + i == orig.len(),
                total == orig.len(),
                rest@ == orig.skip(i as int),
                workflow.name@ == name@,
                workflow.edges@.len() == 0,
                workflow.variables@.len() == 0,
                forall|q: int| 0 <= q < i ==> (workflow.nodes@.contains_key(#[trigger] generated_id(q as nat))
                    <==> request_sendable(orig[q].url@)),
                forall|q: int| 0 <= q < i && workflow.nodes@.contains_key(#[trigger] generated_id(q as nat))
                    ==> workflow.nodes@[generated_id(q as nat)].request == orig[q],
                forall|k: Seq<char>| #[trigger] workflow.nodes@.contains_key(k) ==> exists|q: int|
                    0 <= q < i && k == #[trigger] generated_id(q as nat),
            decreases rest@.len(),
        {
            let request = rest.remove(0);
            proof {
                assert(request == orig[i as int]);
                assert(orig.skip(i as int).drop_first() =~= orig.skip(i + 1));
            }
            let mut id = String::new();
            push_str(&mut id, "node_");
            let digits = crate::json::decimal_string(i as u64);
            push_str(&mut id, digits.as_str());
            let ghost gid = generated_id(i as nat);
            proof {
                assert(id@ == gid);
                assert(!workflow.nodes@.contains_key(gid)) by {
                    if workflow.nodes@.contains_key(gid) {
                        let q = choose|q: int| 0 <= q < i && gid == #[trigger] generated_id(q as nat);
                        lemma_generated_ids_differ(q as nat, i as nat);
                    }
                }
            }
            let node = WorkflowNode::new(request).with_id(id.as_str());
            let ghost before = workflow.nodes@;
            let _ = workflow.add_node(node);
            proof {
                assert forall|q: int| 0 <= q < i + 1 implies (workflow.nodes@.contains_key(#[trigger] generated_id(q as nat))
                    <==> request_sendable(orig[q].url@)) by {
                    if q < i {
                        lemma_generated_ids_differ(q as nat, i as nat);
                    }
                }
                assert forall|q: int| 0 <= q < i + 1 && workflow.nodes@.contains_key(#[trigger] generated_id(q as nat))
                    implies workflow.nodes@[generated_id(q as nat)].request == orig[q] by {
                    if q < i {
                        lemma_generated_ids_differ(q as nat, i as nat);
                    }
                }
                assert forall|k: Seq<char>| #[trigger] workflow.nodes@.contains_key(k) implies exists|q: int|
                    0 <= q < i + 1 && k == #[trigger] generated_id(q as nat) by {
                    if k != gid {
                        assert(before.contains_key(k));
                        let q = choose|q: int| 0 <= q < i && k == #[trigger] generated_id(q as nat);
                        assert(0 <= q < i + 1 && k == generated_id(q as nat));
                    } else {
                        let q: int = i as int;
                        assert(0 <= q < i + 1 && k == generated_id(q as nat));
                    }
                }
            }
            i += 1;
        }
        workflow
    }

    /// Sets a workflow variable.
    pub fn set_variable(&mut self, key: &str, value: JsonValue)
        ensures
            final(self).variables@ == old(self).variables@.insert(key@, value),
            final(self).nodes == old(self).nodes,
            final(self).edges == old(self).edges,
            final(self).name == old(self).name,
    {
        self.variables.insert(copy_str(key), value);
    }

    /// The value of a workflow variable.
    pub fn get_variable(&self, key: &str) -> (r: Option<&JsonValue>)
        ensures
            match r {
                Some(v) => self.variables@.contains_key(key@) && *v == self.variables@[key@],
                None => !self.variables@.contains_key(key@),
            },
    {
        self.variables.get(key)
    }
}

} // verus!
