use vstd::prelude::*;

use crate::graph::{GraphError, ValidationError, WorkflowEdge};
use crate::json::{Json, JsonValue, all_digits, digits_value, number_as_u64};
use crate::strmap::StrMap;
use crate::text::{chars_of, copy_str, occurs_at, occurs_at_exec, push_str, str_eq, string_from_chars, trim, trim_exec};
use crate::variables::VariableStore;

verus! {

/// Why running a workflow failed.
#[derive(Debug, PartialEq)]
pub enum ExecutionError {
    NodeNotFound(String),
    HttpRequestFailed(String),
    VariableExtractionFailed(String),
    ConditionEvaluationFailed(String),
    WorkflowFailed(String, String),
    Cancelled,
    MaxRetriesExceeded(String),
    Graph(GraphError),
}

impl ExecutionError {
    /// The human-readable text of the error.
    pub fn message(&self) -> (r: String)
        ensures
            match self {
                ExecutionError::NodeNotFound(id) => r@ == "Node '"@ + id@ + "' not found"@,
                ExecutionError::HttpRequestFailed(m) => r@ == "HTTP request failed: "@ + m@,
                ExecutionError::VariableExtractionFailed(m) => r@ == "Variable extraction failed: "@ + m@,
                ExecutionError::ConditionEvaluationFailed(m) => r@ == "Condition evaluation failed: "@ + m@,
                ExecutionError::WorkflowFailed(id, m) => r@ == "Workflow execution failed at node '"@ + id@
                    + "': "@ + m@,
                ExecutionError::Cancelled => r@ == "Workflow was cancelled"@,
                ExecutionError::MaxRetriesExceeded(id) => r@ == "Max retries exceeded for node '"@ + id@ + "'"@,
                ExecutionError::Graph(g) => r@ == "Graph error: "@ + g.text(),
            },
    {
        let mut out = String::new();
        match self {
            ExecutionError::NodeNotFound(id) => {
                push_str(&mut out, "Node '");
                push_str(&mut out, id.as_str());
                push_str(&mut out, "' not found");
            },
            ExecutionError::HttpRequestFailed(m) => {
                push_str(&mut out, "HTTP request failed: ");
                push_str(&mut out, m.as_str());
            },
            ExecutionError::VariableExtractionFailed(m) => {
                push_str(&mut out, "Variable extraction failed: ");
                push_str(&mut out, m.as_str());
            },
            ExecutionError::ConditionEvaluationFailed(m) => {
                push_str(&mut out, "Condition evaluation failed: ");
                push_str(&mut out, m.as_str());
            },
            ExecutionError::WorkflowFailed(id, m) => {
                push_str(&mut out, "Workflow execution failed at node '");
                push_str(&mut out, id.as_str());
                push_str(&mut out, "': ");
                push_str(&mut out, m.as_str());
            },
            ExecutionError::Cancelled => {
                push_str(&mut out, "Workflow was cancelled");
            },
            ExecutionError::MaxRetriesExceeded(id) => {
                push_str(&mut out, "Max retries exceeded for node '");
                push_str(&mut out, id.as_str());
                push_str(&mut out, "'");
            },
            ExecutionError::Graph(g) => {
                push_str(&mut out, "Graph error: ");
                let t = g.message();
                push_str(&mut out, t.as_str());
            },
        }
        out
    }
}

/// Where a run of a workflow stands.
#[derive(Debug, Clone, Copy, PartialEq, Eq, Structural)]
pub enum WorkflowState {
    Pending,
    Running,
    Done,
    Failed,
    Cancelled,
}

impl Default for WorkflowState {
    fn default() -> (r: Self)
        ensures
            r == WorkflowState::Pending,
    {
        WorkflowState::Pending
    }
}

/// What a run does when a node fails.
#[derive(Debug, Clone, Copy, PartialEq, Eq, Structural)]
pub enum ErrorStrategy {
    Stop,
    Continue,
    Retry,
}

/// The text of the problem with a retry configuration, if it has one.
pub open spec fn retry_config_problem(max_attempts: u32, base_delay_ms: u64, multiplier_positive: bool) -> Option<
    Seq<char>,
> {
    if max_attempts == 0 {
        Some("max_attempts must be greater than 0"@)
    } else if base_delay_ms == 0 {
        Some("base_delay_ms must be greater than 0"@)
    } else if !multiplier_positive {
        Some("backoff_multiplier must be greater than 0"@)
    } else {
        None
    }
}

/// Checks a retry configuration: at least one attempt, a delay, and a
/// multiplier that is not at most zero (`multiplier_positive`).
pub fn validate_retry_config(max_attempts: u32, base_delay_ms: u64, multiplier_positive: bool) -> (r: Result<
    (),
    ValidationError,
>)
    ensures
        match retry_config_problem(max_attempts, base_delay_ms, multiplier_positive) {
            None => r is Ok,
            Some(m) => r matches Err(ValidationError::InvalidRetryConfig(t)) && t@ == m,
        },
{
    if max_attempts == 0 {
        return Err(ValidationError::InvalidRetryConfig(copy_str("max_attempts must be greater than 0")));
    }
    if base_delay_ms == 0 {
        return Err(ValidationError::InvalidRetryConfig(copy_str("base_delay_ms must be greater than 0")));
    }
    if !multiplier_positive {
        return Err(ValidationError::InvalidRetryConfig(copy_str("backoff_multiplier must be greater than 0")));
    }
    Ok(())
}

/// What running one node gave: the status code of the response when one
/// came, the error when it failed, and the variables read from the response.
pub struct NodeExecutionResult {
    pub node_id: String,
    pub status: Option<u16>,
    pub error: Option<String>,
    pub extracted_variables: StrMap<JsonValue>,
}

/// Runs workflows against a store of variables.
pub struct WorkflowExecutor {
    pub variables: VariableStore,
    pub cancelled: bool,
}

/// A comparison of the status code with a number.
pub enum StatusTest {
    Equal,
    NotEqual,
    AtLeast,
    Below,
}

pub open spec fn status_passes(t: StatusTest, code: u16, expected: u16) -> bool {
    match t {
        StatusTest::Equal => code == expected,
        StatusTest::NotEqual => code != expected,
        StatusTest::AtLeast => code >= expected,
        StatusTest::Below => code < expected,
    }
}

/// The value of a decimal text as `u16::from_str` reads it: digits,
/// optionally after a `+`, at most 65535.
pub open spec fn parse_u16(s: Seq<char>) -> Option<u16> {
    let d = if s.len() > 0 && s[0] == '+' { s.drop_first() } else { s };
    if all_digits(d) && digits_value(d) <= u16::MAX {
        Some(digits_value(d) as u16)
    } else {
        None
    }
}

/// `s` without `"` at either end (`str::trim_matches('"')`).
pub open spec fn strip_quotes(s: Seq<char>) -> Seq<char>
    decreases s.len(),
{
    if s.len() > 0 && s[0] == '"' {
        strip_quotes(s.drop_first())
    } else if s.len() > 0 && s.last() == '"' {
        strip_quotes(s.drop_last())
    } else {
        s
    }
}

/// The first position at or after `i` where `p` occurs in `s`, or -1.
pub open spec fn find_from(s: Seq<char>, p: Seq<char>, i: int) -> int
    decreases s.len() + 1 - i,
{
    if i < 0 || i + p.len() > s.len() {
        -1
    } else if occurs_at(s, i, p) {
        i
    } else {
        find_from(s, p, i + 1)
    }
}

/// Whether `s` ends with `p`.
pub open spec fn ends_with(s: Seq<char>, p: Seq<char>) -> bool {
    p.len() <= s.len() && s.subrange(s.len() - p.len(), s.len() as int) == p
}

/// The outcome of a status test whose number starts at `start`.
pub open spec fn status_outcome(c: Seq<char>, start: int, t: StatusTest, store: VariableStore) -> Result<
    bool,
    Seq<char>,
> {
    match parse_u16(trim(c.subrange(start, c.len() as int))) {
        None => Err("Invalid status code in condition: "@ + c),
        Some(expected) => match store.lookup("status_code"@) {
            Some(v) => match number_as_u64(v) {
                Some(code) => Ok(status_passes(t, (code % 65536) as u16, expected)),
                None => Ok(false),
            },
            None => Ok(false),
        },
    }
}

/// The outcome of `left == right` with `==` at position `k`: whether the
/// variable `left` holds the string `right`.
pub open spec fn equality_outcome(c: Seq<char>, k: int, store: VariableStore) -> bool {
    let left = trim(c.subrange(0, k));
    let right = strip_quotes(trim(c.subrange(k + 2, c.len() as int)));
    match store.lookup(left) {
        Some(v) => v == Json::Str(right),
        None => false,
    }
}

/// What an edge condition evaluates to, or the text of why it cannot be.
pub open spec fn condition_outcome(condition: Option<Seq<char>>, store: VariableStore) -> Result<bool, Seq<char>> {
    match condition {
        None => Ok(true),
        Some(c) => if c == "true"@ {
            Ok(true)
        } else if c == "false"@ {
            Ok(false)
        } else if occurs_at(c, 0, "status == "@) {
            status_outcome(c, 10, StatusTest::Equal, store)
        } else if occurs_at(c, 0, "status != "@) {
            status_outcome(c, 10, StatusTest::NotEqual, store)
        } else if occurs_at(c, 0, "status >= "@) {
            status_outcome(c, 10, StatusTest::AtLeast, store)
        } else if occurs_at(c, 0, "status < "@) {
            status_outcome(c, 8, StatusTest::Below, store)
        } else if occurs_at(c, 0, "has_var("@) && ends_with(c, ")"@) {
            Ok(store.lookup(trim(c.subrange(8, c.len() - 1))) is Some)
        } else if find_from(c, "=="@, 0) >= 0 && find_from(c, "=="@, find_from(c, "=="@, 0) + 2) < 0 {
            Ok(equality_outcome(c, find_from(c, "=="@, 0), store))
        } else {
            Err("Unsupported condition: "@ + c)
        },
    }
}

/// The characters of `s` from `lo` up to `hi`.
pub fn sub_chars(s: &Vec<char>, lo: usize, hi: usize) -> (r: Vec<char>)
    requires
        lo <= hi <= s@.len(),
    ensures
        r@ == s@.subrange(lo as int, hi as int),
{
    let mut out: Vec<char> = Vec::new();
    let mut k = lo;
    while k < hi
        invariant
            lo <= k <= hi <= s@.len(),
            out@ == s@.subrange(lo as int, k as int),
        decreases hi - k,
    {
        out.push(s[k]);
        k += 1;
        proof { assert(out@ =~= s@.subrange(lo as int, k as int)); }
    }
    out
}

/// `u16::from_str` on the characters of `s`.
pub fn parse_u16_exec(s: &Vec<char>) -> (r: Option<u16>)
    ensures
        r == parse_u16(s@),
{
    let n = crate::variables::parse_index_exec(s, 0, s.len());
    proof {
        assert(s@.subrange(0, s@.len() as int) =~= s@);
    }
    match n {
        Some(v) => {
            if v <= 65535 {
                Some(v as u16)
            } else {
                None
            }
        },
        None => None,
    }
}

/// `s` without `"` at either end.
pub fn strip_quotes_exec(s: &Vec<char>) -> (r: Vec<char>)
    ensures
        r@ == strip_quotes(s@),
{
    let mut lo: usize = 0;
    proof { assert(s@.subrange(0, s@.len() as int) =~= s@); }
    while lo < s.len() && s[lo] == '"'
        invariant
            lo <= s@.len(),
            strip_quotes(s@) == strip_quotes(s@.subrange(lo as int, s@.len() as int)),
        decreases s@.len() - lo,
    {
        proof {
            let t = s@.subrange(lo as int, s@.len() as int);
            assert(t.drop_first() =~= s@.subrange(lo + 1, s@.len() as int));
        }
        lo += 1;
    }
    let mut hi: usize = s.len();
    while hi > lo && s[hi - 1] == '"'
        invariant
            lo <= hi <= s@.len(),
            lo < s@.len() ==> s@[lo as int] != '"',
            strip_quotes(s@) == strip_quotes(s@.subrange(lo as int, hi as int)),
        decreases hi - lo,
    {
        proof {
            let t = s@.subrange(lo as int, hi as int);
            assert(t[0] == s@[lo as int]);
            assert(t.drop_last() =~= s@.subrange(lo as int, hi - 1));
        }
        hi -= 1;
    }
    proof {
        let t = s@.subrange(lo as int, hi as int);
        if t.len() > 0 {
            assert(t[0] == s@[lo as int]);
            assert(t.last() == s@[hi - 1]);
        }
    }
    sub_chars(s, lo, hi)
}

/// The first position at or after `i` where `p` occurs in `s`.
pub fn find_from_exec(s: &Vec<char>, p: &Vec<char>, i: usize) -> (r: Option<usize>)
    ensures
        match r {
            Some(k) => k as int == find_from(s@, p@, i as int) && i <= k && occurs_at(s@, k as int, p@),
            None => find_from(s@, p@, i as int) < 0,
        },
{
    if p.len() > s.len() {
        return None;
    }
    let last = s.len() - p.len();
    let mut j = i;
    while j <= last
        invariant
            last + p@.len() == s@.len(),
            i <= j,
            find_from(s@, p@, i as int) == find_from(s@, p@, j as int),
        decreases last + 1 - j,
    {
        if occurs_at_exec(s, j, p) {
            return Some(j);
        }
        if j == last {
            proof {
                assert(find_from(s@, p@, j + 1) == -1);
            }
            return None;
        }
        j += 1;
    }
    None
}

/// Whether `s` ends with `p`.
pub fn ends_with_exec(s: &Vec<char>, p: &Vec<char>) -> (r: bool)
    ensures
        r == ends_with(s@, p@),
{
    if p.len() > s.len() {
        return false;
    }
    occurs_at_exec(s, s.len() - p.len(), p)
}

fn status_passes_exec(t: &StatusTest, code: u16, expected: u16) -> (r: bool)
    ensures
        r == status_passes(*t, code, expected),
{
    match t {
        StatusTest::Equal => code == expected,
        StatusTest::NotEqual => code != expected,
        StatusTest::AtLeast => code >= expected,
        StatusTest::Below => code < expected,
    }
}

/// The error for a condition: `prefix` followed by the condition.
fn condition_error(prefix: &str, condition: &str) -> (r: ExecutionError)
    ensures
        r matches ExecutionError::ConditionEvaluationFailed(t) && t@ == prefix@ + condition@,
{
    let mut m = String::new();
    push_str(&mut m, prefix);
    push_str(&mut m, condition);
    ExecutionError::ConditionEvaluationFailed(m)
}

impl WorkflowExecutor {
    /// An executor with an empty store that has not been cancelled.
    pub fn new() -> (r: Self)
        ensures
            !r.cancelled,
            forall|k: Seq<char>| r.variables.lookup(k) is None,
    {
        let r = WorkflowExecutor { variables: VariableStore::new(), cancelled: false };
        r
    }

    /// The executor with `variables` as its store.
    pub fn with_variables(self, variables: VariableStore) -> (r: Self)
        ensures
            r.variables == variables,
            r.cancelled == self.cancelled,
    {
        WorkflowExecutor { variables, cancelled: self.cancelled }
    }

    /// Asks the run to stop.
    pub fn cancel(&mut self)
        ensures
            final(self).cancelled,
            final(self).variables == old(self).variables,
    {
        self.cancelled = true;
    }

    /// Whether the run was asked to stop.
    pub fn is_cancelled(&self) -> (r: bool)
        ensures
            r == self.cancelled,
    {
        self.cancelled
    }

    fn status_condition(&self, c: &Vec<char>, condition: &str, start: usize, t: StatusTest) -> (r: Result<
        bool,
        ExecutionError,
    >)
        requires
            c@ == condition@,
            start <= c@.len(),
        ensures
            match status_outcome(c@, start as int, t, self.variables) {
                Ok(b) => r matches Ok(x) && x == b,
                Err(m) => r matches Err(ExecutionError::ConditionEvaluationFailed(e)) && e@ == m,
            },
    {
        let rest = sub_chars(c, start, c.len());
        let number = trim_exec(&rest);
        match parse_u16_exec(&number) {
            None => Err(condition_error("Invalid status code in condition: ", condition)),
            Some(expected) => match self.variables.get("status_code") {
                Some(v) => match v.as_u64() {
                    Some(code) => Ok(status_passes_exec(&t, (code % 65536) as u16, expected)),
                    None => Ok(false),
                },
                None => Ok(false),
            },
        }
    }

    /// Evaluates the condition of an edge against the store: no condition,
    /// `true` and `false`, `status == N`, `status != N`, `status >= N`,
    /// `status < N`, `has_var(name)` and `name == value`.
    pub fn evaluate_edge_condition(&self, edge: &WorkflowEdge, _node_result: &NodeExecutionResult) -> (r: Result<
        bool,
        ExecutionError,
    >)
        ensures
            match condition_outcome(crate::matching::opt_view(edge.condition), self.variables) {
                Ok(b) => r matches Ok(x) && x == b,
                Err(m) => r matches Err(ExecutionError::ConditionEvaluationFailed(e)) && e@ == m,
            },
    {
        let condition = match &edge.condition {
            None => return Ok(true),
            Some(c) => c,
        };
        let cond = condition.as_str();
        if str_eq(cond, "true") {
            return Ok(true);
        }
        if str_eq(cond, "false") {
            return Ok(false);
        }
        let c = chars_of(cond);
        proof {
            reveal_strlit("status == ");
            reveal_strlit("status != ");
            reveal_strlit("status >= ");
            reveal_strlit("status < ");
            reveal_strlit("has_var(");
            reveal_strlit(")");
            reveal_strlit("==");
        }
        if occurs_at_exec(&c, 0, &chars_of("status == ")) {
            return self.status_condition(&c, cond, 10, StatusTest::Equal);
        }
        if occurs_at_exec(&c, 0, &chars_of("status != ")) {
            return self.status_condition(&c, cond, 10, StatusTest::NotEqual);
        }
        if occurs_at_exec(&c, 0, &chars_of("status >= ")) {
            return self.status_condition(&c, cond, 10, StatusTest::AtLeast);
        }
        if occurs_at_exec(&c, 0, &chars_of("status < ")) {
            return self.status_condition(&c, cond, 8, StatusTest::Below);
        }
        if occurs_at_exec(&c, 0, &chars_of("has_var(")) && ends_with_exec(&c, &chars_of(")")) {
            proof {
                assert(c@.subrange(0, 8)[7] == '(');
                assert(c@.subrange(c@.len() - 1, c@.len() as int)[0] == ')');
            }
            let inner = sub_chars(&c, 8, c.len() - 1);
            let name = string_from_chars(trim_exec(&inner).as_slice());
            return Ok(self.variables.get(name.as_str()).is_some());
        }
        let eq = chars_of("==");
        if let Some(k) = find_from_exec(&c, &eq, 0) {
            if find_from_exec(&c, &eq, k + 2).is_none() {
                let left = string_from_chars(trim_exec(&sub_chars(&c, 0, k)).as_slice());
                let right = strip_quotes_exec(&trim_exec(&sub_chars(&c, k + 2, c.len())));
                let right_text = string_from_chars(right.as_slice());
                return match self.variables.get(left.as_str()) {
                    Some(v) => match v.as_str() {
                        Some(s) => Ok(str_eq(s.as_str(), right_text.as_str())),
                        None => Ok(false),
                    },
                    None => Ok(false),
                };
            }
        }
        Err(condition_error("Unsupported condition: ", cond))
    }
}

} // verus!
