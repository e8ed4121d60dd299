use vstd::prelude::*;

use crate::engine::condition_outcome;
use crate::graph::{Workflow, WorkflowEdge, WorkflowNode, drops};
use crate::input::{BindingView, KeyAction, action_of};
use crate::json::Json;
use crate::logs_pane::{overflow, purge, LogEntry, LogLevel, LogsPane};
use crate::sidebar::{passes, truncated};
use crate::workflow_pane::{all_succeeded, some_failed, NodeStatus};
use crate::environments::without_key;
use crate::response_pane::{capped_lines, cut_lines, line_matches, lossy_text, match_indices, matches_for, ResponseViewMode};
use crate::text::text_lines;
use crate::text::trim;
use crate::variables::{VariableScope, VariableStore, interpolation, placeholder_name, substitute, PLACEHOLDER_PATTERN};
use crate::matching::{regex_all_groups, regex_compile};

verus! {

/// Adding a node keeps every edge between nodes: when `add_node` accepts a
/// node, the edges stay and the nodes only grow.
pub proof fn law_add_node_keeps_edges_internal(before: Workflow, after: Workflow, id: Seq<char>, node: WorkflowNode)
    requires
        before.edges_internal(),
        after.nodes@ == before.nodes@.insert(id, node),
        after.edges == before.edges,
    ensures
        after.edges_internal(),
{
    assert(after.pairs() == before.pairs());
}

/// Adding an edge that `add_edge` accepts (both ends are nodes) keeps every
/// edge between nodes.
pub proof fn law_add_edge_keeps_edges_internal(before: Workflow, after: Workflow, edge: WorkflowEdge)
    requires
        before.edges_internal(),
        before.nodes@.contains_key(edge.from@),
        before.nodes@.contains_key(edge.to@),
        after.nodes == before.nodes,
        after.edges@ == before.edges@.push(edge),
    ensures
        after.edges_internal(),
{
    assert forall|j: int| 0 <= j < after.edges@.len() implies after.nodes@.contains_key(#[trigger] after.pairs()[j].0)
        && after.nodes@.contains_key(after.pairs()[j].1) by {
        if j < before.edges@.len() {
            assert(after.pairs()[j] == before.pairs()[j]);
        } else {
            assert(after.pairs()[j] == (edge.from@, edge.to@));
        }
    }
}

/// Removing a node, with the edges that touch it as `remove_node` does,
/// keeps every edge between nodes.
pub proof fn law_remove_node_keeps_edges_internal(before: Workflow, after: Workflow, id: Seq<char>)
    requires
        before.edges_internal(),
        after.nodes@ == before.nodes@.remove(id),
        after.edges@ == before.edges@.filter(|e: WorkflowEdge| !drops(e, id, id, false)),
    ensures
        after.edges_internal(),
{
    let pred = |e: WorkflowEdge| !drops(e, id, id, false);
    assert forall|j: int| 0 <= j < after.edges@.len() implies after.nodes@.contains_key(#[trigger] after.pairs()[j].0)
        && after.nodes@.contains_key(after.pairs()[j].1) by {
        let e = after.edges@[j];
        before.edges@.lemma_filter_pred(pred, j);
        assert(pred(e));
        assert(e.from@ != id && e.to@ != id);
        assert(after.edges@.contains(e));
        before.edges@.lemma_filter_contains_rev(pred, e);
        let k = choose|k: int| 0 <= k < before.edges@.len() && before.edges@[k] == e;
        assert(0 <= k < before.edges@.len());
        assert(before.pairs()[k] == (e.from@, e.to@));
        assert(before.edges_internal());
        assert(before.nodes@.contains_key(before.pairs()[k].0));
        assert(before.nodes@.contains_key(before.pairs()[k].1));
        assert(after.pairs()[j] == (e.from@, e.to@));
    }
}

/// Removing edges as `remove_edge` does keeps every edge between nodes.
pub proof fn law_remove_edge_keeps_edges_internal(before: Workflow, after: Workflow, from: Seq<char>, to: Seq<char>)
    requires
        before.edges_internal(),
        after.nodes == before.nodes,
        after.edges@ == before.edges@.filter(|e: WorkflowEdge| !drops(e, from, to, true)),
    ensures
        after.edges_internal(),
{
    let pred = |e: WorkflowEdge| !drops(e, from, to, true);
    assert forall|j: int| 0 <= j < after.edges@.len() implies after.nodes@.contains_key(#[trigger] after.pairs()[j].0)
        && after.nodes@.contains_key(after.pairs()[j].1) by {
        let e = after.edges@[j];
        assert(after.edges@.contains(e));
        before.edges@.lemma_filter_contains_rev(pred, e);
        let k = choose|k: int| 0 <= k < before.edges@.len() && before.edges@[k] == e;
        assert(0 <= k < before.edges@.len());
        assert(before.pairs()[k] == (e.from@, e.to@));
        assert(before.edges_internal());
        assert(before.nodes@.contains_key(before.pairs()[k].0));
        assert(before.nodes@.contains_key(before.pairs()[k].1));
        assert(after.pairs()[j] == (e.from@, e.to@));
    }
}

/// A value set in a scope is read back from that scope, and from any lookup
/// when the scope is the local one; lookups of other names do not change.
pub proof fn law_store_read_after_write(
    before: VariableStore,
    after: VariableStore,
    key: Seq<char>,
    value: Json,
    scope: VariableScope,
)
    requires
        after.scope(scope) == before.scope(scope).insert(key, value),
        forall|s: VariableScope| s != scope ==> after.scope(s) == before.scope(s),
    ensures
        after.scope(scope).contains_key(key) && after.scope(scope)[key] == value,
        scope == VariableScope::Local ==> after.lookup(key) == Some(value),
        forall|k: Seq<char>| k != key ==> #[trigger] after.lookup(k) == before.lookup(k),
{
    assert(after.scope(VariableScope::Local) == before.scope(VariableScope::Local).insert(key, value)
        || after.scope(VariableScope::Local) == before.scope(VariableScope::Local));
    assert forall|k: Seq<char>| k != key implies #[trigger] after.lookup(k) == before.lookup(k) by {
        if scope != VariableScope::Local {
            assert(after.scope(VariableScope::Local) == before.scope(VariableScope::Local));
        }
        if scope != VariableScope::Workflow {
            assert(after.scope(VariableScope::Workflow) == before.scope(VariableScope::Workflow));
        }
        if scope != VariableScope::Global {
            assert(after.scope(VariableScope::Global) == before.scope(VariableScope::Global));
        }
    }
}

/// A local value hides a workflow value, which hides a global one; removing
/// the local value uncovers the one beneath.
pub proof fn law_store_remove_uncovers(before: VariableStore, after: VariableStore, key: Seq<char>)
    requires
        after.scope(VariableScope::Local) == before.scope(VariableScope::Local).remove(key),
        after.scope(VariableScope::Workflow) == before.scope(VariableScope::Workflow),
        after.scope(VariableScope::Global) == before.scope(VariableScope::Global),
    ensures
        after.lookup(key) == (if before.scope(VariableScope::Workflow).contains_key(key) {
            Some(before.scope(VariableScope::Workflow)[key])
        } else if before.scope(VariableScope::Global).contains_key(key) {
            Some(before.scope(VariableScope::Global)[key])
        } else {
            None
        }),
{
}

/// A binding set is read back; setting one binding leaves the others; a
/// removed binding means `Unknown`.
pub proof fn law_binding_read_after_write(m: Map<BindingView, KeyAction>, b: BindingView, a: KeyAction, c: BindingView)
    ensures
        action_of(m.insert(b, a), b) == a,
        c != b ==> action_of(m.insert(b, a), c) == action_of(m, c),
        action_of(m.remove(b), b) == KeyAction::Unknown,
        c != b ==> action_of(m.remove(b), c) == action_of(m, c),
{
}

/// Four steps of `next` bring the view mode of the response pane back.
pub proof fn law_view_mode_cycle(m: ResponseViewMode)
    ensures
        m.following().following().following().following() == m,
        m.following() != m,
{
}

/// An edge without a condition is always followed; `true` and `false` are
/// followed or not whatever the store holds.
pub proof fn law_literal_conditions(store: VariableStore)
    ensures
        condition_outcome(None, store) == Ok::<bool, Seq<char>>(true),
        condition_outcome(Some("true"@), store) == Ok::<bool, Seq<char>>(true),
        condition_outcome(Some("false"@), store) == Ok::<bool, Seq<char>>(false),
{
    reveal_strlit("true");
    reveal_strlit("false");
}

/// Substituting matches whose names the store does not know leaves the
/// text as it is.
pub proof fn law_unknown_names_substitute_nothing(text: Seq<char>, ms: Seq<Seq<Option<Seq<char>>>>, store: VariableStore)
    requires
        forall|i: int| 0 <= i < ms.len() ==> match placeholder_name(#[trigger] ms[i]) {
            Some(name) => store.lookup(trim(name)) is None,
            None => true,
        },
    ensures
        substitute(text, ms, store) == text,
    decreases ms.len(),
{
    if ms.len() > 0 {
        assert forall|i: int| 0 <= i < ms.drop_first().len() implies match placeholder_name(
            #[trigger] ms.drop_first()[i],
        ) {
            Some(name) => store.lookup(trim(name)) is None,
            None => true,
        } by {
            assert(ms.drop_first()[i] == ms[i + 1]);
        }
        assert(match placeholder_name(ms[0]) {
            Some(name) => store.lookup(trim(name)) is None,
            None => true,
        });
        law_unknown_names_substitute_nothing(text, ms.drop_first(), store);
    }
}

/// A placeholder whose name the store does not know stays as it is: when
/// the store knows none of the names found, interpolation gives the text
/// back.
pub proof fn law_interpolation_keeps_unknown_placeholders(text: Seq<char>, store: VariableStore)
    requires
        forall|i: int| 0 <= i < regex_all_groups(PLACEHOLDER_PATTERN@, text).len() ==> match placeholder_name(
            #[trigger] regex_all_groups(PLACEHOLDER_PATTERN@, text)[i],
        ) {
            Some(name) => store.lookup(trim(name)) is None,
            None => true,
        },
    ensures
        interpolation(text, store) == text,
{
    if regex_compile(PLACEHOLDER_PATTERN@) is None {
        law_unknown_names_substitute_nothing(text, regex_all_groups(PLACEHOLDER_PATTERN@, text), store);
    }
}

/// The log never holds more lines than its limit: adding a line to a log
/// within its limit leaves it within the limit, the new line last (where
/// the limit lets any line stay).
pub proof fn law_log_keeps_its_limit<M>(before: LogsPane<M>, after: LogsPane<M>, e: LogEntry)
    requires
        after.logged(before, e),
        before.logs@.len() <= before.max_logs,
    ensures
        after.logs@.len() <= after.max_logs,
        after.max_logs == before.max_logs,
        before.max_logs > 0 ==> after.logs@.last() == e,
{
}

/// What is left of the errors after entries leave the log: errors kept
/// before, none stamped with the time of an error entry that left.
proof fn lemma_purge(errors: Seq<LogEntry>, removed: Seq<LogEntry>, x: LogEntry)
    requires
        purge(errors, removed).contains(x),
    ensures
        errors.contains(x),
        forall|j: int| 0 <= j < removed.len() && removed[j].level == LogLevel::Error ==> removed[j].timestamp
            != x.timestamp,
    decreases removed.len(),
{
    if removed.len() > 0 {
        let rest = purge(errors, removed.drop_last());
        let gone = removed.last();
        if gone.level == LogLevel::Error {
            rest.lemma_filter_contains_rev(|y: LogEntry| y.timestamp != gone.timestamp, x);
        }
        lemma_purge(errors, removed.drop_last(), x);
        assert forall|j: int| 0 <= j < removed.len() && removed[j].level == LogLevel::Error implies removed[j].timestamp
            != x.timestamp by {
            if j < removed.len() - 1 {
                assert(removed.drop_last()[j] == removed[j]);
            }
        }
    }
}

/// Every error kept apart is an error line still in the log: adding a
/// line keeps it so, since an error line that leaves the log takes its
/// errors with it.
pub proof fn law_errors_stay_in_log<M>(before: LogsPane<M>, after: LogsPane<M>, e: LogEntry)
    requires
        after.logged(before, e),
        forall|x: LogEntry| #[trigger] before.errors@.contains(x) ==> x.level == LogLevel::Error && before.logs@.contains(x),
    ensures
        forall|x: LogEntry| #[trigger] after.errors@.contains(x) ==> x.level == LogLevel::Error && after.logs@.contains(x),
{
    let all = before.logs@.push(e);
    let k = overflow(all.len() as int, before.max_logs as int);
    let errors0 = if e.level == LogLevel::Error { before.errors@.push(e) } else { before.errors@ };
    assert forall|x: LogEntry| #[trigger] after.errors@.contains(x) implies x.level == LogLevel::Error
        && after.logs@.contains(x) by {
        lemma_purge(errors0, all.take(k), x);
        assert(errors0.contains(x));
        let i = choose|i: int| 0 <= i < errors0.len() && errors0[i] == x;
        if i < before.errors@.len() {
            assert(before.errors@.contains(before.errors@[i]));
        }
        assert(x.level == LogLevel::Error);
        assert(all.contains(x)) by {
            if i < before.errors@.len() {
                assert(before.errors@[i] == x);
                assert(before.errors@.contains(x));
                let j = choose|j: int| 0 <= j < before.logs@.len() && before.logs@[j] == x;
                assert(all[j] == x);
            } else {
                assert(all[all.len() - 1] == x);
            }
        }
        let j = choose|j: int| 0 <= j < all.len() && all[j] == x;
        if j < k {
            assert(all.take(k)[j] == x);
        } else {
            assert(after.logs@[j - k] == x);
        }
    }
}

/// A node that fails fails the run: once a node's status is an error, the
/// statuses are not all successes and one of them failed.
pub proof fn law_failed_node_fails_run(statuses: Map<Seq<char>, NodeStatus>, id: Seq<char>)
    ensures
        !all_succeeded(statuses.insert(id, NodeStatus::Error)),
        some_failed(statuses.insert(id, NodeStatus::Error)),
{
    let m = statuses.insert(id, NodeStatus::Error);
    assert(m.contains_key(id) && m[id] == NodeStatus::Error);
}

/// A run whose every node succeeded is done: the statuses after the last
/// success are all successes and none failed.
pub proof fn law_successes_finish_run(statuses: Map<Seq<char>, NodeStatus>, id: Seq<char>)
    requires
        all_succeeded(statuses),
    ensures
        all_succeeded(statuses.insert(id, NodeStatus::Success)),
        !some_failed(statuses.insert(id, NodeStatus::Success)),
{
}

/// A cut sidebar name fits its width, and a name that fits is left whole.
pub proof fn law_truncation_fits(text: Seq<char>, max: nat)
    ensures
        truncated(text, max).len() <= max,
        text.len() <= max ==> truncated(text, max) == text,
{
}

/// An empty filter hides nothing.
pub proof fn law_empty_filter_shows_all(text: Seq<char>)
    ensures
        passes(Seq::empty(), text),
{
}


/// The first build of a response's lines keeps at most ten screens of
/// lines and the line that says they were cut.
pub proof fn law_first_build_is_capped(lines: Seq<Seq<char>>, max_visible: nat)
    ensures
        capped_lines(lines, max_visible as int, false).len() <= max_visible * 10 + 1,
        lines.len() <= max_visible * 10 ==> capped_lines(lines, max_visible as int, false) == lines,
{
}

/// Streaming a body in two chunks shows the same lines as streaming it in one.
pub proof fn law_stream_chunks_join(before: Seq<u8>, a: Seq<u8>, b: Seq<u8>, cap: int)
    ensures
        cut_lines(text_lines(lossy_text((before + a) + b)), cap) == cut_lines(
            text_lines(lossy_text(before + (a + b))),
            cap,
        ),
{
    assert((before + a) + b =~= before + (a + b));
}

proof fn lemma_match_indices(lines: Seq<Seq<char>>, term: Seq<char>, n: nat)
    requires
        n <= lines.len(),
        lines.len() <= usize::MAX,
    ensures
        forall|i: int, j: int| 0 <= i < j < match_indices(lines, term, n).len() ==> match_indices(lines, term, n)[i]
            < match_indices(lines, term, n)[j],
        forall|i: int|
            0 <= i < match_indices(lines, term, n).len() ==> {
                let k = #[trigger] match_indices(lines, term, n)[i] as int;
                0 <= k < n && line_matches(lines[k], term)
            },
        forall|k: int| 0 <= k < n && line_matches(lines[k], term) ==> match_indices(lines, term, n).contains(k as usize),
    decreases n,
{
    if n > 0 {
        lemma_match_indices(lines, term, (n - 1) as nat);
        let prev = match_indices(lines, term, (n - 1) as nat);
        let cur = match_indices(lines, term, n);
        let last = (n - 1) as usize;
        if line_matches(lines[n - 1], term) {
            assert(cur == prev.push(last));
            assert forall|i: int, j: int| 0 <= i < j < cur.len() implies cur[i] < cur[j] by {
                if j < prev.len() {
                    assert(cur[i] == prev[i] && cur[j] == prev[j]);
                } else {
                    assert(cur[i] == prev[i]);
                    assert(prev[i] < n - 1);
                }
            }
            assert forall|i: int| 0 <= i < cur.len() implies {
                let k = #[trigger] cur[i] as int;
                0 <= k < n && line_matches(lines[k], term)
            } by {
                if i < prev.len() {
                    assert(cur[i] == prev[i]);
                }
            }
        } else {
            assert(cur == prev);
        }
        assert forall|k: int| 0 <= k < n && line_matches(lines[k], term) implies cur.contains(k as usize) by {
            if k < n - 1 {
                let w = choose|w: int| 0 <= w < prev.len() && prev[w] == k as usize;
                assert(cur[w] == prev[w]);
            } else {
                assert(cur[cur.len() - 1] == k as usize);
            }
        }
    }
}

/// A search finds exactly the lines that hold the term, ignoring case, in
/// the order they come.
pub proof fn law_search_finds_matching_lines(lines: Seq<Seq<char>>, term: Seq<char>)
    requires
        term.len() > 0,
        lines.len() <= usize::MAX,
    ensures
        forall|i: int, j: int| 0 <= i < j < matches_for(lines, term).len() ==> matches_for(lines, term)[i]
            < matches_for(lines, term)[j],
        forall|i: int|
            0 <= i < matches_for(lines, term).len() ==> {
                let k = #[trigger] matches_for(lines, term)[i] as int;
                0 <= k < lines.len() && line_matches(lines[k], term)
            },
        forall|k: int|
            0 <= k < lines.len() && line_matches(lines[k], term) ==> matches_for(lines, term).contains(k as usize),
{
    lemma_match_indices(lines, term, lines.len());
}

proof fn lemma_without_absent_key(vs: Seq<(Seq<char>, Seq<char>, bool)>, key: Seq<char>)
    requires
        forall|i: int| 0 <= i < vs.len() ==> (#[trigger] vs[i]).0 != key,
    ensures
        without_key(vs, key) == vs,
    decreases vs.len(),
{
    if vs.len() > 0 {
        lemma_without_absent_key(vs.drop_last(), key);
        assert(vs.drop_last().push(vs.last()) =~= vs);
    }
}

/// Deleting the key of a variable just added takes the environment back to
/// what it was, when no other variable had that key.
pub proof fn law_remove_undoes_add(vs: Seq<(Seq<char>, Seq<char>, bool)>, var: (Seq<char>, Seq<char>, bool))
    requires
        forall|i: int| 0 <= i < vs.len() ==> (#[trigger] vs[i]).0 != var.0,
    ensures
        without_key(vs.push(var), var.0) == vs,
{
    assert(vs.push(var).drop_last() =~= vs);
    lemma_without_absent_key(vs, var.0);
}

} // verus!

verus! {

/// Every character of a number written in decimal is a digit.
proof fn lemma_decimal_digits(n: nat)
    ensures
        crate::json::all_digits(crate::json::decimal(n)),
        crate::json::digits_value(crate::json::decimal(n)) == n,
    decreases n,
{
    let t = crate::json::decimal(n);
    crate::graph::lemma_decimal_value(n);
    if n < 10 {
        assert(t.drop_last() =~= Seq::<char>::empty());
        assert(crate::json::is_digit(t[0]));
    } else {
        lemma_decimal_digits(n / 10);
        let s = crate::json::decimal(n / 10);
        assert(t.drop_last() =~= s);
        assert forall|i: int| 0 <= i < t.len() implies crate::json::is_digit(#[trigger] t[i]) by {
            if i < s.len() {
                assert(t[i] == s[i]);
            }
        }
        assert(n == (n / 10) * 10 + n % 10);
    }
}

/// A number written in decimal has no white space to trim.
proof fn lemma_trim_decimal(n: nat)
    ensures
        trim(crate::json::decimal(n)) == crate::json::decimal(n),
        crate::json::decimal(n)[0] != '+',
{
    let t = crate::json::decimal(n);
    lemma_decimal_digits(n);
    assert(crate::json::is_digit(t[0]));
    assert(crate::json::is_digit(t[t.len() - 1]));
    assert(crate::text::trim_start(t) == t);
    assert(crate::text::trim_end(t) == t);
}

/// The outcome of a status test written `prefix` then the number `n`, the
/// store holding the status code `code` as a number.
proof fn lemma_status_test(store: VariableStore, code: u16, n: u16, prefix: Seq<char>, start: int, t: crate::engine::StatusTest)
    requires
        store.lookup("status_code"@) == Some(Json::Number(crate::json::decimal(code as nat))),
        start == prefix.len() || (prefix.len() > 0 && start == prefix.len() - 1 && prefix.last() == ' '),
    ensures
        crate::engine::status_outcome(prefix + crate::json::decimal(n as nat), start, t, store)
            == Ok::<bool, Seq<char>>(crate::engine::status_passes(t, code, n)),
{
    let d = crate::json::decimal(n as nat);
    let c = prefix + d;
    lemma_trim_decimal(n as nat);
    if start == prefix.len() {
        assert(c.subrange(start, c.len() as int) =~= d);
    } else {
        let sd = c.subrange(start, c.len() as int);
        assert(sd[0] == ' ');
        assert(sd.drop_first() =~= d);
        lemma_decimal_digits(n as nat);
        assert(crate::json::is_digit(d[0]));
        assert(crate::text::trim_start(d) == d);
        assert(crate::text::trim_start(sd) == crate::text::trim_start(d));
        assert(trim(sd) == trim(d));
    }
    lemma_decimal_digits(n as nat);
    lemma_decimal_digits(code as nat);
    assert(crate::engine::parse_u16(trim(d)) == Some(n));
    assert(crate::json::number_as_u64(Json::Number(crate::json::decimal(code as nat))) == Some(code as u64));
    assert(((code as u64) % 65536) as u16 == code);
}

/// The status tests compare the stored status code with the number written
/// after them: `status == n` holds exactly when the code is `n`,
/// `status != n` exactly when it is not, `status >= n` when it is at least
/// `n` and `status < n` when it is below.
pub proof fn law_status_conditions(store: VariableStore, code: u16, n: u16)
    requires
        store.lookup("status_code"@) == Some(Json::Number(crate::json::decimal(code as nat))),
    ensures
        condition_outcome(Some("status == "@ + crate::json::decimal(n as nat)), store) == Ok::<bool, Seq<char>>(code == n),
        condition_outcome(Some("status != "@ + crate::json::decimal(n as nat)), store) == Ok::<bool, Seq<char>>(code != n),
        condition_outcome(Some("status >= "@ + crate::json::decimal(n as nat)), store) == Ok::<bool, Seq<char>>(code >= n),
        condition_outcome(Some("status < "@ + crate::json::decimal(n as nat)), store) == Ok::<bool, Seq<char>>(code < n),
{
    reveal_strlit("status == ");
    reveal_strlit("status != ");
    reveal_strlit("status >= ");
    reveal_strlit("status < ");
    reveal_strlit("true");
    reveal_strlit("false");
    let d = crate::json::decimal(n as nat);
    lemma_decimal_digits(n as nat);
    let eq = "status == "@ + d;
    let ne = "status != "@ + d;
    let ge = "status >= "@ + d;
    let lt = "status < "@ + d;
    lemma_status_test(store, code, n, "status == "@, 10, crate::engine::StatusTest::Equal);
    lemma_status_test(store, code, n, "status != "@, 10, crate::engine::StatusTest::NotEqual);
    lemma_status_test(store, code, n, "status >= "@, 10, crate::engine::StatusTest::AtLeast);
    lemma_status_test(store, code, n, "status < "@, 8, crate::engine::StatusTest::Below);
    assert(eq != "true"@ && eq != "false"@) by { assert(eq.len() > 5); }
    assert(ne != "true"@ && ne != "false"@) by { assert(ne.len() > 5); }
    assert(ge != "true"@ && ge != "false"@) by { assert(ge.len() > 5); }
    assert(lt != "true"@ && lt != "false"@) by { assert(lt.len() > 5); }
    assert(eq.subrange(0, 10) =~= "status == "@);
    assert(ne.subrange(0, 10) =~= "status != "@);
    assert(ge.subrange(0, 10) =~= "status >= "@);
    assert(lt.subrange(0, 9) =~= "status < "@);
    assert(!crate::text::occurs_at(ne, 0, "status == "@)) by { assert(ne[7] == '!'); }
    assert(!crate::text::occurs_at(ge, 0, "status == "@)) by { assert(ge[7] == '>'); }
    assert(!crate::text::occurs_at(ge, 0, "status != "@)) by { assert(ge[7] == '>'); }
    assert(!crate::text::occurs_at(lt, 0, "status == "@)) by { assert(lt[7] == '<'); }
    assert(!crate::text::occurs_at(lt, 0, "status != "@)) by { assert(lt[7] == '<'); }
    assert(!crate::text::occurs_at(lt, 0, "status >= "@)) by { assert(lt[7] == '<'); }
}

} // verus!

verus! {

/// The position `first_at_or_after` gives from `i`: the first match at or
/// below `offset` from `i` on, or 0 where there is none.
proof fn lemma_first_at_or_after(m: Seq<usize>, offset: int, i: int)
    requires
        0 <= i <= m.len(),
        m.len() <= usize::MAX,
    ensures
        (exists|j: int| i <= j < m.len() && m[j] >= offset) ==> {
            let s = crate::response_pane::first_at_or_after(m, offset, i) as int;
            &&& i <= s < m.len()
            &&& m[s] >= offset
            &&& forall|j: int| i <= j < s ==> m[j] < offset
        },
        (forall|j: int| i <= j < m.len() ==> m[j] < offset) ==> crate::response_pane::first_at_or_after(m, offset, i) == 0,
    decreases m.len() - i,
{
    if i < m.len() {
        lemma_first_at_or_after(m, offset, i + 1);
    }
}

/// A search of the response for a term selects the first match that lies
/// at or below the top of the view when the search is made (the matches
/// being the lines that hold the term, as `law_search_finds_matching_lines`
/// states), and the first match only when none lies there.
pub proof fn law_search_selects_first_match_in_view(lines: Seq<Seq<char>>, term: Seq<char>, offset: int, sel: usize)
    requires
        term.len() > 0,
        0 < lines.len() <= usize::MAX,
    ensures
        ({
            let m = matches_for(lines, term);
            let s = crate::response_pane::selected_for(lines, term, offset, sel) as int;
            &&& (exists|i: int| 0 <= i < m.len() && m[i] >= offset) ==> 0 <= s < m.len() && m[s] >= offset
                && forall|j: int| 0 <= j < s ==> m[j] < offset
            &&& (forall|i: int| 0 <= i < m.len() ==> m[i] < offset) ==> s == 0
        }),
{
    let m = match_indices(lines, term, lines.len());
    lemma_match_count(lines, term, lines.len());
    lemma_first_at_or_after(m, offset, 0);
    assert(matches_for(lines, term) == m);
    assert(crate::response_pane::selected_for(lines, term, offset, sel) == crate::response_pane::first_at_or_after(m, offset, 0));
    if exists|i: int| 0 <= i < m.len() && m[i] >= offset {
        let w = choose|i: int| 0 <= i < m.len() && m[i] >= offset;
        assert(0 <= w < m.len() && m[w] >= offset);
    }
}

/// There are no more matches than lines looked at.
proof fn lemma_match_count(lines: Seq<Seq<char>>, term: Seq<char>, n: nat)
    ensures
        match_indices(lines, term, n).len() <= n,
    decreases n,
{
    if n > 0 {
        lemma_match_count(lines, term, (n - 1) as nat);
    }
}

} // verus!

verus! {

/// A match whose first group names no variable gives a warning about that
/// name.
proof fn lemma_undefined_named(
    ms: Seq<Seq<Option<Seq<char>>>>,
    vars: Map<Seq<char>, crate::json::JsonValue>,
    i: int,
    name: Seq<char>,
)
    requires
        0 <= i < ms.len(),
        ms[i].len() > 1,
        ms[i][1] == Some(name),
        !vars.contains_key(name),
    ensures
        crate::graph::undefined_names(ms, vars).contains(crate::graph::Problem::UndefinedVariable(name)),
    decreases ms.len(),
{
    let prev = crate::graph::undefined_names(ms.drop_last(), vars);
    let all = crate::graph::undefined_names(ms, vars);
    if i == ms.len() - 1 {
        assert(all[prev.len() as int] == crate::graph::Problem::UndefinedVariable(name));
    } else {
        assert(ms.drop_last()[i] == ms[i]);
        lemma_undefined_named(ms.drop_last(), vars, i, name);
        let k = choose|k: int| 0 <= k < prev.len() && prev[k] == crate::graph::Problem::UndefinedVariable(name);
        assert(all[k] == prev[k]);
    }
}

/// The warnings about the edges include those about the condition of each.
proof fn lemma_edge_warnings_include(
    edges: Seq<WorkflowEdge>,
    vars: Map<Seq<char>, crate::json::JsonValue>,
    k: int,
    p: crate::graph::Problem,
)
    requires
        0 <= k < edges.len(),
        edges[k].condition matches Some(c) && crate::graph::condition_warnings(c@, vars).contains(p),
    ensures
        crate::graph::edge_warnings(edges, vars).contains(p),
    decreases edges.len(),
{
    let prev = crate::graph::edge_warnings(edges.drop_last(), vars);
    let all = crate::graph::edge_warnings(edges, vars);
    if k == edges.len() - 1 {
        let cw = crate::graph::condition_warnings(edges[k].condition->0@, vars);
        let j = choose|j: int| 0 <= j < cw.len() && cw[j] == p;
        assert(all == prev + cw);
        assert(all[prev.len() + j] == p);
    } else {
        assert(edges.drop_last()[k] == edges[k]);
        lemma_edge_warnings_include(edges.drop_last(), vars, k, p);
        let j = choose|j: int| 0 <= j < prev.len() && prev[j] == p;
        assert(all[j] == prev[j]);
    }
}

/// Validating a workflow warns about every variable that an edge condition
/// names and the workflow does not define: a `${name}` or `{{name}}`
/// reference, or a `has_var(name)` test, as the valid pattern for it
/// finds them in the condition (each match's first group).
pub proof fn law_undefined_condition_names_warned(w: Workflow, k: int, pattern: Seq<char>, i: int, name: Seq<char>)
    requires
        0 <= k < w.edges@.len(),
        w.edges@[k].condition is Some,
        ({
            let c = w.edges@[k].condition->0@;
            &&& pattern == crate::graph::DOLLAR_PATTERN@ || pattern == crate::graph::BRACE_PATTERN@ || (pattern
                == crate::graph::HAS_VAR_PATTERN@ && crate::graph::contains_text(c, "has_var("@))
            &&& crate::matching::regex_compile(pattern) is None
            &&& 0 <= i < regex_all_groups(pattern, c).len()
            &&& regex_all_groups(pattern, c)[i].len() > 1
            &&& regex_all_groups(pattern, c)[i][1] == Some(name)
        }),
        !w.variables@.contains_key(name),
    ensures
        crate::graph::edge_warnings(w.edges@, w.variables@).contains(crate::graph::Problem::UndefinedVariable(name)),
{
    let c = w.edges@[k].condition->0@;
    let vars = w.variables@;
    let p = crate::graph::Problem::UndefinedVariable(name);
    lemma_undefined_named(regex_all_groups(pattern, c), vars, i, name);
    let pw = crate::graph::pattern_warnings(pattern, c, vars);
    assert(pw == crate::graph::undefined_names(regex_all_groups(pattern, c), vars));
    let j = choose|j: int| 0 <= j < pw.len() && pw[j] == p;
    let hv = if crate::graph::contains_text(c, "has_var("@) {
        crate::graph::pattern_warnings(crate::graph::HAS_VAR_PATTERN@, c, vars)
    } else {
        Seq::empty()
    };
    let dw = crate::graph::pattern_warnings(crate::graph::DOLLAR_PATTERN@, c, vars);
    let bw = crate::graph::pattern_warnings(crate::graph::BRACE_PATTERN@, c, vars);
    let cw = crate::graph::condition_warnings(c, vars);
    assert(cw == hv + dw + bw);
    if pattern == crate::graph::BRACE_PATTERN@ {
        assert(cw[hv.len() + dw.len() + j] == p);
    } else if pattern == crate::graph::DOLLAR_PATTERN@ {
        assert(cw[hv.len() + j] == p);
    } else {
        assert(cw[j] == p);
    }
    lemma_edge_warnings_include(w.edges@, vars, k, p);
}

} // verus!

verus! {

/// Moving the view to the selected match leaves that match's line in sight
/// when the view holds more than ten lines, and leaves a view that already
/// shows it where it is.
pub proof fn law_scroll_to_match_shows_it(m: Seq<usize>, sel: int, offset: int, max: int)
    requires
        0 <= sel < m.len(),
        max > 10,
        offset >= 0,
    ensures
        ({
            let o = crate::response_pane::scrolled_to(m, sel, offset, max);
            &&& 0 <= o <= m[sel] < o + max
            &&& (offset <= m[sel] < offset + max ==> o == offset)
        }),
{
}

/// Edge conditions `true` and `false` and the absent condition evaluate to
/// themselves (no condition passes); `has_var(name)` holds exactly when the
/// store has a variable `name`.
pub proof fn law_literal_and_has_var_conditions(store: VariableStore, name: Seq<char>)
    requires
        trim(name) == name,
    ensures
        condition_outcome(None, store) == Ok::<bool, Seq<char>>(true),
        condition_outcome(Some("true"@), store) == Ok::<bool, Seq<char>>(true),
        condition_outcome(Some("false"@), store) == Ok::<bool, Seq<char>>(false),
        condition_outcome(Some("has_var("@ + name + ")"@), store) == Ok::<bool, Seq<char>>(store.lookup(name) is Some),
{
    reveal_strlit("true");
    reveal_strlit("false");
    reveal_strlit("has_var(");
    reveal_strlit(")");
    reveal_strlit("status == ");
    reveal_strlit("status != ");
    reveal_strlit("status >= ");
    reveal_strlit("status < ");
    let c = "has_var("@ + name + ")"@;
    assert(c[0] == 'h');
    assert(c != "true"@ && c != "false"@) by { assert(c.len() > 5); }
    assert(!crate::text::occurs_at(c, 0, "status == "@)) by {
        if c.len() >= 10 {
            assert(c.subrange(0, 10)[0] == c[0]);
            assert("status == "@[0] == 's');
        }
    }
    assert(!crate::text::occurs_at(c, 0, "status != "@)) by {
        if c.len() >= 10 {
            assert(c.subrange(0, 10)[0] == c[0]);
            assert("status != "@[0] == 's');
        }
    }
    assert(!crate::text::occurs_at(c, 0, "status >= "@)) by {
        if c.len() >= 10 {
            assert(c.subrange(0, 10)[0] == c[0]);
            assert("status >= "@[0] == 's');
        }
    }
    assert(!crate::text::occurs_at(c, 0, "status < "@)) by {
        if c.len() >= 9 {
            assert(c.subrange(0, 9)[0] == c[0]);
            assert("status < "@[0] == 's');
        }
    }
    assert(c.subrange(0, 8) =~= "has_var("@);
    assert(c.subrange(c.len() - 1, c.len() as int) =~= ")"@);
    assert(c.subrange(8, c.len() - 1) =~= name);
}

/// A warning about a variable that `vars` does not define.
pub open spec fn undefined_warning(p: crate::graph::Problem, vars: Map<Seq<char>, crate::json::JsonValue>) -> bool {
    p matches crate::graph::Problem::UndefinedVariable(n) && !vars.contains_key(n)
}

/// Each name in the matches' warnings is one that no variable has.
proof fn lemma_undefined_names_sound(ms: Seq<Seq<Option<Seq<char>>>>, vars: Map<Seq<char>, crate::json::JsonValue>)
    ensures
        forall|j: int| 0 <= j < crate::graph::undefined_names(ms, vars).len() ==> undefined_warning(#[trigger] crate::graph::undefined_names(ms, vars)[j], vars),
    decreases ms.len(),
{
    if ms.len() > 0 {
        lemma_undefined_names_sound(ms.drop_last(), vars);
        let prev = crate::graph::undefined_names(ms.drop_last(), vars);
        let all = crate::graph::undefined_names(ms, vars);
        assert forall|j: int| 0 <= j < all.len() implies undefined_warning(#[trigger] all[j], vars) by {
            if j < prev.len() {
                assert(all[j] == prev[j]);
            }
        }
    }
}

/// Each warning about a condition names a variable that is not defined.
proof fn lemma_condition_warnings_sound(c: Seq<char>, vars: Map<Seq<char>, crate::json::JsonValue>)
    ensures
        forall|j: int| 0 <= j < crate::graph::condition_warnings(c, vars).len() ==> undefined_warning(#[trigger] crate::graph::condition_warnings(c, vars)[j], vars),
{
    let hv = if crate::graph::contains_text(c, "has_var("@) {
        crate::graph::pattern_warnings(crate::graph::HAS_VAR_PATTERN@, c, vars)
    } else {
        Seq::empty()
    };
    let dw = crate::graph::pattern_warnings(crate::graph::DOLLAR_PATTERN@, c, vars);
    let bw = crate::graph::pattern_warnings(crate::graph::BRACE_PATTERN@, c, vars);
    lemma_undefined_names_sound(regex_all_groups(crate::graph::HAS_VAR_PATTERN@, c), vars);
    lemma_undefined_names_sound(regex_all_groups(crate::graph::DOLLAR_PATTERN@, c), vars);
    lemma_undefined_names_sound(regex_all_groups(crate::graph::BRACE_PATTERN@, c), vars);
    let cw = crate::graph::condition_warnings(c, vars);
    assert(cw == hv + dw + bw);
    assert forall|j: int| 0 <= j < cw.len() implies undefined_warning(#[trigger] cw[j], vars) by {
        if j < hv.len() {
            assert(cw[j] == hv[j]);
        } else if j < hv.len() + dw.len() {
            assert(cw[j] == dw[j - hv.len()]);
        } else {
            assert(cw[j] == bw[j - hv.len() - dw.len()]);
        }
    }
}

/// Validating a workflow warns only about variables that it does not
/// define: every warning is an undefined variable that is no workflow
/// variable.
pub proof fn law_condition_warnings_name_undefined_variables(edges: Seq<WorkflowEdge>, vars: Map<Seq<char>, crate::json::JsonValue>)
    ensures
        forall|j: int| 0 <= j < crate::graph::edge_warnings(edges, vars).len() ==> undefined_warning(#[trigger] crate::graph::edge_warnings(edges, vars)[j], vars),
    decreases edges.len(),
{
    if edges.len() > 0 {
        law_condition_warnings_name_undefined_variables(edges.drop_last(), vars);
        let prev = crate::graph::edge_warnings(edges.drop_last(), vars);
        let all = crate::graph::edge_warnings(edges, vars);
        match edges.last().condition {
            Some(c) => {
                lemma_condition_warnings_sound(c@, vars);
                let cw = crate::graph::condition_warnings(c@, vars);
                assert(all == prev + cw);
                assert forall|j: int| 0 <= j < all.len() implies undefined_warning(#[trigger] all[j], vars) by {
                    if j < prev.len() {
                        assert(all[j] == prev[j]);
                    } else {
                        assert(all[j] == cw[j - prev.len()]);
                    }
                }
            },
            None => {
                assert(all =~= prev);
            },
        }
    }
}

} // verus!
