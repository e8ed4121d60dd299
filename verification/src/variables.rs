use vstd::prelude::*;

use crate::json::{
    decimal, decimal_string, display_text, is_digit, lemma_member_models, lemma_models,
    member_models, models, all_digits, digits_value, Json, JsonValue,
};
use crate::matching::{all_groups, first_groups, group_names, pattern_error, regex_all_groups,
    regex_compile, regex_first_groups, regex_group_names, groups_view, matches_view, opt_view};
use crate::strmap::StrMap;
use crate::text::{
    chars_of, copy_str, push_str, replace_all, replace_all_exec, str_eq, string_from_chars, trim,
    trim_exec,
};

verus! {

/// What can go wrong when reading or extracting a variable.
#[derive(Debug, PartialEq)]
pub enum VariableError {
    NotFound(String),
    InvalidJsonPath(String),
    InvalidRegex(String),
    RegexCaptureFailed,
    JsonPathExtractionFailed(String),
}

impl VariableError {
    /// The human-readable text of the error.
    pub fn message(&self) -> (r: String)
        ensures
            match self {
                VariableError::NotFound(v) => r@ == "Variable '"@ + v@ + "' not found in any scope"@,
                VariableError::InvalidJsonPath(p) => r@ == "Invalid JSONPath expression: "@ + p@,
                VariableError::InvalidRegex(p) => r@ == "Invalid regex pattern: "@ + p@,
                VariableError::RegexCaptureFailed => r@ == "Regex capture failed"@,
                VariableError::JsonPathExtractionFailed(m) => r@ == "JSONPath extraction failed: "@
                    + m@,
            },
    {
        let mut out = String::new();
        match self {
            VariableError::NotFound(v) => {
                push_str(&mut out, "Variable '");
                push_str(&mut out, v.as_str());
                push_str(&mut out, "' not found in any scope");
            },
            VariableError::InvalidJsonPath(p) => {
                push_str(&mut out, "Invalid JSONPath expression: ");
                push_str(&mut out, p.as_str());
            },
            VariableError::InvalidRegex(p) => {
                push_str(&mut out, "Invalid regex pattern: ");
                push_str(&mut out, p.as_str());
            },
            VariableError::RegexCaptureFailed => {
                push_str(&mut out, "Regex capture failed");
            },
            VariableError::JsonPathExtractionFailed(m) => {
                push_str(&mut out, "JSONPath extraction failed: ");
                push_str(&mut out, m.as_str());
            },
        }
        proof { assert(out@ =~= out@); }
        out
    }
}

/// The three layers of variables; a local one hides a workflow one, which
/// hides a global one.
#[derive(Debug, Clone, Copy, PartialEq, Eq, Structural)]
pub enum VariableScope {
    Global,
    Workflow,
    Local,
}

/// The models of the values of a map.
pub open spec fn model_map(m: Map<Seq<char>, JsonValue>) -> Map<Seq<char>, Json> {
    m.map_values(|v: JsonValue| v.model())
}

/// Variables by scope.
pub struct VariableStore {
    global: StrMap<JsonValue>,
    workflow: StrMap<JsonValue>,
    local: StrMap<JsonValue>,
}

impl VariableStore {
    /// The variables of one scope.
    pub closed spec fn scope(&self, scope: VariableScope) -> Map<Seq<char>, Json> {
        match scope {
            VariableScope::Global => model_map(self.global@),
            VariableScope::Workflow => model_map(self.workflow@),
            VariableScope::Local => model_map(self.local@),
        }
    }

    /// What a name stands for: the local value, else the workflow value,
    /// else the global one.
    pub open spec fn lookup(&self, key: Seq<char>) -> Option<Json> {
        if self.scope(VariableScope::Local).contains_key(key) {
            Some(self.scope(VariableScope::Local)[key])
        } else if self.scope(VariableScope::Workflow).contains_key(key) {
            Some(self.scope(VariableScope::Workflow)[key])
        } else if self.scope(VariableScope::Global).contains_key(key) {
            Some(self.scope(VariableScope::Global)[key])
        } else {
            None
        }
    }

    pub fn new() -> (r: Self)
        ensures
            r.scope(VariableScope::Global) == Map::<Seq<char>, Json>::empty(),
            r.scope(VariableScope::Workflow) == Map::<Seq<char>, Json>::empty(),
            r.scope(VariableScope::Local) == Map::<Seq<char>, Json>::empty(),
    {
        let r = VariableStore { global: StrMap::new(), workflow: StrMap::new(), local: StrMap::new() };
        proof {
            assert(model_map(r.global@) =~= Map::<Seq<char>, Json>::empty());
            assert(model_map(r.workflow@) =~= Map::<Seq<char>, Json>::empty());
            assert(model_map(r.local@) =~= Map::<Seq<char>, Json>::empty());
        }
        r
    }

    /// Whether one scope holds no variable.
    pub fn is_scope_empty(&self, scope: VariableScope) -> (r: bool)
        ensures
            r == (self.scope(scope).dom().len() == 0),
    {
        let m = match scope {
            VariableScope::Global => &self.global,
            VariableScope::Workflow => &self.workflow,
            VariableScope::Local => &self.local,
        };
        let r = m.is_empty();
        proof { assert(self.scope(scope).dom() =~= m@.dom()); }
        r
    }

    /// Sets `key` in `scope` to `value`.
    pub fn set(&mut self, key: &str, value: JsonValue, scope: VariableScope)
        ensures
            final(self).scope(scope) == old(self).scope(scope).insert(key@, value.model()),
            forall|s: VariableScope| s != scope ==> final(self).scope(s) == old(self).scope(s),
    {
        let k = copy_str(key);
        let ghost vm = value.model();
        match scope {
            VariableScope::Global => {
                let ghost before = self.global@;
                self.global.insert(k, value);
                proof { assert(model_map(self.global@) =~= model_map(before).insert(key@, vm)); }
            },
            VariableScope::Workflow => {
                let ghost before = self.workflow@;
                self.workflow.insert(k, value);
                proof { assert(model_map(self.workflow@) =~= model_map(before).insert(key@, vm)); }
            },
            VariableScope::Local => {
                let ghost before = self.local@;
                self.local.insert(k, value);
                proof { assert(model_map(self.local@) =~= model_map(before).insert(key@, vm)); }
            },
        }
    }

    /// The value a name stands for (local first, then workflow, then global).
    pub fn get(&self, key: &str) -> (r: Option<JsonValue>)
        ensures
            match r {
                Some(v) => self.lookup(key@) == Some(v.model()),
                None => self.lookup(key@) is None,
            },
    {
        if let Some(v) = self.local.get(key) {
            return Some(v.deep_copy());
        }
        if let Some(v) = self.workflow.get(key) {
            return Some(v.deep_copy());
        }
        if let Some(v) = self.global.get(key) {
            return Some(v.deep_copy());
        }
        None
    }

    /// The value of `key` in one scope only.
    pub fn get_from_scope(&self, key: &str, scope: &VariableScope) -> (r: Option<JsonValue>)
        ensures
            match r {
                Some(v) => self.scope(*scope).contains_key(key@) && self.scope(*scope)[key@]
                    == v.model(),
                None => !self.scope(*scope).contains_key(key@),
            },
    {
        let m = match scope {
            VariableScope::Global => &self.global,
            VariableScope::Workflow => &self.workflow,
            VariableScope::Local => &self.local,
        };
        match m.get(key) {
            Some(v) => Some(v.deep_copy()),
            None => None,
        }
    }

    /// Removes `key` from one scope.
    pub fn remove(&mut self, key: &str, scope: VariableScope)
        ensures
            final(self).scope(scope) == old(self).scope(scope).remove(key@),
            forall|s: VariableScope| s != scope ==> final(self).scope(s) == old(self).scope(s),
    {
        match scope {
            VariableScope::Global => {
                let ghost before = self.global@;
                self.global.remove(key);
                proof { assert(model_map(self.global@) =~= model_map(before).remove(key@)); }
            },
            VariableScope::Workflow => {
                let ghost before = self.workflow@;
                self.workflow.remove(key);
                proof { assert(model_map(self.workflow@) =~= model_map(before).remove(key@)); }
            },
            VariableScope::Local => {
                let ghost before = self.local@;
                self.local.remove(key);
                proof { assert(model_map(self.local@) =~= model_map(before).remove(key@)); }
            },
        }
    }

    /// Removes every variable of one scope.
    pub fn clear_scope(&mut self, scope: VariableScope)
        ensures
            final(self).scope(scope) == Map::<Seq<char>, Json>::empty(),
            forall|s: VariableScope| s != scope ==> final(self).scope(s) == old(self).scope(s),
    {
        match scope {
            VariableScope::Global => self.global.clear(),
            VariableScope::Workflow => self.workflow.clear(),
            VariableScope::Local => self.local.clear(),
        }
        proof {
            assert(self.scope(scope) =~= Map::<Seq<char>, Json>::empty());
        }
    }

    /// Copies the variables that `other` holds in `target_scope` into the
    /// same scope here; where both have a name, `other`'s value wins.
    pub fn merge_into(&mut self, other: &VariableStore, target_scope: VariableScope)
        ensures
            final(self).scope(target_scope) == old(self).scope(target_scope).union_prefer_right(
                other.scope(target_scope),
            ),
            forall|s: VariableScope| s != target_scope ==> final(self).scope(s) == old(self).scope(
                s,
            ),
    {
        match target_scope {
            VariableScope::Global => merge_maps(&mut self.global, &other.global),
            VariableScope::Workflow => merge_maps(&mut self.workflow, &other.workflow),
            VariableScope::Local => merge_maps(&mut self.local, &other.local),
        }
    }
}

/// Inserts a copy of every entry of `src` into `dst`.
fn merge_maps(dst: &mut StrMap<JsonValue>, src: &StrMap<JsonValue>)
    ensures
        model_map(final(dst)@) == model_map(old(dst)@).union_prefer_right(model_map(src@)),
{
    let ghost start = model_map(dst@);
    let mut i: usize = 0;
    let n = src.len();
    proof {
        if n > 0 {
            crate::strmap::lemma_assoc_take_step(src.entries(), 0);
        } else {
            assert(src.entries().take(0) =~= src.entries());
        }
        assert(start.union_prefer_right(model_map(Map::<Seq<char>, JsonValue>::empty())) =~= start);
    }
    while i < n
        invariant
            n == src.entries().len(),
            i <= n,
            model_map(dst@) == start.union_prefer_right(
                model_map(crate::strmap::assoc_map(src.entries().take(i as int))),
            ),
        decreases n - i,
    {
        let (k, v) = src.entry_at(i);
        let ghost before = model_map(dst@);
        dst.insert(copy_str(k.as_str()), v.deep_copy());
        proof {
            crate::strmap::lemma_assoc_take_step(src.entries(), i as int);
            let pre = crate::strmap::assoc_map(src.entries().take(i as int));
            let post = crate::strmap::assoc_map(src.entries().take(i + 1));
            assert(model_map(post) =~= model_map(pre).insert(k@, v.model()));
            assert(model_map(dst@) =~= before.insert(k@, v.model()));
            assert(model_map(dst@) =~= start.union_prefer_right(model_map(post)));
        }
        i += 1;
    }
    proof {
        if n > 0 {
            crate::strmap::lemma_assoc_take_step(src.entries(), 0);
        } else {
            assert(src.entries().take(0) =~= src.entries());
        }
    }
}

} // verus!

verus! {

/// The pattern of a placeholder: `${name}` or `{{name}}`.
pub const PLACEHOLDER_PATTERN: &'static str = "\\$\\{([^}]+)\\}|\\{\\{([^}]+)\\}\\}";

/// The variable name that a placeholder match names: its first group, else
/// its second.
pub open spec fn placeholder_name(g: Seq<Option<Seq<char>>>) -> Option<Seq<char>> {
    if g.len() > 1 && g[1] is Some {
        g[1]
    } else if g.len() > 2 && g[2] is Some {
        g[2]
    } else {
        None
    }
}

/// The text after the placeholders found in `ms` have been handled in turn:
/// each one whose trimmed name the store knows has all of its occurrences in
/// the text so far replaced by the value's text.
pub open spec fn substitute(
    result: Seq<char>,
    ms: Seq<Seq<Option<Seq<char>>>>,
    store: VariableStore,
) -> Seq<char>
    decreases ms.len(),
{
    if ms.len() == 0 {
        result
    } else {
        let g = ms[0];
        let next = match placeholder_name(g) {
            Some(name) => match store.lookup(trim(name)) {
                Some(v) => if g.len() > 0 && g[0] is Some {
                    replace_all(result, g[0]->0, display_text(v))
                } else {
                    result
                },
                None => result,
            },
            None => result,
        };
        substitute(next, ms.drop_first(), store)
    }
}

/// `text` with its placeholders filled in from `store`.
pub open spec fn interpolation(text: Seq<char>, store: VariableStore) -> Seq<char> {
    if regex_compile(PLACEHOLDER_PATTERN@) is None {
        substitute(text, regex_all_groups(PLACEHOLDER_PATTERN@, text), store)
    } else {
        text
    }
}

/// Fills in the `${name}` and `{{ name }}` placeholders of `text` with the
/// values that `store` gives the (trimmed) names; a placeholder whose name
/// the store does not know stays as it is.
pub fn interpolate(text: &str, store: &VariableStore) -> (r: String)
    ensures
        r@ == interpolation(text@, *store),
{
    let pattern = PLACEHOLDER_PATTERN;
    let mut result = chars_of(text);
    if pattern_error(pattern).is_some() {
        return copy_str(text);
    }
    let ms = all_groups(pattern, text);
    let ghost msv = matches_view(ms@);
    let mut i: usize = 0;
    proof { assert(msv.skip(0) =~= msv); }
    while i < ms.len()
        invariant
            i <= ms@.len(),
            msv == matches_view(ms@),
            msv.len() == ms@.len(),
            forall|j: int| 0 <= j < ms@.len() ==> #[trigger] ms@[j]@.len() > 0 && ms@[j]@[0] is Some,
            substitute(text@, msv, *store) == substitute(result@, msv.skip(i as int), *store),
        decreases ms@.len() - i,
    {
        let g = &ms[i];
        let ghost gv = groups_view(g@);
        proof {
            assert(msv[i as int] == gv);
            assert(msv.skip(i as int)[0] == gv);
            assert(msv.skip(i as int).drop_first() =~= msv.skip(i + 1));
            assert(gv.len() == g@.len());
        }
        let name: Option<&String> = if g.len() > 1 && g[1].is_some() {
            g[1].as_ref()
        } else if g.len() > 2 && g[2].is_some() {
            g[2].as_ref()
        } else {
            None
        };
        proof {
            if g@.len() > 1 { assert(gv[1] == opt_view(g@[1])); }
            if g@.len() > 2 { assert(gv[2] == opt_view(g@[2])); }
            assert(gv[0] == opt_view(g@[0]));
            match name {
                Some(n) => assert(placeholder_name(gv) == Some(n@)),
                None => assert(placeholder_name(gv) is None),
            }
        }
        if let Some(n) = name {
            let key = string_from_chars(trim_exec(&chars_of(n.as_str())).as_slice());
            match store.get(key.as_str()) {
                Some(v) => {
                    let full = match &g[0] {
                        Some(f) => chars_of(f.as_str()),
                        None => Vec::new(),
                    };
                    let rep = chars_of(v.display_string().as_str());
                    result = replace_all_exec(&result, &full, &rep);
                },
                None => {},
            }
        }
        i += 1;
    }
    proof { assert(msv.skip(msv.len() as int) =~= Seq::<Seq<Option<Seq<char>>>>::empty()); }
    string_from_chars(result.as_slice())
}

/// One step of a JSONPath: the root, a member, or an array element.
#[derive(Debug)]
pub enum JsonPathPart {
    Root,
    Field(String),
    Index(usize),
}

/// The mathematical content of a path step.
pub enum PathStep {
    Root,
    Field(Seq<char>),
    Index(nat),
}

impl JsonPathPart {
    pub open spec fn step(self) -> PathStep {
        match self {
            JsonPathPart::Root => PathStep::Root,
            JsonPathPart::Field(f) => PathStep::Field(f@),
            JsonPathPart::Index(i) => PathStep::Index(i as nat),
        }
    }
}

/// The value of a decimal index as `usize::from_str` reads it: digits,
/// optionally after a `+`, fitting in a `usize`.
pub open spec fn parse_index(s: Seq<char>) -> Option<nat> {
    let d = if s.len() > 0 && s[0] == '+' { s.drop_first() } else { s };
    if all_digits(d) && digits_value(d) <= usize::MAX {
        Some(digits_value(d))
    } else {
        None
    }
}

/// The first position at or after `i` that holds `.` or `[`, or the end.
pub open spec fn field_end(s: Seq<char>, i: int) -> int
    decreases s.len() - i,
{
    if i >= s.len() || s[i] == '.' || s[i] == '[' {
        i
    } else {
        field_end(s, i + 1)
    }
}

/// The first position at or after `i` that holds `]`, or the end.
pub open spec fn bracket_end(s: Seq<char>, i: int) -> int
    decreases s.len() - i,
{
    if i >= s.len() || s[i] == ']' {
        i
    } else {
        bracket_end(s, i + 1)
    }
}

pub proof fn lemma_field_end(s: Seq<char>, i: int)
    requires
        0 <= i,
    ensures
        i <= field_end(s, i),
        i <= s.len() ==> field_end(s, i) <= s.len(),
        forall|j: int| i <= j < field_end(s, i) ==> s[j] != '.' && s[j] != '[',
        field_end(s, i) < s.len() ==> s[field_end(s, i)] == '.' || s[field_end(s, i)] == '[',
    decreases s.len() - i,
{
    if !(i >= s.len() || s[i] == '.' || s[i] == '[') {
        lemma_field_end(s, i + 1);
    }
}

pub proof fn lemma_bracket_end(s: Seq<char>, i: int)
    requires
        0 <= i,
    ensures
        i <= bracket_end(s, i),
        i <= s.len() ==> bracket_end(s, i) <= s.len(),
        forall|j: int| i <= j < bracket_end(s, i) ==> s[j] != ']',
        bracket_end(s, i) < s.len() ==> s[bracket_end(s, i)] == ']',
    decreases s.len() - i,
{
    if !(i >= s.len() || s[i] == ']') {
        lemma_bracket_end(s, i + 1);
    }
}

/// The steps that the path text from position `i` on stands for: `.name`
/// is a member (an empty name is passed over), `[digits]` an element (an
/// index that is not a number is passed over); a `.` at the end, a `[`
/// without `]`, or any other character makes the path invalid.
pub open spec fn parse_steps(s: Seq<char>, i: int) -> Option<Seq<PathStep>>
    decreases s.len() - i,
{
    if i < 0 || i >= s.len() {
        Some(Seq::empty())
    } else if s[i] == '.' {
        if i + 1 >= s.len() {
            None
        } else {
            let e = field_end(s, i + 1);
            let f = s.subrange(i + 1, e);
            proof { lemma_field_end(s, i + 1); }
            match parse_steps(s, e) {
                Some(rest) => Some(if f.len() > 0 { seq![PathStep::Field(f)] + rest } else { rest }),
                None => None,
            }
        }
    } else if s[i] == '[' {
        let e = bracket_end(s, i + 1);
        proof { lemma_bracket_end(s, i + 1); }
        if e >= s.len() {
            None
        } else {
            match parse_steps(s, e + 1) {
                Some(rest) => Some(
                    match parse_index(s.subrange(i + 1, e)) {
                        Some(n) => seq![PathStep::Index(n)] + rest,
                        None => rest,
                    },
                ),
                None => None,
            }
        }
    } else {
        None
    }
}

/// The steps of a path text: the root for a leading `$`, then the rest.
pub open spec fn parse_path(s: Seq<char>) -> Option<Seq<PathStep>> {
    if s.len() > 0 && s[0] == '$' {
        match parse_steps(s, 1) {
            Some(rest) => Some(seq![PathStep::Root] + rest),
            None => None,
        }
    } else {
        parse_steps(s, 0)
    }
}

/// What following a path through a value gives.
pub enum PathOutcome {
    Found(Json),
    FieldMissing(Seq<char>),
    NotObject,
    IndexOutOfBounds(nat),
    NotArray,
}

/// The position of the first member named `key`, or -1.
pub open spec fn model_member_index(members: Seq<(Seq<char>, Json)>, key: Seq<char>) -> int
    decreases members.len(),
{
    if members.len() == 0 {
        -1
    } else if members[0].0 == key {
        0
    } else {
        let r = model_member_index(members.drop_first(), key);
        if r < 0 { -1 } else { r + 1 }
    }
}

pub proof fn lemma_model_member_index(members: Seq<(Seq<char>, Json)>, key: Seq<char>)
    ensures
        -1 <= model_member_index(members, key) < members.len(),
        model_member_index(members, key) >= 0 ==> members[model_member_index(members, key)].0
            == key,
        model_member_index(members, key) >= 0 ==> forall|j: int|
            0 <= j < model_member_index(members, key) ==> members[j].0 != key,
        model_member_index(members, key) < 0 ==> forall|j: int|
            0 <= j < members.len() ==> members[j].0 != key,
    decreases members.len(),
{
    if members.len() > 0 && members[0].0 != key {
        lemma_model_member_index(members.drop_first(), key);
        assert forall|j: int| 1 <= j < members.len() implies members[j] == members.drop_first()[j
            - 1] by {}
    }
}

/// Follows `steps` through `v`: a member step needs an object that has the
/// member, an element step an array long enough.
pub open spec fn navigate(v: Json, steps: Seq<PathStep>) -> PathOutcome
    decreases steps.len(),
{
    if steps.len() == 0 {
        PathOutcome::Found(v)
    } else {
        match steps[0] {
            PathStep::Root => navigate(v, steps.drop_first()),
            PathStep::Field(name) => match v {
                Json::Object(ms) => {
                    let k = model_member_index(ms, name);
                    if 0 <= k < ms.len() {
                        navigate(ms[k].1, steps.drop_first())
                    } else {
                        PathOutcome::FieldMissing(name)
                    }
                },
                _ => PathOutcome::NotObject,
            },
            PathStep::Index(i) => match v {
                Json::Array(items) => if i < items.len() {
                    navigate(items[i as int], steps.drop_first())
                } else {
                    PathOutcome::IndexOutOfBounds(i)
                },
                _ => PathOutcome::NotArray,
            },
        }
    }
}

/// The text of the error that a failed navigation gives.
pub open spec fn outcome_message(o: PathOutcome) -> Seq<char> {
    match o {
        PathOutcome::FieldMissing(name) => "Field '"@ + name + "' not found"@,
        PathOutcome::NotObject => "Not an object"@,
        PathOutcome::IndexOutOfBounds(i) => "Index "@ + decimal(i) + " out of bounds"@,
        PathOutcome::NotArray => "Not an array"@,
        PathOutcome::Found(_) => Seq::empty(),
    }
}

/// What `extract_jsonpath(json, path)` gives.
pub open spec fn jsonpath_result(json: Json, path: Seq<char>, r: Result<JsonValue, VariableError>) -> bool {
    if path.len() == 0 || path[0] != '$' || parse_path(path) is None {
        r matches Err(VariableError::InvalidJsonPath(p)) && p@ == path
    } else {
        match navigate(json, parse_path(path)->0) {
            PathOutcome::Found(v) => r matches Ok(x) && x.model() == v,
            o => r matches Err(VariableError::JsonPathExtractionFailed(m)) && m@ == outcome_message(o),
        }
    }
}
} // verus!

verus! {

/// The steps that a sequence of parts stands for.
pub open spec fn steps_of(parts: Seq<JsonPathPart>) -> Seq<PathStep> {
    parts.map_values(|p: JsonPathPart| p.step())
}

/// Prefixing known steps to the outcome of parsing the rest.
pub open spec fn prefixed(done: Seq<PathStep>, rest: Option<Seq<PathStep>>) -> Option<Seq<PathStep>> {
    match rest {
        Some(r) => Some(done + r),
        None => None,
    }
}

/// Reads a decimal index as `usize::from_str` does.
#[verifier::loop_isolation(false)]
pub(crate) fn parse_index_exec(s: &Vec<char>, lo: usize, hi: usize) -> (r: Option<usize>)
    requires
        lo <= hi <= s@.len(),
    ensures
        match parse_index(s@.subrange(lo as int, hi as int)) {
            Some(n) => r == Some(n as usize),
            None => r is None,
        },
{
    let ghost t = s@.subrange(lo as int, hi as int);
    let mut start = lo;
    if lo < hi && s[lo] == '+' {
        start = lo + 1;
    }
    let ghost d = s@.subrange(start as int, hi as int);
    proof {
        if lo < hi && s@[lo as int] == '+' {
            assert(t.drop_first() =~= d);
        } else {
            assert(t =~= d);
        }
    }
    if start >= hi {
        return None;
    }
    let mut acc: usize = 0;
    let mut k = start;
    while k < hi
        invariant
            start <= k <= hi <= s@.len(),
            start < hi,
            d == s@.subrange(start as int, hi as int),
            forall|j: int| start <= j < k ==> is_digit(#[trigger] s@[j]),
            acc == digits_value(s@.subrange(start as int, k as int)),
        decreases hi - k,
    {
        let c = s[k];
        proof {
            assert(s@.subrange(start as int, k + 1).drop_last() =~= s@.subrange(start as int, k as int));
        }
        if !('0' <= c && c <= '9') {
            proof { assert(!is_digit(d[k - start])); }
            return None;
        }
        let dv = (c as u32 - 48) as usize;
        if acc > (usize::MAX - dv) / 10 {
            proof {
                assert(acc * 10 + dv > usize::MAX) by (nonlinear_arith)
                    requires
                        acc > (usize::MAX - dv) / 10,
                        dv <= 9;
                assert(digits_value(s@.subrange(start as int, k + 1)) == acc * 10 + dv);
                if all_digits(d) {
                    assert(s@.subrange(start as int, k + 1) =~= d.take(k + 1 - start));
                    crate::json::lemma_digits_prefix_monotone(d, k + 1 - start);
                }
            }
            return None;
        }
        acc = acc * 10 + dv;
        k += 1;
    }
    proof {
        assert forall|j: int| 0 <= j < d.len() implies is_digit(#[trigger] d[j]) by {
            assert(d[j] == s@[start + j]);
        }
    }
    Some(acc)
}

/// The parts of a JSONPath text.
pub fn parse_jsonpath(path: &str) -> (r: Result<Vec<JsonPathPart>, VariableError>)
    ensures
        match parse_path(path@) {
            Some(steps) => r matches Ok(parts) && steps_of(parts@) == steps,
            None => r matches Err(VariableError::InvalidJsonPath(p)) && p@ == path@,
        },
{
    let s = chars_of(path);
    let mut parts: Vec<JsonPathPart> = Vec::new();
    let mut i: usize = 0;
    if s.len() > 0 && s[0] == '$' {
        parts.push(JsonPathPart::Root);
        i = 1;
    }
    proof {
        assert(steps_of(parts@) =~= if s@.len() > 0 && s@[0] == '$' {
            seq![PathStep::Root]
        } else {
            Seq::<PathStep>::empty()
        });
        if !(s@.len() > 0 && s@[0] == '$') {
            assert(Seq::<PathStep>::empty() + parse_steps(s@, 0)->0 =~= parse_steps(s@, 0)->0);
        }
    }
    while i < s.len()
        invariant
            s@ == path@,
            i <= s@.len(),
            parse_path(s@) == prefixed(steps_of(parts@), parse_steps(s@, i as int)),
        decreases s@.len() - i,
    {
        let ghost before = steps_of(parts@);
        if s[i] == '.' {
            i += 1;
            if i >= s.len() {
                return Err(VariableError::InvalidJsonPath(copy_str(path)));
            }
            let start = i;
            while i < s.len() && s[i] != '.' && s[i] != '['
                invariant
                    start <= i <= s@.len(),
                    field_end(s@, start as int) == field_end(s@, i as int),
                decreases s@.len() - i,
            {
                i += 1;
            }
            proof { lemma_field_end(s@, start as int); }
            if i > start {
                let field = string_from_chars(&s.as_slice()[start..i]);
                parts.push(JsonPathPart::Field(field));
                proof {
                    assert(steps_of(parts@) =~= before + seq![PathStep::Field(s@.subrange(start as int, i as int))]);
                }
            }
            proof {
                match parse_steps(s@, i as int) {
                    Some(rest) => {
                        assert(before + (if i > start { seq![PathStep::Field(s@.subrange(start as int, i as int))] + rest } else { rest })
                            =~= steps_of(parts@) + rest);
                    },
                    None => {},
                }
            }
        } else if s[i] == '[' {
            i += 1;
            let start = i;
            while i < s.len() && s[i] != ']'
                invariant
                    start <= i <= s@.len(),
                    bracket_end(s@, start as int) == bracket_end(s@, i as int),
                decreases s@.len() - i,
            {
                i += 1;
            }
            proof { lemma_bracket_end(s@, start as int); }
            if i >= s.len() {
                return Err(VariableError::InvalidJsonPath(copy_str(path)));
            }
            let idx = parse_index_exec(&s, start, i);
            match idx {
                Some(n) => {
                    parts.push(JsonPathPart::Index(n));
                    proof { assert(steps_of(parts@) =~= before + seq![PathStep::Index(n as nat)]); }
                },
                None => {},
            }
            proof {
                match parse_steps(s@, i + 1) {
                    Some(rest) => {
                        match parse_index(s@.subrange(start as int, i as int)) {
                            Some(n) => assert(before + (seq![PathStep::Index(n)] + rest) =~= steps_of(parts@) + rest),
                            None => {},
                        }
                    },
                    None => {},
                }
            }
            i += 1;
        } else {
            return Err(VariableError::InvalidJsonPath(copy_str(path)));
        }
    }
    proof { assert(steps_of(parts@) + Seq::<PathStep>::empty() =~= steps_of(parts@)); }
    Ok(parts)
}

} // verus!

verus! {

/// The text of a failed navigation, built.
fn outcome_error(o: Ghost<PathOutcome>, kind: u8, name: &str, index: usize) -> (r: VariableError)
    requires
        kind == 0 ==> o@ == PathOutcome::FieldMissing(name@),
        kind == 1 ==> o@ == PathOutcome::NotObject,
        kind == 2 ==> o@ == PathOutcome::IndexOutOfBounds(index as nat),
        kind >= 3 ==> o@ == PathOutcome::NotArray,
    ensures
        r matches VariableError::JsonPathExtractionFailed(m) && m@ == outcome_message(o@),
{
    let mut m = String::new();
    if kind == 0 {
        push_str(&mut m, "Field '");
        push_str(&mut m, name);
        push_str(&mut m, "' not found");
    } else if kind == 1 {
        push_str(&mut m, "Not an object");
    } else if kind == 2 {
        push_str(&mut m, "Index ");
        let d = decimal_string(index as u64);
        push_str(&mut m, d.as_str());
        push_str(&mut m, " out of bounds");
    } else {
        push_str(&mut m, "Not an array");
    }
    VariableError::JsonPathExtractionFailed(m)
}

/// Follows a JSONPath such as `$.data.items[1].id` through `json`.
pub fn extract_jsonpath(json: &JsonValue, path: &str) -> (r: Result<JsonValue, VariableError>)
    ensures
        jsonpath_result(json.model(), path@, r),
{
    let cs = chars_of(path);
    if cs.len() == 0 || cs[0] != '$' {
        return Err(VariableError::InvalidJsonPath(copy_str(path)));
    }
    let parts = match parse_jsonpath(path) {
        Ok(p) => p,
        Err(e) => return Err(e),
    };
    let ghost steps = steps_of(parts@);
    let mut current: &JsonValue = json;
    let mut i: usize = 0;
    proof { assert(steps.skip(0) =~= steps); }
    while i < parts.len()
        invariant
            i <= parts@.len(),
            steps == steps_of(parts@),
            steps == parse_path(path@)->0,
            parse_path(path@) is Some,
            path@.len() > 0,
            path@[0] == '$',
            navigate(json.model(), steps) == navigate(current.model(), steps.skip(i as int)),
        decreases parts@.len() - i,
    {
        let ghost rest = steps.skip(i as int);
        proof {
            assert(rest[0] == parts@[i as int].step());
            assert(rest.drop_first() =~= steps.skip(i + 1));
        }
        match &parts[i] {
            JsonPathPart::Root => {},
            JsonPathPart::Field(name) => {
                match current {
                    JsonValue::Object(members) => {
                        let ghost ms = member_models(members@);
                        proof {
                            lemma_member_models(members@);
                            lemma_model_member_index(ms, name@);
                        }
                        let mut k: usize = 0;
                        let mut found: Option<usize> = None;
                        while k < members.len()
                            invariant
                                k <= members@.len(),
                                ms.len() == members@.len(),
                                forall|j: int| 0 <= j < members@.len() ==> #[trigger] ms[j] == (members@[j].0@, members@[j].1.model()),
                                found is None ==> forall|j: int| 0 <= j < k ==> ms[j].0 != name@,
                                found matches Some(f) ==> f < members@.len() && ms[f as int].0 == name@
                                    && forall|j: int| 0 <= j < f ==> ms[j].0 != name@,
                            decreases members@.len() - k,
                        {
                            if found.is_none() && str_eq(members[k].0.as_str(), name.as_str()) {
                                found = Some(k);
                            }
                            k += 1;
                        }
                        match found {
                            Some(f) => {
                                proof {
                                    assert(model_member_index(ms, name@) == f as int);
                                }
                                current = &members[f].1;
                            },
                            None => {
                                return Err(outcome_error(Ghost(navigate(current.model(), rest)), 0, name.as_str(), 0));
                            },
                        }
                    },
                    _ => {
                        return Err(outcome_error(Ghost(navigate(current.model(), rest)), 1, "", 0));
                    },
                }
            },
            JsonPathPart::Index(idx) => {
                match current {
                    JsonValue::Array(items) => {
                        proof { lemma_models(items@); }
                        if *idx < items.len() {
                            current = &items[*idx];
                        } else {
                            return Err(outcome_error(Ghost(navigate(current.model(), rest)), 2, "", *idx));
                        }
                    },
                    _ => {
                        return Err(outcome_error(Ghost(navigate(current.model(), rest)), 3, "", 0));
                    },
                }
            },
        }
        i += 1;
    }
    Ok(current.deep_copy())
}

/// The position of the first group named `name`, or -1.
pub open spec fn name_index(names: Seq<Option<Seq<char>>>, name: Seq<char>) -> int
    decreases names.len(),
{
    if names.len() == 0 {
        -1
    } else if names[0] == Some(name) {
        0
    } else {
        let r = name_index(names.drop_first(), name);
        if r < 0 { -1 } else { r + 1 }
    }
}

pub proof fn lemma_name_index(names: Seq<Option<Seq<char>>>, name: Seq<char>)
    ensures
        -1 <= name_index(names, name) < names.len(),
        name_index(names, name) >= 0 ==> names[name_index(names, name)] == Some(name),
        name_index(names, name) >= 0 ==> forall|j: int| 0 <= j < name_index(names, name) ==> names[j] != Some(name),
        name_index(names, name) < 0 ==> forall|j: int| 0 <= j < names.len() ==> names[j] != Some(name),
    decreases names.len(),
{
    if names.len() > 0 && names[0] != Some(name) {
        lemma_name_index(names.drop_first(), name);
        assert forall|j: int| 1 <= j < names.len() implies names[j] == names.drop_first()[j - 1] by {}
    }
}

/// The capture that `extract_regex` picks from a match: the group named
/// `name` if it took part, else the first group if it took part.
pub open spec fn chosen_capture(
    g: Seq<Option<Seq<char>>>,
    names: Seq<Option<Seq<char>>>,
    name: Seq<char>,
) -> Option<Seq<char>> {
    let k = name_index(names, name);
    if 0 <= k < g.len() && g[k] is Some {
        g[k]
    } else if g.len() > 1 && g[1] is Some {
        g[1]
    } else {
        None
    }
}

/// Takes a capture out of the first match of `pattern` in `text`: the group
/// called `capture_name`, or else the first group.
pub fn extract_regex(text: &str, pattern: &str, capture_name: &str) -> (r: Result<String, VariableError>)
    ensures
        match regex_compile(pattern@) {
            Some(msg) => r matches Err(VariableError::InvalidRegex(m)) && m@ == msg,
            None => match regex_first_groups(pattern@, text@) {
                None => r matches Err(VariableError::RegexCaptureFailed),
                Some(g) => match chosen_capture(g, regex_group_names(pattern@), capture_name@) {
                    Some(t) => r matches Ok(s) && s@ == t,
                    None => r matches Err(VariableError::RegexCaptureFailed),
                },
            },
        },
{
    match pattern_error(pattern) {
        Some(msg) => {
            return Err(VariableError::InvalidRegex(msg));
        },
        None => {},
    }
    let caps = match first_groups(pattern, text) {
        Some(c) => c,
        None => return Err(VariableError::RegexCaptureFailed),
    };
    let names = group_names(pattern);
    let ghost gv = groups_view(caps@);
    let ghost nv = groups_view(names@);
    proof { lemma_name_index(nv, capture_name@); }
    let mut k: usize = 0;
    let mut found: Option<usize> = None;
    while k < names.len()
        invariant
            k <= names@.len(),
            nv == groups_view(names@),
            nv.len() == names@.len(),
            found is None ==> forall|j: int| 0 <= j < k ==> nv[j] != Some(capture_name@),
            found matches Some(f) ==> f < names@.len() && nv[f as int] == Some(capture_name@)
                && forall|j: int| 0 <= j < f ==> nv[j] != Some(capture_name@),
        decreases names@.len() - k,
    {
        if found.is_none() {
            match &names[k] {
                Some(n) => {
                    if str_eq(n.as_str(), capture_name) {
                        found = Some(k);
                    }
                },
                None => {},
            }
            proof { assert(nv[k as int] == opt_view(names@[k as int])); }
        }
        k += 1;
    }
    proof {
        match found {
            Some(f) => assert(name_index(nv, capture_name@) == f as int),
            None => assert(name_index(nv, capture_name@) < 0),
        }
    }
    if let Some(f) = found {
        if f < caps.len() {
            if let Some(t) = &caps[f] {
                proof { assert(gv[f as int] == opt_view(caps@[f as int])); }
                return Ok(t.clone());
            }
            proof { assert(gv[f as int] == opt_view(caps@[f as int])); }
        }
    }
    if caps.len() > 1 {
        proof { assert(gv[1] == opt_view(caps@[1])); }
        if let Some(t) = &caps[1] {
            return Ok(t.clone());
        }
    }
    Err(VariableError::RegexCaptureFailed)
}

/// The value of the header called exactly `header_name`.
pub fn extract_headers(response_headers: &StrMap<String>, header_name: &str) -> (r: Option<String>)
    ensures
        match r {
            Some(v) => response_headers@.contains_key(header_name@)
                && v@ == response_headers@[header_name@]@,
            None => !response_headers@.contains_key(header_name@),
        },
{
    match response_headers.get(header_name) {
        Some(v) => Some(v.clone()),
        None => None,
    }
}

} // verus!
