use vstd::prelude::*;

use vstd::pervasive::VecAdditionalExecFns;

use crate::editor::{EditorError, EditorFormat};
use crate::input::InputBuffer;
use crate::json::{decimal, push_decimal};
use crate::request::sendable_url;
use crate::request_pane::{holds, normalize_single_line, rows_from, AuthType, BodyType, EditableField, RequestPane, RequestPaneEditSpec};
use crate::text::{chars_of, copy_str, push_str, string_from_chars, trim, trim_exec};

verus! {

/// A text result as plain values.
pub open spec fn text_result(r: Result<String, String>) -> Result<Seq<char>, Seq<char>> {
    match r {
        Ok(t) => Ok(t@),
        Err(e) => Err(e@),
    }
}

/// The YAML text that `serde_yaml` writes for a list of records with the
/// fields `name` and `value`, in that order; or the text of its error.
pub uninterp spec fn yaml_records_text(pairs: Seq<(Seq<char>, Seq<char>)>) -> Result<Seq<char>, Seq<char>>;

/// The pairs as plain values.
pub open spec fn pairs_view(pairs: Seq<(String, String)>) -> Seq<(Seq<char>, Seq<char>)> {
    pairs.map_values(|p: (String, String)| (p.0@, p.1@))
}

/// Writes the pairs with `serde_yaml::to_string` as a list of maps from
/// `name` and `value` to the texts. Claimed: the result is
/// `yaml_records_text` of the pairs, a function of them alone.
#[verifier::external_body]
fn records_to_yaml(pairs: &Vec<(String, String)>) -> (r: Result<String, String>)
    ensures
        text_result(r) == yaml_records_text(pairs_view(pairs@)),
{
    let maps: Vec<std::collections::BTreeMap<&str, &str>> = pairs
        .iter()
        .map(|(n, v)| [("name", n.as_str()), ("value", v.as_str())].into_iter().collect())
        .collect();
    serde_yaml::to_string(&maps).map_err(|e| e.to_string())
}

/// What `serde_yaml` reads from `text` as a list of maps from strings to
/// strings, each map's entries in the order of their keys; or the text of
/// its error.
pub uninterp spec fn yaml_records(text: Seq<char>) -> Result<Seq<Seq<(Seq<char>, Seq<char>)>>, Seq<char>>;

/// Records read from YAML as plain values.
pub open spec fn records_result(r: Result<Vec<Vec<(String, String)>>, String>) -> Result<
    Seq<Seq<(Seq<char>, Seq<char>)>>,
    Seq<char>,
> {
    match r {
        Ok(v) => Ok(v@.map_values(|m: Vec<(String, String)>| pairs_view(m@))),
        Err(e) => Err(e@),
    }
}

/// Reads `text` with `serde_yaml::from_str` as a list of maps from strings
/// to strings. Claimed: the result is `yaml_records` of the text, a
/// function of it alone.
#[verifier::external_body]
fn yaml_to_records(text: &str) -> (r: Result<Vec<Vec<(String, String)>>, String>)
    ensures
        records_result(r) == yaml_records(text@),
{
    match serde_yaml::from_str::<Vec<std::collections::BTreeMap<String, String>>>(text) {
        Ok(list) => Ok(list.into_iter().map(|m| m.into_iter().collect()).collect()),
        Err(e) => Err(e.to_string()),
    }
}

/// The text of the error `serde_json` gives reading `text` as JSON; none
/// where it reads.
pub uninterp spec fn json_error(text: Seq<char>) -> Option<Seq<char>>;

/// Reads `text` with `serde_json::from_str` into a `serde_json::Value`.
/// Claimed: the result is `json_error` of the text, a function of it alone.
#[verifier::external_body]
fn json_check(text: &str) -> (r: Option<String>)
    ensures
        r is Some == json_error(text@) is Some,
        r is Some ==> r->0@ == json_error(text@)->0,
{
    match serde_json::from_str::<serde_json::Value>(text) {
        Ok(_) => None,
        Err(e) => Some(e.to_string()),
    }
}

/// The rows whose name is not blank, as (trimmed name, value).
pub open spec fn named_rows(rows: Seq<(InputBuffer, InputBuffer)>) -> Seq<(Seq<char>, Seq<char>)>
    decreases rows.len(),
{
    if rows.len() == 0 {
        Seq::empty()
    } else {
        let prev = named_rows(rows.drop_last());
        let name = trim(rows.last().0.content@);
        if name.len() == 0 {
            prev
        } else {
            prev.push((name, rows.last().1.content@))
        }
    }
}

/// The rows whose name is not blank, as (trimmed name, value).
fn named_pairs(rows: &Vec<(InputBuffer, InputBuffer)>) -> (r: Vec<(String, String)>)
    ensures
        pairs_view(r@) == named_rows(rows@),
{
    let mut out: Vec<(String, String)> = Vec::new();
    let mut i: usize = 0;
    while i < rows.len()
        invariant
            i <= rows@.len(),
            pairs_view(out@) == named_rows(rows@.take(i as int)),
        decreases rows@.len() - i,
    {
        proof { assert(rows@.take(i + 1).drop_last() =~= rows@.take(i as int)); }
        let cs = chars_of(rows[i].0.content.as_str());
        let t = trim_exec(&cs);
        if t.len() > 0 {
            let name = string_from_chars(t.as_slice());
            let value = rows[i].1.content.clone();
            let ghost before = pairs_view(out@);
            let ghost p = (name@, value@);
            out.push((name, value));
            proof { assert(pairs_view(out@) =~= before.push(p)); }
        }
        i += 1;
    }
    proof { assert(rows@.take(i as int) =~= rows@); }
    out
}

/// `Header index N is out of bounds` or `Param index N is out of bounds`.
pub open spec fn index_error(kind: Seq<char>, i: nat) -> Seq<char> {
    kind + " index "@ + decimal(i) + " is out of bounds"@
}

fn index_error_text(kind: &str, i: usize) -> (r: String)
    ensures
        r@ == index_error(kind@, i as nat),
{
    let mut out = copy_str(kind);
    push_str(&mut out, " index ");
    push_decimal(&mut out, i as u64);
    push_str(&mut out, " is out of bounds");
    out
}

/// What an edit of `field` starts from, with its file format, or why it cannot.
pub open spec fn edit_spec(p: RequestPane, field: EditableField) -> Result<(EditorFormat, Seq<char>), Seq<char>> {
    let yaml = |rows: Seq<(InputBuffer, InputBuffer)>| match yaml_records_text(named_rows(rows)) {
        Ok(t) => Ok((EditorFormat::Yaml, t)),
        Err(m) => Err(m),
    };
    let text = |s: Seq<char>| Ok::<(EditorFormat, Seq<char>), Seq<char>>((EditorFormat::Text, s));
    match field {
        EditableField::Url => text(p.url_buffer.content@),
        EditableField::Body => match p.body_type {
            BodyType::Json => Ok((EditorFormat::Json, p.body_content.content@)),
            BodyType::Form => yaml(p.params@),
            BodyType::Raw => text(p.body_content.content@),
        },
        EditableField::Headers => yaml(p.headers@),
        EditableField::HeaderName(i) => if i < p.headers@.len() {
            text(p.headers@[i as int].0.content@)
        } else {
            Err(index_error("Header"@, i as nat))
        },
        EditableField::HeaderValue(i) => if i < p.headers@.len() {
            text(p.headers@[i as int].1.content@)
        } else {
            Err(index_error("Header"@, i as nat))
        },
        EditableField::AuthType => text(p.auth_type.label()),
        EditableField::AuthUsername => text(p.auth_username.content@),
        EditableField::AuthPassword => text(p.auth_password.content@),
        EditableField::AuthToken => text(p.auth_token.content@),
        EditableField::AuthKeyName => text(p.auth_key_name.content@),
        EditableField::AuthKeyValue => text(p.auth_key_value.content@),
        EditableField::ParamKey(i) => if i < p.params@.len() {
            text(p.params@[i as int].0.content@)
        } else {
            Err(index_error("Param"@, i as nat))
        },
        EditableField::ParamValue(i) => if i < p.params@.len() {
            text(p.params@[i as int].1.content@)
        } else {
            Err(index_error("Param"@, i as nat))
        },
    }
}

/// A plain-text edit of `content`.
fn text_spec(field: EditableField, content: &str) -> (r: RequestPaneEditSpec)
    ensures
        r.field == field,
        r.format == EditorFormat::Text,
        r.content@ == content@,
{
    RequestPaneEditSpec { field, format: EditorFormat::Text, content: copy_str(content) }
}

/// A YAML edit of the named rows.
fn yaml_spec(field: EditableField, rows: &Vec<(InputBuffer, InputBuffer)>) -> (r: Result<RequestPaneEditSpec, EditorError>)
    ensures
        match r {
            Ok(s) => s.field == field && yaml_records_text(named_rows(rows@)) == Ok::<Seq<char>, Seq<char>>(
                s.content@,
            ) && s.format == EditorFormat::Yaml,
            Err(e) => e matches EditorError::Validation(m) && yaml_records_text(named_rows(rows@)) == Err::<
                Seq<char>,
                Seq<char>,
            >(m@),
        },
{
    match records_to_yaml(&named_pairs(rows)) {
        Ok(t) => Ok(RequestPaneEditSpec { field, format: EditorFormat::Yaml, content: t }),
        Err(m) => Err(EditorError::Validation(m)),
    }
}

impl RequestPane {
    /// What an external edit of `field` starts from: plain text for single
    /// values, JSON for a JSON body, YAML for the headers and a form body;
    /// an error for a row that does not exist.
    pub fn editor_spec_for(&self, field: EditableField) -> (r: Result<RequestPaneEditSpec, EditorError>)
        ensures
            match r {
                Ok(s) => s.field == field && edit_spec(*self, field) == Ok::<(EditorFormat, Seq<char>), Seq<char>>(
                    (s.format, s.content@),
                ),
                Err(e) => e matches EditorError::Validation(m) && edit_spec(*self, field) == Err::<
                    (EditorFormat, Seq<char>),
                    Seq<char>,
                >(m@),
            },
    {
        match field {
            EditableField::Url => Ok(text_spec(field, self.url_buffer.content.as_str())),
            EditableField::Body => match self.body_type {
                BodyType::Json => Ok(
                    RequestPaneEditSpec {
                        field,
                        format: EditorFormat::Json,
                        content: self.body_content.content.clone(),
                    },
                ),
                BodyType::Form => yaml_spec(field, &self.params),
                BodyType::Raw => Ok(text_spec(field, self.body_content.content.as_str())),
            },
            EditableField::Headers => yaml_spec(field, &self.headers),
            EditableField::HeaderName(i) => if i < self.headers.len() {
                Ok(text_spec(field, self.headers[i].0.content.as_str()))
            } else {
                Err(EditorError::Validation(index_error_text("Header", i)))
            },
            EditableField::HeaderValue(i) => if i < self.headers.len() {
                Ok(text_spec(field, self.headers[i].1.content.as_str()))
            } else {
                Err(EditorError::Validation(index_error_text("Header", i)))
            },
            EditableField::AuthType => Ok(text_spec(field, self.auth_type.as_str())),
            EditableField::AuthUsername => Ok(text_spec(field, self.auth_username.content.as_str())),
            EditableField::AuthPassword => Ok(text_spec(field, self.auth_password.content.as_str())),
            EditableField::AuthToken => Ok(text_spec(field, self.auth_token.content.as_str())),
            EditableField::AuthKeyName => Ok(text_spec(field, self.auth_key_name.content.as_str())),
            EditableField::AuthKeyValue => Ok(text_spec(field, self.auth_key_value.content.as_str())),
            EditableField::ParamKey(i) => if i < self.params.len() {
                Ok(text_spec(field, self.params[i].0.content.as_str()))
            } else {
                Err(EditorError::Validation(index_error_text("Param", i)))
            },
            EditableField::ParamValue(i) => if i < self.params.len() {
                Ok(text_spec(field, self.params[i].1.content.as_str()))
            } else {
                Err(EditorError::Validation(index_error_text("Param", i)))
            },
        }
    }

    /// What an external edit of the focused field starts from.
    pub fn editor_spec_for_focused_field(&self) -> (r: Result<RequestPaneEditSpec, EditorError>)
        requires
            self.focused_field == crate::request_pane::FocusedField::Tabs || self.focused_field
                == crate::request_pane::FocusedField::TabContent ==> self.selected_tab < 4,
        ensures
            match r {
                Ok(s) => s.field == self.editable() && edit_spec(*self, self.editable()) == Ok::<
                    (EditorFormat, Seq<char>),
                    Seq<char>,
                >((s.format, s.content@)),
                Err(e) => e matches EditorError::Validation(m) && edit_spec(*self, self.editable()) == Err::<
                    (EditorFormat, Seq<char>),
                    Seq<char>,
                >(m@),
            },
    {
        self.editor_spec_for(self.focused_editable_field())
    }
}


/// The value of the first entry of a record with key `key`.
pub open spec fn record_get(rec: Seq<(Seq<char>, Seq<char>)>, key: Seq<char>) -> Option<Seq<char>>
    decreases rec.len(),
{
    if rec.len() == 0 {
        None
    } else if rec[0].0 == key {
        Some(rec[0].1)
    } else {
        record_get(rec.drop_first(), key)
    }
}

/// The `name` and `value` of each record, or the field that the first
/// record without both lacks.
pub open spec fn records_pairs(recs: Seq<Seq<(Seq<char>, Seq<char>)>>) -> Result<Seq<(Seq<char>, Seq<char>)>, Seq<char>>
    decreases recs.len(),
{
    if recs.len() == 0 {
        Ok(Seq::empty())
    } else {
        match records_pairs(recs.drop_last()) {
            Err(m) => Err(m),
            Ok(prev) => match (record_get(recs.last(), "name"@), record_get(recs.last(), "value"@)) {
                (Some(n), Some(v)) => Ok(prev.push((n, v))),
                (None, _) => Err("missing field `name`"@),
                (Some(_), None) => Err("missing field `value`"@),
            },
        }
    }
}

/// The pairs a YAML list of records holds, or why it holds none.
pub open spec fn yaml_pairs(text: Seq<char>) -> Result<Seq<(Seq<char>, Seq<char>)>, Seq<char>> {
    match yaml_records(text) {
        Err(m) => Err(m),
        Ok(recs) => records_pairs(recs),
    }
}

/// A character allowed in a header name (an HTTP token).
pub open spec fn is_tchar(c: char) -> bool {
    ('a' <= c <= 'z') || ('A' <= c <= 'Z') || ('0' <= c <= '9') || c == '!' || c == '#' || c == '$' || c == '%'
        || c == '&' || c == '\'' || c == '*' || c == '+' || c == '-' || c == '.' || c == '^' || c == '_' || c
        == '`' || c == '|' || c == '~'
}

/// A header name: a non-empty HTTP token.
pub open spec fn valid_header_name(s: Seq<char>) -> bool {
    s.len() > 0 && forall|i: int| 0 <= i < s.len() ==> is_tchar(#[trigger] s[i])
}

/// A header value: no control character but the tab.
pub open spec fn valid_header_value(s: Seq<char>) -> bool {
    forall|i: int| 0 <= i < s.len() ==> ((#[trigger] s[i] as u32) >= 32 && s[i] as u32 != 127) || s[i] == '\t'
}

/// The first reason among the pairs that one is no header.
pub open spec fn header_problem(pairs: Seq<(Seq<char>, Seq<char>)>) -> Option<Seq<char>>
    decreases pairs.len(),
{
    if pairs.len() == 0 {
        None
    } else if !valid_header_name(pairs[0].0) {
        Some("Invalid header name: "@ + pairs[0].0)
    } else if !valid_header_value(pairs[0].1) {
        Some("Invalid header value for "@ + pairs[0].0)
    } else {
        header_problem(pairs.drop_first())
    }
}

/// The text in lower case, ASCII letters only.
pub open spec fn ascii_lower(s: Seq<char>) -> Seq<char> {
    s.map_values(|c: char| if 'A' <= c <= 'Z' { ((c as u32) + 32) as char } else { c })
}

/// The kind of authentication a name stands for, in any case and with
/// white space around it.
pub open spec fn auth_named(content: Seq<char>) -> Option<AuthType> {
    let t = ascii_lower(trim(content));
    if t == "none"@ {
        Some(AuthType::NoAuth)
    } else if t == "basic"@ {
        Some(AuthType::Basic)
    } else if t == "bearer"@ {
        Some(AuthType::Bearer)
    } else if t == "api key"@ || t == "apikey"@ || t == "api_key"@ {
        Some(AuthType::ApiKey)
    } else {
        None
    }
}

/// Whether edited content may replace `field`, or why not.
pub open spec fn validation(p: RequestPane, field: EditableField, content: Seq<char>) -> Result<(), Seq<char>> {
    match field {
        EditableField::Url => {
            let u = crate::request_pane::line_text(content);
            if crate::request::request_sendable(u) {
                Ok(())
            } else {
                Err("Invalid URL: "@ + u)
            }
        },
        EditableField::Body => match p.body_type {
            BodyType::Json => match json_error(content) {
                Some(m) => Err(m),
                None => Ok(()),
            },
            BodyType::Form => match yaml_pairs(content) {
                Err(m) => Err(m),
                Ok(pairs) => if exists|i: int| 0 <= i < pairs.len() && trim(#[trigger] pairs[i].0).len() == 0 {
                    Err("Form keys cannot be empty"@)
                } else {
                    Ok(())
                },
            },
            BodyType::Raw => Ok(()),
        },
        EditableField::Headers => match yaml_pairs(content) {
            Err(m) => Err(m),
            Ok(pairs) => match header_problem(pairs) {
                Some(m) => Err(m),
                None => Ok(()),
            },
        },
        EditableField::HeaderName(_) => {
            let n = crate::request_pane::line_text(content);
            if valid_header_name(n) {
                Ok(())
            } else {
                Err("Invalid header name: "@ + n)
            }
        },
        EditableField::AuthType => match auth_named(crate::request_pane::line_text(content)) {
            Some(_) => Ok(()),
            None => Err(
                "Unknown auth type '"@ + ascii_lower(trim(crate::request_pane::line_text(content))) + "'"@,
            ),
        },
        _ => Ok(()),
    }
}

/// Reads the `name` and `value` of each record.
fn record_pairs(recs: Vec<Vec<(String, String)>>) -> (r: Result<Vec<(String, String)>, String>)
    ensures
        text_pairs_result(r) == records_pairs(recs@.map_values(|m: Vec<(String, String)>| pairs_view(m@))),
{
    let ghost all = recs@.map_values(|m: Vec<(String, String)>| pairs_view(m@));
    let mut out: Vec<(String, String)> = Vec::new();
    let mut i: usize = 0;
    proof {
        assert(all.take(0) =~= Seq::<Seq<(Seq<char>, Seq<char>)>>::empty());
        assert(pairs_view(out@) =~= Seq::<(Seq<char>, Seq<char>)>::empty());
    }
    while i < recs.len()
        invariant
            i <= recs@.len(),
            all == recs@.map_values(|m: Vec<(String, String)>| pairs_view(m@)),
            records_pairs(all.take(i as int)) == Ok::<Seq<(Seq<char>, Seq<char>)>, Seq<char>>(pairs_view(out@)),
        decreases recs@.len() - i,
    {
        proof { assert(all.take(i + 1).drop_last() =~= all.take(i as int)); }
        let rec = &recs[i];
        let name = find_field(rec, "name");
        let value = find_field(rec, "value");
        proof {
            reveal_strlit("name");
            reveal_strlit("value");
        }
        match name {
            None => {
                proof { lemma_records_pairs_err(all, i as int + 1, "missing field `name`"@); }
                return Err(copy_str("missing field `name`"));
            },
            Some(n) => match value {
                None => {
                    proof { lemma_records_pairs_err(all, i as int + 1, "missing field `value`"@); }
                    return Err(copy_str("missing field `value`"));
                },
                Some(v) => {
                    let ghost before = pairs_view(out@);
                    let ghost p = (n@, v@);
                    out.push((n, v));
                    proof { assert(pairs_view(out@) =~= before.push(p)); }
                },
            },
        }
        i += 1;
    }
    proof { assert(all.take(i as int) =~= all); }
    Ok(out)
}

/// A pairs result as plain values.
pub open spec fn text_pairs_result(r: Result<Vec<(String, String)>, String>) -> Result<Seq<(Seq<char>, Seq<char>)>, Seq<char>> {
    match r {
        Ok(v) => Ok(pairs_view(v@)),
        Err(e) => Err(e@),
    }
}

proof fn lemma_records_pairs_err(all: Seq<Seq<(Seq<char>, Seq<char>)>>, k: int, m: Seq<char>)
    requires
        0 < k <= all.len(),
        records_pairs(all.take(k)) == Err::<Seq<(Seq<char>, Seq<char>)>, Seq<char>>(m),
    ensures
        records_pairs(all) == Err::<Seq<(Seq<char>, Seq<char>)>, Seq<char>>(m),
    decreases all.len() - k,
{
    if k < all.len() {
        assert(all.take(k + 1).drop_last() =~= all.take(k));
        lemma_records_pairs_err(all, k + 1, m);
    } else {
        assert(all.take(k) =~= all);
    }
}

/// The value of the first entry of `rec` with key `key`.
fn find_field(rec: &Vec<(String, String)>, key: &str) -> (r: Option<String>)
    ensures
        r is Some == record_get(pairs_view(rec@), key@) is Some,
        r is Some ==> r->0@ == record_get(pairs_view(rec@), key@)->0,
{
    let mut i: usize = 0;
    proof { assert(pairs_view(rec@).skip(0) =~= pairs_view(rec@)); }
    while i < rec.len()
        invariant
            i <= rec@.len(),
            record_get(pairs_view(rec@), key@) == record_get(pairs_view(rec@).skip(i as int), key@),
        decreases rec@.len() - i,
    {
        let ghost rest = pairs_view(rec@).skip(i as int);
        proof { assert(rest.drop_first() =~= pairs_view(rec@).skip(i + 1)); }
        if crate::text::str_eq(rec[i].0.as_str(), key) {
            return Some(rec[i].1.clone());
        }
        i += 1;
    }
    None
}

/// The pairs of a YAML list of records.
fn parse_pairs(text: &str) -> (r: Result<Vec<(String, String)>, String>)
    ensures
        text_pairs_result(r) == yaml_pairs(text@),
{
    match yaml_to_records(text) {
        Err(m) => Err(m),
        Ok(recs) => record_pairs(recs),
    }
}

/// The text in lower case, ASCII letters only.
fn lower_ascii(s: &str) -> (r: String)
    ensures
        r@ == ascii_lower(s@),
{
    let cs = chars_of(s);
    let mut out = String::new();
    let mut i: usize = 0;
    while i < cs.len()
        invariant
            i <= cs@.len(),
            cs@ == s@,
            out@ == ascii_lower(s@).take(i as int),
        decreases cs@.len() - i,
    {
        let c = cs[i];
        let l = if 'A' <= c && c <= 'Z' { ((c as u32) + 32) as u8 as char } else { c };
        proof {
            if 'A' <= c <= 'Z' {
                assert(((c as u32) + 32) as u8 as char == ((c as u32) + 32) as char);
            }
        }
        crate::text::push_char(&mut out, l);
        proof { assert(ascii_lower(s@).take(i + 1) =~= ascii_lower(s@).take(i as int).push(l)); }
        i += 1;
    }
    proof { assert(ascii_lower(s@).take(i as int) =~= ascii_lower(s@)); }
    out
}

/// The kind of authentication `content` names.
pub fn parse_auth_type(content: &str) -> (r: Result<AuthType, EditorError>)
    ensures
        match r {
            Ok(t) => auth_named(content@) == Some(t),
            Err(e) => auth_named(content@) is None && (e matches EditorError::Validation(m) && m@
                == "Unknown auth type '"@ + ascii_lower(trim(content@)) + "'"@),
        },
{
    let cs = chars_of(content);
    let t = trim_exec(&cs);
    let lower = lower_ascii(string_from_chars(t.as_slice()).as_str());
    let l = lower.as_str();
    if crate::text::str_eq(l, "none") {
        Ok(AuthType::NoAuth)
    } else if crate::text::str_eq(l, "basic") {
        Ok(AuthType::Basic)
    } else if crate::text::str_eq(l, "bearer") {
        Ok(AuthType::Bearer)
    } else if crate::text::str_eq(l, "api key") || crate::text::str_eq(l, "apikey") || crate::text::str_eq(l, "api_key") {
        Ok(AuthType::ApiKey)
    } else {
        let mut m = copy_str("Unknown auth type '");
        push_str(&mut m, l);
        push_str(&mut m, "'");
        Err(EditorError::Validation(m))
    }
}

fn tchar(c: char) -> (r: bool)
    ensures
        r == is_tchar(c),
{
    ('a' <= c && c <= 'z') || ('A' <= c && c <= 'Z') || ('0' <= c && c <= '9') || c == '!' || c == '#' || c == '$'
        || c == '%' || c == '&' || c == '\'' || c == '*' || c == '+' || c == '-' || c == '.' || c == '^' || c == '_'
        || c == '`' || c == '|' || c == '~'
}

/// Whether `s` is a header name.
pub fn header_name_ok(s: &str) -> (r: bool)
    ensures
        r == valid_header_name(s@),
{
    let cs = chars_of(s);
    if cs.len() == 0 {
        return false;
    }
    let mut i: usize = 0;
    while i < cs.len()
        invariant
            i <= cs@.len(),
            cs@ == s@,
            forall|j: int| 0 <= j < i ==> is_tchar(#[trigger] cs@[j]),
        decreases cs@.len() - i,
    {
        if !tchar(cs[i]) {
            return false;
        }
        i += 1;
    }
    true
}

/// Whether `s` is a header value.
pub fn header_value_ok(s: &str) -> (r: bool)
    ensures
        r == valid_header_value(s@),
{
    let cs = chars_of(s);
    let mut i: usize = 0;
    while i < cs.len()
        invariant
            i <= cs@.len(),
            cs@ == s@,
            forall|j: int| 0 <= j < i ==> ((#[trigger] cs@[j] as u32) >= 32 && cs@[j] as u32 != 127) || cs@[j] == '\t',
        decreases cs@.len() - i,
    {
        let c = cs[i];
        if !(((c as u32) >= 32 && (c as u32) != 127) || c == '\t') {
            return false;
        }
        i += 1;
    }
    true
}

/// The first reason a pair is no header, if any.
fn find_header_problem(pairs: &Vec<(String, String)>) -> (r: Option<String>)
    ensures
        r is Some == header_problem(pairs_view(pairs@)) is Some,
        r is Some ==> r->0@ == header_problem(pairs_view(pairs@))->0,
{
    let mut i: usize = 0;
    proof { assert(pairs_view(pairs@).skip(0) =~= pairs_view(pairs@)); }
    while i < pairs.len()
        invariant
            i <= pairs@.len(),
            header_problem(pairs_view(pairs@)) == header_problem(pairs_view(pairs@).skip(i as int)),
        decreases pairs@.len() - i,
    {
        let ghost rest = pairs_view(pairs@).skip(i as int);
        proof { assert(rest.drop_first() =~= pairs_view(pairs@).skip(i + 1)); }
        if !header_name_ok(pairs[i].0.as_str()) {
            let mut m = copy_str("Invalid header name: ");
            push_str(&mut m, pairs[i].0.as_str());
            return Some(m);
        }
        if !header_value_ok(pairs[i].1.as_str()) {
            let mut m = copy_str("Invalid header value for ");
            push_str(&mut m, pairs[i].0.as_str());
            return Some(m);
        }
        i += 1;
    }
    None
}


/// The rows hold the pairs, names then values, each cursor at its text's
/// end; one empty row where there are no pairs.
pub open spec fn rows_hold(rows: Seq<(InputBuffer, InputBuffer)>, ps: Seq<(Seq<char>, Seq<char>)>) -> bool {
    if ps.len() == 0 {
        rows.len() == 1 && holds(rows[0].0, Seq::empty()) && holds(rows[0].1, Seq::empty())
    } else {
        &&& rows.len() == ps.len()
        &&& forall|i: int| 0 <= i < ps.len() ==> holds(#[trigger] rows[i].0, ps[i].0) && holds(rows[i].1, ps[i].1)
    }
}

/// `sel` kept within `len` rows.
pub open spec fn kept_in(sel: usize, len: int) -> usize {
    if sel < len - 1 {
        sel
    } else {
        (len - 1) as usize
    }
}

/// Row `i` of `rows` after the edit, the rest unchanged: the name (`name`
/// true) or value of row `i` holds `text`.
pub open spec fn row_edited(
    rows: Seq<(InputBuffer, InputBuffer)>,
    old: Seq<(InputBuffer, InputBuffer)>,
    i: int,
    name: bool,
    text: Seq<char>,
) -> bool {
    &&& rows.len() == old.len()
    &&& forall|j: int| 0 <= j < rows.len() && j != i ==> rows[j] == old[j]
    &&& if name {
        holds(rows[i].0, text) && rows[i].1 == old[i].1
    } else {
        holds(rows[i].1, text) && rows[i].0 == old[i].0
    }
}

/// The pane after edited `content` that passed validation replaced `field`,
/// with the result `r`: a row that does not exist is an error and changes nothing.
pub open spec fn edit_result(new: RequestPane, old: RequestPane, field: EditableField, content: Seq<char>, r: Result<(), EditorError>) -> bool {
    let line = crate::request_pane::line_text(content);
    let row_edit = |rows_new: Seq<(InputBuffer, InputBuffer)>, rows_old: Seq<(InputBuffer, InputBuffer)>, i: usize, name: bool, kind: Seq<char>, same: bool| if i < rows_old.len() {
        r is Ok && row_edited(rows_new, rows_old, i as int, name, line) && same
    } else {
        (r matches Err(EditorError::Validation(m)) && m@ == index_error(kind, i as nat)) && new == old
    };
    match field {
        EditableField::Url => r is Ok && holds(new.url_buffer, line) && new == (RequestPane { url_buffer: new.url_buffer, ..old }),
        EditableField::Body => r is Ok && holds(new.body_content, content) && if old.body_type == BodyType::Form {
            match yaml_pairs(content) {
                Ok(ps) => {
                    &&& rows_hold(new.params@, ps)
                    &&& new == (RequestPane {
                        params: new.params,
                        param_selected: kept_in(old.param_selected, new.params@.len() as int),
                        body_content: new.body_content,
                        ..old
                    })
                },
                Err(_) => false,
            }
        } else {
            new == (RequestPane { body_content: new.body_content, ..old })
        },
        EditableField::Headers => r is Ok && match yaml_pairs(content) {
            Ok(ps) => {
                &&& rows_hold(new.headers@, ps)
                &&& new == (RequestPane {
                    headers: new.headers,
                    header_selected: kept_in(old.header_selected, new.headers@.len() as int),
                    ..old
                })
            },
            Err(_) => false,
        },
        EditableField::HeaderName(i) => row_edit(new.headers@, old.headers@, i, true, "Header"@, new == (RequestPane { headers: new.headers, ..old })),
        EditableField::HeaderValue(i) => row_edit(new.headers@, old.headers@, i, false, "Header"@, new == (RequestPane { headers: new.headers, ..old })),
        EditableField::ParamKey(i) => row_edit(new.params@, old.params@, i, true, "Param"@, new == (RequestPane { params: new.params, ..old })),
        EditableField::ParamValue(i) => row_edit(new.params@, old.params@, i, false, "Param"@, new == (RequestPane { params: new.params, ..old })),
        EditableField::AuthType => r is Ok && auth_named(line) == Some(new.auth_type) && new == (RequestPane { auth_type: new.auth_type, ..old }),
        EditableField::AuthUsername => r is Ok && holds(new.auth_username, line) && new == (RequestPane { auth_username: new.auth_username, ..old }),
        EditableField::AuthPassword => r is Ok && holds(new.auth_password, line) && new == (RequestPane { auth_password: new.auth_password, ..old }),
        EditableField::AuthToken => r is Ok && holds(new.auth_token, line) && new == (RequestPane { auth_token: new.auth_token, ..old }),
        EditableField::AuthKeyName => r is Ok && holds(new.auth_key_name, line) && new == (RequestPane { auth_key_name: new.auth_key_name, ..old }),
        EditableField::AuthKeyValue => r is Ok && holds(new.auth_key_value, line) && new == (RequestPane { auth_key_value: new.auth_key_value, ..old }),
    }
}

proof fn lemma_filled_rows_hold(rows: Seq<(InputBuffer, InputBuffer)>, pairs: Seq<(String, String)>)
    requires
        crate::request_pane::filled_from(rows, pairs),
    ensures
        rows_hold(rows, pairs_view(pairs)),
{
    if pairs.len() == 0 {
        assert(rows[0].0.content@ =~= Seq::<char>::empty());
        assert(rows[0].1.content@ =~= Seq::<char>::empty());
        assert(crate::input::utf8(Seq::<char>::empty()) =~= Seq::<u8>::empty());
    } else {
        assert forall|i: int| 0 <= i < pairs.len() implies holds(#[trigger] rows[i].0, pairs_view(pairs)[i].0) && holds(
            rows[i].1,
            pairs_view(pairs)[i].1,
        ) by {
            assert(holds(rows[i].0, pairs[i].0@));
        }
    }
}

/// Replaces the name (`name` true) or value of row `i` with a buffer holding `text`.
fn edit_row(rows: &mut Vec<(InputBuffer, InputBuffer)>, i: usize, name: bool, text: &str)
    requires
        i < old(rows)@.len(),
    ensures
        row_edited(final(rows)@, old(rows)@, i as int, name, text@),
{
    let mut row = (InputBuffer::new(), InputBuffer::new());
    rows.set_and_swap(i, &mut row);
    if name {
        row.0 = InputBuffer::with_content(text);
    } else {
        row.1 = InputBuffer::with_content(text);
    }
    rows.set_and_swap(i, &mut row);
}

impl RequestPane {
    /// Checks edited `content` for `field`: a URL that can be sent, JSON that
    /// reads for a JSON body, YAML records for a form body (with no blank
    /// key) or for the headers (each a valid header), a header name that is
    /// an HTTP token, a known kind of authentication; anything else passes.
    pub fn validate_editor_content(&self, field: EditableField, content: &str) -> (r: Result<(), EditorError>)
        ensures
            r is Ok == validation(*self, field, content@) is Ok,
            r is Err ==> (r matches Err(EditorError::Validation(m)) && validation(*self, field, content@) == Err::<
                (),
                Seq<char>,
            >(m@)),
    {
        match field {
            EditableField::Url => {
                let u = normalize_single_line(content);
                if sendable_url(u.as_str()) {
                    Ok(())
                } else {
                    let mut m = copy_str("Invalid URL: ");
                    push_str(&mut m, u.as_str());
                    Err(EditorError::Validation(m))
                }
            },
            EditableField::Body => match self.body_type {
                BodyType::Json => match json_check(content) {
                    Some(m) => Err(EditorError::Validation(m)),
                    None => Ok(()),
                },
                BodyType::Form => match parse_pairs(content) {
                    Err(m) => Err(EditorError::Validation(m)),
                    Ok(pairs) => {
                        let mut i: usize = 0;
                        while i < pairs.len()
                            invariant
                                i <= pairs@.len(),
                                field == EditableField::Body,
                                self.body_type == BodyType::Form,
                                yaml_pairs(content@) == Ok::<Seq<(Seq<char>, Seq<char>)>, Seq<char>>(pairs_view(pairs@)),
                                forall|j: int| 0 <= j < i ==> trim(#[trigger] pairs_view(pairs@)[j].0).len() > 0,
                            decreases pairs@.len() - i,
                        {
                            let cs = chars_of(pairs[i].0.as_str());
                            if trim_exec(&cs).len() == 0 {
                                proof { assert(trim(pairs_view(pairs@)[i as int].0).len() == 0); }
                                return Err(EditorError::Validation(copy_str("Form keys cannot be empty")));
                            }
                            i += 1;
                        }
                        Ok(())
                    },
                },
                BodyType::Raw => Ok(()),
            },
            EditableField::Headers => match parse_pairs(content) {
                Err(m) => Err(EditorError::Validation(m)),
                Ok(pairs) => match find_header_problem(&pairs) {
                    Some(m) => Err(EditorError::Validation(m)),
                    None => Ok(()),
                },
            },
            EditableField::HeaderName(_) => {
                let n = normalize_single_line(content);
                if header_name_ok(n.as_str()) {
                    Ok(())
                } else {
                    let mut m = copy_str("Invalid header name: ");
                    push_str(&mut m, n.as_str());
                    Err(EditorError::Validation(m))
                }
            },
            EditableField::AuthType => match parse_auth_type(normalize_single_line(content).as_str()) {
                Ok(_) => Ok(()),
                Err(e) => Err(e),
            },
            _ => Ok(()),
        }
    }

    /// Replaces `field` with edited `content` once it passes validation:
    /// single values lose the line breaks at their end, the headers and a
    /// form body are read as YAML records into rows, and the selected row
    /// stays within them. Content that fails leaves the pane as it was.
    #[verifier::rlimit(60)]
    #[verifier::spinoff_prover]
    pub fn apply_edited_content(&mut self, field: EditableField, content: &str) -> (r: Result<(), EditorError>)
        ensures
            match validation(*old(self), field, content@) {
                Err(m) => (r matches Err(EditorError::Validation(e)) && e@ == m) && *final(self) == *old(self),
                Ok(_) => edit_result(*final(self), *old(self), field, content@, r),
            },
    {
        match self.validate_editor_content(field, content) {
            Err(e) => return Err(e),
            Ok(_) => {},
        }
        match field {
            EditableField::Url => {
                self.url_buffer = InputBuffer::with_content(normalize_single_line(content).as_str());
            },
            EditableField::Body => {
                if self.body_type == BodyType::Form {
                    match parse_pairs(content) {
                        Err(m) => return Err(EditorError::Validation(m)),
                        Ok(pairs) => {
                            self.params = rows_from(&pairs);
                            proof { lemma_filled_rows_hold(self.params@, pairs@); }
                            let last = self.params.len() - 1;
                            if self.param_selected > last {
                                self.param_selected = last;
                            }
                        },
                    }
                }
                self.body_content = InputBuffer::with_content(content);
            },
            EditableField::Headers => match parse_pairs(content) {
                Err(m) => return Err(EditorError::Validation(m)),
                Ok(pairs) => {
                    self.headers = rows_from(&pairs);
                    proof { lemma_filled_rows_hold(self.headers@, pairs@); }
                    let last = self.headers.len() - 1;
                    if self.header_selected > last {
                        self.header_selected = last;
                    }
                },
            },
            EditableField::HeaderName(i) | EditableField::HeaderValue(i) => {
                if i >= self.headers.len() {
                    return Err(EditorError::Validation(index_error_text("Header", i)));
                }
                let name = match field {
                    EditableField::HeaderName(_) => true,
                    _ => false,
                };
                edit_row(&mut self.headers, i, name, normalize_single_line(content).as_str());
            },
            EditableField::ParamKey(i) | EditableField::ParamValue(i) => {
                if i >= self.params.len() {
                    return Err(EditorError::Validation(index_error_text("Param", i)));
                }
                let name = match field {
                    EditableField::ParamKey(_) => true,
                    _ => false,
                };
                edit_row(&mut self.params, i, name, normalize_single_line(content).as_str());
            },
            EditableField::AuthType => match parse_auth_type(normalize_single_line(content).as_str()) {
                Ok(t) => self.auth_type = t,
                Err(e) => return Err(e),
            },
            EditableField::AuthUsername => {
                self.auth_username = InputBuffer::with_content(normalize_single_line(content).as_str());
            },
            EditableField::AuthPassword => {
                self.auth_password = InputBuffer::with_content(normalize_single_line(content).as_str());
            },
            EditableField::AuthToken => {
                self.auth_token = InputBuffer::with_content(normalize_single_line(content).as_str());
            },
            EditableField::AuthKeyName => {
                self.auth_key_name = InputBuffer::with_content(normalize_single_line(content).as_str());
            },
            EditableField::AuthKeyValue => {
                self.auth_key_value = InputBuffer::with_content(normalize_single_line(content).as_str());
            },
        }
        Ok(())
    }
}

} // verus!
