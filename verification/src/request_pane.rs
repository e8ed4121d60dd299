use vstd::prelude::*;
use vstd::string::StringExecFns;

use crate::input::{byte_len, on_boundary, utf8, InputBuffer, Key, KeyPress};
use crate::request::{Method, Request};
use crate::json::{decimal, push_decimal};
use crate::sidebar::{lowercase, texts, to_lower};
use crate::text::{chars_of, copy_str, push_char, push_str, trim};
use crate::editor::trimmed;
use crate::request_edit::pairs_view;

verus! {

/// The tabs of the request pane.
#[derive(Debug, Clone, Copy, PartialEq, Eq, Structural)]
pub enum RequestTab {
    Headers,
    Body,
    Auth,
    Params,
}

impl RequestTab {
    /// Every variant, in order.
    pub fn all() -> (r: Vec<RequestTab>)
        ensures
            r@ == seq![RequestTab::Headers, RequestTab::Body, RequestTab::Auth, RequestTab::Params],
    {
        let mut v: Vec<RequestTab> = Vec::new();
        v.push(RequestTab::Headers);
        v.push(RequestTab::Body);
        v.push(RequestTab::Auth);
        v.push(RequestTab::Params);
        v
    }

    /// The label shown for the variant.
    pub open spec fn label(self) -> Seq<char> {
        match self {
            RequestTab::Headers => "Headers"@,
            RequestTab::Body => "Body"@,
            RequestTab::Auth => "Auth"@,
            RequestTab::Params => "Params"@,
        }
    }

    /// The label shown for the variant.
    pub fn as_str(&self) -> (r: &'static str)
        ensures
            r@ == self.label(),
    {
        match self {
            RequestTab::Headers => "Headers",
            RequestTab::Body => "Body",
            RequestTab::Auth => "Auth",
            RequestTab::Params => "Params",
        }
    }
}

/// The part of the request pane that has the focus.
#[derive(Debug, Clone, Copy, PartialEq, Eq, Structural)]
pub enum FocusedField {
    Method,
    Url,
    Tabs,
    TabContent,
}

/// How a request body is written.
#[derive(Debug, Clone, Copy, PartialEq, Eq, Structural)]
pub enum BodyType {
    Raw,
    Json,
    Form,
}

impl BodyType {
    /// The label shown for the variant.
    pub open spec fn label(self) -> Seq<char> {
        match self {
            BodyType::Raw => "Raw"@,
            BodyType::Json => "JSON"@,
            BodyType::Form => "Form"@,
        }
    }

    /// The label shown for the variant.
    pub fn as_str(&self) -> (r: &'static str)
        ensures
            r@ == self.label(),
    {
        match self {
            BodyType::Raw => "Raw",
            BodyType::Json => "JSON",
            BodyType::Form => "Form",
        }
    }

    /// Every variant, in order.
    pub fn all() -> (r: Vec<BodyType>)
        ensures
            r@ == seq![BodyType::Raw, BodyType::Json, BodyType::Form],
    {
        let mut v: Vec<BodyType> = Vec::new();
        v.push(BodyType::Raw);
        v.push(BodyType::Json);
        v.push(BodyType::Form);
        v
    }
}

/// How a request authenticates.
#[derive(Debug, Clone, Copy, PartialEq, Eq, Structural)]
pub enum AuthType {
    NoAuth,
    Basic,
    Bearer,
    ApiKey,
}

impl AuthType {
    /// The label shown for the variant.
    pub open spec fn label(self) -> Seq<char> {
        match self {
            AuthType::NoAuth => "None"@,
            AuthType::Basic => "Basic"@,
            AuthType::Bearer => "Bearer"@,
            AuthType::ApiKey => "API Key"@,
        }
    }

    /// The label shown for the variant.
    pub fn as_str(&self) -> (r: &'static str)
        ensures
            r@ == self.label(),
    {
        match self {
            AuthType::NoAuth => "None",
            AuthType::Basic => "Basic",
            AuthType::Bearer => "Bearer",
            AuthType::ApiKey => "API Key",
        }
    }

    /// Every variant, in order.
    pub fn all() -> (r: Vec<AuthType>)
        ensures
            r@ == seq![AuthType::NoAuth, AuthType::Basic, AuthType::Bearer, AuthType::ApiKey],
    {
        let mut v: Vec<AuthType> = Vec::new();
        v.push(AuthType::NoAuth);
        v.push(AuthType::Basic);
        v.push(AuthType::Bearer);
        v.push(AuthType::ApiKey);
        v
    }
}

/// A part of the request that can be edited in an external editor.
#[derive(Debug, Clone, Copy, PartialEq, Eq, Structural)]
pub enum EditableField {
    Url,
    Body,
    Headers,
    HeaderName(usize),
    HeaderValue(usize),
    AuthType,
    AuthUsername,
    AuthPassword,
    AuthToken,
    AuthKeyName,
    AuthKeyValue,
    ParamKey(usize),
    ParamValue(usize),
}

/// What to edit in an external editor: the field, the format of the file
/// and its starting content.
#[derive(Debug, Clone, PartialEq, Eq)]
pub struct RequestPaneEditSpec {
    pub field: EditableField,
    pub format: crate::editor::EditorFormat,
    pub content: String,
}

/// Which half of a header row has the focus.
#[derive(Debug, Clone, Copy, PartialEq, Eq, Structural)]
pub enum HeaderField {
    Name,
    Value,
}

/// Which field of the auth tab has the focus.
#[derive(Debug, Clone, Copy, PartialEq, Eq, Structural)]
pub enum AuthField {
    Type,
    Username,
    Password,
    Token,
    KeyName,
    KeyValue,
}

/// Which half of a parameter row has the focus.
#[derive(Debug, Clone, Copy, PartialEq, Eq, Structural)]
pub enum ParamField {
    Key,
    Value,
}

/// A character can be typed at the buffer's cursor: the cursor starts a
/// character (or ends the text) and is not at the largest index.
pub open spec fn can_type(b: InputBuffer) -> bool {
    on_boundary(b.content@, b.cursor_pos as int) && b.cursor_pos < usize::MAX
}

/// The character before the buffer's cursor can be deleted: the byte before
/// the cursor starts a character.
pub open spec fn can_erase(b: InputBuffer) -> bool {
    b.cursor_pos > 0 ==> on_boundary(b.content@, b.cursor_pos - 1) && b.cursor_pos - 1 < utf8(b.content@).len()
}

/// `n` is `b` with `c` typed at the cursor.
pub open spec fn typed(n: InputBuffer, b: InputBuffer, c: char) -> bool {
    &&& utf8(n.content@) == utf8(b.content@).take(b.cursor_pos as int) + utf8(seq![c]) + utf8(b.content@).skip(
        b.cursor_pos as int,
    )
    &&& n.cursor_pos == b.cursor_pos + 1
}

/// `n` is `b` with the character before the cursor deleted, the cursor one
/// byte back; at the start nothing changes.
pub open spec fn erased(n: InputBuffer, b: InputBuffer) -> bool {
    if b.cursor_pos == 0 {
        n.content@ == b.content@ && n.cursor_pos == 0
    } else {
        let bytes = utf8(b.content@);
        let i = b.cursor_pos - 1;
        &&& n.cursor_pos == i
        &&& exists|c: char|
            bytes.subrange(i, i + (#[trigger] utf8(seq![c])).len()) == utf8(seq![c]) && utf8(n.content@)
                == bytes.take(i) + bytes.skip(i + utf8(seq![c]).len())
    }
}

/// `n` is `b` with `s` inserted at the cursor and the cursor after it.
pub open spec fn pasted(n: InputBuffer, b: InputBuffer, s: Seq<char>) -> bool {
    &&& utf8(n.content@) == utf8(b.content@).take(b.cursor_pos as int) + utf8(s) + utf8(b.content@).skip(
        b.cursor_pos as int,
    )
    &&& n.cursor_pos == b.cursor_pos + utf8(s).len()
}

/// `n` is `b` with the cursor one byte back, if it can go back.
pub open spec fn went_left(n: InputBuffer, b: InputBuffer) -> bool {
    n.content == b.content && n.cursor_pos == if b.cursor_pos > 0 { b.cursor_pos - 1 } else { 0 }
}

/// `n` is `b` with the cursor one byte on, if it is not at the end.
pub open spec fn went_right(n: InputBuffer, b: InputBuffer) -> bool {
    n.content == b.content && n.cursor_pos == if b.cursor_pos < byte_len(b.content@) {
        b.cursor_pos + 1
    } else {
        b.cursor_pos as int
    }
}

/// `n` holds `s` with the cursor at its end.
pub open spec fn holds(n: InputBuffer, s: Seq<char>) -> bool {
    n.content@ == s && n.cursor_pos == byte_len(s)
}

/// The text without the carriage returns and line feeds at its end.
pub open spec fn line_text(s: Seq<char>) -> Seq<char>
    decreases s.len(),
{
    if s.len() > 0 && (s.last() == '\r' || s.last() == '\n') {
        line_text(s.drop_last())
    } else {
        s
    }
}

/// The text without the carriage returns and line feeds at its end.
pub fn normalize_single_line(content: &str) -> (r: String)
    ensures
        r@ == line_text(content@),
{
    let chars = chars_of(content);
    let mut n: usize = chars.len();
    proof { assert(chars@.take(n as int) =~= chars@); }
    while n > 0 && (chars[n - 1] == '\r' || chars[n - 1] == '\n')
        invariant
            n <= chars@.len(),
            chars@ == content@,
            line_text(content@) == line_text(chars@.take(n as int)),
        decreases n,
    {
        proof { assert(chars@.take(n as int).drop_last() =~= chars@.take(n - 1)); }
        n = n - 1;
    }
    let mut out = String::new();
    let mut i: usize = 0;
    while i < n
        invariant
            i <= n <= chars@.len(),
            out@ == chars@.take(i as int),
        decreases n - i,
    {
        push_char(&mut out, chars[i]);
        i += 1;
        proof { assert(out@ =~= chars@.take(i as int)); }
    }
    proof {
        let t = chars@.take(n as int);
        if t.len() > 0 {
            assert(t.last() == chars@[n - 1]);
        }
    }
    out
}

/// Whether `p` begins `s`.
pub open spec fn begins(s: Seq<char>, p: Seq<char>) -> bool {
    p.len() <= s.len() && s.take(p.len() as int) == p
}

/// The remembered URLs that begin, in lower case, with the typed URL in
/// lower case, in the order they were remembered.
pub open spec fn url_matches(history: Seq<String>, input: Seq<char>) -> Seq<Seq<char>> {
    texts(history.filter(|h: String| begins(lowercase(h@), lowercase(input))))
}

/// The standard base64 text (RFC 4648 alphabet, `=` padding) of the UTF-8
/// bytes of a text.
pub uninterp spec fn base64_text(s: Seq<char>) -> Seq<char>;

/// Calls `Engine::encode` of `base64::engine::general_purpose::STANDARD` on
/// the bytes of the text, which panics where the length of the result does
/// not fit in `usize`: the text is held to half of that. Claimed: the result
/// is `base64_text` of the text, a function of it alone.
#[verifier::external_body]
fn base64_standard(s: &str) -> (r: String)
    requires
        utf8(s@).len() <= usize::MAX / 2,
    ensures
        r@ == base64_text(s@),
{
    base64::Engine::encode(&base64::engine::general_purpose::STANDARD, s)
}

/// The header that the authentication settings add to a request, if any:
/// for Basic, `Authorization` with the trimmed user name and password joined
/// by `:` in base64, when either is not empty; for Bearer, `Authorization`
/// with the trimmed token, when it is not empty; for an API key, the trimmed
/// name with the trimmed value, when the name is not empty.
pub open spec fn auth_header_of(p: RequestPane) -> Option<(Seq<char>, Seq<char>)> {
    let user = trim(p.auth_username.content@);
    let pass = trim(p.auth_password.content@);
    let token = trim(p.auth_token.content@);
    let name = trim(p.auth_key_name.content@);
    match p.auth_type {
        AuthType::NoAuth => None,
        AuthType::Basic => if user.len() == 0 && pass.len() == 0 {
            None
        } else {
            Some(("Authorization"@, "Basic "@ + base64_text(basic_credentials(p))))
        },
        AuthType::Bearer => if token.len() == 0 {
            None
        } else {
            Some(("Authorization"@, "Bearer "@ + token))
        },
        AuthType::ApiKey => if name.len() == 0 {
            None
        } else {
            Some((name, trim(p.auth_key_value.content@)))
        },
    }
}

/// The user name and password of Basic authentication as they are encoded:
/// trimmed and joined by `:`.
pub open spec fn basic_credentials(p: RequestPane) -> Seq<char> {
    trim(p.auth_username.content@) + seq![':'] + trim(p.auth_password.content@)
}

/// The headers that the rows hand on, in order: each row whose trimmed name
/// is not empty, as its trimmed name and trimmed value.
pub open spec fn header_entries_of(rows: Seq<(InputBuffer, InputBuffer)>) -> Seq<(Seq<char>, Seq<char>)>
    decreases rows.len(),
{
    if rows.len() == 0 {
        seq![]
    } else {
        let rest = header_entries_of(rows.drop_last());
        let name = trim(rows.last().0.content@);
        if name.len() > 0 {
            rest.push((name, trim(rows.last().1.content@)))
        } else {
            rest
        }
    }
}

/// The pane where a request is written: method, URL, and the tabs of headers,
/// body, authentication and query parameters.
pub struct RequestPane {
    pub method: Method,
    pub url_buffer: InputBuffer,
    pub url_scroll_offset: usize,
    pub selected_tab: usize,
    pub headers: Vec<(InputBuffer, InputBuffer)>,
    pub header_selected: usize,
    pub header_field_focus: HeaderField,
    pub body_content: InputBuffer,
    pub body_type: BodyType,
    pub body_type_selected: usize,
    pub auth_type: AuthType,
    pub auth_username: InputBuffer,
    pub auth_password: InputBuffer,
    pub auth_token: InputBuffer,
    pub auth_key_name: InputBuffer,
    pub auth_key_value: InputBuffer,
    pub auth_field_focus: AuthField,
    pub params: Vec<(InputBuffer, InputBuffer)>,
    pub param_selected: usize,
    pub param_field_focus: ParamField,
    pub focused_field: FocusedField,
    pub method_popup_visible: bool,
    /// The row selected in the list of methods.
    pub method_selected: Option<usize>,
    pub url_history: Vec<String>,
    pub url_autocomplete_visible: bool,
    pub url_autocomplete_selected: usize,
    pub search_visible: bool,
    pub compact: bool,
}

/// The rows made from pairs of names and values, each buffer holding its
/// text with the cursor at the end; one empty row where there are none.
pub open spec fn filled_from(rows: Seq<(InputBuffer, InputBuffer)>, pairs: Seq<(String, String)>) -> bool {
    if pairs.len() == 0 {
        &&& rows.len() == 1
        &&& rows[0].0.content@.len() == 0 && rows[0].0.cursor_pos == 0
        &&& rows[0].1.content@.len() == 0 && rows[0].1.cursor_pos == 0
    } else {
        &&& rows.len() == pairs.len()
        &&& forall|i: int| 0 <= i < pairs.len() ==> holds(#[trigger] rows[i].0, pairs[i].0@) && holds(rows[i].1, pairs[i].1@)
    }
}

/// The rows with a name or a value.
pub open spec fn populated(rows: Seq<(InputBuffer, InputBuffer)>) -> nat {
    rows.filter(|p: (InputBuffer, InputBuffer)| p.0.content@.len() > 0 || p.1.content@.len() > 0).len()
}

/// Where the URL view starts once the cursor is in sight: at the cursor if
/// it went left of the view, so that it shows near the right edge if it went
/// right of it, and at the start when the whole URL fits; never past the
/// last full view.
pub open spec fn scrolled(offset: int, cursor: int, len: int, width: int) -> int {
    let a = if cursor < offset {
        cursor
    } else if cursor > offset + width && width > 0 {
        let keep = if width > 5 { width - 5 } else { 0 };
        if cursor > keep { cursor - keep } else { 0 }
    } else {
        offset
    };
    let b = if len <= width { 0 } else { a };
    let last = if len > width { len - width } else { 0 };
    if b < last { b } else { last }
}

/// The auth label in capitals.
pub open spec fn upper_label(a: AuthType) -> Seq<char> {
    match a {
        AuthType::NoAuth => "NONE"@,
        AuthType::Basic => "BASIC"@,
        AuthType::Bearer => "BEARER"@,
        AuthType::ApiKey => "API KEY"@,
    }
}

/// Builds the rows of a tab from pairs of names and values.
pub(crate) fn rows_from(pairs: &Vec<(String, String)>) -> (r: Vec<(InputBuffer, InputBuffer)>)
    ensures
        filled_from(r@, pairs@),
{
    let mut rows: Vec<(InputBuffer, InputBuffer)> = Vec::new();
    let mut i: usize = 0;
    while i < pairs.len()
        invariant
            i <= pairs@.len(),
            rows@.len() == i,
            forall|j: int| 0 <= j < i ==> holds(#[trigger] rows@[j].0, pairs@[j].0@) && holds(rows@[j].1, pairs@[j].1@),
        decreases pairs@.len() - i,
    {
        let name = InputBuffer::with_content(pairs[i].0.as_str());
        let value = InputBuffer::with_content(pairs[i].1.as_str());
        rows.push((name, value));
        i += 1;
    }
    if rows.len() == 0 {
        rows.push((InputBuffer::new(), InputBuffer::new()));
    }
    rows
}

/// Whether `p` begins `s`.
fn begins_exec(s: &Vec<char>, p: &Vec<char>) -> (r: bool)
    ensures
        r == begins(s@, p@),
{
    if p.len() > s.len() {
        return false;
    }
    let mut i: usize = 0;
    while i < p.len()
        invariant
            p@.len() <= s@.len(),
            i <= p@.len(),
            forall|j: int| 0 <= j < i ==> s@[j] == p@[j],
        decreases p@.len() - i,
    {
        if s[i] != p[i] {
            proof { assert(s@.take(p@.len() as int)[i as int] != p@[i as int]); }
            return false;
        }
        i += 1;
    }
    proof { assert(s@.take(p@.len() as int) =~= p@); }
    true
}

/// How many rows have a name or a value.
fn count_populated(rows: &Vec<(InputBuffer, InputBuffer)>) -> (r: usize)
    ensures
        r == populated(rows@),
{
    let ghost pred = |p: (InputBuffer, InputBuffer)| p.0.content@.len() > 0 || p.1.content@.len() > 0;
    let mut n: usize = 0;
    let mut i: usize = 0;
    while i < rows.len()
        invariant
            pred == (|p: (InputBuffer, InputBuffer)| p.0.content@.len() > 0 || p.1.content@.len() > 0),
            i <= rows@.len(),
            n == rows@.take(i as int).filter(pred).len(),
            n <= i,
        decreases rows@.len() - i,
    {
        proof {
            reveal(Seq::filter);
            assert(rows@.take(i + 1).drop_last() =~= rows@.take(i as int));
            assert(rows@.take(i + 1).last() == rows@[i as int]);
        }
        if !rows[i].0.is_empty() || !rows[i].1.is_empty() {
            n += 1;
        }
        i += 1;
    }
    proof { assert(rows@.take(rows@.len() as int) =~= rows@); }
    n
}

impl RequestPane {
    /// An empty GET request, the focus on the URL; one empty header row and
    /// one empty parameter row.
    pub fn new() -> (r: Self)
        ensures
            r.method == Method::Get,
            r.url_buffer.content@.len() == 0 && r.url_buffer.cursor_pos == 0,
            r.url_scroll_offset == 0,
            r.selected_tab == 0,
            r.headers@.len() == 1,
            r.headers@[0].0.content@.len() == 0 && r.headers@[0].0.cursor_pos == 0,
            r.headers@[0].1.content@.len() == 0 && r.headers@[0].1.cursor_pos == 0,
            r.header_selected == 0,
            r.header_field_focus == HeaderField::Name,
            r.body_content.content@.len() == 0 && r.body_content.cursor_pos == 0,
            r.body_type == BodyType::Raw,
            r.body_type_selected == 0,
            r.auth_type == AuthType::NoAuth,
            r.auth_username.content@.len() == 0 && r.auth_username.cursor_pos == 0,
            r.auth_password.content@.len() == 0 && r.auth_password.cursor_pos == 0,
            r.auth_token.content@.len() == 0 && r.auth_token.cursor_pos == 0,
            r.auth_key_name.content@.len() == 0 && r.auth_key_name.cursor_pos == 0,
            r.auth_key_value.content@.len() == 0 && r.auth_key_value.cursor_pos == 0,
            r.auth_field_focus == AuthField::Type,
            r.params@.len() == 1,
            r.params@[0].0.content@.len() == 0 && r.params@[0].0.cursor_pos == 0,
            r.params@[0].1.content@.len() == 0 && r.params@[0].1.cursor_pos == 0,
            r.param_selected == 0,
            r.param_field_focus == ParamField::Key,
            r.focused_field == FocusedField::Url,
            !r.method_popup_visible,
            r.method_selected == Some(0usize),
            r.url_history@.len() == 0,
            !r.url_autocomplete_visible,
            r.url_autocomplete_selected == 0,
            !r.search_visible,
            !r.compact,
    {
        let mut headers: Vec<(InputBuffer, InputBuffer)> = Vec::new();
        headers.push((InputBuffer::new(), InputBuffer::new()));
        let mut params: Vec<(InputBuffer, InputBuffer)> = Vec::new();
        params.push((InputBuffer::new(), InputBuffer::new()));
        RequestPane {
            method: Method::Get,
            url_buffer: InputBuffer::new(),
            url_scroll_offset: 0,
            selected_tab: 0,
            headers,
            header_selected: 0,
            header_field_focus: HeaderField::Name,
            body_content: InputBuffer::new(),
            body_type: BodyType::Raw,
            body_type_selected: 0,
            auth_type: AuthType::NoAuth,
            auth_username: InputBuffer::new(),
            auth_password: InputBuffer::new(),
            auth_token: InputBuffer::new(),
            auth_key_name: InputBuffer::new(),
            auth_key_value: InputBuffer::new(),
            auth_field_focus: AuthField::Type,
            params,
            param_selected: 0,
            param_field_focus: ParamField::Key,
            focused_field: FocusedField::Url,
            method_popup_visible: false,
            method_selected: Some(0),
            url_history: Vec::new(),
            url_autocomplete_visible: false,
            url_autocomplete_selected: 0,
            search_visible: false,
            compact: false,
        }
    }

    pub fn with_method(self, method: Method) -> (r: Self)
        ensures
            r == (RequestPane { method, ..self }),
    {
        RequestPane { method, ..self }
    }

    /// The pane with `url` written, the cursor at its end.
    pub fn with_url(self, url: &str) -> (r: Self)
        ensures
            r == (RequestPane { url_buffer: r.url_buffer, ..self }),
            holds(r.url_buffer, url@),
    {
        RequestPane { url_buffer: InputBuffer::with_content(url), ..self }
    }

    /// The pane with one header row per pair of name and value.
    pub fn with_headers(self, headers: Vec<(String, String)>) -> (r: Self)
        ensures
            r == (RequestPane { headers: r.headers, ..self }),
            filled_from(r.headers@, headers@),
    {
        RequestPane { headers: rows_from(&headers), ..self }
    }

    /// The pane remembering `history` for completing URLs.
    pub fn with_url_history(self, history: Vec<String>) -> (r: Self)
        ensures
            r == (RequestPane { url_history: history, ..self }),
    {
        RequestPane { url_history: history, ..self }
    }

    /// Shows `request`: its method, URL, headers and body, the body as raw text.
    pub fn set_request(&mut self, request: Request)
        ensures
            *final(self) == (RequestPane {
                method: request.method,
                url_buffer: final(self).url_buffer,
                headers: final(self).headers,
                body_type: BodyType::Raw,
                body_content: final(self).body_content,
                ..*old(self)
            }),
            holds(final(self).url_buffer, request.url@),
            filled_from(final(self).headers@, request.headers@),
            match request.body {
                Some(b) => holds(final(self).body_content, b@),
                None => final(self).body_content.content@.len() == 0 && final(self).body_content.cursor_pos == 0,
            },
    {
        self.method = request.method;
        self.url_buffer = InputBuffer::with_content(request.url.as_str());
        self.headers = rows_from(&request.headers);
        self.body_type = BodyType::Raw;
        match &request.body {
            Some(b) => {
                self.body_content = InputBuffer::with_content(b.as_str());
            },
            None => {
                self.body_content = InputBuffer::new();
            },
        }
    }

    pub fn method(&self) -> (r: Method)
        ensures
            r == self.method,
    {
        self.method
    }

    /// The URL as written.
    pub fn url(&self) -> (r: String)
        ensures
            r@ == self.url_buffer.content@,
    {
        copy_str(self.url_buffer.as_str())
    }

    pub fn set_compact(&mut self, compact: bool)
        ensures
            *final(self) == (RequestPane { compact, ..*old(self) }),
    {
        self.compact = compact;
    }

    pub fn is_compact(&self) -> (r: bool)
        ensures
            r == self.compact,
    {
        self.compact
    }

    pub fn url_scroll_offset(&self) -> (r: usize)
        ensures
            r == self.url_scroll_offset,
    {
        self.url_scroll_offset
    }

    /// Scrolls the URL so that the cursor is in a view `viewport_width` bytes wide.
    pub fn update_url_scroll(&mut self, viewport_width: usize)
        requires
            old(self).url_buffer.cursor_pos >= old(self).url_scroll_offset ==> old(self).url_scroll_offset
                + viewport_width <= usize::MAX,
        ensures
            *final(self) == (RequestPane {
                url_scroll_offset: scrolled(
                    old(self).url_scroll_offset as int,
                    old(self).url_buffer.cursor_pos as int,
                    byte_len(old(self).url_buffer.content@) as int,
                    viewport_width as int,
                ) as usize,
                ..*old(self)
            }),
    {
        let cursor = self.url_buffer.cursor_pos;
        let url_len = self.url_buffer.len();
        let mut off = self.url_scroll_offset;
        if cursor < off {
            off = cursor;
        } else {
            let right_edge = off + viewport_width;
            if cursor > right_edge && viewport_width > 0 {
                off = cursor.saturating_sub(viewport_width.saturating_sub(5));
            }
        }
        if url_len <= viewport_width {
            off = 0;
        }
        let last = url_len.saturating_sub(viewport_width);
        if off > last {
            off = last;
        }
        proof {
            assert(off == scrolled(
                old(self).url_scroll_offset as int,
                cursor as int,
                url_len as int,
                viewport_width as int,
            ));
        }
        self.url_scroll_offset = off;
    }

    pub fn set_focused_field(&mut self, field: FocusedField)
        ensures
            *final(self) == (RequestPane { focused_field: field, ..*old(self) }),
    {
        self.focused_field = field;
    }

    pub fn focused_field(&self) -> (r: FocusedField)
        ensures
            r == self.focused_field,
    {
        self.focused_field
    }

    /// The field of the auth tab that has the focus, as an editable field.
    pub open spec fn auth_editable(self) -> EditableField {
        match self.auth_field_focus {
            AuthField::Type => EditableField::AuthType,
            AuthField::Token => EditableField::AuthToken,
            AuthField::Username => EditableField::AuthUsername,
            AuthField::Password => EditableField::AuthPassword,
            AuthField::KeyName => EditableField::AuthKeyName,
            AuthField::KeyValue => EditableField::AuthKeyValue,
        }
    }

    /// The field that an external editor would edit: the URL from the method
    /// or the URL; from the tab titles the tab's whole content (the first
    /// parameter row's key for parameters); inside a tab the field with the focus.
    pub open spec fn editable(self) -> EditableField {
        match self.focused_field {
            FocusedField::Url | FocusedField::Method => EditableField::Url,
            FocusedField::Tabs => if self.selected_tab == 0 {
                EditableField::Headers
            } else if self.selected_tab == 1 {
                EditableField::Body
            } else if self.selected_tab == 2 {
                self.auth_editable()
            } else {
                EditableField::ParamKey(self.param_selected)
            },
            FocusedField::TabContent => if self.selected_tab == 0 {
                match self.header_field_focus {
                    HeaderField::Name => EditableField::HeaderName(self.header_selected),
                    HeaderField::Value => EditableField::HeaderValue(self.header_selected),
                }
            } else if self.selected_tab == 1 {
                EditableField::Body
            } else if self.selected_tab == 2 {
                self.auth_editable()
            } else {
                match self.param_field_focus {
                    ParamField::Key => EditableField::ParamKey(self.param_selected),
                    ParamField::Value => EditableField::ParamValue(self.param_selected),
                }
            },
        }
    }

    /// The field that an external editor would edit.
    pub fn focused_editable_field(&self) -> (r: EditableField)
        requires
            self.focused_field == FocusedField::Tabs || self.focused_field == FocusedField::TabContent
                ==> self.selected_tab < 4,
        ensures
            r == self.editable(),
    {
        let auth = match self.auth_field_focus {
            AuthField::Type => EditableField::AuthType,
            AuthField::Token => EditableField::AuthToken,
            AuthField::Username => EditableField::AuthUsername,
            AuthField::Password => EditableField::AuthPassword,
            AuthField::KeyName => EditableField::AuthKeyName,
            AuthField::KeyValue => EditableField::AuthKeyValue,
        };
        match self.focused_field {
            FocusedField::Url | FocusedField::Method => EditableField::Url,
            FocusedField::Tabs => {
                if self.selected_tab == 0 {
                    EditableField::Headers
                } else if self.selected_tab == 1 {
                    EditableField::Body
                } else if self.selected_tab == 2 {
                    auth
                } else {
                    EditableField::ParamKey(self.param_selected)
                }
            },
            FocusedField::TabContent => {
                if self.selected_tab == 0 {
                    match self.header_field_focus {
                        HeaderField::Name => EditableField::HeaderName(self.header_selected),
                        HeaderField::Value => EditableField::HeaderValue(self.header_selected),
                    }
                } else if self.selected_tab == 1 {
                    EditableField::Body
                } else if self.selected_tab == 2 {
                    auth
                } else {
                    match self.param_field_focus {
                        ParamField::Key => EditableField::ParamKey(self.param_selected),
                        ParamField::Value => EditableField::ParamValue(self.param_selected),
                    }
                }
            },
        }
    }

    /// The remembered URLs that the typed URL begins, ignoring case.
    pub fn get_url_matches(&self) -> (r: Vec<String>)
        ensures
            texts(r@) == url_matches(self.url_history@, self.url_buffer.content@),
    {
        let ghost pred = |h: String| begins(lowercase(h@), lowercase(self.url_buffer.content@));
        let input = chars_of(to_lower(self.url_buffer.as_str()).as_str());
        let mut out: Vec<String> = Vec::new();
        let mut i: usize = 0;
        while i < self.url_history.len()
            invariant
                pred == (|h: String| begins(lowercase(h@), lowercase(self.url_buffer.content@))),
                input@ == lowercase(self.url_buffer.content@),
                i <= self.url_history@.len(),
                out@ == self.url_history@.take(i as int).filter(pred),
            decreases self.url_history@.len() - i,
        {
            proof {
                reveal(Seq::filter);
                assert(self.url_history@.take(i + 1).drop_last() =~= self.url_history@.take(i as int));
                assert(self.url_history@.take(i + 1).last() == self.url_history@[i as int]);
            }
            let h = chars_of(to_lower(self.url_history[i].as_str()).as_str());
            if begins_exec(&h, &input) {
                out.push(self.url_history[i].clone());
            }
            i += 1;
        }
        proof { assert(self.url_history@.take(self.url_history@.len() as int) =~= self.url_history@); }
        out
    }

    /// The titles of the tabs, with the number of headers and parameters
    /// written, the body's kind and the kind of authentication.
    pub fn tab_titles(&self) -> (r: Vec<String>)
        ensures
            texts(r@) == seq![
                "HEADERS "@ + decimal(populated(self.headers@)),
                "BODY "@ + self.body_type.label(),
                "AUTH "@ + upper_label(self.auth_type),
                "PARAMS "@ + decimal(populated(self.params@)),
            ],
    {
        let mut headers = String::new();
        push_str(&mut headers, "HEADERS ");
        push_decimal(&mut headers, count_populated(&self.headers) as u64);
        let mut body = String::new();
        push_str(&mut body, "BODY ");
        push_str(&mut body, self.body_type.as_str());
        let mut auth = String::new();
        push_str(&mut auth, "AUTH ");
        push_str(&mut auth, match self.auth_type {
            AuthType::NoAuth => "NONE",
            AuthType::Basic => "BASIC",
            AuthType::Bearer => "BEARER",
            AuthType::ApiKey => "API KEY",
        });
        let mut params = String::new();
        push_str(&mut params, "PARAMS ");
        push_decimal(&mut params, count_populated(&self.params) as u64);
        let mut r: Vec<String> = Vec::new();
        r.push(headers);
        r.push(body);
        r.push(auth);
        r.push(params);
        proof { assert(texts(r@) =~= seq![r@[0]@, r@[1]@, r@[2]@, r@[3]@]); }
        r
    }
}

/// A change to a line being edited.
pub enum Edit {
    /// A character typed at the cursor.
    Type(char),
    /// The character before the cursor deleted.
    Erase,
    /// A text put in at the cursor.
    Paste(String),
}

/// The buffer can take the change without fault.
pub open spec fn can_edit(b: InputBuffer, e: Edit) -> bool {
    match e {
        Edit::Type(_) => can_type(b),
        Edit::Erase => can_erase(b),
        Edit::Paste(s) => on_boundary(b.content@, b.cursor_pos as int) && b.cursor_pos + utf8(s@).len() <= usize::MAX,
    }
}

/// `n` is `b` after the change.
pub open spec fn edited(n: InputBuffer, b: InputBuffer, e: Edit) -> bool {
    match e {
        Edit::Type(c) => typed(n, b, c),
        Edit::Erase => erased(n, b),
        Edit::Paste(s) => pasted(n, b, s@),
    }
}

/// Makes the change to the buffer.
fn apply_edit(b: &mut InputBuffer, e: &Edit)
    requires
        can_edit(*old(b), *e),
    ensures
        edited(*final(b), *old(b), *e),
{
    match e {
        Edit::Type(c) => {
            b.insert_char(*c);
        },
        Edit::Erase => {
            let gone = b.delete_char();
            proof {
                if old(b).cursor_pos > 0 {
                    let c = gone->0;
                    assert(utf8(seq![c]) == utf8(seq![c]));
                }
            }
        },
        Edit::Paste(s) => {
            b.insert_str(s.as_str());
        },
    }
}

/// The buffer of a row: the value where `value`, else the name.
pub open spec fn cell(row: (InputBuffer, InputBuffer), value: bool) -> InputBuffer {
    if value {
        row.1
    } else {
        row.0
    }
}

/// `n` is `rows` with the change made to one cell of row `i`.
pub open spec fn rows_edited(n: Seq<(InputBuffer, InputBuffer)>, rows: Seq<(InputBuffer, InputBuffer)>, i: int, value: bool, e: Edit) -> bool {
    &&& 0 <= i < rows.len()
    &&& edited(cell(n[i], value), cell(rows[i], value), e)
    &&& n == rows.update(i, if value { (rows[i].0, n[i].1) } else { (n[i].0, rows[i].1) })
}

/// Makes the change to one cell of row `i`.
fn edit_row(rows: &mut Vec<(InputBuffer, InputBuffer)>, i: usize, value: bool, e: &Edit)
    requires
        i < old(rows)@.len(),
        can_edit(cell(old(rows)@[i as int], value), *e),
    ensures
        rows_edited(final(rows)@, old(rows)@, i as int, value, *e),
{
    let mut row = rows.remove(i);
    if value {
        apply_edit(&mut row.1, e);
    } else {
        apply_edit(&mut row.0, e);
    }
    rows.insert(i, row);
    proof {
        assert(rows@ =~= old(rows)@.update(i as int, row));
    }
}

/// A row with nothing in it.
pub open spec fn blank(row: (InputBuffer, InputBuffer)) -> bool {
    row.0.content@.len() == 0 && row.0.cursor_pos == 0 && row.1.content@.len() == 0 && row.1.cursor_pos == 0
}

/// Where the selection goes on Down in a list of rows: to the next row,
/// staying on the last one; not past a blank last row.
pub open spec fn row_below(rows: Seq<(InputBuffer, InputBuffer)>, sel: int) -> int {
    let last = rows.len() - 1;
    if sel >= last && rows[last].0.content@.len() == 0 && rows[last].1.content@.len() == 0 {
        sel
    } else if sel + 1 < last {
        sel + 1
    } else {
        last
    }
}

/// A key handled in a tab of rows (headers or parameters): `n`, `ns`, `nv`
/// are the rows, the selected row and whether the value has the focus after
/// it, `up` whether the focus went up to the tab titles.
pub open spec fn table_step(
    n: Seq<(InputBuffer, InputBuffer)>,
    ns: int,
    nv: bool,
    up: bool,
    rows: Seq<(InputBuffer, InputBuffer)>,
    sel: int,
    value: bool,
    code: Key,
) -> bool {
    match code {
        Key::Up => n == rows && nv == value && if sel == 0 { up && ns == sel } else { !up && ns == sel - 1 },
        Key::Down => !up && n == rows && nv == value && ns == row_below(rows, sel),
        Key::Left => !up && n == rows && ns == sel && !nv,
        Key::Right => !up && n == rows && ns == sel && nv,
        Key::Char('a') => {
            &&& !up && nv == value
            &&& n.len() == rows.len() + 1 && n.drop_last() == rows && blank(n.last())
            &&& ns == rows.len()
        },
        Key::Char('d') => !up && nv == value && if rows.len() > 1 && sel < rows.len() {
            &&& n == rows.remove(sel)
            &&& ns == if sel >= rows.len() - 1 { rows.len() - 2 } else { sel }
        } else {
            n == rows && ns == sel
        },
        Key::Backspace => !up && nv == value && ns == sel && rows_edited(n, rows, sel, value, Edit::Erase),
        Key::Char(c) => !up && nv == value && ns == sel && rows_edited(n, rows, sel, value, Edit::Type(c)),
        _ => !up && n == rows && ns == sel && nv == value,
    }
}

/// A key can be handled in a tab of rows without fault.
pub open spec fn table_defined(rows: Seq<(InputBuffer, InputBuffer)>, sel: int, value: bool, code: Key) -> bool {
    match code {
        Key::Down => rows.len() > 0 && (sel < usize::MAX || row_below(rows, sel) == sel),
        Key::Char('a') | Key::Char('d') => true,
        Key::Backspace => 0 <= sel < rows.len() && can_edit(cell(rows[sel], value), Edit::Erase),
        Key::Char(c) => 0 <= sel < rows.len() && can_edit(cell(rows[sel], value), Edit::Type(c)),
        _ => true,
    }
}

/// Handles a key in a tab of rows; gives whether the focus goes up to the tab titles.
fn table_key(rows: &mut Vec<(InputBuffer, InputBuffer)>, sel: &mut usize, value: &mut bool, code: &Key) -> (up: bool)
    requires
        table_defined(old(rows)@, *old(sel) as int, *old(value), *code),
    ensures
        table_step(final(rows)@, *final(sel) as int, *final(value), up, old(rows)@, *old(sel) as int, *old(value), *code),
{
    match code {
        Key::Up => {
            if *sel == 0 {
                return true;
            }
            *sel = *sel - 1;
            false
        },
        Key::Down => {
            let last = rows.len() - 1;
            if *sel >= last && rows[last].0.is_empty() && rows[last].1.is_empty() {
                return false;
            }
            let next = *sel + 1;
            *sel = if next < last { next } else { last };
            false
        },
        Key::Left => {
            *value = false;
            false
        },
        Key::Right => {
            *value = true;
            false
        },
        Key::Char('a') => {
            rows.push((InputBuffer::new(), InputBuffer::new()));
            *sel = rows.len() - 1;
            proof { assert(rows@.drop_last() =~= old(rows)@); }
            false
        },
        Key::Char('d') => {
            if rows.len() > 1 && *sel < rows.len() {
                rows.remove(*sel);
                if *sel >= rows.len() {
                    *sel = rows.len() - 1;
                }
            }
            false
        },
        Key::Backspace => {
            edit_row(rows, *sel, *value, &Edit::Erase);
            false
        },
        Key::Char(c) => {
            edit_row(rows, *sel, *value, &Edit::Type(*c));
            false
        },
        _ => false,
    }
}

/// The kind of authentication after the given one, in the order of the list.
pub open spec fn next_auth(a: AuthType) -> AuthType {
    match a {
        AuthType::NoAuth => AuthType::Basic,
        AuthType::Basic => AuthType::Bearer,
        AuthType::Bearer => AuthType::ApiKey,
        AuthType::ApiKey => AuthType::NoAuth,
    }
}

/// The kinds of body, in the order of the list.
pub open spec fn body_types() -> Seq<BodyType> {
    seq![BodyType::Raw, BodyType::Json, BodyType::Form]
}

impl RequestPane {
    /// The buffer of the auth field that has the focus; none for the kind.
    pub open spec fn auth_buffer(self) -> Option<InputBuffer> {
        match self.auth_field_focus {
            AuthField::Type => None,
            AuthField::Username => Some(self.auth_username),
            AuthField::Password => Some(self.auth_password),
            AuthField::Token => Some(self.auth_token),
            AuthField::KeyName => Some(self.auth_key_name),
            AuthField::KeyValue => Some(self.auth_key_value),
        }
    }

    /// The pane with `b` in the auth field that has the focus.
    pub open spec fn with_auth_buffer(self, b: InputBuffer) -> RequestPane {
        match self.auth_field_focus {
            AuthField::Type => self,
            AuthField::Username => RequestPane { auth_username: b, ..self },
            AuthField::Password => RequestPane { auth_password: b, ..self },
            AuthField::Token => RequestPane { auth_token: b, ..self },
            AuthField::KeyName => RequestPane { auth_key_name: b, ..self },
            AuthField::KeyValue => RequestPane { auth_key_value: b, ..self },
        }
    }

    /// The change made to the auth field that has the focus, if it is a text.
    pub open spec fn auth_edited(self, old: RequestPane, e: Edit) -> bool {
        match old.auth_buffer() {
            Some(b) => self.auth_buffer() matches Some(nb) && edited(nb, b, e) && self == old.with_auth_buffer(nb),
            None => self == old,
        }
    }

    /// Makes the change to the auth field that has the focus, if it is a text.
    fn edit_auth(&mut self, e: &Edit)
        requires
            old(self).auth_buffer() matches Some(b) ==> can_edit(b, *e),
        ensures
            final(self).auth_edited(*old(self), *e),
    {
        match self.auth_field_focus {
            AuthField::Type => {},
            AuthField::Username => apply_edit(&mut self.auth_username, e),
            AuthField::Password => apply_edit(&mut self.auth_password, e),
            AuthField::Token => apply_edit(&mut self.auth_token, e),
            AuthField::KeyName => apply_edit(&mut self.auth_key_name, e),
            AuthField::KeyValue => apply_edit(&mut self.auth_key_value, e),
        }
    }

    /// The pane with the focus moved to `f`.
    pub open spec fn focus_on(self, f: FocusedField) -> RequestPane {
        RequestPane { focused_field: f, ..self }
    }

    /// A key handled while the list of methods is open: it moves in the
    /// list, picks the selected method or closes the list; every key is used.
    pub open spec fn popup_step(self, old: RequestPane, code: Key) -> bool {
        let idx = match old.method_selected {
            Some(i) => i as int,
            None => 0,
        };
        match code {
            Key::Up => self == (RequestPane { method_selected: Some((if idx > 0 { idx - 1 } else { 0 }) as usize), ..old }),
            Key::Down => self == (RequestPane { method_selected: Some((if idx + 1 < 6 { idx + 1 } else { 6 }) as usize), ..old }),
            Key::Enter => match old.method_selected {
                Some(i) => self == (RequestPane { method: Method::listed()[i as int], method_popup_visible: false, ..old }),
                None => self == (RequestPane { method_popup_visible: false, ..old }),
            },
            Key::Esc => self == (RequestPane { method_popup_visible: false, ..old }),
            _ => self == old,
        }
    }

    /// A key handled while URL completions are shown: it moves among them,
    /// takes the selected one, closes them, or edits the URL, which closes
    /// them when nothing matches any more; every key is used.
    pub open spec fn completion_step(self, old: RequestPane, code: Key) -> bool {
        let ms = url_matches(old.url_history@, old.url_buffer.content@);
        let sel = old.url_autocomplete_selected as int;
        match code {
            Key::Up => self == (RequestPane { url_autocomplete_selected: (if sel > 0 { sel - 1 } else { sel }) as usize, ..old }),
            Key::Down => self == (RequestPane {
                url_autocomplete_selected: (if sel < ms.len() - 1 { sel + 1 } else { sel }) as usize,
                ..old
            }),
            Key::Enter => {
                &&& self == (RequestPane { url_buffer: self.url_buffer, url_autocomplete_visible: false, ..old })
                &&& if sel < ms.len() { holds(self.url_buffer, ms[sel]) } else { self.url_buffer == old.url_buffer }
            },
            Key::Esc => self == (RequestPane { url_autocomplete_visible: false, ..old }),
            Key::Char(c) => {
                &&& typed(self.url_buffer, old.url_buffer, c)
                &&& self == (RequestPane {
                    url_buffer: self.url_buffer,
                    url_autocomplete_selected: 0,
                    url_autocomplete_visible: url_matches(old.url_history@, self.url_buffer.content@).len() > 0,
                    ..old
                })
            },
            Key::Backspace => {
                &&& erased(self.url_buffer, old.url_buffer)
                &&& self == (RequestPane {
                    url_buffer: self.url_buffer,
                    url_autocomplete_selected: 0,
                    url_autocomplete_visible: url_matches(old.url_history@, self.url_buffer.content@).len() > 0,
                    ..old
                })
            },
            _ => self == old,
        }
    }

    /// A key handled on the method: Enter opens the list at the current
    /// method; Right, Down and Tab go to the URL.
    pub open spec fn method_step(self, old: RequestPane, code: Key, r: bool) -> bool {
        match code {
            Key::Enter => r && self == (RequestPane {
                method_popup_visible: true,
                method_selected: Some(old.method.position() as usize),
                ..old
            }),
            Key::Right | Key::Down | Key::Tab => r && self == old.focus_on(FocusedField::Url),
            _ => !r && self == old,
        }
    }

    /// A key handled on the URL: it edits the URL, moves the cursor, or
    /// moves the focus to the method (from the start) or to the tabs.
    pub open spec fn url_step(self, old: RequestPane, code: Key, r: bool) -> bool {
        let u = old.url_buffer;
        match code {
            Key::Left => r && if u.cursor_pos == 0 {
                self == old.focus_on(FocusedField::Method)
            } else {
                went_left(self.url_buffer, u) && self == (RequestPane { url_buffer: self.url_buffer, ..old })
            },
            Key::Right => r && went_right(self.url_buffer, u) && self == (RequestPane { url_buffer: self.url_buffer, ..old }),
            Key::Backspace => r && erased(self.url_buffer, u) && self == (RequestPane { url_buffer: self.url_buffer, ..old }),
            Key::Enter | Key::Tab | Key::Down => r && self == old.focus_on(FocusedField::Tabs),
            Key::Up => r && if u.cursor_pos == 0 && u.content@.len() == 0 {
                self == old.focus_on(FocusedField::Method)
            } else {
                self == old
            },
            Key::Char(c) => {
                let shown = self.url_buffer.content@.len() > 0;
                &&& r
                &&& typed(self.url_buffer, u, c)
                &&& self == (RequestPane {
                    url_buffer: self.url_buffer,
                    url_autocomplete_visible: shown || old.url_autocomplete_visible,
                    url_autocomplete_selected: if shown && !old.url_autocomplete_visible {
                        0
                    } else {
                        old.url_autocomplete_selected
                    },
                    ..old
                })
            },
            _ => !r && self == old,
        }
    }

    /// A key handled on the tab titles.
    pub open spec fn titles_step(self, old: RequestPane, code: Key, r: bool) -> bool {
        let t = old.selected_tab as int;
        match code {
            Key::Left => r && if t == 0 {
                self == old.focus_on(FocusedField::Url)
            } else {
                self == (RequestPane { selected_tab: (t - 1) as usize, ..old })
            },
            Key::Right => r && if t >= 3 {
                self == old.focus_on(FocusedField::TabContent)
            } else {
                self == (RequestPane { selected_tab: (t + 1) as usize, ..old })
            },
            Key::Down | Key::Enter => r && self == old.focus_on(FocusedField::TabContent),
            Key::Up => r && self == old.focus_on(FocusedField::Url),
            _ => !r && self == old,
        }
    }

    /// A key handled in the headers tab.
    pub open spec fn headers_step(self, old: RequestPane, code: Key, r: bool) -> bool {
        let up = self.focused_field == FocusedField::Tabs;
        &&& r
        &&& self == (RequestPane {
            headers: self.headers,
            header_selected: self.header_selected,
            header_field_focus: self.header_field_focus,
            focused_field: self.focused_field,
            ..old
        })
        &&& (up || self.focused_field == old.focused_field)
        &&& table_step(
            self.headers@,
            self.header_selected as int,
            self.header_field_focus == HeaderField::Value,
            up && old.focused_field != FocusedField::Tabs,
            old.headers@,
            old.header_selected as int,
            old.header_field_focus == HeaderField::Value,
            code,
        )
    }

    /// A key handled in the parameters tab.
    pub open spec fn params_step(self, old: RequestPane, code: Key, r: bool) -> bool {
        let up = self.focused_field == FocusedField::Tabs;
        &&& r
        &&& self == (RequestPane {
            params: self.params,
            param_selected: self.param_selected,
            param_field_focus: self.param_field_focus,
            focused_field: self.focused_field,
            ..old
        })
        &&& (up || self.focused_field == old.focused_field)
        &&& table_step(
            self.params@,
            self.param_selected as int,
            self.param_field_focus == ParamField::Value,
            up && old.focused_field != FocusedField::Tabs,
            old.params@,
            old.param_selected as int,
            old.param_field_focus == ParamField::Value,
            code,
        )
    }

    /// A key handled in the body tab: it edits the body, moves the cursor,
    /// switches the kind of body with `t`, or goes up to the titles.
    pub open spec fn body_step(self, old: RequestPane, code: Key, r: bool) -> bool {
        let b = old.body_content;
        let next = (old.body_type_selected + 1) % 3;
        r && match code {
            Key::Up => self == old.focus_on(FocusedField::Tabs),
            Key::Left => went_left(self.body_content, b) && self == (RequestPane { body_content: self.body_content, ..old }),
            Key::Right => went_right(self.body_content, b) && self == (RequestPane { body_content: self.body_content, ..old }),
            Key::Backspace => erased(self.body_content, b) && self == (RequestPane { body_content: self.body_content, ..old }),
            Key::Char('t') => self == (RequestPane { body_type_selected: next as usize, body_type: body_types()[next as int], ..old }),
            Key::Char(c) => typed(self.body_content, b, c) && self == (RequestPane { body_content: self.body_content, ..old }),
            _ => self == old,
        }
    }

    /// A key handled in the auth tab: it moves among the fields that the kind
    /// of authentication has, switches the kind with `t`, or edits the field.
    pub open spec fn auth_step(self, old: RequestPane, code: Key, r: bool) -> bool {
        r && match code {
            Key::Up => self == old.focus_on(FocusedField::Tabs),
            Key::Left => self == (RequestPane { auth_field_focus: AuthField::Type, ..old }),
            Key::Right => self == (RequestPane {
                auth_field_focus: match old.auth_type {
                    AuthType::Basic => AuthField::Username,
                    AuthType::Bearer => AuthField::Token,
                    AuthType::ApiKey => AuthField::KeyName,
                    AuthType::NoAuth => AuthField::Type,
                },
                ..old
            }),
            Key::Down => self == (RequestPane {
                auth_field_focus: if old.auth_type == AuthType::Basic && old.auth_field_focus == AuthField::Username {
                    AuthField::Password
                } else if old.auth_type == AuthType::ApiKey && old.auth_field_focus == AuthField::KeyName {
                    AuthField::KeyValue
                } else {
                    old.auth_field_focus
                },
                ..old
            }),
            Key::Char('t') => self == (RequestPane { auth_type: next_auth(old.auth_type), ..old }),
            Key::Backspace => self.auth_edited(old, Edit::Erase),
            Key::Char(c) => self.auth_edited(old, Edit::Type(c)),
            _ => self == old,
        }
    }

    /// What a key does to the pane, and whether it was used.
    pub open spec fn key_step(self, old: RequestPane, key: KeyPress, r: bool) -> bool {
        let code = key.code;
        if old.method_popup_visible {
            r && self.popup_step(old, code)
        } else if old.url_autocomplete_visible {
            r && self.completion_step(old, code)
        } else if key.ctrl && code == Key::Char('f') && old.focused_field == FocusedField::TabContent {
            r && self == (RequestPane { search_visible: true, ..old })
        } else {
            match old.focused_field {
                FocusedField::Method => self.method_step(old, code, r),
                FocusedField::Url => self.url_step(old, code, r),
                FocusedField::Tabs => self.titles_step(old, code, r),
                FocusedField::TabContent => if old.selected_tab == 0 {
                    self.headers_step(old, code, r)
                } else if old.selected_tab == 1 {
                    self.body_step(old, code, r)
                } else if old.selected_tab == 2 {
                    self.auth_step(old, code, r)
                } else {
                    self.params_step(old, code, r)
                },
            }
        }
    }

    /// A key can be handled without fault: the selected method and tab
    /// exist, and the line a key edits can take the change.
    pub open spec fn key_defined(self, key: KeyPress) -> bool {
        let code = key.code;
        if self.method_popup_visible {
            &&& (code == Key::Down ==> match self.method_selected { Some(i) => i < usize::MAX, None => true })
            &&& (code == Key::Enter ==> match self.method_selected { Some(i) => i < 7, None => true })
        } else if self.url_autocomplete_visible {
            &&& (code is Char ==> can_edit(self.url_buffer, Edit::Type(code->Char_0)))
            &&& (code == Key::Backspace ==> can_erase(self.url_buffer))
        } else if key.ctrl && code == Key::Char('f') && self.focused_field == FocusedField::TabContent {
            true
        } else {
            match self.focused_field {
                FocusedField::Url => {
                    &&& (code is Char ==> can_type(self.url_buffer))
                    &&& (code == Key::Backspace ==> can_erase(self.url_buffer))
                },
                FocusedField::TabContent => {
                    &&& self.selected_tab < 4
                    &&& (self.selected_tab == 0 ==> table_defined(
                        self.headers@,
                        self.header_selected as int,
                        self.header_field_focus == HeaderField::Value,
                        code,
                    ))
                    &&& (self.selected_tab == 1 ==> match code {
                        Key::Backspace => can_erase(self.body_content),
                        Key::Char('t') => self.body_type_selected < usize::MAX,
                        Key::Char(_) => can_type(self.body_content),
                        _ => true,
                    })
                    &&& (self.selected_tab == 2 ==> match code {
                        Key::Backspace => self.auth_buffer() matches Some(b) ==> can_erase(b),
                        Key::Char('t') => true,
                        Key::Char(_) => self.auth_buffer() matches Some(b) ==> can_type(b),
                        _ => true,
                    })
                    &&& (self.selected_tab == 3 ==> table_defined(
                        self.params@,
                        self.param_selected as int,
                        self.param_field_focus == ParamField::Value,
                        code,
                    ))
                },
                _ => true,
            }
        }
    }
}

impl RequestPane {
    /// Handles a key; gives whether the pane used it.
    pub fn handle_key(&mut self, key: &KeyPress) -> (r: bool)
        requires
            old(self).key_defined(*key),
        ensures
            final(self).key_step(*old(self), *key, r),
    {
        let code = &key.code;
        if self.method_popup_visible {
            self.handle_method_popup_key(code);
            return true;
        }
        if self.url_autocomplete_visible {
            self.handle_autocomplete_key(code);
            return true;
        }
        let ctrl_f = match code {
            Key::Char('f') => key.ctrl,
            _ => false,
        };
        if ctrl_f && self.focused_field == FocusedField::TabContent {
            self.search_visible = true;
            return true;
        }
        match self.focused_field {
            FocusedField::Method => self.handle_method_key(code),
            FocusedField::Url => self.handle_url_key(code),
            FocusedField::Tabs => self.handle_tabs_key(code),
            FocusedField::TabContent => {
                if self.selected_tab == 0 {
                    let mut value = self.header_field_focus == HeaderField::Value;
                    let up = table_key(&mut self.headers, &mut self.header_selected, &mut value, code);
                    self.header_field_focus = if value { HeaderField::Value } else { HeaderField::Name };
                    if up {
                        self.focused_field = FocusedField::Tabs;
                    }
                    true
                } else if self.selected_tab == 1 {
                    self.handle_body_key(code)
                } else if self.selected_tab == 2 {
                    self.handle_auth_key(code)
                } else {
                    let mut value = self.param_field_focus == ParamField::Value;
                    let up = table_key(&mut self.params, &mut self.param_selected, &mut value, code);
                    self.param_field_focus = if value { ParamField::Value } else { ParamField::Key };
                    if up {
                        self.focused_field = FocusedField::Tabs;
                    }
                    true
                }
            },
        }
    }

    fn handle_method_popup_key(&mut self, code: &Key)
        requires
            *code == Key::Down ==> match old(self).method_selected { Some(i) => i < usize::MAX, None => true },
            *code == Key::Enter ==> match old(self).method_selected { Some(i) => i < 7, None => true },
        ensures
            final(self).popup_step(*old(self), *code),
    {
        let idx = match self.method_selected {
            Some(i) => i,
            None => 0,
        };
        match code {
            Key::Up => {
                self.method_selected = Some(if idx > 0 { idx - 1 } else { 0 });
            },
            Key::Down => {
                let next = idx + 1;
                self.method_selected = Some(if next < 6 { next } else { 6 });
            },
            Key::Enter => {
                match self.method_selected {
                    Some(i) => {
                        let methods = Method::all();
                        self.method = methods[i];
                    },
                    None => {},
                }
                self.method_popup_visible = false;
            },
            Key::Esc => {
                self.method_popup_visible = false;
            },
            _ => {},
        }
    }

    fn handle_autocomplete_key(&mut self, code: &Key)
        requires
            old(self).url_autocomplete_visible,
            *code is Char ==> can_edit(old(self).url_buffer, Edit::Type(code->Char_0)),
            *code == Key::Backspace ==> can_erase(old(self).url_buffer),
        ensures
            final(self).completion_step(*old(self), *code),
    {
        match code {
            Key::Up => {
                if self.url_autocomplete_selected > 0 {
                    self.url_autocomplete_selected = self.url_autocomplete_selected - 1;
                }
            },
            Key::Down => {
                let matches = self.get_url_matches();
                proof { assert(texts(matches@).len() == matches@.len()); }
                if self.url_autocomplete_selected < matches.len().saturating_sub(1) {
                    self.url_autocomplete_selected = self.url_autocomplete_selected + 1;
                }
            },
            Key::Enter => {
                let matches = self.get_url_matches();
                proof { assert(texts(matches@).len() == matches@.len()); }
                if self.url_autocomplete_selected < matches.len() {
                    self.url_buffer = InputBuffer::with_content(matches[self.url_autocomplete_selected].as_str());
                    proof { assert(texts(matches@)[self.url_autocomplete_selected as int] == matches@[self.url_autocomplete_selected as int]@); }
                }
                self.url_autocomplete_visible = false;
            },
            Key::Esc => {
                self.url_autocomplete_visible = false;
            },
            Key::Char(c) => {
                apply_edit(&mut self.url_buffer, &Edit::Type(*c));
                self.url_autocomplete_selected = 0;
                let left = self.get_url_matches();
                proof { assert(texts(left@).len() == left@.len()); }
                if left.len() == 0 {
                    self.url_autocomplete_visible = false;
                }
            },
            Key::Backspace => {
                apply_edit(&mut self.url_buffer, &Edit::Erase);
                self.url_autocomplete_selected = 0;
                let left = self.get_url_matches();
                proof { assert(texts(left@).len() == left@.len()); }
                if left.len() == 0 {
                    self.url_autocomplete_visible = false;
                }
            },
            _ => {},
        }
    }

    fn handle_method_key(&mut self, code: &Key) -> (r: bool)
        ensures
            final(self).method_step(*old(self), *code, r),
    {
        match code {
            Key::Enter => {
                self.method_popup_visible = true;
                self.method_selected = Some(self.method.index());
                true
            },
            Key::Right | Key::Down | Key::Tab => {
                self.focused_field = FocusedField::Url;
                true
            },
            _ => false,
        }
    }

    fn handle_url_key(&mut self, code: &Key) -> (r: bool)
        requires
            *code is Char ==> can_type(old(self).url_buffer),
            *code == Key::Backspace ==> can_erase(old(self).url_buffer),
        ensures
            final(self).url_step(*old(self), *code, r),
    {
        match code {
            Key::Left => {
                if self.url_buffer.cursor_pos == 0 {
                    self.focused_field = FocusedField::Method;
                } else {
                    self.url_buffer.move_cursor_left();
                }
                true
            },
            Key::Right => {
                self.url_buffer.move_cursor_right();
                true
            },
            Key::Backspace => {
                apply_edit(&mut self.url_buffer, &Edit::Erase);
                true
            },
            Key::Enter | Key::Tab | Key::Down => {
                self.focused_field = FocusedField::Tabs;
                true
            },
            Key::Up => {
                if self.url_buffer.cursor_pos == 0 && self.url_buffer.is_empty() {
                    self.focused_field = FocusedField::Method;
                }
                true
            },
            Key::Char(c) => {
                apply_edit(&mut self.url_buffer, &Edit::Type(*c));
                if !self.url_buffer.is_empty() && !self.url_autocomplete_visible {
                    self.url_autocomplete_visible = true;
                    self.url_autocomplete_selected = 0;
                }
                true
            },
            _ => false,
        }
    }

    fn handle_tabs_key(&mut self, code: &Key) -> (r: bool)
        ensures
            final(self).titles_step(*old(self), *code, r),
    {
        match code {
            Key::Left => {
                if self.selected_tab == 0 {
                    self.focused_field = FocusedField::Url;
                } else {
                    self.selected_tab = self.selected_tab - 1;
                }
                true
            },
            Key::Right => {
                if self.selected_tab >= 3 {
                    self.focused_field = FocusedField::TabContent;
                } else {
                    self.selected_tab = self.selected_tab + 1;
                }
                true
            },
            Key::Down | Key::Enter => {
                self.focused_field = FocusedField::TabContent;
                true
            },
            Key::Up => {
                self.focused_field = FocusedField::Url;
                true
            },
            _ => false,
        }
    }

    fn handle_body_key(&mut self, code: &Key) -> (r: bool)
        requires
            match *code {
                Key::Backspace => can_erase(old(self).body_content),
                Key::Char('t') => old(self).body_type_selected < usize::MAX,
                Key::Char(_) => can_type(old(self).body_content),
                _ => true,
            },
        ensures
            final(self).body_step(*old(self), *code, r),
    {
        match code {
            Key::Up => {
                self.focused_field = FocusedField::Tabs;
            },
            Key::Left => {
                self.body_content.move_cursor_left();
            },
            Key::Right => {
                self.body_content.move_cursor_right();
            },
            Key::Backspace => {
                apply_edit(&mut self.body_content, &Edit::Erase);
            },
            Key::Char('t') => {
                let next = (self.body_type_selected + 1) % 3;
                let types = BodyType::all();
                self.body_type_selected = next;
                self.body_type = types[next];
            },
            Key::Char(c) => {
                apply_edit(&mut self.body_content, &Edit::Type(*c));
            },
            _ => {},
        }
        true
    }

    fn handle_auth_key(&mut self, code: &Key) -> (r: bool)
        requires
            match *code {
                Key::Backspace => old(self).auth_buffer() matches Some(b) ==> can_erase(b),
                Key::Char('t') => true,
                Key::Char(_) => old(self).auth_buffer() matches Some(b) ==> can_type(b),
                _ => true,
            },
        ensures
            final(self).auth_step(*old(self), *code, r),
    {
        match code {
            Key::Up => {
                self.focused_field = FocusedField::Tabs;
            },
            Key::Left => {
                self.auth_field_focus = AuthField::Type;
            },
            Key::Right => {
                self.auth_field_focus = match self.auth_type {
                    AuthType::Basic => AuthField::Username,
                    AuthType::Bearer => AuthField::Token,
                    AuthType::ApiKey => AuthField::KeyName,
                    AuthType::NoAuth => AuthField::Type,
                };
            },
            Key::Down => {
                if self.auth_type == AuthType::Basic && self.auth_field_focus == AuthField::Username {
                    self.auth_field_focus = AuthField::Password;
                } else if self.auth_type == AuthType::ApiKey && self.auth_field_focus == AuthField::KeyName {
                    self.auth_field_focus = AuthField::KeyValue;
                }
            },
            Key::Char('t') => {
                self.auth_type = match self.auth_type {
                    AuthType::NoAuth => AuthType::Basic,
                    AuthType::Basic => AuthType::Bearer,
                    AuthType::Bearer => AuthType::ApiKey,
                    AuthType::ApiKey => AuthType::NoAuth,
                };
            },
            Key::Backspace => {
                self.edit_auth(&Edit::Erase);
            },
            Key::Char(c) => {
                self.edit_auth(&Edit::Type(*c));
            },
            _ => {},
        }
        true
    }
}

/// `n` is `rows` with `s` pasted into one cell of row `i`.
pub open spec fn rows_pasted(n: Seq<(InputBuffer, InputBuffer)>, rows: Seq<(InputBuffer, InputBuffer)>, i: int, value: bool, s: Seq<char>) -> bool {
    &&& 0 <= i < rows.len()
    &&& pasted(cell(n[i], value), cell(rows[i], value), s)
    &&& n == rows.update(i, if value { (rows[i].0, n[i].1) } else { (n[i].0, rows[i].1) })
}

/// `s` can be pasted into the buffer without fault.
pub open spec fn can_paste(b: InputBuffer, s: Seq<char>) -> bool {
    on_boundary(b.content@, b.cursor_pos as int) && b.cursor_pos + utf8(s).len() <= usize::MAX
}

impl RequestPane {
    /// The text can be pasted without fault into the field an external
    /// editor would edit: the selected tab exists and the line can take it.
    pub open spec fn paste_defined(self, text: Seq<char>) -> bool {
        let line = line_text(text);
        &&& (self.focused_field == FocusedField::Tabs || self.focused_field == FocusedField::TabContent
            ==> self.selected_tab < 4)
        &&& text.len() > 0 ==> match self.editable() {
            EditableField::Url => can_paste(self.url_buffer, line),
            EditableField::Body => can_paste(self.body_content, text),
            EditableField::HeaderName(i) => i < self.headers@.len() ==> can_paste(self.headers@[i as int].0, line),
            EditableField::HeaderValue(i) => i < self.headers@.len() ==> can_paste(self.headers@[i as int].1, line),
            EditableField::ParamKey(i) => i < self.params@.len() ==> can_paste(self.params@[i as int].0, line),
            EditableField::ParamValue(i) => i < self.params@.len() ==> can_paste(self.params@[i as int].1, line),
            EditableField::Headers | EditableField::AuthType => true,
            _ => self.auth_buffer() matches Some(b) ==> can_paste(b, line),
        }
    }

    /// What pasting `text` does: it goes, on one line (without the line
    /// breaks at its end), into the field an external editor would edit,
    /// and into the body as it is; the URL then shows its completions.
    /// Nothing is pasted into the list of headers, the kind of
    /// authentication, a row that does not exist, or from an empty text.
    pub open spec fn paste_step(self, old: RequestPane, text: Seq<char>, r: bool) -> bool {
        let line = line_text(text);
        if text.len() == 0 {
            !r && self == old
        } else {
            match old.editable() {
                EditableField::Url => {
                    &&& r
                    &&& pasted(self.url_buffer, old.url_buffer, line)
                    &&& self == (RequestPane {
                        url_buffer: self.url_buffer,
                        url_autocomplete_visible: self.url_buffer.content@.len() > 0,
                        url_autocomplete_selected: 0,
                        ..old
                    })
                },
                EditableField::Body => r && pasted(self.body_content, old.body_content, text) && self == (
                RequestPane { body_content: self.body_content, ..old }),
                EditableField::HeaderName(i) => if i < old.headers@.len() {
                    r && rows_pasted(self.headers@, old.headers@, i as int, false, line) && self == (RequestPane {
                        headers: self.headers,
                        ..old
                    })
                } else {
                    !r && self == old
                },
                EditableField::HeaderValue(i) => if i < old.headers@.len() {
                    r && rows_pasted(self.headers@, old.headers@, i as int, true, line) && self == (RequestPane {
                        headers: self.headers,
                        ..old
                    })
                } else {
                    !r && self == old
                },
                EditableField::ParamKey(i) => if i < old.params@.len() {
                    r && rows_pasted(self.params@, old.params@, i as int, false, line) && self == (RequestPane {
                        params: self.params,
                        ..old
                    })
                } else {
                    !r && self == old
                },
                EditableField::ParamValue(i) => if i < old.params@.len() {
                    r && rows_pasted(self.params@, old.params@, i as int, true, line) && self == (RequestPane {
                        params: self.params,
                        ..old
                    })
                } else {
                    !r && self == old
                },
                EditableField::Headers | EditableField::AuthType => !r && self == old,
                _ => r && match old.auth_buffer() {
                    Some(b) => self.auth_buffer() matches Some(nb) && pasted(nb, b, line) && self == old.with_auth_buffer(nb),
                    None => self == old,
                },
            }
        }
    }

    /// Pastes `text` into the field an external editor would edit; gives
    /// whether it went in.
    pub fn paste_text(&mut self, text: &str) -> (r: bool)
        requires
            old(self).paste_defined(text@),
        ensures
            final(self).paste_step(*old(self), text@, r),
    {
        if text.unicode_len() == 0 {
            return false;
        }
        let line = normalize_single_line(text);
        let field = self.focused_editable_field();
        match field {
            EditableField::Url => {
                apply_edit(&mut self.url_buffer, &Edit::Paste(line));
                self.url_autocomplete_visible = !self.url_buffer.is_empty();
                self.url_autocomplete_selected = 0;
                true
            },
            EditableField::Body => {
                apply_edit(&mut self.body_content, &Edit::Paste(copy_str(text)));
                true
            },
            EditableField::HeaderName(i) => {
                if i < self.headers.len() {
                    edit_row(&mut self.headers, i, false, &Edit::Paste(line));
                    true
                } else {
                    false
                }
            },
            EditableField::HeaderValue(i) => {
                if i < self.headers.len() {
                    edit_row(&mut self.headers, i, true, &Edit::Paste(line));
                    true
                } else {
                    false
                }
            },
            EditableField::ParamKey(i) => {
                if i < self.params.len() {
                    edit_row(&mut self.params, i, false, &Edit::Paste(line));
                    true
                } else {
                    false
                }
            },
            EditableField::ParamValue(i) => {
                if i < self.params.len() {
                    edit_row(&mut self.params, i, true, &Edit::Paste(line));
                    true
                } else {
                    false
                }
            },
            EditableField::Headers | EditableField::AuthType => false,
            _ => {
                self.edit_auth(&Edit::Paste(line));
                true
            },
        }
    }
}


/// A labelled field of a form, whether it has the focus, and the byte
/// position of its cursor.
pub struct FormField {
    pub label: String,
    pub value: String,
    pub focused: bool,
    pub cursor_pos: usize,
}

/// What the authentication tab shows: the kind of authentication (and
/// whether it has the focus), its fields, and a note where it has none.
pub struct AuthForm {
    pub kind_label: String,
    pub type_focused: bool,
    pub fields: Vec<FormField>,
    pub note: Option<String>,
}

/// The fields as label, value, focus and cursor position.
pub open spec fn fields_view(fs: Seq<FormField>) -> Seq<(Seq<char>, Seq<char>, bool, usize)> {
    fs.map_values(|f: FormField| (f.label@, f.value@, f.focused, f.cursor_pos))
}

impl RequestPane {
    /// The fields of the authentication tab: username and password, a bearer
    /// token, or the name and value of an API key; a field has the focus when
    /// the pane is active, its content is focused and the field is chosen.
    pub open spec fn auth_fields(self, is_active: bool) -> Seq<(Seq<char>, Seq<char>, bool, usize)> {
        let on = is_active && self.focused_field == FocusedField::TabContent;
        let field = |label: Seq<char>, b: InputBuffer, f: AuthField| (label, b.content@, on && self.auth_field_focus == f, b.cursor_pos);
        match self.auth_type {
            AuthType::NoAuth => Seq::empty(),
            AuthType::Basic => seq![
                field("Username "@, self.auth_username, AuthField::Username),
                field("Password "@, self.auth_password, AuthField::Password),
            ],
            AuthType::Bearer => seq![field("Bearer Token "@, self.auth_token, AuthField::Token)],
            AuthType::ApiKey => seq![
                field("Key Name "@, self.auth_key_name, AuthField::KeyName),
                field("Key Value "@, self.auth_key_value, AuthField::KeyValue),
            ],
        }
    }

    /// The header that the authentication settings add to a request, if any.
    pub fn auth_header(&self) -> (r: Option<(String, String)>)
        requires
            self.auth_type == AuthType::Basic ==> utf8(basic_credentials(*self)).len() <= usize::MAX / 2,
        ensures
            auth_header_of(*self) == match r {
                Some(h) => Some((h.0@, h.1@)),
                None => None,
            },
    {
        proof {
            reveal_strlit("Authorization");
            reveal_strlit("Basic ");
            reveal_strlit("Bearer ");
            reveal_strlit(":");
        }
        match self.auth_type {
            AuthType::NoAuth => None,
            AuthType::Basic => {
                let user = trimmed(self.auth_username.as_str());
                let pass = trimmed(self.auth_password.as_str());
                if user.as_str().is_empty() && pass.as_str().is_empty() {
                    None
                } else {
                    let mut joined = user;
                    push_str(&mut joined, ":");
                    push_str(&mut joined, pass.as_str());
                    proof {
                        assert(joined@ =~= basic_credentials(*self));
                    }
                    let mut value = copy_str("Basic ");
                    let encoded = base64_standard(joined.as_str());
                    push_str(&mut value, encoded.as_str());
                    Some((copy_str("Authorization"), value))
                }
            },
            AuthType::Bearer => {
                let token = trimmed(self.auth_token.as_str());
                if token.as_str().is_empty() {
                    None
                } else {
                    let mut value = copy_str("Bearer ");
                    push_str(&mut value, token.as_str());
                    Some((copy_str("Authorization"), value))
                }
            },
            AuthType::ApiKey => {
                let name = trimmed(self.auth_key_name.as_str());
                if name.as_str().is_empty() {
                    None
                } else {
                    Some((name, trimmed(self.auth_key_value.as_str())))
                }
            },
        }
    }

    /// The headers that the rows of the headers tab hand on, in order.
    pub fn header_entries(&self) -> (r: Vec<(String, String)>)
        ensures
            pairs_view(r@) == header_entries_of(self.headers@),
    {
        let mut out: Vec<(String, String)> = Vec::new();
        let mut i: usize = 0;
        while i < self.headers.len()
            invariant
                i <= self.headers@.len(),
                pairs_view(out@) == header_entries_of(self.headers@.take(i as int)),
            decreases self.headers@.len() - i,
        {
            let name = trimmed(self.headers[i].0.as_str());
            let value = trimmed(self.headers[i].1.as_str());
            proof {
                assert(self.headers@.take(i as int + 1).drop_last() =~= self.headers@.take(i as int));
                assert(self.headers@.take(i as int + 1).last() == self.headers@[i as int]);
            }
            if !name.as_str().is_empty() {
                out.push((name, value));
                proof {
                    assert(pairs_view(out@) =~= pairs_view(out@.drop_last()).push((out@.last().0@, out@.last().1@)));
                }
            }
            i += 1;
        }
        proof {
            assert(self.headers@.take(self.headers@.len() as int) =~= self.headers@);
        }
        out
    }

    /// The authentication tab as a form.
    pub fn auth_form(&self, is_active: bool) -> (r: AuthForm)
        ensures
            r.kind_label@ == self.auth_type.label(),
            r.type_focused == (is_active && self.focused_field == FocusedField::TabContent && self.auth_field_focus
                == AuthField::Type),
            fields_view(r.fields@) == self.auth_fields(is_active),
            r.note is Some == (self.auth_type == AuthType::NoAuth),
            r.note is Some ==> r.note->0@ == "No authentication configured"@,
    {
        let on = is_active && self.focused_field == FocusedField::TabContent;
        let mut fields: Vec<FormField> = Vec::new();
        let mut note: Option<String> = None;
        match self.auth_type {
            AuthType::NoAuth => {
                note = Some(copy_str("No authentication configured"));
            },
            AuthType::Basic => {
                fields.push(FormField {
                    label: copy_str("Username "),
                    value: self.auth_username.content.clone(),
                    cursor_pos: self.auth_username.cursor_pos,
                    focused: on && self.auth_field_focus == AuthField::Username,
                });
                fields.push(FormField {
                    label: copy_str("Password "),
                    value: self.auth_password.content.clone(),
                    cursor_pos: self.auth_password.cursor_pos,
                    focused: on && self.auth_field_focus == AuthField::Password,
                });
            },
            AuthType::Bearer => {
                fields.push(FormField {
                    label: copy_str("Bearer Token "),
                    value: self.auth_token.content.clone(),
                    cursor_pos: self.auth_token.cursor_pos,
                    focused: on && self.auth_field_focus == AuthField::Token,
                });
            },
            AuthType::ApiKey => {
                fields.push(FormField {
                    label: copy_str("Key Name "),
                    value: self.auth_key_name.content.clone(),
                    cursor_pos: self.auth_key_name.cursor_pos,
                    focused: on && self.auth_field_focus == AuthField::KeyName,
                });
                fields.push(FormField {
                    label: copy_str("Key Value "),
                    value: self.auth_key_value.content.clone(),
                    cursor_pos: self.auth_key_value.cursor_pos,
                    focused: on && self.auth_field_focus == AuthField::KeyValue,
                });
            },
        }
        proof { assert(fields_view(fields@) =~= self.auth_fields(is_active)); }
        AuthForm {
            kind_label: copy_str(self.auth_type.as_str()),
            type_focused: on && self.auth_field_focus == AuthField::Type,
            fields,
            note,
        }
    }
}

} // verus!
