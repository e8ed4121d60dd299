use vstd::prelude::*;

use crate::text::{copy_str, push_char, push_str, replace_all, trim};

verus! {

#[verifier::external_type_specification]
#[verifier::external_body]
pub struct ExIoError(std::io::Error);

/// The kinds of file an external editor is given.
#[derive(Debug, Clone, Copy, PartialEq, Eq, Structural)]
pub enum EditorFormat {
    Text,
    Json,
    Yaml,
}

impl EditorFormat {
    /// The file name extension, with its dot.
    pub open spec fn suffix(self) -> Seq<char> {
        match self {
            EditorFormat::Text => ".txt"@,
            EditorFormat::Json => ".json"@,
            EditorFormat::Yaml => ".yaml"@,
        }
    }

    /// The file name extension, with its dot.
    pub fn extension(self) -> (r: &'static str)
        ensures
            r@ == self.suffix(),
    {
        match self {
            EditorFormat::Text => ".txt",
            EditorFormat::Json => ".json",
            EditorFormat::Yaml => ".yaml",
        }
    }
}

/// How an editor run ended.
#[derive(Debug, Clone, Copy, PartialEq, Eq, Structural)]
pub struct EditorRunResult {
    pub success: bool,
    pub exit_code: Option<i32>,
}

/// Why editing in an external editor failed.
#[derive(Debug)]
pub enum EditorError {
    Io(std::io::Error),
    Spawn(String),
    Aborted(Option<i32>),
    Validation(String),
    Terminal(String),
}

/// The editor to run: the first of the two settings that is not blank,
/// trimmed, else `vim`.
pub open spec fn chosen_editor(visual: Option<Seq<char>>, editor: Option<Seq<char>>) -> Seq<char> {
    if visual is Some && trim(visual->0).len() > 0 {
        trim(visual->0)
    } else if editor is Some && trim(editor->0).len() > 0 {
        trim(editor->0)
    } else {
        "vim"@
    }
}

pub(crate) fn trimmed(s: &str) -> (r: String)
    ensures
        r@ == trim(s@),
{
    let cs = crate::text::chars_of(s);
    let t = crate::text::trim_exec(&cs);
    crate::text::string_from_chars(t.as_slice())
}

/// Picks the editor from the values of `VISUAL` and `EDITOR`, when set.
pub fn choose_editor(visual: Option<&str>, editor: Option<&str>) -> (r: String)
    ensures
        r@ == chosen_editor(crate::editor::opt_str_view(visual), crate::editor::opt_str_view(editor)),
{
    if let Some(v) = visual {
        let t = trimmed(v);
        if !t.as_str().is_empty() {
            return t;
        }
    }
    if let Some(e) = editor {
        let t = trimmed(e);
        if !t.as_str().is_empty() {
            return t;
        }
    }
    copy_str("vim")
}

/// The view of an optional text.
pub open spec fn opt_str_view(o: Option<&str>) -> Option<Seq<char>> {
    match o {
        Some(s) => Some(s@),
        None => None,
    }
}

/// A prefix for a file name: ASCII letters and digits kept, every other
/// character made `-`.
pub open spec fn sanitized(s: Seq<char>) -> Seq<char> {
    s.map_values(|c: char| if ('a' <= c <= 'z') || ('A' <= c <= 'Z') || ('0' <= c <= '9') { c } else { '-' })
}

/// The file name for an edit: `yinx-`, the sanitized prefix, `-`, a
/// number that makes it unique, and the extension of the format.
pub open spec fn edit_file_name_text(prefix: Seq<char>, unique: nat, format: EditorFormat) -> Seq<char> {
    "yinx-"@ + sanitized(prefix) + "-"@ + crate::json::decimal(unique) + format.suffix()
}

/// The name of the temporary file for an edit.
pub fn edit_file_name(prefix: &str, unique: u128, format: EditorFormat) -> (r: String)
    ensures
        r@ == edit_file_name_text(prefix@, unique as nat, format),
{
    let cs = crate::text::chars_of(prefix);
    let mut out = String::new();
    push_str(&mut out, "yinx-");
    let ghost start = out@;
    let mut i: usize = 0;
    while i < cs.len()
        invariant
            i <= cs@.len(),
            cs@ == prefix@,
            out@ == start + sanitized(prefix@).take(i as int),
        decreases cs@.len() - i,
    {
        let c = cs[i];
        let d = if ('a' <= c && c <= 'z') || ('A' <= c && c <= 'Z') || ('0' <= c && c <= '9') { c } else { '-' };
        push_char(&mut out, d);
        i += 1;
        proof { assert(out@ =~= start + sanitized(prefix@).take(i as int)); }
    }
    proof { assert(sanitized(prefix@).take(cs@.len() as int) =~= sanitized(prefix@)); }
    push_str(&mut out, "-");
    crate::json::push_decimal_wide(&mut out, unique);
    push_str(&mut out, format.extension());
    out
}

/// A path quoted for the shell: in single quotes, each single quote inside
/// written `'\''`.
pub open spec fn shell_quoted(path: Seq<char>) -> Seq<char> {
    "'"@ + replace_all(path, "'"@, "'\\''"@) + "'"@
}

/// Quotes a path for the shell.
pub fn shell_escape(path: &str) -> (r: String)
    ensures
        r@ == shell_quoted(path@),
{
    let cs = crate::text::chars_of(path);
    let replaced = crate::text::replace_all_exec(&cs, &crate::text::chars_of("'"), &crate::text::chars_of("'\\''"));
    let mut out = String::new();
    push_str(&mut out, "'");
    let inner = crate::text::string_from_chars(replaced.as_slice());
    push_str(&mut out, inner.as_str());
    push_str(&mut out, "'");
    out
}


/// What comes of an editor run, once the terminal was taken back, and
/// whether the temporary file is to be removed now: a failure to take the
/// terminal back comes first (the file goes), then a failure to run the
/// editor (the file stays), then an editor that did not exit successfully
/// (the file goes); otherwise the file is to be read.
pub open spec fn run_verdict(resume: Result<(), EditorError>, run: Result<EditorRunResult, EditorError>) -> (
    Result<(), EditorError>,
    bool,
) {
    match resume {
        Err(e) => (Err(e), true),
        Ok(_) => match run {
            Err(e) => (Err(e), false),
            Ok(r) => if r.success {
                (Ok(()), false)
            } else {
                (Err(EditorError::Aborted(r.exit_code)), true)
            },
        },
    }
}

/// Decides what an editor run comes to, from whether the terminal was taken
/// back and how the editor ran.
pub fn after_editor_run(resume: Result<(), EditorError>, run: Result<EditorRunResult, EditorError>) -> (r: (
    Result<(), EditorError>,
    bool,
))
    ensures
        r == run_verdict(resume, run),
{
    match resume {
        Err(e) => (Err(e), true),
        Ok(_) => match run {
            Err(e) => (Err(e), false),
            Ok(res) => if res.success {
                (Ok(()), false)
            } else {
                (Err(EditorError::Aborted(res.exit_code)), true)
            },
        },
    }
}

} // verus!
