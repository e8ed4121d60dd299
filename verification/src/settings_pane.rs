use vstd::prelude::*;

use crate::json::{decimal, decimal_string};
use crate::text::{chars_of, copy_str, push_char, str_eq};
use crate::variables::{parse_index, parse_index_exec};
use crate::theme::{builtin_names, Theme};
use crate::graph::names_view;

verus! {

/// Whether the settings pane is showing values or editing one of them.
#[derive(Debug, Clone, Copy, PartialEq, Eq, Structural)]
pub enum SettingsMode {
    Viewing,
    Editing(usize),
}

/// The configuration as the settings pane shows and edits it.
pub struct Settings {
    pub theme: String,
    pub default_timeout_secs: usize,
    pub follow_redirects: bool,
    pub verify_tls: bool,
    pub max_history_entries: usize,
    /// Key bindings as action name and key, in the order the pane lists them.
    pub keybindings: Vec<(String, String)>,
}

/// What a key pressed in the settings pane tells its owner.
#[derive(Debug, PartialEq, Eq)]
pub enum SettingsEvent {
    /// The settings are to be written to `save_path()`; the owner reports
    /// the result to `save_finished`.
    Saved,
    Closed,
    /// An edit was confirmed: the key of the setting and the edit buffer
    /// as it is after the edit (cleared).
    Changed(String, String),
    /// What an edit set: the key of the setting and the value typed.
    ConfigChanged(String, String),
}

/// The pane that shows the settings and edits them one at a time.
pub struct SettingsPane {
    pub config: Settings,
    pub config_path: Option<String>,
    pub mode: SettingsMode,
    pub selected_index: usize,
    pub edit_buffer: String,
    pub message: Option<String>,
    pub is_open: bool,
}

/// The number of rows: the five fixed settings and one per key binding.
pub open spec fn row_count(c: Settings) -> int {
    5 + c.keybindings@.len() as int
}

/// The key of the setting in row `index`: the five fixed ones, then the key
/// bindings by action name; empty past the end.
pub open spec fn key_at(c: Settings, index: int) -> Seq<char> {
    if index == 0 {
        "theme"@
    } else if index == 1 {
        "default_timeout_secs"@
    } else if index == 2 {
        "follow_redirects"@
    } else if index == 3 {
        "verify_tls"@
    } else if index == 4 {
        "max_history_entries"@
    } else if index - 5 < c.keybindings@.len() {
        c.keybindings@[index - 5].0@
    } else {
        Seq::empty()
    }
}

/// `true` or `false`.
pub open spec fn bool_text(b: bool) -> Seq<char> {
    if b { "true"@ } else { "false"@ }
}

/// What `bool::from_str` reads: exactly `true` or `false`.
pub open spec fn parse_bool(s: Seq<char>) -> Option<bool> {
    if s == "true"@ {
        Some(true)
    } else if s == "false"@ {
        Some(false)
    } else {
        None
    }
}

/// The first binding with action name `name`.
pub open spec fn binding_index(b: Seq<(String, String)>, name: Seq<char>) -> Option<int>
    decreases b.len(),
{
    if b.len() == 0 {
        None
    } else {
        match binding_index(b.drop_last(), name) {
            Some(i) => Some(i),
            None => if b.last().0@ == name { Some(b.len() - 1) } else { None },
        }
    }
}

/// The text of the setting with key `key`, as it is edited: the theme,
/// numbers in decimal, `true` or `false`, the key of a binding; empty for
/// an unknown key.
pub open spec fn value_of(c: Settings, key: Seq<char>) -> Seq<char> {
    if key == "theme"@ {
        c.theme@
    } else if key == "default_timeout_secs"@ {
        decimal(c.default_timeout_secs as nat)
    } else if key == "follow_redirects"@ {
        bool_text(c.follow_redirects)
    } else if key == "verify_tls"@ {
        bool_text(c.verify_tls)
    } else if key == "max_history_entries"@ {
        decimal(c.max_history_entries as nat)
    } else {
        match binding_index(c.keybindings@, key) {
            Some(i) => c.keybindings@[i].1@,
            None => Seq::empty(),
        }
    }
}

/// The bindings with `value` set for `name`: in place where it is bound,
/// else added at the end.
pub open spec fn set_binding(b: Seq<(String, String)>, name: Seq<char>, value: Seq<char>) -> Seq<(Seq<char>, Seq<char>)> {
    let v = b.map_values(|p: (String, String)| (p.0@, p.1@));
    match binding_index(b, name) {
        Some(i) => v.update(i, (name, value)),
        None => v.push((name, value)),
    }
}

/// The bindings as plain values.
pub open spec fn bindings_view(b: Seq<(String, String)>) -> Seq<(Seq<char>, Seq<char>)> {
    b.map_values(|p: (String, String)| (p.0@, p.1@))
}

/// `c` changed by setting `key` to the text `value`: the theme takes it as
/// it is; a number or a flag only where it reads as one (else unchanged);
/// any other key sets a binding.
pub open spec fn edited(c: Settings, key: Seq<char>, value: Seq<char>, d: Settings) -> bool {
    &&& d.theme@ == (if key == "theme"@ { value } else { c.theme@ })
    &&& d.default_timeout_secs == (if key == "default_timeout_secs"@ && parse_index(value) is Some {
        parse_index(value)->0 as usize
    } else {
        c.default_timeout_secs
    })
    &&& d.follow_redirects == (if key == "follow_redirects"@ && parse_bool(value) is Some {
        parse_bool(value)->0
    } else {
        c.follow_redirects
    })
    &&& d.verify_tls == (if key == "verify_tls"@ && parse_bool(value) is Some {
        parse_bool(value)->0
    } else {
        c.verify_tls
    })
    &&& d.max_history_entries == (if key == "max_history_entries"@ && parse_index(value) is Some {
        parse_index(value)->0 as usize
    } else {
        c.max_history_entries
    })
    &&& bindings_view(d.keybindings@) == (if fixed_key(key) {
        bindings_view(c.keybindings@)
    } else {
        set_binding(c.keybindings@, key, value)
    })
}

/// One of the five fixed settings.
pub open spec fn fixed_key(key: Seq<char>) -> bool {
    key == "theme"@ || key == "default_timeout_secs"@ || key == "follow_redirects"@ || key
        == "verify_tls"@ || key == "max_history_entries"@
}

/// Room to count the rows and add a binding.
pub open spec fn counts_fit(c: Settings) -> bool {
    c.keybindings@.len() + 6 <= usize::MAX
}

/// The selection `k` rows down, held at the last row `max`; a selection
/// already past it stays.
pub open spec fn next_by(sel: int, k: int, max: int) -> int {
    if sel < max {
        if sel + k < max { sel + k } else { max }
    } else {
        sel
    }
}

/// The selection `k` rows up, held at the first.
pub open spec fn prev_by(sel: int, k: int) -> int {
    if sel >= k { sel - k } else { 0 }
}

proof fn lemma_fixed_keys_differ()
    ensures
        "theme"@ != "default_timeout_secs"@,
        "theme"@ != "follow_redirects"@,
        "theme"@ != "verify_tls"@,
        "theme"@ != "max_history_entries"@,
        "default_timeout_secs"@ != "follow_redirects"@,
        "default_timeout_secs"@ != "verify_tls"@,
        "default_timeout_secs"@ != "max_history_entries"@,
        "follow_redirects"@ != "verify_tls"@,
        "follow_redirects"@ != "max_history_entries"@,
        "verify_tls"@ != "max_history_entries"@,
        "true"@ != "false"@,
{
    reveal_strlit("theme");
    reveal_strlit("default_timeout_secs");
    reveal_strlit("follow_redirects");
    reveal_strlit("verify_tls");
    reveal_strlit("max_history_entries");
    reveal_strlit("true");
    reveal_strlit("false");
    assert("theme"@.len() == 5);
    assert("default_timeout_secs"@.len() == 20);
    assert("follow_redirects"@.len() == 16);
    assert("verify_tls"@.len() == 10);
    assert("max_history_entries"@.len() == 19);
    assert("true"@.len() == 4);
    assert("false"@.len() == 5);
}

/// The binding found is within the list and has the name looked for.
proof fn lemma_binding_index_range(b: Seq<(String, String)>, name: Seq<char>)
    ensures
        binding_index(b, name) matches Some(i) ==> 0 <= i < b.len() && b[i].0@ == name,
    decreases b.len(),
{
    if b.len() > 0 {
        lemma_binding_index_range(b.drop_last(), name);
    }
}

fn find_binding(b: &Vec<(String, String)>, name: &str) -> (r: Option<usize>)
    ensures
        r matches Some(i) ==> i < b@.len() && b@[i as int].0@ == name@ && binding_index(b@, name@) == Some(
            i as int,
        ),
        r is None ==> binding_index(b@, name@) is None,
{
    let mut i: usize = 0;
    while i < b.len()
        invariant
            i <= b@.len(),
            binding_index(b@.take(i as int), name@) is None,
        decreases b@.len() - i,
    {
        proof {
            assert(b@.take(i as int + 1).drop_last() =~= b@.take(i as int));
        }
        if str_eq(b[i].0.as_str(), name) {
            proof {
                lemma_binding_index_prefix(b@, i as int + 1, name@);
                lemma_binding_index_range(b@, name@);
            }
            return Some(i);
        }
        i += 1;
    }
    proof {
        assert(b@.take(b@.len() as int) =~= b@);
    }
    None
}

/// A binding found in a prefix is the one found in the whole list.
proof fn lemma_binding_index_prefix(b: Seq<(String, String)>, k: int, name: Seq<char>)
    requires
        0 < k <= b.len(),
        binding_index(b.take(k), name) is Some,
    ensures
        binding_index(b, name) == binding_index(b.take(k), name),
    decreases b.len(),
{
    if k < b.len() {
        assert(b.drop_last().take(k) =~= b.take(k));
        lemma_binding_index_prefix(b.drop_last(), k, name);
    } else {
        assert(b.take(k) =~= b);
    }
}

fn bool_string(v: bool) -> (r: String)
    ensures
        r@ == bool_text(v),
{
    if v { copy_str("true") } else { copy_str("false") }
}

fn parse_bool_exec(s: &str) -> (r: Option<bool>)
    ensures
        r == parse_bool(s@),
{
    if str_eq(s, "true") {
        Some(true)
    } else if str_eq(s, "false") {
        Some(false)
    } else {
        None
    }
}

fn parse_count(s: &str) -> (r: Option<usize>)
    ensures
        match parse_index(s@) {
            Some(n) => r == Some(n as usize),
            None => r is None,
        },
{
    let cs = chars_of(s);
    proof {
        assert(cs@.subrange(0, cs@.len() as int) =~= s@);
    }
    parse_index_exec(&cs, 0, cs.len())
}

/// Whether `key` names one ASCII character (a one-byte key name).
pub open spec fn single_ascii(key: Seq<char>) -> bool {
    key.len() == 1 && (key[0] as u32) < 128
}

impl SettingsPane {
    /// A closed pane over `config`, read from `config_path` where there was a
    /// file.
    pub fn new(config: Settings, config_path: Option<String>) -> (r: Self)
        ensures
            r.config == config,
            r.config_path == config_path,
            r.mode == SettingsMode::Viewing,
            r.selected_index == 0,
            r.edit_buffer@.len() == 0,
            r.message is None,
            !r.is_open,
    {
        SettingsPane {
            config,
            config_path,
            mode: SettingsMode::Viewing,
            selected_index: 0,
            edit_buffer: String::new(),
            message: None,
            is_open: false,
        }
    }

    pub fn open(&mut self)
        ensures
            *final(self) == (SettingsPane {
                is_open: true,
                mode: SettingsMode::Viewing,
                selected_index: 0,
                ..*old(self)
            }),
    {
        self.is_open = true;
        self.mode = SettingsMode::Viewing;
        self.selected_index = 0;
    }

    pub fn close(&mut self)
        ensures
            *final(self) == (SettingsPane { is_open: false, message: None, ..*old(self) }),
    {
        self.is_open = false;
        self.message = None;
    }

    pub fn is_open(&self) -> (r: bool)
        ensures
            r == self.is_open,
    {
        self.is_open
    }

    pub fn toggle(&mut self)
        ensures
            *final(self) == (SettingsPane { is_open: !old(self).is_open, ..*old(self) }),
    {
        self.is_open = !self.is_open;
    }

    /// The number of rows: five settings and the key bindings.
    pub fn setting_count(&self) -> (r: usize)
        requires
            counts_fit(self.config),
        ensures
            r == row_count(self.config),
    {
        5 + self.config.keybindings.len()
    }

    /// The key of the setting in row `index`.
    pub fn setting_key_at(&self, index: usize) -> (r: String)
        ensures
            r@ == key_at(self.config, index as int),
    {
        if index == 0 {
            copy_str("theme")
        } else if index == 1 {
            copy_str("default_timeout_secs")
        } else if index == 2 {
            copy_str("follow_redirects")
        } else if index == 3 {
            copy_str("verify_tls")
        } else if index == 4 {
            copy_str("max_history_entries")
        } else if index - 5 < self.config.keybindings.len() {
            copy_str(self.config.keybindings[index - 5].0.as_str())
        } else {
            String::new()
        }
    }

    /// The text of the setting with key `key`.
    fn value_text(&self, key: &str) -> (r: String)
        ensures
            r@ == value_of(self.config, key@),
    {
        proof {
            lemma_fixed_keys_differ();
            lemma_binding_index_range(self.config.keybindings@, key@);
        }
        if str_eq(key, "theme") {
            copy_str(self.config.theme.as_str())
        } else if str_eq(key, "default_timeout_secs") {
            decimal_string(self.config.default_timeout_secs as u64)
        } else if str_eq(key, "follow_redirects") {
            bool_string(self.config.follow_redirects)
        } else if str_eq(key, "verify_tls") {
            bool_string(self.config.verify_tls)
        } else if str_eq(key, "max_history_entries") {
            decimal_string(self.config.max_history_entries as u64)
        } else {
            match find_binding(&self.config.keybindings, key) {
                Some(i) => {
                    copy_str(self.config.keybindings[i].1.as_str())
                },
                None => String::new(),
            }
        }
    }

    /// Starts editing the selected setting with its present text.
    pub fn start_editing(&mut self)
        ensures
            final(self).edit_buffer@ == value_of(old(self).config, key_at(old(self).config, old(self).selected_index as int)),
            final(self).mode == SettingsMode::Editing(old(self).selected_index),
            final(self).config == old(self).config,
            final(self).config_path == old(self).config_path,
            final(self).selected_index == old(self).selected_index,
            final(self).message == old(self).message,
            final(self).is_open == old(self).is_open,
    {
        let key = self.setting_key_at(self.selected_index);
        self.edit_buffer = self.value_text(key.as_str());
        self.mode = SettingsMode::Editing(self.selected_index);
    }

    /// Sets the setting in row `index` to the edit buffer (`edited`), leaves
    /// editing and says so; the event names the setting and the value.
    pub fn confirm_edit(&mut self, index: usize) -> (r: Vec<SettingsEvent>)
        requires
            counts_fit(old(self).config),
        ensures
            edited(old(self).config, key_at(old(self).config, index as int), old(self).edit_buffer@, final(self).config),
            final(self).mode == SettingsMode::Viewing,
            final(self).edit_buffer@.len() == 0,
            final(self).message matches Some(m) && m@ == "Setting updated"@,
            final(self).config_path == old(self).config_path,
            final(self).selected_index == old(self).selected_index,
            final(self).is_open == old(self).is_open,
            r@.len() == 1,
            r@[0] matches SettingsEvent::ConfigChanged(k, v) && k@ == key_at(final(self).config, index as int) && v@
                == old(self).edit_buffer@,
    {
        proof {
            lemma_fixed_keys_differ();
        }
        let key = self.setting_key_at(index);
        let value = copy_str(self.edit_buffer.as_str());
        if str_eq(key.as_str(), "theme") {
            self.config.theme = copy_str(value.as_str());
        } else if str_eq(key.as_str(), "default_timeout_secs") {
            match parse_count(value.as_str()) {
                Some(v) => self.config.default_timeout_secs = v,
                None => {},
            }
        } else if str_eq(key.as_str(), "follow_redirects") {
            match parse_bool_exec(value.as_str()) {
                Some(v) => self.config.follow_redirects = v,
                None => {},
            }
        } else if str_eq(key.as_str(), "verify_tls") {
            match parse_bool_exec(value.as_str()) {
                Some(v) => self.config.verify_tls = v,
                None => {},
            }
        } else if str_eq(key.as_str(), "max_history_entries") {
            match parse_count(value.as_str()) {
                Some(v) => self.config.max_history_entries = v,
                None => {},
            }
        } else {
            let ghost before = self.config.keybindings@;
            match find_binding(&self.config.keybindings, key.as_str()) {
                Some(i) => {
                    self.config.keybindings.set(i, (copy_str(key.as_str()), copy_str(value.as_str())));
                    proof {
                        assert(bindings_view(self.config.keybindings@) =~= set_binding(before, key@, value@));
                    }
                },
                None => {
                    self.config.keybindings.push((copy_str(key.as_str()), copy_str(value.as_str())));
                    proof {
                        assert(bindings_view(self.config.keybindings@) =~= set_binding(before, key@, value@));
                    }
                },
            }
        }
        self.mode = SettingsMode::Viewing;
        self.edit_buffer = String::new();
        self.message = Some(copy_str("Setting updated"));
        let mut events: Vec<SettingsEvent> = Vec::new();
        events.push(SettingsEvent::ConfigChanged(self.setting_key_at(index), value));
        events
    }

    /// `confirm_edit`, by another name.
    pub fn confirm_edit_and_get_events(&mut self, index: usize) -> (r: Vec<SettingsEvent>)
        requires
            counts_fit(old(self).config),
        ensures
            edited(old(self).config, key_at(old(self).config, index as int), old(self).edit_buffer@, final(self).config),
            final(self).mode == SettingsMode::Viewing,
            final(self).edit_buffer@.len() == 0,
            final(self).message matches Some(m) && m@ == "Setting updated"@,
            final(self).config_path == old(self).config_path,
            final(self).selected_index == old(self).selected_index,
            final(self).is_open == old(self).is_open,
            r@.len() == 1,
            r@[0] matches SettingsEvent::ConfigChanged(k, v) && k@ == key_at(final(self).config, index as int) && v@
                == old(self).edit_buffer@,
    {
        self.confirm_edit(index)
    }

    /// Flips the selected setting where it is `follow_redirects` or
    /// `verify_tls`, and says so either way.
    pub fn toggle_current_boolean(&mut self)
        ensures
            final(self).config.follow_redirects == (old(self).config.follow_redirects != (key_at(
                old(self).config,
                old(self).selected_index as int,
            ) == "follow_redirects"@)),
            final(self).config.verify_tls == (old(self).config.verify_tls != (key_at(
                old(self).config,
                old(self).selected_index as int,
            ) == "verify_tls"@)),
            final(self).config.theme == old(self).config.theme,
            final(self).config.default_timeout_secs == old(self).config.default_timeout_secs,
            final(self).config.max_history_entries == old(self).config.max_history_entries,
            final(self).config.keybindings == old(self).config.keybindings,
            final(self).message matches Some(m) && m@ == "Setting toggled"@,
            final(self).mode == old(self).mode,
            final(self).selected_index == old(self).selected_index,
            final(self).edit_buffer == old(self).edit_buffer,
            final(self).is_open == old(self).is_open,
            final(self).config_path == old(self).config_path,
    {
        proof {
            lemma_fixed_keys_differ();
        }
        let key = self.setting_key_at(self.selected_index);
        if str_eq(key.as_str(), "follow_redirects") {
            self.config.follow_redirects = !self.config.follow_redirects;
        } else if str_eq(key.as_str(), "verify_tls") {
            self.config.verify_tls = !self.config.verify_tls;
        }
        self.message = Some(copy_str("Setting toggled"));
    }

    /// One row up, held at the first.
    pub fn select_prev(&mut self)
        ensures
            *final(self) == (SettingsPane { selected_index: prev_by(old(self).selected_index as int, 1) as usize, ..*old(self) }),
    {
        if self.selected_index > 0 {
            self.selected_index = self.selected_index - 1;
        }
    }

    /// One row down, held at the last.
    pub fn select_next(&mut self)
        requires
            counts_fit(old(self).config),
        ensures
            *final(self) == (SettingsPane {
                selected_index: next_by(old(self).selected_index as int, 1, row_count(old(self).config) - 1) as usize,
                ..*old(self)
            }),
    {
        let max = self.setting_count() - 1;
        if self.selected_index < max {
            self.selected_index = self.selected_index + 1;
        }
    }

    /// The cursor moved by `lines`: one row up or down by its sign.
    pub fn cursor_moved(&mut self, lines: i32)
        requires
            counts_fit(old(self).config),
        ensures
            *final(self) == (SettingsPane {
                selected_index: (if lines < 0 {
                    prev_by(old(self).selected_index as int, 1)
                } else if lines > 0 {
                    next_by(old(self).selected_index as int, 1, row_count(old(self).config) - 1)
                } else {
                    old(self).selected_index as int
                }) as usize,
                ..*old(self)
            }),
    {
        if lines < 0 {
            self.select_prev();
        } else if lines > 0 {
            self.select_next();
        }
    }

    /// The view scrolled by `lines`: that many rows up or down, held at the
    /// ends.
    pub fn scrolled(&mut self, lines: i32)
        requires
            counts_fit(old(self).config),
            lines > i32::MIN,
        ensures
            *final(self) == (SettingsPane {
                selected_index: (if lines < 0 {
                    prev_by(old(self).selected_index as int, -lines)
                } else {
                    next_by(old(self).selected_index as int, lines as int, row_count(old(self).config) - 1)
                }) as usize,
                ..*old(self)
            }),
    {
        let max = self.setting_count() - 1;
        if lines < 0 {
            let k = (-lines) as usize;
            self.selected_index = if self.selected_index >= k { self.selected_index - k } else { 0 };
        } else {
            let k = lines as usize;
            if self.selected_index < max {
                self.selected_index = if k < max - self.selected_index { self.selected_index + k } else { max };
            }
        }
    }

    /// Where the settings are written: the file they came from, else
    /// `.yinxrc.yaml`.
    pub fn save_path(&self) -> (r: String)
        ensures
            r@ == match self.config_path {
                Some(p) => p@,
                None => ".yinxrc.yaml"@,
            },
    {
        match &self.config_path {
            Some(p) => copy_str(p.as_str()),
            None => copy_str(".yinxrc.yaml"),
        }
    }

    /// Takes the result of writing the settings to `path`: on success the
    /// pane remembers the path and says so; on failure it shows the error.
    pub fn save_finished(&mut self, path: String, result: Result<(), String>)
        ensures
            result is Ok ==> final(self).config_path == Some(path) && (final(self).message matches Some(m)
                && m@ == "Settings saved"@),
            result matches Err(e) ==> final(self).config_path == old(self).config_path && (final(self).message matches Some(
                m,
            ) && m@ == "Save failed: "@ + e@),
            final(self).config == old(self).config,
            final(self).mode == old(self).mode,
            final(self).selected_index == old(self).selected_index,
            final(self).edit_buffer == old(self).edit_buffer,
            final(self).is_open == old(self).is_open,
    {
        match result {
            Ok(()) => {
                self.config_path = Some(path);
                self.message = Some(copy_str("Settings saved"));
            },
            Err(e) => {
                let mut m = copy_str("Save failed: ");
                crate::text::push_str(&mut m, e.as_str());
                self.message = Some(m);
            },
        }
    }

    /// Handles a key by its name while the pane is open. Viewing: `e` edits
    /// the selected setting, `s` asks for a save, `q` and `Esc` close.
    /// Editing: `Enter` confirms the edit, `Esc` drops it, and a one-byte
    /// key name is typed into the edit buffer.
    pub fn handle_key(&mut self, key: &str) -> (r: Vec<SettingsEvent>)
        requires
            counts_fit(old(self).config),
        ensures
            !old(self).is_open ==> r@.len() == 0 && *final(self) == *old(self),
            old(self).is_open && old(self).mode == SettingsMode::Viewing ==> {
                if key@ == "e"@ {
                    &&& r@.len() == 0
                    &&& final(self).edit_buffer@ == value_of(
                        old(self).config,
                        key_at(old(self).config, old(self).selected_index as int),
                    )
                    &&& final(self).mode == SettingsMode::Editing(old(self).selected_index)
                    &&& final(self).config == old(self).config
                    &&& final(self).is_open
                    &&& final(self).selected_index == old(self).selected_index
                } else if key@ == "s"@ {
                    r@ == seq![SettingsEvent::Saved] && *final(self) == *old(self)
                } else if key@ == "q"@ || key@ == "Esc"@ {
                    r@ == seq![SettingsEvent::Closed] && *final(self) == (SettingsPane {
                        is_open: false,
                        message: None,
                        ..*old(self)
                    })
                } else {
                    r@.len() == 0 && *final(self) == *old(self)
                }
            },
            old(self).is_open && old(self).mode is Editing ==> {
                let idx = old(self).mode->0;
                if key@ == "Enter"@ {
                    &&& edited(old(self).config, key_at(old(self).config, idx as int), old(self).edit_buffer@, final(self).config)
                    &&& final(self).mode == SettingsMode::Viewing
                    &&& final(self).edit_buffer@.len() == 0
                    &&& final(self).is_open
                    &&& final(self).selected_index == old(self).selected_index
                    &&& r@.len() == 1
                    &&& (r@[0] matches SettingsEvent::Changed(k, v) && k@ == key_at(final(self).config, idx as int)
                        && v@.len() == 0)
                } else if key@ == "Esc"@ {
                    r@.len() == 0 && *final(self) == (SettingsPane {
                        mode: SettingsMode::Viewing,
                        edit_buffer: final(self).edit_buffer,
                        ..*old(self)
                    }) && final(self).edit_buffer@.len() == 0
                } else if single_ascii(key@) {
                    r@.len() == 0 && *final(self) == (SettingsPane {
                        edit_buffer: final(self).edit_buffer,
                        ..*old(self)
                    }) && final(self).edit_buffer@ == old(self).edit_buffer@.push(key@[0])
                } else {
                    r@.len() == 0 && *final(self) == *old(self)
                }
            },
    {
        let mut events: Vec<SettingsEvent> = Vec::new();
        if !self.is_open {
            return events;
        }
        match self.mode {
            SettingsMode::Viewing => {
                if str_eq(key, "e") {
                    self.start_editing();
                } else if str_eq(key, "s") {
                    events.push(SettingsEvent::Saved);
                } else if str_eq(key, "q") || str_eq(key, "Esc") {
                    self.close();
                    events.push(SettingsEvent::Closed);
                }
            },
            SettingsMode::Editing(idx) => {
                if str_eq(key, "Enter") {
                    let _ = self.confirm_edit(idx);
                    let k = self.setting_key_at(idx);
                    let v = copy_str(self.edit_buffer.as_str());
                    events.push(SettingsEvent::Changed(k, v));
                } else if str_eq(key, "Esc") {
                    self.mode = SettingsMode::Viewing;
                    self.edit_buffer = String::new();
                } else {
                    let cs = chars_of(key);
                    if cs.len() == 1 && (cs[0] as u32) < 128 {
                        push_char(&mut self.edit_buffer, cs[0]);
                    }
                }
            },
        }
        events
    }

    /// The names of the built-in themes, offered when editing the theme.
    pub fn get_theme_list(&self) -> (r: Vec<String>)
        ensures
            names_view(r@) == builtin_names(),
    {
        Theme::builtin_theme_names()
    }
}

} // verus!

verus! {

/// `binding_index` finds the first binding with the name, or none.
proof fn lemma_binding_index_first(b: Seq<(String, String)>, name: Seq<char>)
    ensures
        binding_index(b, name) matches Some(i) ==> 0 <= i < b.len() && b[i].0@ == name && forall|j: int|
            0 <= j < i ==> b[j].0@ != name,
        binding_index(b, name) is None ==> forall|j: int| 0 <= j < b.len() ==> b[j].0@ != name,
    decreases b.len(),
{
    if b.len() > 0 {
        let p = b.drop_last();
        lemma_binding_index_first(p, name);
        assert forall|j: int| 0 <= j < p.len() implies #[trigger] b[j] == p[j] by {}
        if binding_index(p, name) is None {
            assert forall|j: int| 0 <= j < b.len() - 1 implies #[trigger] b[j].0@ != name by {
                assert(b[j] == p[j]);
            }
        }
    }
}

/// What an edit of a setting sets is what editing it again starts from:
/// the theme as typed, and a key binding's key as typed.
pub proof fn law_edit_then_read(c: Settings, key: Seq<char>, value: Seq<char>, d: Settings)
    requires
        edited(c, key, value, d),
        key == "theme"@ || !fixed_key(key),
    ensures
        value_of(d, key) == value,
{
    lemma_fixed_keys_differ();
    if key != "theme"@ {
        let v = bindings_view(c.keybindings@);
        let w = bindings_view(d.keybindings@);
        lemma_binding_index_first(c.keybindings@, key);
        lemma_binding_index_first(d.keybindings@, key);
        assert(w.len() == d.keybindings@.len());
        assert forall|j: int| 0 <= j < w.len() implies #[trigger] d.keybindings@[j].0@ == w[j].0 && d.keybindings@[j].1@
            == w[j].1 by {}
        match binding_index(c.keybindings@, key) {
            Some(i) => {
                assert(w[i] == (key, value));
                assert(forall|j: int| 0 <= j < i ==> #[trigger] w[j] == v[j]);
                assert(binding_index(d.keybindings@, key) is Some) by {
                    if binding_index(d.keybindings@, key) is None {
                        assert(d.keybindings@[i].0@ == key);
                    }
                }
                let k = binding_index(d.keybindings@, key)->0;
                if k < i {
                    assert(c.keybindings@[k].0@ == v[k].0);
                }
                assert(k == i);
            },
            None => {
                let n = c.keybindings@.len() as int;
                assert(w[n] == (key, value));
                assert(binding_index(d.keybindings@, key) is Some) by {
                    if binding_index(d.keybindings@, key) is None {
                        assert(d.keybindings@[n].0@ == key);
                    }
                }
                let k = binding_index(d.keybindings@, key)->0;
                if k < n {
                    assert(c.keybindings@[k].0@ == v[k].0);
                }
                assert(k == n);
            },
        }
    }
}

} // verus!
