use vstd::prelude::*;

use crate::graph::names_view;
use crate::json::decimal;
use crate::request::{Method, Request};
use crate::text::{copy_str, push_char, push_str, str_eq};

verus! {

/// What a key can be bound to.
#[derive(Debug, Clone, Copy, PartialEq, Eq, Hash, Structural)]
pub enum KeyAction {
    Quit,
    SwitchPaneRequest,
    SwitchPaneResponse,
    SwitchPaneWorkflow,
    SwitchPaneLogs,
    ModeInsert,
    ModeNormal,
    ModeVisual,
    CursorUp,
    CursorDown,
    CursorLeft,
    CursorRight,
    CursorTop,
    CursorBottom,
    PageUp,
    PageDown,
    ScrollUp,
    ScrollDown,
    DeleteChar,
    DeleteWord,
    SendRequest,
    Save,
    Cancel,
    CycleTheme,
    Unknown,
}

impl KeyAction {
    /// The name of the action in snake case.
    pub open spec fn name(self) -> Seq<char> {
        match self {
            KeyAction::Quit => "quit"@,
            KeyAction::SwitchPaneRequest => "switch_pane_request"@,
            KeyAction::SwitchPaneResponse => "switch_pane_response"@,
            KeyAction::SwitchPaneWorkflow => "switch_pane_workflow"@,
            KeyAction::SwitchPaneLogs => "switch_pane_logs"@,
            KeyAction::ModeInsert => "mode_insert"@,
            KeyAction::ModeNormal => "mode_normal"@,
            KeyAction::ModeVisual => "mode_visual"@,
            KeyAction::CursorUp => "cursor_up"@,
            KeyAction::CursorDown => "cursor_down"@,
            KeyAction::CursorLeft => "cursor_left"@,
            KeyAction::CursorRight => "cursor_right"@,
            KeyAction::CursorTop => "cursor_top"@,
            KeyAction::CursorBottom => "cursor_bottom"@,
            KeyAction::PageUp => "page_up"@,
            KeyAction::PageDown => "page_down"@,
            KeyAction::ScrollUp => "scroll_up"@,
            KeyAction::ScrollDown => "scroll_down"@,
            KeyAction::DeleteChar => "delete_char"@,
            KeyAction::DeleteWord => "delete_word"@,
            KeyAction::SendRequest => "send_request"@,
            KeyAction::Save => "save"@,
            KeyAction::Cancel => "cancel"@,
            KeyAction::CycleTheme => "cycle_theme"@,
            KeyAction::Unknown => "unknown"@,
        }
    }

    /// The name of the action in snake case.
    pub fn to_string(&self) -> (r: String)
        ensures
            r@ == self.name(),
    {
        let s = match self {
            KeyAction::Quit => "quit",
            KeyAction::SwitchPaneRequest => "switch_pane_request",
            KeyAction::SwitchPaneResponse => "switch_pane_response",
            KeyAction::SwitchPaneWorkflow => "switch_pane_workflow",
            KeyAction::SwitchPaneLogs => "switch_pane_logs",
            KeyAction::ModeInsert => "mode_insert",
            KeyAction::ModeNormal => "mode_normal",
            KeyAction::ModeVisual => "mode_visual",
            KeyAction::CursorUp => "cursor_up",
            KeyAction::CursorDown => "cursor_down",
            KeyAction::CursorLeft => "cursor_left",
            KeyAction::CursorRight => "cursor_right",
            KeyAction::CursorTop => "cursor_top",
            KeyAction::CursorBottom => "cursor_bottom",
            KeyAction::PageUp => "page_up",
            KeyAction::PageDown => "page_down",
            KeyAction::ScrollUp => "scroll_up",
            KeyAction::ScrollDown => "scroll_down",
            KeyAction::DeleteChar => "delete_char",
            KeyAction::DeleteWord => "delete_word",
            KeyAction::SendRequest => "send_request",
            KeyAction::Save => "save",
            KeyAction::Cancel => "cancel",
            KeyAction::CycleTheme => "cycle_theme",
            KeyAction::Unknown => "unknown",
        };
        copy_str(s)
    }
}

/// A key with the modifiers held down with it, such as `s` with `Ctrl`.
#[derive(Debug, Clone, PartialEq, Eq, Hash)]
pub struct KeyBinding {
    pub key: String,
    pub modifiers: Vec<String>,
}

impl View for KeyBinding {
    type V = (Seq<char>, Seq<Seq<char>>);

    open spec fn view(&self) -> (Seq<char>, Seq<Seq<char>>) {
        (self.key@, names_view(self.modifiers@))
    }
}

/// The texts of a list of string slices.
pub open spec fn strs_view(s: Seq<&str>) -> Seq<Seq<char>> {
    s.map_values(|t: &str| t@)
}

/// Texts joined with `+` between them.
pub open spec fn plus_joined(parts: Seq<Seq<char>>) -> Seq<char>
    decreases parts.len(),
{
    if parts.len() == 0 {
        Seq::empty()
    } else if parts.len() == 1 {
        parts[0]
    } else {
        plus_joined(parts.drop_last()) + "+"@ + parts.last()
    }
}

/// How a binding is written: the modifiers and the key joined with `+`.
pub open spec fn binding_text(b: (Seq<char>, Seq<Seq<char>>)) -> Seq<char> {
    if b.1.len() == 0 {
        b.0
    } else {
        plus_joined(b.1) + "+"@ + b.0
    }
}

impl KeyBinding {
    pub fn new(key: &str, modifiers: &[&str]) -> (r: Self)
        ensures
            r@ == (key@, strs_view(modifiers@)),
    {
        let mut mods: Vec<String> = Vec::new();
        let mut i: usize = 0;
        while i < modifiers.len()
            invariant
                i <= modifiers@.len(),
                names_view(mods@) == strs_view(modifiers@).take(i as int),
            decreases modifiers@.len() - i,
        {
            let m = modifiers[i];
            proof { assert(m@ == strs_view(modifiers@)[i as int]); }
            let ghost before = mods@;
            mods.push(copy_str(m));
            proof {
                assert(names_view(mods@) =~= names_view(before).push(m@));
                assert(strs_view(modifiers@).take(i + 1) =~= strs_view(modifiers@).take(i as int).push(m@));
            }
            i += 1;
            proof { assert(names_view(mods@) =~= strs_view(modifiers@).take(i as int)); }
        }
        proof { assert(strs_view(modifiers@).take(modifiers@.len() as int) =~= strs_view(modifiers@)); }
        KeyBinding { key: copy_str(key), modifiers: mods }
    }

    /// How the binding is written, such as `Ctrl+s`.
    pub fn to_string(&self) -> (r: String)
        ensures
            r@ == binding_text(self@),
    {
        let mut out = String::new();
        let n = self.modifiers.len();
        if n == 0 {
            push_str(&mut out, self.key.as_str());
            return out;
        }
        let ghost mv = names_view(self.modifiers@);
        push_str(&mut out, self.modifiers[0].as_str());
        let mut i: usize = 1;
        proof { assert(mv.take(1).drop_last() =~= Seq::<Seq<char>>::empty()); }
        while i < n
            invariant
                1 <= i <= n,
                n == mv.len(),
                mv == names_view(self.modifiers@),
                out@ == plus_joined(mv.take(i as int)),
            decreases n - i,
        {
            proof { assert(mv.take(i + 1).drop_last() =~= mv.take(i as int)); }
            push_str(&mut out, "+");
            push_str(&mut out, self.modifiers[i].as_str());
            i += 1;
        }
        proof { assert(mv.take(n as int) =~= mv); }
        push_str(&mut out, "+");
        push_str(&mut out, self.key.as_str());
        out
    }

    /// Whether two bindings name the same key and modifiers.
    pub fn same_as(&self, other: &KeyBinding) -> (r: bool)
        ensures
            r == (self@ == other@),
    {
        if !str_eq(self.key.as_str(), other.key.as_str()) {
            return false;
        }
        if self.modifiers.len() != other.modifiers.len() {
            proof { assert(names_view(self.modifiers@).len() != names_view(other.modifiers@).len()); }
            return false;
        }
        let mut i: usize = 0;
        while i < self.modifiers.len()
            invariant
                i <= self.modifiers@.len(),
                self.modifiers@.len() == other.modifiers@.len(),
                self.key@ == other.key@,
                forall|j: int| 0 <= j < i ==> self.modifiers@[j]@ == other.modifiers@[j]@,
            decreases self.modifiers@.len() - i,
        {
            if !str_eq(self.modifiers[i].as_str(), other.modifiers[i].as_str()) {
                proof { assert(names_view(self.modifiers@)[i as int] != names_view(other.modifiers@)[i as int]); }
                return false;
            }
            i += 1;
        }
        proof { assert(names_view(self.modifiers@) =~= names_view(other.modifiers@)); }
        true
    }
}

/// A key of the keyboard.
#[derive(Debug, Clone, PartialEq, Eq)]
pub enum Key {
    Char(char),
    F(u8),
    Backspace,
    Enter,
    Left,
    Right,
    Up,
    Down,
    Home,
    End,
    PageUp,
    PageDown,
    Tab,
    Delete,
    Insert,
    Esc,
    /// Any other key, by the name the terminal library gives it.
    Other(String),
}

/// A key pressed with the modifiers held down at the time.
#[derive(Debug, Clone, PartialEq, Eq)]
pub struct KeyPress {
    pub code: Key,
    pub ctrl: bool,
    pub alt: bool,
    pub shift: bool,
}

/// The name of a key in a binding.
pub open spec fn key_name(k: Key) -> Seq<char> {
    match k {
        Key::Char(c) => seq![c],
        Key::F(n) => "F"@ + decimal(n as nat),
        Key::Backspace => "Backspace"@,
        Key::Enter => "Enter"@,
        Key::Left => "Left"@,
        Key::Right => "Right"@,
        Key::Up => "Up"@,
        Key::Down => "Down"@,
        Key::Home => "Home"@,
        Key::End => "End"@,
        Key::PageUp => "PageUp"@,
        Key::PageDown => "PageDown"@,
        Key::Tab => "Tab"@,
        Key::Delete => "Delete"@,
        Key::Insert => "Insert"@,
        Key::Esc => "Esc"@,
        Key::Other(t) => t@,
    }
}

/// The modifiers of a key press, in the order `Ctrl`, `Alt`, `Shift`.
pub open spec fn press_modifiers(e: KeyPress) -> Seq<Seq<char>> {
    (if e.ctrl { seq!["Ctrl"@] } else { Seq::empty() }) + (if e.alt { seq!["Alt"@] } else { Seq::empty() }) + (
    if e.shift { seq!["Shift"@] } else { Seq::empty() })
}

/// The binding that a key press stands for.
pub open spec fn press_binding(e: KeyPress) -> (Seq<char>, Seq<Seq<char>>) {
    (key_name(e.code), press_modifiers(e))
}

/// The name of a key in a binding.
fn key_text(k: &Key) -> (r: String)
    ensures
        r@ == key_name(*k),
{
    let mut out = String::new();
    match k {
        Key::Char(c) => push_char(&mut out, *c),
        Key::F(n) => {
            push_str(&mut out, "F");
            crate::json::push_decimal(&mut out, *n as u64);
        },
        Key::Backspace => push_str(&mut out, "Backspace"),
        Key::Enter => push_str(&mut out, "Enter"),
        Key::Left => push_str(&mut out, "Left"),
        Key::Right => push_str(&mut out, "Right"),
        Key::Up => push_str(&mut out, "Up"),
        Key::Down => push_str(&mut out, "Down"),
        Key::Home => push_str(&mut out, "Home"),
        Key::End => push_str(&mut out, "End"),
        Key::PageUp => push_str(&mut out, "PageUp"),
        Key::PageDown => push_str(&mut out, "PageDown"),
        Key::Tab => push_str(&mut out, "Tab"),
        Key::Delete => push_str(&mut out, "Delete"),
        Key::Insert => push_str(&mut out, "Insert"),
        Key::Esc => push_str(&mut out, "Esc"),
        Key::Other(t) => push_str(&mut out, t.as_str()),
    }
    proof {
        reveal_strlit("");
    }
    out
}

impl KeyBinding {
    /// The binding that a key press stands for.
    pub fn from_key_event(event: &KeyPress) -> (r: Self)
        ensures
            r@ == press_binding(*event),
    {
        let mut modifiers: Vec<String> = Vec::new();
        if event.ctrl {
            modifiers.push(copy_str("Ctrl"));
        }
        if event.alt {
            modifiers.push(copy_str("Alt"));
        }
        if event.shift {
            modifiers.push(copy_str("Shift"));
        }
        proof { assert(names_view(modifiers@) =~= press_modifiers(*event)); }
        KeyBinding { key: key_text(&event.code), modifiers }
    }

    /// Whether the key press is this binding.
    pub fn matches(&self, event: &KeyPress) -> (r: bool)
        ensures
            r == (self@ == press_binding(*event)),
    {
        let b = Self::from_key_event(event);
        self.same_as(&b)
    }
}

/// The view of a binding: key and modifiers.
pub type BindingView = (Seq<char>, Seq<Seq<char>>);

/// A binding with a key and at most the `Ctrl` modifier.
pub open spec fn plain(key: Seq<char>) -> BindingView {
    (key, Seq::empty())
}

/// A binding of a key with `Ctrl`.
pub open spec fn ctrl(key: Seq<char>) -> BindingView {
    (key, seq!["Ctrl"@])
}

/// The bindings of a fresh configuration.
pub open spec fn default_binding_map() -> Map<BindingView, KeyAction> {
    Map::<BindingView, KeyAction>::empty()
        .insert(ctrl("c"@), KeyAction::Quit)
        .insert(plain("q"@), KeyAction::Quit)
        .insert(plain("1"@), KeyAction::SwitchPaneRequest)
        .insert(plain("2"@), KeyAction::SwitchPaneResponse)
        .insert(plain("3"@), KeyAction::SwitchPaneWorkflow)
        .insert(plain("4"@), KeyAction::SwitchPaneLogs)
        .insert(plain("i"@), KeyAction::ModeInsert)
        .insert(plain("v"@), KeyAction::ModeVisual)
        .insert(plain("Esc"@), KeyAction::ModeNormal)
        .insert(plain("h"@), KeyAction::CursorLeft)
        .insert(plain("j"@), KeyAction::CursorDown)
        .insert(plain("k"@), KeyAction::CursorUp)
        .insert(plain("l"@), KeyAction::CursorRight)
        .insert(plain("G"@), KeyAction::CursorBottom)
        .insert(ctrl("d"@), KeyAction::PageDown)
        .insert(ctrl("u"@), KeyAction::PageUp)
        .insert(plain("Up"@), KeyAction::ScrollUp)
        .insert(plain("Down"@), KeyAction::ScrollDown)
        .insert(plain("PageUp"@), KeyAction::PageUp)
        .insert(plain("PageDown"@), KeyAction::PageDown)
        .insert(plain("Backspace"@), KeyAction::DeleteChar)
        .insert(ctrl("w"@), KeyAction::DeleteWord)
        .insert(ctrl("s"@), KeyAction::Save)
        .insert(plain("Enter"@), KeyAction::SendRequest)
        .insert(plain("T"@), KeyAction::CycleTheme)
        .insert(ctrl("c"@), KeyAction::Quit)
}

/// The action that a map binds to `b`, `Unknown` when none.
pub open spec fn action_of(m: Map<BindingView, KeyAction>, b: BindingView) -> KeyAction {
    if m.contains_key(b) {
        m[b]
    } else {
        KeyAction::Unknown
    }
}

/// Which key does what; each binding at most once.
#[derive(Debug)]
pub struct KeyBindingConfig {
    bindings: Vec<(KeyBinding, KeyAction)>,
}

impl KeyBindingConfig {
    /// The bindings with their actions.
    pub closed spec fn entries(&self) -> Seq<(BindingView, KeyAction)> {
        self.bindings@.map_values(|e: (KeyBinding, KeyAction)| (e.0@, e.1))
    }

    #[verifier::type_invariant]
    spec fn bindings_unique(&self) -> bool {
        crate::strmap::unique_keys(self.entries())
    }

    /// A configuration with no bindings.
    pub fn new() -> (r: Self)
        ensures
            r@ == Map::<BindingView, KeyAction>::empty(),
    {
        let r = KeyBindingConfig { bindings: Vec::new() };
        proof { assert(r.entries() =~= Seq::<(BindingView, KeyAction)>::empty()); }
        r
    }

    /// The binding at position `i` of the order they were made in, with its
    /// action; every binding is one of these for an `i` below `len`.
    pub fn binding_at(&self, i: usize) -> (r: (&KeyBinding, KeyAction))
        requires
            i < self@.dom().len(),
        ensures
            self@.contains_key(r.0@),
            self@[r.0@] == r.1,
    {
        proof {
            use_type_invariant(self);
            crate::strmap::lemma_assoc_len(self.entries());
            crate::strmap::lemma_assoc_lookup(self.entries(), i as int);
        }
        (&self.bindings[i].0, self.bindings[i].1)
    }

    /// How many bindings there are.
    pub fn len(&self) -> (r: usize)
        ensures
            r == self@.dom().len(),
    {
        proof {
            use_type_invariant(self);
            crate::strmap::lemma_assoc_len(self.entries());
        }
        self.bindings.len()
    }

    /// Whether there is no binding.
    pub fn is_empty(&self) -> (r: bool)
        ensures
            r == (self@.dom().len() == 0),
    {
        proof {
            use_type_invariant(self);
            crate::strmap::lemma_assoc_len(self.entries());
        }
        self.bindings.len() == 0
    }

    fn find(&self, b: &KeyBinding) -> (r: Option<usize>)
        ensures
            match r {
                Some(i) => i < self.entries().len() && self.entries()[i as int].0 == b@,
                None => forall|i: int| 0 <= i < self.entries().len() ==> self.entries()[i].0 != b@,
            },
    {
        let mut i: usize = 0;
        while i < self.bindings.len()
            invariant
                i <= self.bindings@.len(),
                forall|j: int| 0 <= j < i ==> self.entries()[j].0 != b@,
            decreases self.bindings@.len() - i,
        {
            if self.bindings[i].0.same_as(b) {
                return Some(i);
            }
            i += 1;
        }
        None
    }

    /// The action bound to `b`, `Unknown` when none.
    pub fn action_for(&self, b: &KeyBinding) -> (r: KeyAction)
        ensures
            r == action_of(self@, b@),
    {
        proof {
            use_type_invariant(self);
            crate::strmap::lemma_assoc_dom(self.entries(), b@);
        }
        match self.find(b) {
            Some(i) => {
                proof { crate::strmap::lemma_assoc_lookup(self.entries(), i as int); }
                self.bindings[i].1
            },
            None => KeyAction::Unknown,
        }
    }

    /// The action bound to a key press, `Unknown` when none.
    pub fn get_action(&self, event: &KeyPress) -> (r: KeyAction)
        ensures
            r == action_of(self@, press_binding(*event)),
    {
        let b = KeyBinding::from_key_event(event);
        self.action_for(&b)
    }

    /// Binds `b` to `action`, replacing what it was bound to.
    pub fn bind(&mut self, b: KeyBinding, action: KeyAction)
        ensures
            final(self)@ == old(self)@.insert(b@, action),
    {
        proof {
            use_type_invariant(&*self);
            crate::strmap::lemma_assoc_dom(self.entries(), b@);
        }
        let ghost s = self.entries();
        match self.find(&b) {
            Some(i) => {
                proof {
                    crate::strmap::lemma_assoc_update(s, i as int, action);
                }
                let mut bindings: Vec<(KeyBinding, KeyAction)> = Vec::new();
                std::mem::swap(&mut bindings, &mut self.bindings);
                bindings.set(i, (b, action));
                proof {
                    let t = bindings@.map_values(|e: (KeyBinding, KeyAction)| (e.0@, e.1));
                    assert(t =~= s.update(i as int, (s[i as int].0, action)));
                }
                self.bindings = bindings;
            },
            None => {
                proof { crate::strmap::lemma_assoc_push(s, b@, action); }
                let mut bindings: Vec<(KeyBinding, KeyAction)> = Vec::new();
                std::mem::swap(&mut bindings, &mut self.bindings);
                let ghost bv = b@;
                bindings.push((b, action));
                proof {
                    let t = bindings@.map_values(|e: (KeyBinding, KeyAction)| (e.0@, e.1));
                    assert(t =~= s.push((bv, action)));
                }
                self.bindings = bindings;
            },
        }
    }

    /// Binds `key` with `modifiers` to `action`.
    pub fn set_binding(&mut self, key: &str, modifiers: &[&str], action: KeyAction)
        ensures
            final(self)@ == old(self)@.insert((key@, strs_view(modifiers@)), action),
    {
        self.bind(KeyBinding::new(key, modifiers), action);
    }

    /// Removes the binding of `key` with `modifiers`.
    pub fn remove_binding(&mut self, key: &str, modifiers: &[&str])
        ensures
            final(self)@ == old(self)@.remove((key@, strs_view(modifiers@))),
    {
        let b = KeyBinding::new(key, modifiers);
        proof {
            use_type_invariant(&*self);
            crate::strmap::lemma_assoc_dom(self.entries(), b@);
        }
        let ghost s = self.entries();
        match self.find(&b) {
            Some(i) => {
                proof { crate::strmap::lemma_assoc_remove(s, i as int); }
                let mut bindings: Vec<(KeyBinding, KeyAction)> = Vec::new();
                std::mem::swap(&mut bindings, &mut self.bindings);
                let _ = bindings.remove(i);
                proof {
                    let t = bindings@.map_values(|e: (KeyBinding, KeyAction)| (e.0@, e.1));
                    assert(t =~= s.remove(i as int));
                }
                self.bindings = bindings;
            },
            None => {
                proof { assert(old(self)@.remove(b@) =~= old(self)@); }
            },
        }
    }

    fn bind_key(&mut self, key: &str, with_ctrl: bool, action: KeyAction)
        ensures
            final(self)@ == old(self)@.insert(if with_ctrl { ctrl(key@) } else { plain(key@) }, action),
    {
        let mut modifiers: Vec<String> = Vec::new();
        if with_ctrl {
            modifiers.push(copy_str("Ctrl"));
        }
        proof {
            if with_ctrl {
                assert(names_view(modifiers@) =~= seq!["Ctrl"@]);
            } else {
                assert(names_view(modifiers@) =~= Seq::<Seq<char>>::empty());
            }
        }
        self.bind(KeyBinding { key: copy_str(key), modifiers }, action);
    }

    /// The bindings of a fresh configuration: vim-style movement, pane
    /// switching by number, and the usual editing keys.
    pub fn default_bindings() -> (r: Self)
        ensures
            r@ == default_binding_map(),
    {
        let mut c = Self::new();
        c.bind_key("c", true, KeyAction::Quit);
        c.bind_key("q", false, KeyAction::Quit);
        c.bind_key("1", false, KeyAction::SwitchPaneRequest);
        c.bind_key("2", false, KeyAction::SwitchPaneResponse);
        c.bind_key("3", false, KeyAction::SwitchPaneWorkflow);
        c.bind_key("4", false, KeyAction::SwitchPaneLogs);
        c.bind_key("i", false, KeyAction::ModeInsert);
        c.bind_key("v", false, KeyAction::ModeVisual);
        c.bind_key("Esc", false, KeyAction::ModeNormal);
        c.bind_key("h", false, KeyAction::CursorLeft);
        c.bind_key("j", false, KeyAction::CursorDown);
        c.bind_key("k", false, KeyAction::CursorUp);
        c.bind_key("l", false, KeyAction::CursorRight);
        c.bind_key("G", false, KeyAction::CursorBottom);
        c.bind_key("d", true, KeyAction::PageDown);
        c.bind_key("u", true, KeyAction::PageUp);
        c.bind_key("Up", false, KeyAction::ScrollUp);
        c.bind_key("Down", false, KeyAction::ScrollDown);
        c.bind_key("PageUp", false, KeyAction::PageUp);
        c.bind_key("PageDown", false, KeyAction::PageDown);
        c.bind_key("Backspace", false, KeyAction::DeleteChar);
        c.bind_key("w", true, KeyAction::DeleteWord);
        c.bind_key("s", true, KeyAction::Save);
        c.bind_key("Enter", false, KeyAction::SendRequest);
        c.bind_key("T", false, KeyAction::CycleTheme);
        c.bind_key("c", true, KeyAction::Quit);
        c
    }
}

impl View for KeyBindingConfig {
    type V = Map<BindingView, KeyAction>;

    closed spec fn view(&self) -> Map<BindingView, KeyAction> {
        crate::strmap::assoc_map(self.entries())
    }
}

/// A configuration binds finitely many keys.
pub proof fn law_bindings_finite(c: &KeyBindingConfig)
    ensures
        c@.dom().finite(),
{
    crate::strmap::lemma_assoc_finite(c.entries());
}

impl Default for KeyBindingConfig {
    fn default() -> (r: Self)
        ensures
            r@ == Map::<BindingView, KeyAction>::empty(),
    {
        Self::new()
    }
}

/// How keys are read: as commands, as text, or as selection moves.
#[derive(Debug, Clone, Copy, PartialEq, Eq, Structural)]
pub enum InputMode {
    Normal,
    Insert,
    Visual,
    /// Typing a command in the command palette.
    Command,
}

/// The panes that keys can switch to.
#[derive(Debug, Clone, Copy, PartialEq, Eq, Structural)]
pub enum ActivePane {
    Sidebar,
    Request,
    Response,
    Workflow,
    Logs,
}

/// What a key asks the application to do.
#[derive(Debug)]
pub enum AppEvent {
    Quit,
    ModeChanged(InputMode),
    CursorMoved { lines: i64, cols: i64 },
    Scrolled(i64),
    PaneChanged(ActivePane),
    SendRequest(Request),
    SaveState,
    KeyPressed(String),
    ThemeChanged(String),
    EnvironmentEditOpened { id: String },
    EnvironmentUpdated { id: String },
}

/// The content of an application event; a request to send by its method
/// and URL.
pub enum Signal {
    Quit,
    ModeChanged(InputMode),
    CursorMoved(int, int),
    Scrolled(int),
    PaneChanged(ActivePane),
    SendRequest(Method, Seq<char>, Seq<(Seq<char>, Seq<char>)>, Option<Seq<char>>),
    SaveState,
    KeyPressed(Seq<char>),
    ThemeChanged(Seq<char>),
    EnvironmentEditOpened(Seq<char>),
    EnvironmentUpdated(Seq<char>),
}

impl View for AppEvent {
    type V = Signal;

    open spec fn view(&self) -> Signal {
        match self {
            AppEvent::Quit => Signal::Quit,
            AppEvent::ModeChanged(m) => Signal::ModeChanged(*m),
            AppEvent::CursorMoved { lines, cols } => Signal::CursorMoved(*lines as int, *cols as int),
            AppEvent::Scrolled(n) => Signal::Scrolled(*n as int),
            AppEvent::PaneChanged(p) => Signal::PaneChanged(*p),
            AppEvent::SendRequest(r) => Signal::SendRequest(
                r.method,
                r.url@,
                crate::request_edit::pairs_view(r.headers@),
                crate::matching::opt_view(r.body),
            ),
            AppEvent::SaveState => Signal::SaveState,
            AppEvent::KeyPressed(t) => Signal::KeyPressed(t@),
            AppEvent::ThemeChanged(t) => Signal::ThemeChanged(t@),
            AppEvent::EnvironmentEditOpened { id } => Signal::EnvironmentEditOpened(id@),
            AppEvent::EnvironmentUpdated { id } => Signal::EnvironmentUpdated(id@),
        }
    }
}

/// The contents of a list of events.
pub open spec fn signals(events: Seq<AppEvent>) -> Seq<Signal> {
    events.map_values(|e: AppEvent| e@)
}

/// What a key bound to `action` does in normal mode, `pending` being the
/// `g` of a `gg` typed so far.
pub open spec fn normal_signals(action: KeyAction, code: Key, pending: Option<char>) -> Seq<Signal> {
    match action {
        KeyAction::Quit => seq![Signal::Quit],
        KeyAction::ModeInsert => seq![Signal::ModeChanged(InputMode::Insert)],
        KeyAction::ModeVisual => seq![Signal::ModeChanged(InputMode::Visual)],
        KeyAction::CursorUp => seq![Signal::CursorMoved(-1, 0)],
        KeyAction::CursorDown => seq![Signal::CursorMoved(1, 0)],
        KeyAction::CursorLeft => seq![Signal::CursorMoved(0, -1)],
        KeyAction::CursorRight => seq![Signal::CursorMoved(0, 1)],
        KeyAction::CursorTop => seq![Signal::CursorMoved(i64::MIN as int, 0)],
        KeyAction::CursorBottom => seq![Signal::CursorMoved(i64::MAX as int, 0)],
        KeyAction::PageUp => seq![Signal::Scrolled(-20)],
        KeyAction::PageDown => seq![Signal::Scrolled(20)],
        KeyAction::ScrollUp => seq![Signal::Scrolled(-1)],
        KeyAction::ScrollDown => seq![Signal::Scrolled(1)],
        KeyAction::SwitchPaneRequest => seq![Signal::PaneChanged(ActivePane::Request)],
        KeyAction::SwitchPaneResponse => seq![Signal::PaneChanged(ActivePane::Response)],
        KeyAction::SwitchPaneWorkflow => seq![Signal::PaneChanged(ActivePane::Workflow)],
        KeyAction::SwitchPaneLogs => seq![Signal::PaneChanged(ActivePane::Logs)],
        KeyAction::SendRequest => seq![
            Signal::SendRequest(Method::Get, "https://example.com"@, Seq::empty(), None),
        ],
        KeyAction::CycleTheme => seq![Signal::ThemeChanged("next"@)],
        KeyAction::Save => seq![Signal::SaveState],
        _ => if code == Key::Char('g') && pending == Some('g') {
            seq![Signal::CursorMoved(i64::MIN as int, 0)]
        } else {
            Seq::empty()
        },
    }
}

/// The mode after a key bound to `action` in normal mode.
pub open spec fn normal_mode_after(action: KeyAction) -> InputMode {
    match action {
        KeyAction::ModeInsert => InputMode::Insert,
        KeyAction::ModeVisual => InputMode::Visual,
        _ => InputMode::Normal,
    }
}

/// Whether `action` is one that normal mode acts on.
pub open spec fn handled_in_normal(action: KeyAction) -> bool {
    match action {
        KeyAction::ModeNormal | KeyAction::DeleteChar | KeyAction::DeleteWord | KeyAction::Cancel
        | KeyAction::Unknown => false,
        _ => true,
    }
}

/// The pending key after a key bound to `action` in normal mode: a first
/// `g` waits for a second, which clears it.
pub open spec fn normal_pending_after(action: KeyAction, code: Key, pending: Option<char>) -> Option<char> {
    if !handled_in_normal(action) && code == Key::Char('g') {
        if pending == Some('g') {
            None
        } else {
            Some('g')
        }
    } else {
        pending
    }
}

/// What a key does in insert mode.
pub open spec fn insert_signals(code: Key) -> Seq<Signal> {
    match code {
        Key::Esc => seq![Signal::ModeChanged(InputMode::Normal)],
        Key::Backspace => seq![Signal::KeyPressed("Backspace"@)],
        Key::Enter => seq![Signal::KeyPressed("Enter"@)],
        Key::Char(c) => seq![Signal::KeyPressed(seq![c])],
        _ => Seq::empty(),
    }
}

/// What a key does in visual mode.
pub open spec fn visual_signals(code: Key) -> Seq<Signal> {
    match code {
        Key::Esc => seq![Signal::ModeChanged(InputMode::Normal)],
        Key::Char('h') => seq![Signal::CursorMoved(0, -1)],
        Key::Char('j') => seq![Signal::CursorMoved(1, 0)],
        Key::Char('k') => seq![Signal::CursorMoved(-1, 0)],
        Key::Char('l') => seq![Signal::CursorMoved(0, 1)],
        _ => Seq::empty(),
    }
}

/// What a key does in command mode: `Esc` goes back to normal mode; the
/// command palette takes the other keys.
pub open spec fn command_signals(code: Key) -> Seq<Signal> {
    match code {
        Key::Esc => seq![Signal::ModeChanged(InputMode::Normal)],
        _ => Seq::empty(),
    }
}

/// The events of a key press in `mode`.
pub open spec fn key_signals(
    bindings: Map<BindingView, KeyAction>,
    mode: InputMode,
    pending: Option<char>,
    event: KeyPress,
) -> Seq<Signal> {
    match mode {
        InputMode::Normal => normal_signals(action_of(bindings, press_binding(event)), event.code, pending),
        InputMode::Insert => insert_signals(event.code),
        InputMode::Visual => visual_signals(event.code),
        InputMode::Command => command_signals(event.code),
    }
}

/// The mode after a key press in `mode`.
pub open spec fn key_mode_after(bindings: Map<BindingView, KeyAction>, mode: InputMode, event: KeyPress) -> InputMode {
    match mode {
        InputMode::Normal => normal_mode_after(action_of(bindings, press_binding(event))),
        _ => if event.code == Key::Esc {
            InputMode::Normal
        } else {
            mode
        },
    }
}

/// The pending `g` after a key press in `mode`.
pub open spec fn key_pending_after(
    bindings: Map<BindingView, KeyAction>,
    mode: InputMode,
    pending: Option<char>,
    event: KeyPress,
) -> Option<char> {
    match mode {
        InputMode::Normal => normal_pending_after(action_of(bindings, press_binding(event)), event.code, pending),
        _ => pending,
    }
}

/// Turns key presses into application events according to the mode and
/// the bindings.
pub struct InputHandler {
    pub config: KeyBindingConfig,
    pub mode: InputMode,
    pub pending_key: Option<char>,
}

impl InputHandler {
    /// A handler in normal mode with the default bindings.
    pub fn new() -> (r: Self)
        ensures
            r.config@ == default_binding_map(),
            r.mode == InputMode::Normal,
            r.pending_key is None,
    {
        InputHandler { config: KeyBindingConfig::default_bindings(), mode: InputMode::Normal, pending_key: None }
    }

    /// A handler in normal mode with the given bindings.
    pub fn with_config(config: KeyBindingConfig) -> (r: Self)
        ensures
            r.config == config,
            r.mode == InputMode::Normal,
            r.pending_key is None,
    {
        InputHandler { config, mode: InputMode::Normal, pending_key: None }
    }

    fn handle_normal_mode(&mut self, event: &KeyPress) -> (r: Vec<AppEvent>)
        requires
            old(self).mode == InputMode::Normal,
        ensures
            final(self).config == old(self).config,
            signals(r@) == normal_signals(action_of(old(self).config@, press_binding(*event)), event.code, old(
                self).pending_key),
            final(self).mode == normal_mode_after(action_of(old(self).config@, press_binding(*event))),
            final(self).pending_key == normal_pending_after(
                action_of(old(self).config@, press_binding(*event)),
                event.code,
                old(self).pending_key,
            ),
    {
        let mut events: Vec<AppEvent> = Vec::new();
        let action = self.config.get_action(event);
        match action {
            KeyAction::Quit => events.push(AppEvent::Quit),
            KeyAction::ModeInsert => {
                self.mode = InputMode::Insert;
                events.push(AppEvent::ModeChanged(InputMode::Insert));
            },
            KeyAction::ModeVisual => {
                self.mode = InputMode::Visual;
                events.push(AppEvent::ModeChanged(InputMode::Visual));
            },
            KeyAction::CursorUp => events.push(AppEvent::CursorMoved { lines: -1, cols: 0 }),
            KeyAction::CursorDown => events.push(AppEvent::CursorMoved { lines: 1, cols: 0 }),
            KeyAction::CursorLeft => events.push(AppEvent::CursorMoved { lines: 0, cols: -1 }),
            KeyAction::CursorRight => events.push(AppEvent::CursorMoved { lines: 0, cols: 1 }),
            KeyAction::CursorTop => events.push(AppEvent::CursorMoved { lines: i64::MIN, cols: 0 }),
            KeyAction::CursorBottom => events.push(AppEvent::CursorMoved { lines: i64::MAX, cols: 0 }),
            KeyAction::PageUp => events.push(AppEvent::Scrolled(-20)),
            KeyAction::PageDown => events.push(AppEvent::Scrolled(20)),
            KeyAction::ScrollUp => events.push(AppEvent::Scrolled(-1)),
            KeyAction::ScrollDown => events.push(AppEvent::Scrolled(1)),
            KeyAction::SwitchPaneRequest => events.push(AppEvent::PaneChanged(ActivePane::Request)),
            KeyAction::SwitchPaneResponse => events.push(AppEvent::PaneChanged(ActivePane::Response)),
            KeyAction::SwitchPaneWorkflow => events.push(AppEvent::PaneChanged(ActivePane::Workflow)),
            KeyAction::SwitchPaneLogs => events.push(AppEvent::PaneChanged(ActivePane::Logs)),
            KeyAction::SendRequest => {
                let r = Request::new(Method::Get, "https://example.com");
                proof {
                    assert(crate::request_edit::pairs_view(r.headers@) =~= Seq::<(Seq<char>, Seq<char>)>::empty());
                }
                events.push(AppEvent::SendRequest(r));
            },
            KeyAction::Save => events.push(AppEvent::SaveState),
            KeyAction::CycleTheme => events.push(AppEvent::ThemeChanged(copy_str("next"))),
            _ => {
                let is_g = match event.code {
                    Key::Char(c) => c == 'g',
                    _ => false,
                };
                if is_g {
                    if self.pending_key == Some('g') {
                        events.push(AppEvent::CursorMoved { lines: i64::MIN, cols: 0 });
                        self.pending_key = None;
                    } else {
                        self.pending_key = Some('g');
                    }
                }
            },
        }
        proof { assert(signals(events@) =~= normal_signals(action, event.code, old(self).pending_key)); }
        events
    }

    fn handle_insert_mode(&mut self, event: &KeyPress) -> (r: Vec<AppEvent>)
        ensures
            final(self).config == old(self).config,
            final(self).pending_key == old(self).pending_key,
            signals(r@) == insert_signals(event.code),
            final(self).mode == (if event.code == Key::Esc { InputMode::Normal } else { old(self).mode }),
    {
        let mut events: Vec<AppEvent> = Vec::new();
        match &event.code {
            Key::Esc => {
                self.mode = InputMode::Normal;
                events.push(AppEvent::ModeChanged(InputMode::Normal));
            },
            Key::Backspace => events.push(AppEvent::KeyPressed(copy_str("Backspace"))),
            Key::Enter => events.push(AppEvent::KeyPressed(copy_str("Enter"))),
            Key::Char(c) => {
                let mut t = String::new();
                push_char(&mut t, *c);
                proof { reveal_strlit(""); }
                events.push(AppEvent::KeyPressed(t));
            },
            _ => {},
        }
        proof { assert(signals(events@) =~= insert_signals(event.code)); }
        events
    }

    fn handle_visual_mode(&mut self, event: &KeyPress) -> (r: Vec<AppEvent>)
        ensures
            final(self).config == old(self).config,
            final(self).pending_key == old(self).pending_key,
            signals(r@) == visual_signals(event.code),
            final(self).mode == (if event.code == Key::Esc { InputMode::Normal } else { old(self).mode }),
    {
        let mut events: Vec<AppEvent> = Vec::new();
        match &event.code {
            Key::Esc => {
                self.mode = InputMode::Normal;
                events.push(AppEvent::ModeChanged(InputMode::Normal));
            },
            Key::Char('h') => events.push(AppEvent::CursorMoved { lines: 0, cols: -1 }),
            Key::Char('j') => events.push(AppEvent::CursorMoved { lines: 1, cols: 0 }),
            Key::Char('k') => events.push(AppEvent::CursorMoved { lines: -1, cols: 0 }),
            Key::Char('l') => events.push(AppEvent::CursorMoved { lines: 0, cols: 1 }),
            _ => {},
        }
        proof { assert(signals(events@) =~= visual_signals(event.code)); }
        events
    }

    fn handle_command_mode(&mut self, event: &KeyPress) -> (r: Vec<AppEvent>)
        ensures
            final(self).config == old(self).config,
            final(self).pending_key == old(self).pending_key,
            signals(r@) == command_signals(event.code),
            final(self).mode == (if event.code == Key::Esc { InputMode::Normal } else { old(self).mode }),
    {
        let mut events: Vec<AppEvent> = Vec::new();
        match &event.code {
            Key::Esc => {
                self.mode = InputMode::Normal;
                events.push(AppEvent::ModeChanged(InputMode::Normal));
            },
            _ => {},
        }
        proof { assert(signals(events@) =~= command_signals(event.code)); }
        events
    }

    /// The events of a key press, which stays the caller's.
    pub fn handle_press(&mut self, event: &KeyPress) -> (r: Vec<AppEvent>)
        ensures
            final(self).config == old(self).config,
            signals(r@) == key_signals(old(self).config@, old(self).mode, old(self).pending_key, *event),
            final(self).mode == key_mode_after(old(self).config@, old(self).mode, *event),
            final(self).pending_key == key_pending_after(old(self).config@, old(self).mode, old(self).pending_key, *event),
    {
        match self.mode {
            InputMode::Normal => self.handle_normal_mode(event),
            InputMode::Insert => self.handle_insert_mode(event),
            InputMode::Visual => self.handle_visual_mode(event),
            InputMode::Command => self.handle_command_mode(event),
        }
    }

    /// The events a key press gives in the current mode; it may change the
    /// mode and the pending `g`.
    pub fn handle_key(&mut self, event: KeyPress) -> (r: Vec<AppEvent>)
        ensures
            final(self).config == old(self).config,
            old(self).mode == InputMode::Normal ==> {
                let a = action_of(old(self).config@, press_binding(event));
                &&& signals(r@) == normal_signals(a, event.code, old(self).pending_key)
                &&& final(self).mode == normal_mode_after(a)
                &&& final(self).pending_key == normal_pending_after(a, event.code, old(self).pending_key)
            },
            old(self).mode == InputMode::Insert ==> {
                &&& signals(r@) == insert_signals(event.code)
                &&& final(self).mode == (if event.code == Key::Esc { InputMode::Normal } else { InputMode::Insert })
                &&& final(self).pending_key == old(self).pending_key
            },
            old(self).mode == InputMode::Visual ==> {
                &&& signals(r@) == visual_signals(event.code)
                &&& final(self).mode == (if event.code == Key::Esc { InputMode::Normal } else { InputMode::Visual })
                &&& final(self).pending_key == old(self).pending_key
            },
            old(self).mode == InputMode::Command ==> {
                &&& signals(r@) == command_signals(event.code)
                &&& final(self).mode == (if event.code == Key::Esc { InputMode::Normal } else { InputMode::Command })
                &&& final(self).pending_key == old(self).pending_key
            },
    {
        self.handle_press(&event)
    }

    pub fn current_mode(&self) -> (r: InputMode)
        ensures
            r == self.mode,
    {
        self.mode
    }

    pub fn switch_mode(&mut self, mode: InputMode)
        ensures
            final(self).mode == mode,
            final(self).config == old(self).config,
            final(self).pending_key == old(self).pending_key,
    {
        self.mode = mode;
    }
}

/// The UTF-8 bytes of a text.
pub open spec fn utf8(s: Seq<char>) -> Seq<u8> {
    vstd::utf8::encode_utf8(s)
}

/// The length of a text in bytes, as `str::len` gives it.
pub open spec fn byte_len(s: Seq<char>) -> usize {
    utf8(s).len() as usize
}

/// Whether byte position `i` of the text starts a character or ends the
/// text.
pub open spec fn on_boundary(s: Seq<char>, i: int) -> bool {
    vstd::utf8::is_char_boundary(utf8(s), i)
}

/// `String::insert`: puts `c` at byte position `idx`, which must start a
/// character or end the text.
#[verifier::external_body]
fn string_insert(s: &mut String, idx: usize, c: char)
    requires
        on_boundary(old(s)@, idx as int),
    ensures
        utf8(final(s)@) == utf8(old(s)@).take(idx as int) + utf8(seq![c]) + utf8(old(s)@).skip(idx as int),
{
    s.insert(idx, c);
}

/// `String::insert_str`: puts `t` at byte position `idx`, which must start
/// a character or end the text.
#[verifier::external_body]
fn string_insert_str(s: &mut String, idx: usize, t: &str)
    requires
        on_boundary(old(s)@, idx as int),
    ensures
        utf8(final(s)@) == utf8(old(s)@).take(idx as int) + utf8(t@) + utf8(old(s)@).skip(idx as int),
{
    s.insert_str(idx, t);
}

/// `String::remove`: takes out the character that starts at byte position
/// `idx`, which must start a character before the end of the text.
#[verifier::external_body]
fn string_remove(s: &mut String, idx: usize) -> (r: char)
    requires
        on_boundary(old(s)@, idx as int),
        idx < utf8(old(s)@).len(),
    ensures
        idx + utf8(seq![r]).len() <= utf8(old(s)@).len(),
        utf8(old(s)@).subrange(idx as int, idx + utf8(seq![r]).len()) == utf8(seq![r]),
        utf8(final(s)@) == utf8(old(s)@).take(idx as int) + utf8(old(s)@).skip(idx + utf8(seq![r]).len()),
{
    s.remove(idx)
}

/// Where a word that ends at `k` starts: the position after the last white
/// space before `k`, or 0.
pub open spec fn word_start(s: Seq<char>, k: int) -> int
    decreases k,
{
    if k <= 0 || crate::text::is_space(s[k - 1]) {
        if k <= 0 { 0 } else { k }
    } else {
        word_start(s, k - 1)
    }
}

proof fn lemma_word_start(s: Seq<char>, k: int)
    requires
        0 <= k <= s.len(),
    ensures
        0 <= word_start(s, k) <= k,
        forall|i: int| word_start(s, k) <= i < k ==> !crate::text::is_space(#[trigger] s[i]),
        word_start(s, k) > 0 ==> crate::text::is_space(s[word_start(s, k) - 1]),
    decreases k,
{
    if k > 0 && !crate::text::is_space(s[k - 1]) {
        lemma_word_start(s, k - 1);
    }
}

/// A line of text being edited, with a cursor counted in bytes.
#[derive(Debug, Clone, Default)]
pub struct InputBuffer {
    pub content: String,
    pub cursor_pos: usize,
}

impl InputBuffer {
    pub fn new() -> (r: Self)
        ensures
            r.content@ == Seq::<char>::empty(),
            r.cursor_pos == 0,
    {
        InputBuffer { content: String::new(), cursor_pos: 0 }
    }

    /// A buffer holding `content` with the cursor at its end.
    pub fn with_content(content: &str) -> (r: Self)
        ensures
            r.content@ == content@,
            r.cursor_pos == byte_len(content@),
    {
        InputBuffer { content: copy_str(content), cursor_pos: content.len() }
    }

    /// Inserts `c` at the cursor and moves the cursor one byte on.
    pub fn insert_char(&mut self, c: char)
        requires
            on_boundary(old(self).content@, old(self).cursor_pos as int),
            old(self).cursor_pos < usize::MAX,
        ensures
            utf8(final(self).content@) == utf8(old(self).content@).take(old(self).cursor_pos as int) + utf8(seq![c])
                + utf8(old(self).content@).skip(old(self).cursor_pos as int),
            final(self).cursor_pos == old(self).cursor_pos + 1,
    {
        string_insert(&mut self.content, self.cursor_pos, c);
        self.cursor_pos = self.cursor_pos + 1;
    }

    /// Inserts `s` at the cursor and moves the cursor past it.
    pub fn insert_str(&mut self, s: &str)
        requires
            on_boundary(old(self).content@, old(self).cursor_pos as int),
            old(self).cursor_pos + utf8(s@).len() <= usize::MAX,
        ensures
            utf8(final(self).content@) == utf8(old(self).content@).take(old(self).cursor_pos as int) + utf8(s@)
                + utf8(old(self).content@).skip(old(self).cursor_pos as int),
            final(self).cursor_pos == old(self).cursor_pos + utf8(s@).len(),
    {
        string_insert_str(&mut self.content, self.cursor_pos, s);
        self.cursor_pos = self.cursor_pos + s.len();
    }

    /// Deletes the character before the cursor, which moves back one byte;
    /// nothing at the start.
    pub fn delete_char(&mut self) -> (r: Option<char>)
        requires
            old(self).cursor_pos > 0 ==> on_boundary(old(self).content@, old(self).cursor_pos - 1)
                && old(self).cursor_pos - 1 < utf8(old(self).content@).len(),
        ensures
            old(self).cursor_pos == 0 ==> r is None && final(self).content@ == old(self).content@
                && final(self).cursor_pos == 0,
            old(self).cursor_pos > 0 ==> {
                let b = utf8(old(self).content@);
                let i = old(self).cursor_pos - 1;
                &&& r matches Some(c)
                &&& i + utf8(seq![r->0]).len() <= b.len()
                &&& b.subrange(i, i + utf8(seq![r->0]).len()) == utf8(seq![r->0])
                &&& utf8(final(self).content@) == b.take(i) + b.skip(i + utf8(seq![r->0]).len())
                &&& final(self).cursor_pos == i
            },
    {
        if self.cursor_pos == 0 {
            return None;
        }
        self.cursor_pos = self.cursor_pos - 1;
        Some(string_remove(&mut self.content, self.cursor_pos))
    }

    /// Deletes the character at the cursor; nothing at the end.
    pub fn delete_char_forward(&mut self) -> (r: Option<char>)
        requires
            old(self).cursor_pos < byte_len(old(self).content@) ==> on_boundary(
                old(self).content@,
                old(self).cursor_pos as int,
            ) && old(self).cursor_pos < utf8(old(self).content@).len(),
        ensures
            final(self).cursor_pos == old(self).cursor_pos,
            old(self).cursor_pos >= byte_len(old(self).content@) ==> r is None && final(self).content@ == old(
                self).content@,
            old(self).cursor_pos < byte_len(old(self).content@) ==> {
                let b = utf8(old(self).content@);
                let i = old(self).cursor_pos as int;
                &&& r matches Some(c)
                &&& i + utf8(seq![r->0]).len() <= b.len()
                &&& b.subrange(i, i + utf8(seq![r->0]).len()) == utf8(seq![r->0])
                &&& utf8(final(self).content@) == b.take(i) + b.skip(i + utf8(seq![r->0]).len())
            },
    {
        if self.cursor_pos >= self.content.as_str().len() {
            return None;
        }
        Some(string_remove(&mut self.content, self.cursor_pos))
    }

    /// Deletes the word before the cursor, back to the last white space,
    /// and gives it back. The text before the cursor is plain ASCII, where
    /// bytes and characters agree.
    pub fn delete_word(&mut self) -> (r: String)
        requires
            old(self).cursor_pos <= old(self).content@.len(),
            vstd::utf8::is_ascii_chars(old(self).content@.take(old(self).cursor_pos as int)),
        ensures
            ({
                let s = old(self).content@;
                let k = old(self).cursor_pos as int;
                let j = word_start(s, k);
                &&& r@ == s.subrange(j, k)
                &&& final(self).content@ == s.take(j) + s.skip(k)
                &&& final(self).cursor_pos == j
            }),
    {
        let cs = crate::text::chars_of(self.content.as_str());
        let k = self.cursor_pos;
        let ghost s = cs@;
        proof { lemma_word_start(s, k as int); }
        let mut j = k;
        while j > 0 && !crate::text::is_space_exec(cs[j - 1])
            invariant
                j <= k <= s.len(),
                cs@ == s,
                word_start(s, j as int) == word_start(s, k as int),
            decreases j,
        {
            j -= 1;
        }
        let mut deleted = String::new();
        let mut rest = String::new();
        let mut i: usize = 0;
        while i < cs.len()
            invariant
                j <= k <= s.len(),
                cs@ == s,
                i <= s.len(),
                rest@ == s.take(if i <= j { i as int } else { j as int }) + (if i <= k { Seq::<char>::empty() } else {
                    s.subrange(k as int, i as int)
                }),
                deleted@ == (if i <= j { Seq::<char>::empty() } else if i <= k { s.subrange(j as int, i as int) } else {
                    s.subrange(j as int, k as int)
                }),
            decreases s.len() - i,
        {
            if i < j || i >= k {
                push_char(&mut rest, cs[i]);
            } else {
                push_char(&mut deleted, cs[i]);
            }
            i += 1;
            proof {
                assert(rest@ =~= s.take(if i <= j { i as int } else { j as int }) + (if i <= k {
                    Seq::<char>::empty()
                } else {
                    s.subrange(k as int, i as int)
                }));
                assert(deleted@ =~= (if i <= j { Seq::<char>::empty() } else if i <= k { s.subrange(
                    j as int,
                    i as int,
                ) } else { s.subrange(j as int, k as int) }));
            }
        }
        proof { assert(s.subrange(k as int, s.len() as int) =~= s.skip(k as int)); }
        self.content = rest;
        self.cursor_pos = j;
        deleted
    }

    pub fn move_cursor_left(&mut self)
        ensures
            final(self).content == old(self).content,
            final(self).cursor_pos == if old(self).cursor_pos > 0 { old(self).cursor_pos - 1 } else { 0 },
    {
        if self.cursor_pos > 0 {
            self.cursor_pos = self.cursor_pos - 1;
        }
    }

    pub fn move_cursor_right(&mut self)
        ensures
            final(self).content == old(self).content,
            final(self).cursor_pos == if old(self).cursor_pos < byte_len(old(self).content@) {
                old(self).cursor_pos + 1
            } else {
                old(self).cursor_pos as int
            },
    {
        if self.cursor_pos < self.content.as_str().len() {
            self.cursor_pos = self.cursor_pos + 1;
        }
    }

    pub fn move_cursor_to_start(&mut self)
        ensures
            final(self).content == old(self).content,
            final(self).cursor_pos == 0,
    {
        self.cursor_pos = 0;
    }

    pub fn move_cursor_to_end(&mut self)
        ensures
            final(self).content == old(self).content,
            final(self).cursor_pos == byte_len(old(self).content@),
    {
        self.cursor_pos = self.content.as_str().len();
    }

    pub fn clear(&mut self)
        ensures
            final(self).content@ == Seq::<char>::empty(),
            final(self).cursor_pos == 0,
    {
        self.content = String::new();
        self.cursor_pos = 0;
    }

    pub fn as_str(&self) -> (r: &str)
        ensures
            r@ == self.content@,
    {
        self.content.as_str()
    }

    /// The length of the text in bytes.
    pub fn len(&self) -> (r: usize)
        ensures
            r == byte_len(self.content@),
    {
        self.content.as_str().len()
    }

    pub fn is_empty(&self) -> (r: bool)
        ensures
            r == (self.content@.len() == 0),
            utf8(self.content@).len() <= usize::MAX ==> r == (byte_len(self.content@) == 0),
    {
        proof {
            if self.content@.len() > 0 {
                assert(vstd::utf8::encode_scalar(self.content@[0] as u32).len() >= 1);
            }
        }
        self.content.as_str().is_empty()
    }
}

/// With the default bindings, `i` enters insert mode, `Esc` is bound to
/// normal mode, and `q` and `Ctrl+c` quit.
pub proof fn law_default_bindings()
    ensures
        action_of(default_binding_map(), plain("i"@)) == KeyAction::ModeInsert,
        action_of(default_binding_map(), plain("Esc"@)) == KeyAction::ModeNormal,
        action_of(default_binding_map(), plain("q"@)) == KeyAction::Quit,
        action_of(default_binding_map(), ctrl("c"@)) == KeyAction::Quit,
        action_of(default_binding_map(), plain("T"@)) == KeyAction::CycleTheme,
{
    reveal_strlit("T");
    reveal_strlit("c");
    reveal_strlit("q");
    reveal_strlit("1");
    reveal_strlit("2");
    reveal_strlit("3");
    reveal_strlit("4");
    reveal_strlit("i");
    reveal_strlit("v");
    reveal_strlit("Esc");
    reveal_strlit("h");
    reveal_strlit("j");
    reveal_strlit("k");
    reveal_strlit("l");
    reveal_strlit("G");
    reveal_strlit("d");
    reveal_strlit("u");
    reveal_strlit("Up");
    reveal_strlit("Down");
    reveal_strlit("PageUp");
    reveal_strlit("PageDown");
    reveal_strlit("Backspace");
    reveal_strlit("w");
    reveal_strlit("s");
    reveal_strlit("Enter");
    reveal_strlit("Ctrl");
    assert(seq!["Ctrl"@].len() != Seq::<Seq<char>>::empty().len());
    assert("q"@ != "1"@) by { if "q"@.len() == "1"@.len() { assert("q"@[0] != "1"@[0]); } }
    assert(plain("q"@) != plain("1"@));
    assert("q"@ != "2"@) by { if "q"@.len() == "2"@.len() { assert("q"@[0] != "2"@[0]); } }
    assert(plain("q"@) != plain("2"@));
    assert("q"@ != "3"@) by { if "q"@.len() == "3"@.len() { assert("q"@[0] != "3"@[0]); } }
    assert(plain("q"@) != plain("3"@));
    assert("q"@ != "4"@) by { if "q"@.len() == "4"@.len() { assert("q"@[0] != "4"@[0]); } }
    assert(plain("q"@) != plain("4"@));
    assert("q"@ != "i"@) by { if "q"@.len() == "i"@.len() { assert("q"@[0] != "i"@[0]); } }
    assert(plain("q"@) != plain("i"@));
    assert("q"@ != "v"@) by { if "q"@.len() == "v"@.len() { assert("q"@[0] != "v"@[0]); } }
    assert(plain("q"@) != plain("v"@));
    assert("q"@ != "Esc"@) by { if "q"@.len() == "Esc"@.len() { assert("q"@[0] != "Esc"@[0]); } }
    assert(plain("q"@) != plain("Esc"@));
    assert("q"@ != "h"@) by { if "q"@.len() == "h"@.len() { assert("q"@[0] != "h"@[0]); } }
    assert(plain("q"@) != plain("h"@));
    assert("q"@ != "j"@) by { if "q"@.len() == "j"@.len() { assert("q"@[0] != "j"@[0]); } }
    assert(plain("q"@) != plain("j"@));
    assert("q"@ != "k"@) by { if "q"@.len() == "k"@.len() { assert("q"@[0] != "k"@[0]); } }
    assert(plain("q"@) != plain("k"@));
    assert("q"@ != "l"@) by { if "q"@.len() == "l"@.len() { assert("q"@[0] != "l"@[0]); } }
    assert(plain("q"@) != plain("l"@));
    assert("q"@ != "G"@) by { if "q"@.len() == "G"@.len() { assert("q"@[0] != "G"@[0]); } }
    assert(plain("q"@) != plain("G"@));
    assert(plain("q"@) != ctrl("d"@));
    assert(plain("q"@) != ctrl("u"@));
    assert("q"@ != "Up"@) by { if "q"@.len() == "Up"@.len() { assert("q"@[0] != "Up"@[0]); } }
    assert(plain("q"@) != plain("Up"@));
    assert("q"@ != "Down"@) by { if "q"@.len() == "Down"@.len() { assert("q"@[0] != "Down"@[0]); } }
    assert(plain("q"@) != plain("Down"@));
    assert("q"@ != "PageUp"@) by { if "q"@.len() == "PageUp"@.len() { assert("q"@[0] != "PageUp"@[0]); } }
    assert(plain("q"@) != plain("PageUp"@));
    assert("q"@ != "PageDown"@) by { if "q"@.len() == "PageDown"@.len() { assert("q"@[0] != "PageDown"@[0]); } }
    assert(plain("q"@) != plain("PageDown"@));
    assert("q"@ != "Backspace"@) by { if "q"@.len() == "Backspace"@.len() { assert("q"@[0] != "Backspace"@[0]); } }
    assert(plain("q"@) != plain("Backspace"@));
    assert(plain("q"@) != ctrl("w"@));
    assert(plain("q"@) != ctrl("s"@));
    assert("q"@ != "Enter"@) by { if "q"@.len() == "Enter"@.len() { assert("q"@[0] != "Enter"@[0]); } }
    assert(plain("q"@) != plain("Enter"@));
    assert(plain("q"@) != ctrl("c"@));
    assert("i"@ != "v"@) by { if "i"@.len() == "v"@.len() { assert("i"@[0] != "v"@[0]); } }
    assert(plain("i"@) != plain("v"@));
    assert("i"@ != "Esc"@) by { if "i"@.len() == "Esc"@.len() { assert("i"@[0] != "Esc"@[0]); } }
    assert(plain("i"@) != plain("Esc"@));
    assert("i"@ != "h"@) by { if "i"@.len() == "h"@.len() { assert("i"@[0] != "h"@[0]); } }
    assert(plain("i"@) != plain("h"@));
    assert("i"@ != "j"@) by { if "i"@.len() == "j"@.len() { assert("i"@[0] != "j"@[0]); } }
    assert(plain("i"@) != plain("j"@));
    assert("i"@ != "k"@) by { if "i"@.len() == "k"@.len() { assert("i"@[0] != "k"@[0]); } }
    assert(plain("i"@) != plain("k"@));
    assert("i"@ != "l"@) by { if "i"@.len() == "l"@.len() { assert("i"@[0] != "l"@[0]); } }
    assert(plain("i"@) != plain("l"@));
    assert("i"@ != "G"@) by { if "i"@.len() == "G"@.len() { assert("i"@[0] != "G"@[0]); } }
    assert(plain("i"@) != plain("G"@));
    assert(plain("i"@) != ctrl("d"@));
    assert(plain("i"@) != ctrl("u"@));
    assert("i"@ != "Up"@) by { if "i"@.len() == "Up"@.len() { assert("i"@[0] != "Up"@[0]); } }
    assert(plain("i"@) != plain("Up"@));
    assert("i"@ != "Down"@) by { if "i"@.len() == "Down"@.len() { assert("i"@[0] != "Down"@[0]); } }
    assert(plain("i"@) != plain("Down"@));
    assert("i"@ != "PageUp"@) by { if "i"@.len() == "PageUp"@.len() { assert("i"@[0] != "PageUp"@[0]); } }
    assert(plain("i"@) != plain("PageUp"@));
    assert("i"@ != "PageDown"@) by { if "i"@.len() == "PageDown"@.len() { assert("i"@[0] != "PageDown"@[0]); } }
    assert(plain("i"@) != plain("PageDown"@));
    assert("i"@ != "Backspace"@) by { if "i"@.len() == "Backspace"@.len() { assert("i"@[0] != "Backspace"@[0]); } }
    assert(plain("i"@) != plain("Backspace"@));
    assert(plain("i"@) != ctrl("w"@));
    assert(plain("i"@) != ctrl("s"@));
    assert("i"@ != "Enter"@) by { if "i"@.len() == "Enter"@.len() { assert("i"@[0] != "Enter"@[0]); } }
    assert(plain("i"@) != plain("Enter"@));
    assert(plain("i"@) != ctrl("c"@));
    assert("Esc"@ != "h"@) by { if "Esc"@.len() == "h"@.len() { assert("Esc"@[0] != "h"@[0]); } }
    assert(plain("Esc"@) != plain("h"@));
    assert("Esc"@ != "j"@) by { if "Esc"@.len() == "j"@.len() { assert("Esc"@[0] != "j"@[0]); } }
    assert(plain("Esc"@) != plain("j"@));
    assert("Esc"@ != "k"@) by { if "Esc"@.len() == "k"@.len() { assert("Esc"@[0] != "k"@[0]); } }
    assert(plain("Esc"@) != plain("k"@));
    assert("Esc"@ != "l"@) by { if "Esc"@.len() == "l"@.len() { assert("Esc"@[0] != "l"@[0]); } }
    assert(plain("Esc"@) != plain("l"@));
    assert("Esc"@ != "G"@) by { if "Esc"@.len() == "G"@.len() { assert("Esc"@[0] != "G"@[0]); } }
    assert(plain("Esc"@) != plain("G"@));
    assert(plain("Esc"@) != ctrl("d"@));
    assert(plain("Esc"@) != ctrl("u"@));
    assert("Esc"@ != "Up"@) by { if "Esc"@.len() == "Up"@.len() { assert("Esc"@[0] != "Up"@[0]); } }
    assert(plain("Esc"@) != plain("Up"@));
    assert("Esc"@ != "Down"@) by { if "Esc"@.len() == "Down"@.len() { assert("Esc"@[0] != "Down"@[0]); } }
    assert(plain("Esc"@) != plain("Down"@));
    assert("Esc"@ != "PageUp"@) by { if "Esc"@.len() == "PageUp"@.len() { assert("Esc"@[0] != "PageUp"@[0]); } }
    assert(plain("Esc"@) != plain("PageUp"@));
    assert("Esc"@ != "PageDown"@) by { if "Esc"@.len() == "PageDown"@.len() { assert("Esc"@[0] != "PageDown"@[0]); } }
    assert(plain("Esc"@) != plain("PageDown"@));
    assert("Esc"@ != "Backspace"@) by { if "Esc"@.len() == "Backspace"@.len() { assert("Esc"@[0] != "Backspace"@[0]); } }
    assert(plain("Esc"@) != plain("Backspace"@));
    assert(plain("Esc"@) != ctrl("w"@));
    assert(plain("Esc"@) != ctrl("s"@));
    assert("Esc"@ != "Enter"@) by { if "Esc"@.len() == "Enter"@.len() { assert("Esc"@[0] != "Enter"@[0]); } }
    assert(plain("Esc"@) != plain("Enter"@));
    assert(plain("Esc"@) != ctrl("c"@));
    assert("q"@ != "T"@) by { assert("q"@[0] != "T"@[0]); }
    assert(plain("q"@) != plain("T"@));
    assert("i"@ != "T"@) by { assert("i"@[0] != "T"@[0]); }
    assert(plain("i"@) != plain("T"@));
    assert("Esc"@ != "T"@) by { if "Esc"@.len() == "T"@.len() { assert("Esc"@[0] != "T"@[0]); } }
    assert(plain("Esc"@) != plain("T"@));
    assert(plain("T"@) != ctrl("c"@));
}

/// A key press with no modifier held.
pub open spec fn bare(code: Key) -> KeyPress {
    KeyPress { code, ctrl: false, alt: false, shift: false }
}

/// With the default bindings, `i` in normal mode enters insert mode and
/// `Esc` in insert or visual mode goes back to normal mode; in normal mode
/// `Esc` stays there.
pub proof fn law_insert_and_back(pending: Option<char>)
    ensures
        normal_mode_after(action_of(default_binding_map(), press_binding(bare(Key::Char('i'))))) == InputMode::Insert,
        normal_mode_after(action_of(default_binding_map(), press_binding(bare(Key::Esc)))) == InputMode::Normal,
        insert_signals(Key::Esc) == seq![Signal::ModeChanged(InputMode::Normal)],
        visual_signals(Key::Esc) == seq![Signal::ModeChanged(InputMode::Normal)],
{
    law_default_bindings();
    reveal_strlit("Esc");
    reveal_strlit("i");
    assert(press_modifiers(bare(Key::Char('i'))) =~= Seq::<Seq<char>>::empty());
    assert(press_modifiers(bare(Key::Esc)) =~= Seq::<Seq<char>>::empty());
    assert(key_name(Key::Char('i')) =~= "i"@);
}

} // verus!
