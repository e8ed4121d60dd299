use vstd::prelude::*;

use crate::input::{
    key_mode_after, key_pending_after, key_signals, signals, ActivePane, AppEvent, BindingView, InputHandler, InputMode,
    Key, KeyAction, KeyPress, Signal,
};
use crate::matching::opt_view;
use crate::request::{Method, Request};
use crate::request_edit::pairs_view;
use crate::text::{copy_str, str_eq};

verus! {

impl View for KeyPress {
    type V = KeyPress;

    open spec fn view(&self) -> KeyPress {
        *self
    }
}

/// Which way a split between panes moves.
#[derive(Debug, Clone, Copy, PartialEq, Eq, Structural)]
pub enum SplitStep {
    Grow,
    Shrink,
}

/// What the application does after a key: hand the key to the command
/// palette, the settings or the active pane, show or close an overlay,
/// change the layout or the theme, or send a request.
#[derive(Debug)]
pub enum ShellAction {
    RoutePaletteKey(KeyPress),
    RouteSettingsKey(KeyPress),
    CloseSettings,
    ShowPalette,
    ToggleSidebar,
    ResizeSidebar(i16),
    ResizeCenterSplit(SplitStep),
    CycleTheme,
    ApplyTheme(String),
    SendRequest(Request),
    ForwardKey(KeyPress),
    ExecuteRequest,
    OpenSettings,
    Log(String),
    OpenTab,
    ClearLogs,
    MaximizePaneHeight,
    CloseOtherTabs,
}

/// An action as plain values; a request by its method, URL, headers and body.
pub enum Act {
    RoutePaletteKey(KeyPress),
    RouteSettingsKey(KeyPress),
    CloseSettings,
    ShowPalette,
    ToggleSidebar,
    ResizeSidebar(int),
    ResizeCenterSplit(SplitStep),
    CycleTheme,
    ApplyTheme(Seq<char>),
    SendRequest(Method, Seq<char>, Seq<(Seq<char>, Seq<char>)>, Option<Seq<char>>),
    ForwardKey(KeyPress),
    ExecuteRequest,
    OpenSettings,
    Log(Seq<char>),
    OpenTab,
    ClearLogs,
    MaximizePaneHeight,
    CloseOtherTabs,
}

impl View for ShellAction {
    type V = Act;

    open spec fn view(&self) -> Act {
        match self {
            ShellAction::RoutePaletteKey(k) => Act::RoutePaletteKey(*k),
            ShellAction::RouteSettingsKey(k) => Act::RouteSettingsKey(*k),
            ShellAction::CloseSettings => Act::CloseSettings,
            ShellAction::ShowPalette => Act::ShowPalette,
            ShellAction::ToggleSidebar => Act::ToggleSidebar,
            ShellAction::ResizeSidebar(d) => Act::ResizeSidebar(*d as int),
            ShellAction::ResizeCenterSplit(s) => Act::ResizeCenterSplit(*s),
            ShellAction::CycleTheme => Act::CycleTheme,
            ShellAction::ApplyTheme(n) => Act::ApplyTheme(n@),
            ShellAction::SendRequest(r) => Act::SendRequest(r.method, r.url@, pairs_view(r.headers@), opt_view(r.body)),
            ShellAction::ForwardKey(k) => Act::ForwardKey(*k),
            ShellAction::ExecuteRequest => Act::ExecuteRequest,
            ShellAction::OpenSettings => Act::OpenSettings,
            ShellAction::Log(t) => Act::Log(t@),
            ShellAction::OpenTab => Act::OpenTab,
            ShellAction::ClearLogs => Act::ClearLogs,
            ShellAction::MaximizePaneHeight => Act::MaximizePaneHeight,
            ShellAction::CloseOtherTabs => Act::CloseOtherTabs,
        }
    }
}

/// The actions as plain values.
pub open spec fn acts(v: Seq<ShellAction>) -> Seq<Act> {
    v.map_values(|a: ShellAction| a@)
}

/// The state of the application shell: the key handler, the active pane,
/// whether to quit, and which overlay is open.
pub struct ShellState {
    pub input: InputHandler,
    pub active_pane: ActivePane,
    pub should_quit: bool,
    pub show_help: bool,
    pub palette_visible: bool,
    pub settings_open: bool,
}

/// The shell's state as plain values.
pub struct ShellView {
    pub bindings: Map<BindingView, KeyAction>,
    pub mode: InputMode,
    pub pending: Option<char>,
    pub active_pane: ActivePane,
    pub should_quit: bool,
    pub show_help: bool,
    pub palette_visible: bool,
    pub settings_open: bool,
}

impl View for ShellState {
    type V = ShellView;

    open spec fn view(&self) -> ShellView {
        ShellView {
            bindings: self.input.config@,
            mode: self.input.mode,
            pending: self.input.pending_key,
            active_pane: self.active_pane,
            should_quit: self.should_quit,
            show_help: self.show_help,
            palette_visible: self.palette_visible,
            settings_open: self.settings_open,
        }
    }
}

/// A key with no modifier held.
pub open spec fn unmodified(key: KeyPress) -> bool {
    !key.ctrl && !key.alt && !key.shift
}

/// What an event of the key handler does to the shell, with whether it
/// counts as handled (`handled` is what the earlier events gave).
pub open spec fn event_step(s: ShellView, e: Signal, handled: bool) -> (ShellView, Seq<Act>, bool) {
    match e {
        Signal::Quit => (ShellView { should_quit: true, ..s }, Seq::empty(), true),
        Signal::PaneChanged(p) => (ShellView { active_pane: p, ..s }, Seq::empty(), true),
        Signal::ModeChanged(m) => if m == InputMode::Command {
            (ShellView { palette_visible: true, ..s }, seq![Act::ShowPalette], true)
        } else {
            (s, Seq::empty(), true)
        },
        Signal::SendRequest(m, u, h, b) => (s, seq![Act::SendRequest(m, u, h, b)], true),
        Signal::ThemeChanged(n) => (s, seq![if n == "next"@ { Act::CycleTheme } else { Act::ApplyTheme(n) }], true),
        Signal::KeyPressed(_) | Signal::CursorMoved(_, _) | Signal::Scrolled(_) | Signal::SaveState => (
            s,
            Seq::empty(),
            false,
        ),
        _ => (s, Seq::empty(), handled),
    }
}

/// The events of the key handler, one after the other.
pub open spec fn events_step(s: ShellView, evs: Seq<Signal>) -> (ShellView, Seq<Act>, bool)
    decreases evs.len(),
{
    if evs.len() == 0 {
        (s, Seq::empty(), false)
    } else {
        let (s1, a1, h1) = events_step(s, evs.drop_last());
        let (s2, a2, h2) = event_step(s1, evs.last(), h1);
        (s2, a1 + a2, h2)
    }
}

/// What a key does to the shell. `Ctrl+c` quits. An open command palette,
/// then open settings, take the key (`Esc` or `q` close the settings). With
/// the help shown, `Esc`, `q` or `?` close it and other keys do nothing.
/// In normal mode `?` shows the help, `Ctrl+b` toggles the sidebar, `+`/`=`
/// and `-`/`_` resize the sidebar or the request/response split, `F10`
/// cycles the theme, and a bare `:` opens the command palette in command
/// mode. Any other key goes to the key handler; its events act on the shell,
/// and a key they leave unhandled goes on to the active pane.
pub open spec fn shell_step(s: ShellView, key: KeyPress) -> (ShellView, Seq<Act>) {
    let code = key.code;
    if key.ctrl && code == Key::Char('c') {
        (ShellView { should_quit: true, ..s }, Seq::empty())
    } else if s.palette_visible {
        (s, seq![Act::RoutePaletteKey(key)])
    } else if s.settings_open {
        if code == Key::Esc || code == Key::Char('q') {
            (ShellView { settings_open: false, ..s }, seq![Act::CloseSettings])
        } else {
            (s, seq![Act::RouteSettingsKey(key)])
        }
    } else if s.show_help {
        if code == Key::Esc || code == Key::Char('q') || code == Key::Char('?') {
            (ShellView { show_help: false, ..s }, Seq::empty())
        } else {
            (s, Seq::empty())
        }
    } else if s.mode == InputMode::Normal && code == Key::Char('?') {
        (ShellView { show_help: true, ..s }, Seq::empty())
    } else if s.mode == InputMode::Normal && code == Key::Char('b') && key.ctrl {
        (s, seq![Act::ToggleSidebar])
    } else if s.mode == InputMode::Normal && (code == Key::Char('+') || code == Key::Char('=') || code
        == Key::Char('-') || code == Key::Char('_')) {
        let grow = code == Key::Char('+') || code == Key::Char('=');
        (
            s,
            match s.active_pane {
                ActivePane::Sidebar => seq![Act::ResizeSidebar(if grow { 5 } else { -5 })],
                ActivePane::Request | ActivePane::Response => seq![
                    Act::ResizeCenterSplit(if grow { SplitStep::Grow } else { SplitStep::Shrink }),
                ],
                _ => Seq::empty(),
            },
        )
    } else if s.mode == InputMode::Normal && code == Key::F(10) {
        (s, seq![Act::CycleTheme])
    } else if s.mode == InputMode::Normal && code == Key::Char(':') && unmodified(key) {
        (ShellView { palette_visible: true, mode: InputMode::Command, ..s }, seq![Act::ShowPalette])
    } else {
        let after_keys = ShellView {
            mode: key_mode_after(s.bindings, s.mode, key),
            pending: key_pending_after(s.bindings, s.mode, s.pending, key),
            ..s
        };
        let (s2, acts, handled) = events_step(after_keys, key_signals(s.bindings, s.mode, s.pending, key));
        (s2, if handled { acts } else { acts.push(Act::ForwardKey(key)) })
    }
}

/// Whether `k` is the character `c`.
fn is_char(k: &Key, c: char) -> (r: bool)
    ensures
        r == (*k == Key::Char(c)),
{
    match k {
        Key::Char(d) => *d == c,
        _ => false,
    }
}

/// Whether `k` is `Esc`.
fn is_esc(k: &Key) -> (r: bool)
    ensures
        r == (*k == Key::Esc),
{
    match k {
        Key::Esc => true,
        _ => false,
    }
}

/// Whether `k` is `F10`.
fn is_f10(k: &Key) -> (r: bool)
    ensures
        r == (*k == Key::F(10)),
{
    match k {
        Key::F(n) => *n == 10,
        _ => false,
    }
}

/// Handles a key in the shell and says what the application is to do.
pub fn shell_key_step(state: &mut ShellState, key: KeyPress) -> (actions: Vec<ShellAction>)
    ensures
        (final(state)@, acts(actions@)) == shell_step(old(state)@, key@),
{
    let mut actions: Vec<ShellAction> = Vec::new();
    if key.ctrl && is_char(&key.code, 'c') {
        state.should_quit = true;
        proof { assert(acts(actions@) =~= Seq::<Act>::empty()); }
        return actions;
    }
    if state.palette_visible {
        actions.push(ShellAction::RoutePaletteKey(key));
        proof { assert(acts(actions@) =~= seq![Act::RoutePaletteKey(key)]); }
        return actions;
    }
    if state.settings_open {
        if is_esc(&key.code) || is_char(&key.code, 'q') {
            state.settings_open = false;
            actions.push(ShellAction::CloseSettings);
            proof { assert(acts(actions@) =~= seq![Act::CloseSettings]); }
        } else {
            actions.push(ShellAction::RouteSettingsKey(key));
            proof { assert(acts(actions@) =~= seq![Act::RouteSettingsKey(key)]); }
        }
        return actions;
    }
    if state.show_help {
        if is_esc(&key.code) || is_char(&key.code, 'q') || is_char(&key.code, '?') {
            state.show_help = false;
        }
        proof { assert(acts(actions@) =~= Seq::<Act>::empty()); }
        return actions;
    }
    let normal = state.input.mode == InputMode::Normal;
    if normal && is_char(&key.code, '?') {
        state.show_help = true;
        proof { assert(acts(actions@) =~= Seq::<Act>::empty()); }
        return actions;
    }
    if normal && is_char(&key.code, 'b') && key.ctrl {
        actions.push(ShellAction::ToggleSidebar);
        proof { assert(acts(actions@) =~= seq![Act::ToggleSidebar]); }
        return actions;
    }
    let grow = is_char(&key.code, '+') || is_char(&key.code, '=');
    let shrink = is_char(&key.code, '-') || is_char(&key.code, '_');
    if normal && (grow || shrink) {
        match state.active_pane {
            ActivePane::Sidebar => actions.push(ShellAction::ResizeSidebar(if grow { 5 } else { -5 })),
            ActivePane::Request | ActivePane::Response => actions.push(
                ShellAction::ResizeCenterSplit(if grow { SplitStep::Grow } else { SplitStep::Shrink }),
            ),
            _ => {},
        }
        proof {
            let want = match state.active_pane {
                ActivePane::Sidebar => seq![Act::ResizeSidebar(if grow { 5 } else { -5 })],
                ActivePane::Request | ActivePane::Response => seq![
                    Act::ResizeCenterSplit(if grow { SplitStep::Grow } else { SplitStep::Shrink }),
                ],
                _ => Seq::<Act>::empty(),
            };
            assert(acts(actions@) =~= want);
        }
        return actions;
    }
    if normal && is_f10(&key.code) {
        actions.push(ShellAction::CycleTheme);
        proof { assert(acts(actions@) =~= seq![Act::CycleTheme]); }
        return actions;
    }
    if normal && is_char(&key.code, ':') && !key.ctrl && !key.alt && !key.shift {
        state.palette_visible = true;
        state.input.switch_mode(InputMode::Command);
        actions.push(ShellAction::ShowPalette);
        proof { assert(acts(actions@) =~= seq![Act::ShowPalette]); }
        return actions;
    }
    let events = state.input.handle_press(&key);
    let ghost evs = signals(events@);
    let ghost start = state@;
    let mut handled = false;
    let mut i: usize = 0;
    proof {
        assert(evs.take(0) =~= Seq::<Signal>::empty());
        assert(acts(actions@) =~= Seq::<Act>::empty());
    }
    while i < events.len()
        invariant
            i <= events@.len(),
            evs == signals(events@),
            (state@, acts(actions@), handled) == events_step(start, evs.take(i as int)),
        decreases events@.len() - i,
    {
        proof {
            assert(evs.take(i + 1).drop_last() =~= evs.take(i as int));
            assert(evs.take(i + 1).last() == events@[i as int]@);
        }
        let ghost before = acts(actions@);
        match &events[i] {
            AppEvent::Quit => {
                state.should_quit = true;
                handled = true;
            },
            AppEvent::PaneChanged(p) => {
                state.active_pane = *p;
                handled = true;
            },
            AppEvent::ModeChanged(m) => {
                if *m == InputMode::Command {
                    state.palette_visible = true;
                    actions.push(ShellAction::ShowPalette);
                }
                handled = true;
            },
            AppEvent::SendRequest(r) => {
                let c = r.copy();
                proof { assert(pairs_view(c.headers@) =~= pairs_view(r.headers@)); }
                actions.push(ShellAction::SendRequest(c));
                handled = true;
            },
            AppEvent::ThemeChanged(n) => {
                proof { reveal_strlit("next"); }
                if str_eq(n.as_str(), "next") {
                    actions.push(ShellAction::CycleTheme);
                } else {
                    actions.push(ShellAction::ApplyTheme(copy_str(n.as_str())));
                }
                handled = true;
            },
            AppEvent::KeyPressed(_) | AppEvent::CursorMoved { .. } | AppEvent::Scrolled(_) | AppEvent::SaveState => {
                handled = false;
            },
            _ => {},
        }
        proof {
            let step = event_step(events_step(start, evs.take(i as int)).0, evs[i as int], events_step(start, evs.take(i as int)).2);
            assert(acts(actions@) =~= before + step.1);
        }
        i += 1;
    }
    proof { assert(evs.take(i as int) =~= evs); }
    if !handled {
        let ghost before = acts(actions@);
        actions.push(ShellAction::ForwardKey(key));
        proof { assert(acts(actions@) =~= before.push(Act::ForwardKey(key))); }
    }
    actions
}


/// An event that a command of the palette asks for.
#[derive(Debug, Clone, Copy, PartialEq, Eq, Structural)]
pub enum PaletteEvent {
    Quit,
    ExecuteRequest,
    SaveState,
    SearchActivated,
    SettingsOpened,
    ImportStarted,
    TabOpened,
    PaneChanged(ActivePane),
    ClearLogs,
    MaximizePaneHeight,
    GoToDefinition,
    SearchResponse,
    CloseOtherTabs,
    /// An event the shell does not act on.
    Other,
}

/// What the command palette made of a key: a command to run with its
/// events, a close, or nothing yet.
pub enum PaletteOutcome {
    Execute(Vec<PaletteEvent>),
    Close,
    Nothing,
}

/// What one palette event does to the shell.
pub open spec fn palette_event_step(s: ShellView, e: PaletteEvent) -> (ShellView, Seq<Act>) {
    match e {
        PaletteEvent::Quit => (ShellView { should_quit: true, ..s }, Seq::empty()),
        PaletteEvent::ExecuteRequest => (s, seq![Act::ExecuteRequest]),
        PaletteEvent::SaveState => (s, seq![Act::Log("State saved"@)]),
        PaletteEvent::SearchActivated => (s, seq![Act::Log("Search activated"@)]),
        PaletteEvent::SettingsOpened => (
            ShellView { settings_open: true, show_help: !s.show_help, ..s },
            seq![Act::OpenSettings],
        ),
        PaletteEvent::ImportStarted => (s, seq![Act::Log("Import triggered"@)]),
        PaletteEvent::TabOpened => (s, seq![Act::OpenTab]),
        PaletteEvent::PaneChanged(p) => (ShellView { active_pane: p, ..s }, Seq::empty()),
        PaletteEvent::ClearLogs => (s, seq![Act::ClearLogs]),
        PaletteEvent::MaximizePaneHeight => (s, seq![Act::MaximizePaneHeight]),
        PaletteEvent::GoToDefinition => (s, seq![Act::Log("Go to definition"@)]),
        PaletteEvent::SearchResponse => (s, seq![Act::Log("Search in response"@)]),
        PaletteEvent::CloseOtherTabs => (s, seq![Act::CloseOtherTabs]),
        PaletteEvent::Other => (s, Seq::empty()),
    }
}

/// The palette events, one after the other.
pub open spec fn palette_events_step(s: ShellView, evs: Seq<PaletteEvent>) -> (ShellView, Seq<Act>)
    decreases evs.len(),
{
    if evs.len() == 0 {
        (s, Seq::empty())
    } else {
        let (s1, a1) = palette_events_step(s, evs.drop_last());
        let (s2, a2) = palette_event_step(s1, evs.last());
        (s2, a1 + a2)
    }
}

/// What the palette's answer to a key does: a command or a close hides the
/// palette and goes back to normal mode, and the command's events act in turn.
pub open spec fn palette_step(s: ShellView, outcome: Seq<PaletteEvent>, kind: int) -> (ShellView, Seq<Act>) {
    let closed = ShellView { palette_visible: false, mode: InputMode::Normal, ..s };
    if kind == 0 {
        palette_events_step(closed, outcome)
    } else if kind == 1 {
        (closed, Seq::empty())
    } else {
        (s, Seq::empty())
    }
}

/// The palette outcome as its events and its kind: 0 a command, 1 a close, 2 nothing.
pub open spec fn outcome_parts(o: PaletteOutcome) -> (Seq<PaletteEvent>, int) {
    match o {
        PaletteOutcome::Execute(evs) => (evs@, 0),
        PaletteOutcome::Close => (Seq::empty(), 1),
        PaletteOutcome::Nothing => (Seq::empty(), 2),
    }
}

fn log_action(text: &str) -> (r: ShellAction)
    ensures
        r@ == Act::Log(text@),
{
    ShellAction::Log(copy_str(text))
}

/// Acts on what the command palette made of a key.
pub fn shell_palette_step(state: &mut ShellState, outcome: PaletteOutcome) -> (actions: Vec<ShellAction>)
    ensures
        (final(state)@, acts(actions@)) == palette_step(old(state)@, outcome_parts(outcome).0, outcome_parts(outcome).1),
{
    let mut actions: Vec<ShellAction> = Vec::new();
    proof { assert(acts(actions@) =~= Seq::<Act>::empty()); }
    match outcome {
        PaletteOutcome::Nothing => actions,
        PaletteOutcome::Close => {
            state.palette_visible = false;
            state.input.switch_mode(InputMode::Normal);
            actions
        },
        PaletteOutcome::Execute(events) => {
            state.palette_visible = false;
            state.input.switch_mode(InputMode::Normal);
            let ghost start = state@;
            let mut i: usize = 0;
            proof { assert(events@.take(0) =~= Seq::<PaletteEvent>::empty()); }
            while i < events.len()
                invariant
                    i <= events@.len(),
                    (state@, acts(actions@)) == palette_events_step(start, events@.take(i as int)),
                decreases events@.len() - i,
            {
                proof { assert(events@.take(i + 1).drop_last() =~= events@.take(i as int)); }
                let ghost before = acts(actions@);
                match events[i] {
                    PaletteEvent::Quit => state.should_quit = true,
                    PaletteEvent::ExecuteRequest => actions.push(ShellAction::ExecuteRequest),
                    PaletteEvent::SaveState => actions.push(log_action("State saved")),
                    PaletteEvent::SearchActivated => actions.push(log_action("Search activated")),
                    PaletteEvent::SettingsOpened => {
                        state.settings_open = true;
                        state.show_help = !state.show_help;
                        actions.push(ShellAction::OpenSettings);
                    },
                    PaletteEvent::ImportStarted => actions.push(log_action("Import triggered")),
                    PaletteEvent::TabOpened => actions.push(ShellAction::OpenTab),
                    PaletteEvent::PaneChanged(p) => state.active_pane = p,
                    PaletteEvent::ClearLogs => actions.push(ShellAction::ClearLogs),
                    PaletteEvent::MaximizePaneHeight => actions.push(ShellAction::MaximizePaneHeight),
                    PaletteEvent::GoToDefinition => actions.push(log_action("Go to definition")),
                    PaletteEvent::SearchResponse => actions.push(log_action("Search in response")),
                    PaletteEvent::CloseOtherTabs => actions.push(ShellAction::CloseOtherTabs),
                    PaletteEvent::Other => {},
                }
                proof {
                    let step = palette_event_step(palette_events_step(start, events@.take(i as int)).0, events@[i as int]);
                    assert(acts(actions@) =~= before + step.1);
                }
                i += 1;
            }
            proof { assert(events@.take(i as int) =~= events@); }
            actions
        },
    }
}

/// The name under which a key reaches the settings pane: a character as
/// itself, and `Enter`, `Esc` and `Backspace` by name; other keys do not
/// reach it.
pub fn settings_key_name(key: &KeyPress) -> (r: Option<String>)
    ensures
        match key.code {
            Key::Char(c) => (r matches Some(s) && s@ == seq![c]),
            Key::Enter => (r matches Some(s) && s@ == "Enter"@),
            Key::Esc => (r matches Some(s) && s@ == "Esc"@),
            Key::Backspace => (r matches Some(s) && s@ == "Backspace"@),
            _ => r is None,
        },
{
    match &key.code {
        Key::Char(c) => {
            let mut s = String::new();
            crate::text::push_char(&mut s, *c);
            Some(s)
        },
        Key::Enter => Some(copy_str("Enter")),
        Key::Esc => Some(copy_str("Esc")),
        Key::Backspace => Some(copy_str("Backspace")),
        _ => None,
    }
}

/// The theme a settings change names: the value of a non-empty `theme` setting.
pub fn settings_theme(key: &str, value: &str) -> (r: Option<String>)
    ensures
        r is Some == (key@ == "theme"@ && value@.len() > 0),
        r is Some ==> r->0@ == value@,
{
    if str_eq(key, "theme") && crate::text::chars_of(value).len() > 0 {
        Some(copy_str(value))
    } else {
        None
    }
}

impl ShellState {
    /// A shell in normal mode with the default bindings, the request pane
    /// active, nothing open and not quitting.
    pub fn new() -> (r: ShellState)
        ensures
            r@.bindings == crate::input::default_binding_map(),
            r@.mode == InputMode::Normal,
            r@.pending is None,
            r@.active_pane == ActivePane::Request,
            !r@.should_quit,
            !r@.show_help,
            !r@.palette_visible,
            !r@.settings_open,
    {
        ShellState {
            input: InputHandler::new(),
            active_pane: ActivePane::Request,
            should_quit: false,
            show_help: false,
            palette_visible: false,
            settings_open: false,
        }
    }
}


/// Where a key that the shell left unhandled goes in the active pane.
#[derive(Debug)]
pub enum Forward {
    /// Load the selected history entry into the request pane (`r` in the sidebar).
    LoadHistory,
    /// Log the selected history entry as curl (`C`).
    ShowCurl,
    /// Delete the selected history entry (`d`).
    DeleteHistoryEntry,
    /// Clear the history (`D`).
    ClearHistory,
    /// Give the pane this key.
    Navigate(ActivePane, Key),
    Nothing,
}

/// The key a pane is given: in normal mode `h`, `j`, `k`, `l` become the
/// arrows and `g`, `G` pass; arrows, `Home`, `End`, the page keys and `Tab`
/// always pass; outside normal mode every key passes; nothing else does.
pub open spec fn nav_key(code: Key, normal: bool) -> Option<Key> {
    if normal && code == Key::Char('h') {
        Some(Key::Left)
    } else if normal && code == Key::Char('j') {
        Some(Key::Down)
    } else if normal && code == Key::Char('k') {
        Some(Key::Up)
    } else if normal && code == Key::Char('l') {
        Some(Key::Right)
    } else if normal && (code == Key::Char('G') || code == Key::Char('g')) {
        Some(code)
    } else if code == Key::Left || code == Key::Right || code == Key::Up || code == Key::Down || code == Key::Home
        || code == Key::End || code == Key::PageUp || code == Key::PageDown || code == Key::Tab {
        Some(code)
    } else if !normal {
        Some(code)
    } else {
        None
    }
}

/// Where an unhandled key goes: the sidebar's history commands, else the
/// pane (the workflow pane takes none), when the key passes.
pub open spec fn forward_plan(pane: ActivePane, normal: bool, code: Key) -> Forward {
    if pane == ActivePane::Sidebar && code == Key::Char('r') {
        Forward::LoadHistory
    } else if pane == ActivePane::Sidebar && code == Key::Char('C') {
        Forward::ShowCurl
    } else if pane == ActivePane::Sidebar && code == Key::Char('d') {
        Forward::DeleteHistoryEntry
    } else if pane == ActivePane::Sidebar && code == Key::Char('D') {
        Forward::ClearHistory
    } else if pane == ActivePane::Workflow {
        Forward::Nothing
    } else {
        match nav_key(code, normal) {
            Some(k) => Forward::Navigate(pane, k),
            None => Forward::Nothing,
        }
    }
}

/// Decides where an unhandled key goes.
pub fn forward_key(pane: ActivePane, mode: InputMode, code: Key) -> (r: Forward)
    ensures
        r == forward_plan(pane, mode == InputMode::Normal, code),
{
    let normal = mode == InputMode::Normal;
    let sidebar = pane == ActivePane::Sidebar;
    if sidebar && is_char(&code, 'r') {
        return Forward::LoadHistory;
    }
    if sidebar && is_char(&code, 'C') {
        return Forward::ShowCurl;
    }
    if sidebar && is_char(&code, 'd') {
        return Forward::DeleteHistoryEntry;
    }
    if sidebar && is_char(&code, 'D') {
        return Forward::ClearHistory;
    }
    if pane == ActivePane::Workflow {
        return Forward::Nothing;
    }
    let passes_always = match &code {
        Key::Left | Key::Right | Key::Up | Key::Down | Key::Home | Key::End | Key::PageUp | Key::PageDown
        | Key::Tab => true,
        _ => false,
    };
    if normal && is_char(&code, 'h') {
        Forward::Navigate(pane, Key::Left)
    } else if normal && is_char(&code, 'j') {
        Forward::Navigate(pane, Key::Down)
    } else if normal && is_char(&code, 'k') {
        Forward::Navigate(pane, Key::Up)
    } else if normal && is_char(&code, 'l') {
        Forward::Navigate(pane, Key::Right)
    } else if normal && (is_char(&code, 'G') || is_char(&code, 'g')) {
        Forward::Navigate(pane, code)
    } else if passes_always || !normal {
        Forward::Navigate(pane, code)
    } else {
        Forward::Nothing
    }
}

} // verus!
