use vstd::prelude::*;

use vstd::pervasive::VecAdditionalExecFns;

use crate::environments::{var_model, var_models, without_key, Environment, EnvironmentVariable};
use crate::input::{signals, AppEvent, Signal};
use crate::json::{decimal, push_decimal};
use crate::sidebar::pop_char;
use crate::text::{chars_of, copy_str, push_char, push_str, str_eq};
use crate::theme::{styled_view, ColorDef, StyledSpan, Theme};

verus! {

/// The dialog that edits the variables of one environment.
pub struct EnvironmentEditor {
    pub visible: bool,
    pub environment: Option<Environment>,
    pub selected_index: usize,
    pub editing_key: bool,
    pub editing_value: bool,
    pub edit_buffer: String,
    pub focused_field: usize,
}

/// `e` is the environment `old` with the variables `vars`.
pub open spec fn holds(e: Option<Environment>, old: Environment, vars: Seq<(Seq<char>, Seq<char>, bool)>) -> bool {
    &&& e is Some
    &&& e->0.id == old.id
    &&& e->0.name == old.name
    &&& e->0.vars() == vars
}

/// The key of a new variable: `var_` and its position counted from 1.
pub open spec fn new_key(n: nat) -> Seq<char> {
    "var_"@ + decimal(n)
}

impl EnvironmentEditor {
    /// The variables being edited; none without an environment.
    pub open spec fn vars(self) -> Seq<(Seq<char>, Seq<char>, bool)> {
        match self.environment {
            Some(e) => e.vars(),
            None => Seq::empty(),
        }
    }

    /// The editor after closing, from `old`.
    pub open spec fn closed_from(self, old: EnvironmentEditor) -> bool {
        &&& self.edit_buffer@ == Seq::<char>::empty()
        &&& self == (EnvironmentEditor {
            visible: false,
            environment: None,
            editing_key: false,
            editing_value: false,
            edit_buffer: self.edit_buffer,
            ..old
        })
    }

    /// The keys the editor can take: the selection can move down, a new
    /// variable can be counted, and the selected variable exists when one is deleted.
    pub open spec fn key_defined(self, key: Seq<char>) -> bool {
        self.visible && self.environment is Some ==> {
            &&& (key == "j"@ || key == "Down"@ ==> self.selected_index < usize::MAX)
            &&& (key == "o"@ ==> self.vars().len() < usize::MAX)
            &&& (key == "d"@ && self.vars().len() > 0 ==> self.selected_index < self.vars().len())
        }
    }

    /// What a key does, from `old`, with the events it gives.
    pub open spec fn key_step(self, old: EnvironmentEditor, key: Seq<char>, events: Seq<Signal>) -> bool {
        let vs = old.vars();
        let n = vs.len() as int;
        let sel = old.selected_index as int;
        if !old.visible {
            events == Seq::<Signal>::empty() && self == old
        } else if key == "Esc"@ || key == "q"@ {
            events == seq![Signal::EnvironmentEditOpened(Seq::empty())] && self.closed_from(old)
        } else if key == "Ctrl+s"@ {
            &&& events == match old.environment {
                Some(e) => seq![Signal::EnvironmentUpdated(e.id@)],
                None => Seq::<Signal>::empty(),
            }
            &&& self.closed_from(old)
        } else {
            &&& events == Seq::<Signal>::empty()
            &&& if key == "j"@ || key == "Down"@ {
                self == (EnvironmentEditor { selected_index: (if sel + 1 < n { sel + 1 } else { sel }) as usize, ..old })
            } else if key == "k"@ || key == "Up"@ {
                self == (EnvironmentEditor { selected_index: (if sel > 0 { sel - 1 } else { 0 }) as usize, ..old })
            } else if key == "i"@ || key == "a"@ || key == "v"@ {
                let on_value = key == "v"@;
                if sel < n {
                    &&& self.edit_buffer@ == if on_value { vs[sel].1 } else { vs[sel].0 }
                    &&& self == (EnvironmentEditor {
                        editing_key: !on_value,
                        editing_value: on_value,
                        edit_buffer: self.edit_buffer,
                        ..old
                    })
                } else {
                    self == (EnvironmentEditor { editing_key: false, editing_value: false, ..old })
                }
            } else if key == "o"@ {
                match old.environment {
                    Some(e) => {
                        &&& holds(self.environment, e, vs.push((new_key((n + 1) as nat), Seq::empty(), true)))
                        &&& self.edit_buffer@ == new_key((n + 1) as nat)
                        &&& self == (EnvironmentEditor {
                            environment: self.environment,
                            selected_index: n as usize,
                            edit_buffer: self.edit_buffer,
                            editing_key: true,
                            ..old
                        })
                    },
                    None => self == old,
                }
            } else if key == "d"@ {
                match old.environment {
                    Some(e) => if n > 0 {
                        let rest = without_key(vs, vs[sel].0);
                        let last = if rest.len() > 0 { rest.len() - 1 } else { 0 };
                        &&& holds(self.environment, e, rest)
                        &&& self == (EnvironmentEditor {
                            environment: self.environment,
                            selected_index: (if sel < last { sel } else { last }) as usize,
                            ..old
                        })
                    } else {
                        self == old
                    },
                    None => self == old,
                }
            } else if key == "Enter"@ {
                match old.environment {
                    Some(e) => {
                        let b = old.edit_buffer@;
                        if old.editing_key || old.editing_value {
                            let changed = if sel < n {
                                vs.update(
                                    sel,
                                    if old.editing_key { (b, vs[sel].1, vs[sel].2) } else { (vs[sel].0, b, vs[sel].2) },
                                )
                            } else {
                                vs
                            };
                            &&& holds(self.environment, e, changed)
                            &&& self.edit_buffer@ == Seq::<char>::empty()
                            &&& self == (EnvironmentEditor {
                                environment: self.environment,
                                editing_key: false,
                                editing_value: old.editing_key && old.editing_value,
                                edit_buffer: self.edit_buffer,
                                ..old
                            })
                        } else {
                            &&& holds(
                                self.environment,
                                e,
                                if sel < n { vs.update(sel, (vs[sel].0, vs[sel].1, !vs[sel].2)) } else { vs },
                            )
                            &&& self == (EnvironmentEditor { environment: self.environment, ..old })
                        }
                    },
                    None => self == old,
                }
            } else if old.editing_key || old.editing_value {
                let typed = key.len() == 1 && (key[0] as u32) < 128;
                &&& self.edit_buffer@ == if typed {
                    old.edit_buffer@ + key
                } else if key == "Backspace"@ && old.edit_buffer@.len() > 0 {
                    old.edit_buffer@.drop_last()
                } else {
                    old.edit_buffer@
                }
                &&& self == (EnvironmentEditor { edit_buffer: self.edit_buffer, ..old })
            } else {
                self == old
            }
        }
    }

    /// A closed editor.
    pub fn new() -> (r: EnvironmentEditor)
        ensures
            !r.visible,
            r.environment is None,
            r.selected_index == 0,
            !r.editing_key,
            !r.editing_value,
            r.edit_buffer@ == Seq::<char>::empty(),
            r.focused_field == 0,
    {
        EnvironmentEditor {
            visible: false,
            environment: None,
            selected_index: 0,
            editing_key: false,
            editing_value: false,
            edit_buffer: String::new(),
            focused_field: 0,
        }
    }

    /// Opens the editor on `env`, with its first variable selected.
    pub fn open(&mut self, env: Environment)
        ensures
            final(self).edit_buffer@ == Seq::<char>::empty(),
            *final(self) == (EnvironmentEditor {
                visible: true,
                environment: Some(env),
                selected_index: 0,
                editing_key: false,
                editing_value: false,
                edit_buffer: final(self).edit_buffer,
                ..*old(self)
            }),
    {
        self.visible = true;
        self.environment = Some(env);
        self.selected_index = 0;
        self.editing_key = false;
        self.editing_value = false;
        self.edit_buffer = String::new();
    }

    /// Closes the editor and lets go of the environment.
    pub fn close(&mut self)
        ensures
            final(self).closed_from(*old(self)),
    {
        self.visible = false;
        self.environment = None;
        self.editing_key = false;
        self.editing_value = false;
        self.edit_buffer = String::new();
    }

    pub fn is_open(&self) -> (r: bool)
        ensures
            r == self.visible,
    {
        self.visible
    }

    /// Hands out the environment, leaving none.
    pub fn take_environment(&mut self) -> (r: Option<Environment>)
        ensures
            r == old(self).environment,
            *final(self) == (EnvironmentEditor { environment: None, ..*old(self) }),
    {
        self.environment.take()
    }

    /// Handles a key, named as in `Esc`, `Down`, `Ctrl+s` or a typed
    /// character: moves the selection, starts or ends editing a key or value,
    /// adds, deletes or toggles a variable, saves or closes. Gives the events
    /// for the application.
    pub fn handle_key(&mut self, key: &str) -> (events: Vec<AppEvent>)
        requires
            old(self).key_defined(key@),
        ensures
            final(self).key_step(*old(self), key@, signals(events@)),
    {
        let mut events: Vec<AppEvent> = Vec::new();
        if !self.visible {
            proof { assert(signals(events@) =~= Seq::<Signal>::empty()); }
            return events;
        }
        if str_eq(key, "Esc") || str_eq(key, "q") {
            self.close();
            events.push(AppEvent::EnvironmentEditOpened { id: String::new() });
            proof { assert(signals(events@) =~= seq![Signal::EnvironmentEditOpened(Seq::empty())]); }
            return events;
        }
        if str_eq(key, "Ctrl+s") {
            match &self.environment {
                Some(env) => {
                    events.push(AppEvent::EnvironmentUpdated { id: env.id.clone() });
                    proof { assert(signals(events@) =~= seq![Signal::EnvironmentUpdated(env.id@)]); }
                },
                None => {
                    proof { assert(signals(events@) =~= Seq::<Signal>::empty()); }
                },
            }
            self.close();
            return events;
        }
        proof { assert(signals(events@) =~= Seq::<Signal>::empty()); }
        let n = match &self.environment {
            Some(env) => env.variables.len(),
            None => 0,
        };
        proof { assert(self.vars().len() == n); }
        if str_eq(key, "j") || str_eq(key, "Down") {
            if self.selected_index < n && n - self.selected_index > 1 {
                self.selected_index += 1;
            }
        } else if str_eq(key, "k") || str_eq(key, "Up") {
            self.selected_index = self.selected_index.saturating_sub(1);
        } else if str_eq(key, "i") || str_eq(key, "a") || str_eq(key, "v") {
            let on_value = str_eq(key, "v");
            self.editing_key = false;
            self.editing_value = false;
            if self.selected_index < n {
                match &self.environment {
                    Some(env) => {
                        let var = &env.variables[self.selected_index];
                        proof { assert(var_model(*var) == self.vars()[self.selected_index as int]); }
                        if on_value {
                            self.edit_buffer = var.value.clone();
                            self.editing_value = true;
                        } else {
                            self.edit_buffer = var.key.clone();
                            self.editing_key = true;
                        }
                    },
                    None => {},
                }
            }
        } else if str_eq(key, "o") {
            match self.environment.take() {
                Some(mut env) => {
                    let mut name = copy_str("var_");
                    push_decimal(&mut name, (n + 1) as u64);
                    let buffer = name.clone();
                    env.add_variable(EnvironmentVariable::new(name, String::new()));
                    self.selected_index = n;
                    self.edit_buffer = buffer;
                    self.editing_key = true;
                    self.environment = Some(env);
                },
                None => {},
            }
        } else if str_eq(key, "d") {
            match self.environment.take() {
                Some(mut env) => {
                    if n > 0 {
                        let doomed = env.variables[self.selected_index].key.clone();
                        proof { assert(doomed@ == env.vars()[self.selected_index as int].0); }
                        env.remove_variable(&doomed);
                        let left = env.variables.len();
                        proof { assert(left == env.vars().len()); }
                        let last = if left > 0 { left - 1 } else { 0 };
                        if self.selected_index > last {
                            self.selected_index = last;
                        }
                    }
                    self.environment = Some(env);
                },
                None => {},
            }
        } else if str_eq(key, "Enter") {
            match self.environment.take() {
                Some(mut env) => {
                    let ghost before = env.vars();
                    let i = self.selected_index;
                    if self.editing_key || self.editing_value {
                        if i < n {
                            let old_var = &env.variables[i];
                            let var = if self.editing_key {
                                EnvironmentVariable {
                                    key: self.edit_buffer.clone(),
                                    value: old_var.value.clone(),
                                    enabled: old_var.enabled,
                                }
                            } else {
                                EnvironmentVariable {
                                    key: old_var.key.clone(),
                                    value: self.edit_buffer.clone(),
                                    enabled: old_var.enabled,
                                }
                            };
                            env.variables.set(i, var);
                            proof { assert(env.vars() =~= before.update(i as int, var_model(var))); }
                        }
                        if self.editing_key {
                            self.editing_key = false;
                        } else {
                            self.editing_value = false;
                        }
                        self.edit_buffer = String::new();
                    } else if i < n {
                        let old_var = &env.variables[i];
                        let var = EnvironmentVariable {
                            key: old_var.key.clone(),
                            value: old_var.value.clone(),
                            enabled: !old_var.enabled,
                        };
                        env.variables.set(i, var);
                        proof { assert(env.vars() =~= before.update(i as int, var_model(var))); }
                    }
                    self.environment = Some(env);
                },
                None => {},
            }
        } else if self.editing_key || self.editing_value {
            let cs = chars_of(key);
            if cs.len() == 1 && (cs[0] as u32) < 128 {
                let ghost before = self.edit_buffer@;
                push_char(&mut self.edit_buffer, cs[0]);
                proof {
                    assert(key@ =~= seq![cs@[0]]);
                    assert(self.edit_buffer@ =~= before + key@);
                }
            } else if str_eq(key, "Backspace") {
                pop_char(&mut self.edit_buffer);
            }
        }
        events
    }
}

impl Default for EnvironmentEditor {
    fn default() -> (r: EnvironmentEditor)
        ensures
            !r.visible,
            r.environment is None,
            r.selected_index == 0,
            !r.editing_key,
            !r.editing_value,
            r.edit_buffer@ == Seq::<char>::empty(),
    {
        EnvironmentEditor::new()
    }
}


/// A row of the variable list, and whether it is the selected one.
pub struct EditorRow {
    pub spans: Vec<StyledSpan>,
    pub selected: bool,
}

impl EnvironmentEditor {
    /// The pieces drawn for variable `idx` (key, value, used): a mark for
    /// whether it is used, the key, `=` and the value; the text being edited
    /// stands in for the key or value of the selected variable.
    pub open spec fn row_spans(self, idx: int, var: (Seq<char>, Seq<char>, bool), theme: Theme) -> Seq<
        (Seq<char>, Option<ColorDef>, Option<ColorDef>, bool),
    > {
        let selected = idx == self.selected_index;
        let key_text = if self.editing_key && selected { self.edit_buffer@ } else { var.0 };
        let value_text = if self.editing_value && selected { self.edit_buffer@ } else { var.1 };
        seq![
            (
                " "@ + (if var.2 { "✓"@ } else { "✗"@ }) + " "@,
                Some(if var.2 { theme.semantic.success } else { theme.semantic.error }),
                None,
                false,
            ),
            (" "@ + key_text + " "@, Some(theme.semantic.warning), None, true),
            (" = "@, Some(theme.pane.muted), None, false),
            if selected && !self.editing_key && self.editing_value {
                (self.edit_buffer@, Some(theme.semantic.info), None, true)
            } else {
                (value_text, Some(theme.foreground), None, false)
            },
        ]
    }

    /// The rows of the first `max_items` variables.
    pub fn rows(&self, max_items: usize, theme: &Theme) -> (r: Vec<EditorRow>)
        ensures
            r@.len() == if self.vars().len() < max_items { self.vars().len() as int } else { max_items as int },
            forall|i: int|
                0 <= i < r@.len() ==> styled_view((#[trigger] r@[i]).spans@) == self.row_spans(i, self.vars()[i], *theme)
                    && r@[i].selected == (i == self.selected_index),
    {
        let mut out: Vec<EditorRow> = Vec::new();
        match &self.environment {
            None => {},
            Some(env) => {
                let n = env.variables.len();
                let count = if n < max_items { n } else { max_items };
                let mut i: usize = 0;
                while i < count
                    invariant
                        count <= n == self.vars().len(),
                        count == if n < max_items { n } else { max_items },
                        self.environment == Some(*env),
                        i <= count,
                        out@.len() == i,
                        forall|j: int|
                            0 <= j < i ==> styled_view((#[trigger] out@[j]).spans@) == self.row_spans(
                                j,
                                self.vars()[j],
                                *theme,
                            ) && out@[j].selected == (j == self.selected_index),
                    decreases count - i,
                {
                    let var = &env.variables[i];
                    proof { assert(var_model(*var) == self.vars()[i as int]); }
                    let selected = i == self.selected_index;
                    let mut mark = copy_str(" ");
                    push_str(&mut mark, if var.enabled { "✓" } else { "✗" });
                    push_str(&mut mark, " ");
                    let mut key_text = copy_str(" ");
                    push_str(&mut key_text, if self.editing_key && selected { &self.edit_buffer } else { &var.key });
                    push_str(&mut key_text, " ");
                    let last = if selected && !self.editing_key && self.editing_value {
                        StyledSpan { text: self.edit_buffer.clone(), fg: Some(theme.semantic.info), bg: None, bold: true }
                    } else {
                        let value_text = if self.editing_value && selected {
                            self.edit_buffer.clone()
                        } else {
                            var.value.clone()
                        };
                        StyledSpan { text: value_text, fg: Some(theme.foreground), bg: None, bold: false }
                    };
                    let mut spans: Vec<StyledSpan> = Vec::new();
                    spans.push(StyledSpan {
                        text: mark,
                        fg: Some(if var.enabled { theme.semantic.success } else { theme.semantic.error }),
                        bg: None,
                        bold: false,
                    });
                    spans.push(StyledSpan { text: key_text, fg: Some(theme.semantic.warning), bg: None, bold: true });
                    spans.push(StyledSpan { text: copy_str(" = "), fg: Some(theme.muted_color()), bg: None, bold: false });
                    spans.push(last);
                    proof { assert(styled_view(spans@) =~= self.row_spans(i as int, self.vars()[i as int], *theme)); }
                    let ghost before = out@;
                    out.push(EditorRow { spans, selected });
                    proof {
                        assert forall|j: int| 0 <= j < i + 1 implies styled_view((#[trigger] out@[j]).spans@)
                            == self.row_spans(j, self.vars()[j], *theme) && out@[j].selected == (j
                            == self.selected_index) by {
                            if j < i {
                                assert(out@[j] == before[j]);
                            }
                        }
                    }
                    i += 1;
                }
            },
        }
        out
    }
}

} // verus!
