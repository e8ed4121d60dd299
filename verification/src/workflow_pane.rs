use vstd::prelude::*;

use crate::engine::WorkflowState;
use crate::graph::Workflow;
use crate::input::{Key, KeyPress};
use crate::json::{json_text, JsonValue};
use crate::strmap::{lemma_assoc_dom, lemma_assoc_lookup, unique_keys, StrMap};
use crate::text::copy_str;
use crate::theme::{ColorDef, Theme};

verus! {

/// The tabs of the workflow pane.
#[derive(Debug, Clone, Copy, PartialEq, Eq, Structural)]
pub enum WorkflowTab {
    Graph,
    Nodes,
    Variables,
}

impl WorkflowTab {
    /// Every variant, in order.
    pub fn all() -> (r: Vec<WorkflowTab>)
        ensures
            r@ == seq![WorkflowTab::Graph, WorkflowTab::Nodes, WorkflowTab::Variables],
    {
        let mut v: Vec<WorkflowTab> = Vec::new();
        v.push(WorkflowTab::Graph);
        v.push(WorkflowTab::Nodes);
        v.push(WorkflowTab::Variables);
        v
    }

    /// The label shown for the variant.
    pub open spec fn label(self) -> Seq<char> {
        match self {
            WorkflowTab::Graph => "Graph"@,
            WorkflowTab::Nodes => "Nodes"@,
            WorkflowTab::Variables => "Variables"@,
        }
    }

    /// The label shown for the variant.
    pub fn as_str(&self) -> (r: &'static str)
        ensures
            r@ == self.label(),
    {
        match self {
            WorkflowTab::Graph => "Graph",
            WorkflowTab::Nodes => "Nodes",
            WorkflowTab::Variables => "Variables",
        }
    }
}

/// The part of the workflow pane that has the focus.
#[derive(Debug, Clone, Copy, PartialEq, Eq, Structural)]
pub enum FocusedField {
    Sidebar,
    Tabs,
    TabContent,
}

/// Where a node of a run stands.
#[derive(Debug, Clone, Copy, PartialEq, Eq, Structural)]
pub enum NodeStatus {
    Pending,
    Running,
    Success,
    Error,
}

impl NodeStatus {
    /// The state of a run that the node status corresponds to.
    pub fn to_workflow_state(&self) -> (r: WorkflowState)
        ensures
            r == match self {
                NodeStatus::Pending => WorkflowState::Pending,
                NodeStatus::Running => WorkflowState::Running,
                NodeStatus::Success => WorkflowState::Done,
                NodeStatus::Error => WorkflowState::Failed,
            },
    {
        match self {
            NodeStatus::Pending => WorkflowState::Pending,
            NodeStatus::Running => WorkflowState::Running,
            NodeStatus::Success => WorkflowState::Done,
            NodeStatus::Error => WorkflowState::Failed,
        }
    }

    /// The color of the status in a theme.
    pub fn color(&self, theme: &Theme) -> (r: ColorDef)
        ensures
            r == match self {
                NodeStatus::Pending => theme.foreground,
                NodeStatus::Running => theme.semantic.warning,
                NodeStatus::Success => theme.semantic.success,
                NodeStatus::Error => theme.semantic.error,
            },
    {
        match self {
            NodeStatus::Pending => theme.foreground,
            NodeStatus::Running => theme.semantic.warning,
            NodeStatus::Success => theme.semantic.success,
            NodeStatus::Error => theme.semantic.error,
        }
    }

    /// The label shown for the variant.
    pub open spec fn mark(self) -> Seq<char> {
        match self {
            NodeStatus::Pending => "○"@,
            NodeStatus::Running => "◉"@,
            NodeStatus::Success => "●"@,
            NodeStatus::Error => "✕"@,
        }
    }

    /// The label shown for the variant.
    pub fn symbol(&self) -> (r: &'static str)
        ensures
            r@ == self.mark(),
    {
        match self {
            NodeStatus::Pending => "○",
            NodeStatus::Running => "◉",
            NodeStatus::Success => "●",
            NodeStatus::Error => "✕",
        }
    }
}

/// The rows of the variables tab for a workflow's variables: each name with
/// the JSON text of its value, in the order the names were first set.
pub open spec fn variable_rows(es: Seq<(Seq<char>, JsonValue)>) -> Seq<(Seq<char>, Seq<char>)> {
    es.map_values(|e: (Seq<char>, JsonValue)| (e.0, json_text(e.1.model())))
}

/// Pairs of strings taken as character sequences.
pub open spec fn string_pairs(v: Seq<(String, String)>) -> Seq<(Seq<char>, Seq<char>)> {
    v.map_values(|p: (String, String)| (p.0@, p.1@))
}

/// An optional string taken as an optional character sequence.
pub open spec fn text_of(o: Option<String>) -> Option<Seq<char>> {
    match o {
        Some(s) => Some(s@),
        None => None,
    }
}

/// The workflow pane: a list of workflows, and for the selected one its graph,
/// its nodes with the status of each in a run, and its variables.
pub struct WorkflowPane {
    pub workflows: Vec<Workflow>,
    pub selected_workflow: usize,
    pub selected_tab: usize,
    pub focused_field: FocusedField,
    pub sidebar_visible: bool,
    /// The row selected in the list of workflows.
    pub sidebar_selected: Option<usize>,
    /// The row selected in the list of nodes.
    pub node_selected: Option<usize>,
    pub selected_node: Option<String>,
    pub node_statuses: StrMap<NodeStatus>,
    pub workflow_state: WorkflowState,
    pub execution_result: Option<String>,
    pub graph_offset_x: u16,
    /// The row selected in the list of variables.
    pub variable_selected: Option<usize>,
    pub variables: Vec<(String, String)>,
}

impl WorkflowPane {
    /// The variable rows shown, as character sequences.
    pub open spec fn rows(&self) -> Seq<(Seq<char>, Seq<char>)> {
        string_pairs(self.variables@)
    }

    /// The rows the variables tab shows for the workflow at `index`, or none
    /// where there is no such workflow.
    pub open spec fn rows_for(&self, index: int) -> Seq<(Seq<char>, Seq<char>)> {
        if 0 <= index < self.workflows@.len() {
            variable_rows(self.workflows@[index].variables.entries())
        } else {
            Seq::empty()
        }
    }

    /// The ids of the nodes of the workflow at `index`, in the order they were added.
    pub open spec fn node_ids(&self, index: int) -> Seq<Seq<char>> {
        self.workflows@[index].nodes.keys()
    }

    /// The variable row selected once the variables are listed again.
    pub open spec fn relisted_selection(self) -> Option<usize> {
        if self.rows_for(self.selected_workflow as int).len() > 0 {
            Some(0usize)
        } else {
            self.variable_selected
        }
    }

    /// The pane after the variables were listed again for the selected workflow.
    pub open spec fn relisted(self, rows: Seq<(Seq<char>, Seq<char>)>, selected: Option<usize>) -> bool {
        &&& rows == self.rows_for(self.selected_workflow as int)
        &&& selected == self.relisted_selection()
    }

    /// What selecting the workflow at `index` does to the pane, `index` being in range:
    /// the run is reset, the variables are listed again and the first node, if
    /// any, is selected.
    pub open spec fn selects(self, old: WorkflowPane, index: int) -> bool {
        let w = old.workflows@[index];
        &&& self.workflows == old.workflows
        &&& self.selected_workflow == index
        &&& self.sidebar_selected == Some(index as usize)
        &&& self.node_statuses@ == Map::<Seq<char>, NodeStatus>::empty()
        &&& self.workflow_state == WorkflowState::Pending
        &&& self.execution_result is None
        &&& self.rows() == old.rows_for(index)
        &&& self.variable_selected == (if old.rows_for(index).len() > 0 {
            Some(0usize)
        } else {
            old.variable_selected
        })
        &&& if w.nodes.keys().len() > 0 {
            text_of(self.selected_node) == Some(w.nodes.keys()[0]) && self.node_selected == Some(0usize)
        } else {
            self.selected_node is None && self.node_selected == old.node_selected
        }
        &&& self.selected_tab == old.selected_tab
        &&& self.focused_field == old.focused_field
        &&& self.sidebar_visible == old.sidebar_visible
        &&& self.graph_offset_x == old.graph_offset_x
    }

    /// A pane with no workflows, the focus on the list of workflows.
    pub fn new() -> (r: Self)
        ensures
            r.workflows@.len() == 0,
            r.selected_workflow == 0,
            r.selected_tab == 0,
            r.focused_field == FocusedField::Sidebar,
            r.sidebar_visible,
            r.sidebar_selected == Some(0usize),
            r.node_selected == Some(0usize),
            r.variable_selected == Some(0usize),
            r.selected_node is None,
            r.node_statuses@ == Map::<Seq<char>, NodeStatus>::empty(),
            r.workflow_state == WorkflowState::Pending,
            r.execution_result is None,
            r.graph_offset_x == 0,
            r.variables@.len() == 0,
    {
        WorkflowPane {
            workflows: Vec::new(),
            selected_workflow: 0,
            selected_tab: 0,
            focused_field: FocusedField::Sidebar,
            sidebar_visible: true,
            sidebar_selected: Some(0),
            node_selected: Some(0),
            selected_node: None,
            node_statuses: StrMap::new(),
            workflow_state: WorkflowState::Pending,
            execution_result: None,
            graph_offset_x: 0,
            variable_selected: Some(0),
            variables: Vec::new(),
        }
    }

    /// Lists the variables of the selected workflow again.
    fn update_variables(&mut self)
        ensures
            old(self).relisted(final(self).rows(), final(self).variable_selected),
            *final(self) == (WorkflowPane {
                variables: final(self).variables,
                variable_selected: final(self).variable_selected,
                ..*old(self)
            }),
    {
        let mut rows: Vec<(String, String)> = Vec::new();
        if self.selected_workflow < self.workflows.len() {
            let w = &self.workflows[self.selected_workflow];
            let n = w.variables.len();
            let mut i: usize = 0;
            while i < n
                invariant
                    n == w.variables.entries().len(),
                    i <= n,
                    string_pairs(rows@) == variable_rows(w.variables.entries().take(i as int)),
                decreases n - i,
            {
                let (k, v) = w.variables.entry_at(i);
                let text = v.to_json_string();
                let key = k.clone();
                proof { assert(key@ == k@); }
                let ghost before = rows@;
                rows.push((key, text));
                proof {
                    assert(rows@ =~= before.push((key, text)));
                    assert(string_pairs(rows@) =~= string_pairs(before).push((key@, text@)));
                    assert(w.variables.entries().take(i + 1) =~= w.variables.entries().take(i as int).push(
                        w.variables.entries()[i as int],
                    ));
                    assert(string_pairs(rows@) =~= variable_rows(w.variables.entries().take(i + 1)));
                }
                i += 1;
            }
            proof { assert(w.variables.entries().take(n as int) =~= w.variables.entries()); }
        } else {
            proof { assert(string_pairs(rows@) =~= Seq::<(Seq<char>, Seq<char>)>::empty()); }
        }
        self.variables = rows;
        if self.variables.len() > 0 {
            self.variable_selected = Some(0);
        }
    }

    /// Selects the workflow at `index`, where there is one.
    fn select_workflow(&mut self, index: usize)
        ensures
            index < old(self).workflows@.len() ==> final(self).selects(*old(self), index as int),
            index >= old(self).workflows@.len() ==> *final(self) == *old(self),
    {
        if index < self.workflows.len() {
            self.selected_workflow = index;
            self.sidebar_selected = Some(index);
            self.selected_node = None;
            self.node_statuses = StrMap::new();
            self.workflow_state = WorkflowState::Pending;
            self.execution_result = None;
            self.update_variables();
            let w = &self.workflows[index];
            if !w.nodes.is_empty() {
                let (first, _) = w.nodes.entry_at(0);
                self.selected_node = Some(first.clone());
                self.node_selected = Some(0);
            }
        }
    }

    /// The pane showing `workflows`, the first of them selected.
    pub fn with_workflows(self, workflows: Vec<Workflow>) -> (r: Self)
        ensures
            workflows@.len() > 0 ==> r.selects(
                WorkflowPane {
                    workflows,
                    variable_selected: (WorkflowPane { workflows, ..self }).relisted_selection(),
                    ..self
                },
                0,
            ),
            workflows@.len() == 0 ==> r == (WorkflowPane {
                workflows,
                variables: r.variables,
                variable_selected: r.variable_selected,
                ..self
            }) && (WorkflowPane { workflows, ..self }).relisted(r.rows(), r.variable_selected),
    {
        let mut pane = self;
        pane.workflows = workflows;
        pane.update_variables();
        if pane.workflows.len() > 0 {
            pane.select_workflow(0);
        }
        pane
    }

    /// The pane with `workflow` added at the end of the list; the first
    /// workflow added is selected.
    pub fn with_workflow(self, workflow: Workflow) -> (r: Self)
        ensures
            r.workflows@ == self.workflows@.push(workflow),
            self.workflows@.len() == 0 ==> r.selects(
                WorkflowPane {
                    workflows: r.workflows,
                    variable_selected: (WorkflowPane { workflows: r.workflows, ..self }).relisted_selection(),
                    ..self
                },
                0,
            ),
            self.workflows@.len() > 0 ==> r == (WorkflowPane {
                workflows: r.workflows,
                variables: r.variables,
                variable_selected: r.variable_selected,
                ..self
            }) && (WorkflowPane { workflows: r.workflows, ..self }).relisted(r.rows(), r.variable_selected),
    {
        let mut pane = self;
        pane.add_workflow(workflow);
        pane
    }

    /// Adds `workflow` at the end of the list; the first workflow added is selected.
    pub fn add_workflow(&mut self, workflow: Workflow)
        ensures
            final(self).workflows@ == old(self).workflows@.push(workflow),
            old(self).workflows@.len() == 0 ==> final(self).selects(
                WorkflowPane {
                    workflows: final(self).workflows,
                    variable_selected: (WorkflowPane {
                        workflows: final(self).workflows,
                        ..*old(self)
                    }).relisted_selection(),
                    ..*old(self)
                },
                0,
            ),
            old(self).workflows@.len() > 0 ==> *final(self) == (WorkflowPane {
                workflows: final(self).workflows,
                variables: final(self).variables,
                variable_selected: final(self).variable_selected,
                ..*old(self)
            }) && (WorkflowPane { workflows: final(self).workflows, ..*old(self) }).relisted(
                final(self).rows(),
                final(self).variable_selected,
            ),
    {
        self.workflows.push(workflow);
        self.update_variables();
        if self.workflows.len() == 1 {
            self.select_workflow(0);
        }
    }

    /// Whether a key can be handled in the pane's present state: the selected
    /// workflow and tab exist, and no step would go past the end of a list or
    /// of the scroll offset.
    pub open spec fn key_defined(&self, key: Key) -> bool {
        self.workflows@.len() > 0 && self.focused_field == FocusedField::TabContent ==> {
            &&& self.selected_tab < 3
            &&& self.selected_workflow < self.workflows@.len()
            &&& (self.selected_tab == 0 && key == Key::Right ==> self.graph_offset_x < u16::MAX)
            &&& (self.selected_tab == 1 && key == Key::Down && self.node_selected is Some
                ==> self.node_ids(self.selected_workflow as int).len() > 0)
            &&& (self.selected_tab == 2 && key == Key::Down && self.variable_selected is Some
                ==> self.variables@.len() > 0)
        }
    }

    /// Handles a key. Gives back whether the pane used it; a pane with no
    /// workflows uses none.
    pub fn handle_key(&mut self, key: &KeyPress) -> (r: bool)
        requires
            old(self).key_defined(key.code),
        ensures
            old(self).workflows@.len() == 0 ==> !r && *final(self) == *old(self),
            old(self).workflows@.len() > 0 && old(self).focused_field == FocusedField::Sidebar
                ==> final(self).sidebar_step(*old(self), key.code, r),
            old(self).workflows@.len() > 0 && old(self).focused_field == FocusedField::Tabs
                ==> final(self).tabs_step(*old(self), key.code, r),
            old(self).workflows@.len() > 0 && old(self).focused_field == FocusedField::TabContent
                && old(self).selected_tab == 0 ==> final(self).graph_step(*old(self), key.code, r),
            old(self).workflows@.len() > 0 && old(self).focused_field == FocusedField::TabContent
                && old(self).selected_tab == 1 ==> final(self).nodes_step(*old(self), key.code, r),
            old(self).workflows@.len() > 0 && old(self).focused_field == FocusedField::TabContent
                && old(self).selected_tab == 2 ==> final(self).variables_step(*old(self), key.code, r),
    {
        if self.workflows.len() == 0 {
            return false;
        }
        match self.focused_field {
            FocusedField::Sidebar => self.handle_sidebar_key(&key.code),
            FocusedField::Tabs => self.handle_tabs_key(&key.code),
            FocusedField::TabContent => {
                if self.selected_tab == 0 {
                    self.handle_graph_key(&key.code)
                } else if self.selected_tab == 1 {
                    self.handle_nodes_key(&key.code)
                } else {
                    self.handle_variables_key(&key.code)
                }
            },
        }
    }

    /// The pane with the list of workflows shown or hidden.
    pub open spec fn toggled(self) -> WorkflowPane {
        WorkflowPane { sidebar_visible: !self.sidebar_visible, ..self }
    }

    /// The pane with the focus moved to `f`.
    pub open spec fn focused_on(self, f: FocusedField) -> WorkflowPane {
        WorkflowPane { focused_field: f, ..self }
    }

    /// A key handled while the list of workflows has the focus.
    pub open spec fn sidebar_step(self, old: WorkflowPane, key: Key, r: bool) -> bool {
        let sel = old.selected_workflow as int;
        match key {
            Key::Up => r && (if 0 < sel <= old.workflows@.len() {
                self.selects(old, sel - 1)
            } else {
                self == old
            }),
            Key::Down => r && (if sel < old.workflows@.len() - 1 {
                self.selects(old, sel + 1)
            } else {
                self == old
            }),
            Key::Right | Key::Enter | Key::Tab => r && self == old.focused_on(FocusedField::Tabs),
            Key::Char('s') => r && self == old.toggled(),
            _ => !r && self == old,
        }
    }

    fn handle_sidebar_key(&mut self, key: &Key) -> (r: bool)
        requires
            old(self).workflows@.len() > 0,
        ensures
            final(self).sidebar_step(*old(self), *key, r),
    {
        match key {
            Key::Up => {
                if self.selected_workflow > 0 {
                    self.select_workflow(self.selected_workflow - 1);
                }
                true
            },
            Key::Down => {
                if self.selected_workflow < self.workflows.len() - 1 {
                    self.select_workflow(self.selected_workflow + 1);
                }
                true
            },
            Key::Right | Key::Enter | Key::Tab => {
                self.focused_field = FocusedField::Tabs;
                true
            },
            Key::Char('s') => {
                self.sidebar_visible = !self.sidebar_visible;
                true
            },
            _ => false,
        }
    }

    /// A key handled while the tab titles have the focus.
    pub open spec fn tabs_step(self, old: WorkflowPane, key: Key, r: bool) -> bool {
        match key {
            Key::Left => r && (if old.selected_tab == 0 {
                self == old.focused_on(FocusedField::Sidebar)
            } else {
                self == (WorkflowPane { selected_tab: (old.selected_tab - 1) as usize, ..old })
            }),
            Key::Right => r && (if old.selected_tab >= 2 {
                self == old.focused_on(FocusedField::TabContent)
            } else {
                self == (WorkflowPane { selected_tab: (old.selected_tab + 1) as usize, ..old })
            }),
            Key::Down | Key::Enter => r && self == old.focused_on(FocusedField::TabContent),
            Key::Up => r && self == old.focused_on(FocusedField::Sidebar),
            Key::Char('s') => r && self == old.toggled(),
            _ => !r && self == old,
        }
    }

    fn handle_tabs_key(&mut self, key: &Key) -> (r: bool)
        ensures
            final(self).tabs_step(*old(self), *key, r),
    {
        match key {
            Key::Left => {
                if self.selected_tab == 0 {
                    self.focused_field = FocusedField::Sidebar;
                } else {
                    self.selected_tab = self.selected_tab - 1;
                }
                true
            },
            Key::Right => {
                if self.selected_tab >= 2 {
                    self.focused_field = FocusedField::TabContent;
                } else {
                    self.selected_tab = self.selected_tab + 1;
                }
                true
            },
            Key::Down | Key::Enter => {
                self.focused_field = FocusedField::TabContent;
                true
            },
            Key::Up => {
                self.focused_field = FocusedField::Sidebar;
                true
            },
            Key::Char('s') => {
                self.sidebar_visible = !self.sidebar_visible;
                true
            },
            _ => false,
        }
    }

    /// The statuses after a run of the nodes `ids` started: each of them is running.
    pub open spec fn all_running(m: Map<Seq<char>, NodeStatus>, ids: Seq<Seq<char>>) -> Map<Seq<char>, NodeStatus>
        decreases ids.len(),
    {
        if ids.len() == 0 {
            m
        } else {
            Self::all_running(m, ids.drop_last()).insert(ids.last(), NodeStatus::Running)
        }
    }

    /// What starting a run of every node of the selected workflow does.
    pub open spec fn runs_all(self, old: WorkflowPane) -> bool {
        &&& self == (WorkflowPane {
            node_statuses: self.node_statuses,
            workflow_state: WorkflowState::Running,
            ..old
        })
        &&& self.node_statuses@ == Self::all_running(
            old.node_statuses@,
            old.node_ids(old.selected_workflow as int),
        )
    }

    /// A key handled in the graph tab.
    pub open spec fn graph_step(self, old: WorkflowPane, key: Key, r: bool) -> bool {
        match key {
            Key::Up => r && self == old.focused_on(FocusedField::Tabs),
            Key::Left => r && self == (WorkflowPane {
                graph_offset_x: if old.graph_offset_x > 0 { (old.graph_offset_x - 1) as u16 } else { 0 },
                ..old
            }),
            Key::Right => r && self == (WorkflowPane { graph_offset_x: (old.graph_offset_x + 1) as u16, ..old }),
            Key::Char('r') => r && self.runs_all(old),
            Key::Char('s') => r && self == old.toggled(),
            _ => !r && self == old,
        }
    }

    fn handle_graph_key(&mut self, key: &Key) -> (r: bool)
        requires
            old(self).selected_workflow < old(self).workflows@.len(),
            *key == Key::Right ==> old(self).graph_offset_x < u16::MAX,
        ensures
            final(self).graph_step(*old(self), *key, r),
    {
        match key {
            Key::Up => {
                self.focused_field = FocusedField::Tabs;
                true
            },
            Key::Left => {
                self.graph_offset_x = self.graph_offset_x.saturating_sub(1);
                true
            },
            Key::Right => {
                self.graph_offset_x = self.graph_offset_x + 1;
                true
            },
            Key::Char('r') => {
                self.run_all();
                true
            },
            Key::Char('s') => {
                self.sidebar_visible = !self.sidebar_visible;
                true
            },
            _ => false,
        }
    }

    /// Marks every node of the selected workflow as running.
    fn run_all(&mut self)
        requires
            old(self).selected_workflow < old(self).workflows@.len(),
        ensures
            final(self).runs_all(*old(self)),
    {
        self.workflow_state = WorkflowState::Running;
        let ghost start = self.node_statuses@;
        let ghost ids = self.node_ids(self.selected_workflow as int);
        let n = self.workflows[self.selected_workflow].nodes.len();
        let mut i: usize = 0;
        while i < n
            invariant
                self.selected_workflow < self.workflows@.len(),
                ids == self.node_ids(self.selected_workflow as int),
                n == ids.len(),
                i <= n,
                self.node_statuses@ == Self::all_running(start, ids.take(i as int)),
                *self == (WorkflowPane {
                    node_statuses: self.node_statuses,
                    workflow_state: WorkflowState::Running,
                    ..*old(self)
                }),
            decreases n - i,
        {
            let (k, _) = self.workflows[self.selected_workflow].nodes.entry_at(i);
            let key = k.clone();
            proof {
                assert(ids.take(i + 1).drop_last() =~= ids.take(i as int));
                assert(key@ == ids[i as int]);
            }
            self.node_statuses.insert(key, NodeStatus::Running);
            i += 1;
        }
        proof { assert(ids.take(n as int) =~= ids); }
    }

    /// Marks the node `node_id` as running.
    fn run_node(&mut self, node_id: &str)
        ensures
            *final(self) == (WorkflowPane {
                node_statuses: final(self).node_statuses,
                workflow_state: WorkflowState::Running,
                ..*old(self)
            }),
            final(self).node_statuses@ == old(self).node_statuses@.insert(node_id@, NodeStatus::Running),
    {
        self.workflow_state = WorkflowState::Running;
        self.node_statuses.insert(copy_str(node_id), NodeStatus::Running);
    }

    /// A key handled in the nodes tab.
    pub open spec fn nodes_step(self, old: WorkflowPane, key: Key, r: bool) -> bool {
        let ids = old.node_ids(old.selected_workflow as int);
        match key {
            Key::Up => r && match old.node_selected {
                Some(i) => if i > 0 {
                    &&& self == (WorkflowPane {
                        node_selected: Some((i - 1) as usize),
                        selected_node: self.selected_node,
                        ..old
                    })
                    &&& text_of(self.selected_node) == (if i - 1 < ids.len() {
                        Some(ids[i - 1])
                    } else {
                        None
                    })
                } else {
                    self == old.focused_on(FocusedField::Tabs)
                },
                None => self == old,
            },
            Key::Down => r && match old.node_selected {
                Some(i) => if i < ids.len() - 1 {
                    &&& self == (WorkflowPane {
                        node_selected: Some((i + 1) as usize),
                        selected_node: self.selected_node,
                        ..old
                    })
                    &&& text_of(self.selected_node) == Some(ids[i + 1])
                } else {
                    self == old
                },
                None => self == old,
            },
            Key::Left => r && self == old.focused_on(FocusedField::Tabs),
            Key::Enter => r && match old.selected_node {
                Some(id) => self == (WorkflowPane {
                    node_statuses: self.node_statuses,
                    workflow_state: WorkflowState::Running,
                    ..old
                }) && self.node_statuses@ == old.node_statuses@.insert(id@, NodeStatus::Running),
                None => self == old,
            },
            Key::Char('s') => r && self == old.toggled(),
            _ => !r && self == old,
        }
    }

    fn handle_nodes_key(&mut self, key: &Key) -> (r: bool)
        requires
            old(self).selected_workflow < old(self).workflows@.len(),
            *key == Key::Down && old(self).node_selected is Some ==> old(self).node_ids(
                old(self).selected_workflow as int,
            ).len() > 0,
        ensures
            final(self).nodes_step(*old(self), *key, r),
    {
        let count = self.workflows[self.selected_workflow].nodes.len();
        match key {
            Key::Up => {
                match self.node_selected {
                    Some(i) => {
                        if i > 0 {
                            self.node_selected = Some(i - 1);
                            if i - 1 < count {
                                let (k, _) = self.workflows[self.selected_workflow].nodes.entry_at(i - 1);
                                self.selected_node = Some(k.clone());
                            } else {
                                self.selected_node = None;
                            }
                        } else {
                            self.focused_field = FocusedField::Tabs;
                        }
                    },
                    None => {},
                }
                true
            },
            Key::Down => {
                match self.node_selected {
                    Some(i) => {
                        if i < count - 1 {
                            self.node_selected = Some(i + 1);
                            let (k, _) = self.workflows[self.selected_workflow].nodes.entry_at(i + 1);
                            self.selected_node = Some(k.clone());
                        }
                    },
                    None => {},
                }
                true
            },
            Key::Left => {
                self.focused_field = FocusedField::Tabs;
                true
            },
            Key::Enter => {
                match self.selected_node.clone() {
                    Some(id) => self.run_node(id.as_str()),
                    None => {},
                }
                true
            },
            Key::Char('s') => {
                self.sidebar_visible = !self.sidebar_visible;
                true
            },
            _ => false,
        }
    }

    /// A key handled in the variables tab.
    pub open spec fn variables_step(self, old: WorkflowPane, key: Key, r: bool) -> bool {
        match key {
            Key::Up => r && match old.variable_selected {
                Some(i) => if i > 0 {
                    self == (WorkflowPane { variable_selected: Some((i - 1) as usize), ..old })
                } else {
                    self == old.focused_on(FocusedField::Tabs)
                },
                None => self == old,
            },
            Key::Down => r && match old.variable_selected {
                Some(i) => if i < old.variables@.len() - 1 {
                    self == (WorkflowPane { variable_selected: Some((i + 1) as usize), ..old })
                } else {
                    self == old
                },
                None => self == old,
            },
            Key::Left => r && self == old.focused_on(FocusedField::Tabs),
            Key::Char('s') => r && self == old.toggled(),
            _ => !r && self == old,
        }
    }

    fn handle_variables_key(&mut self, key: &Key) -> (r: bool)
        requires
            *key == Key::Down && old(self).variable_selected is Some ==> old(self).variables@.len() > 0,
        ensures
            final(self).variables_step(*old(self), *key, r),
    {
        match key {
            Key::Up => {
                match self.variable_selected {
                    Some(i) => {
                        if i > 0 {
                            self.variable_selected = Some(i - 1);
                        } else {
                            self.focused_field = FocusedField::Tabs;
                        }
                    },
                    None => {},
                }
                true
            },
            Key::Down => {
                match self.variable_selected {
                    Some(i) => {
                        if i < self.variables.len() - 1 {
                            self.variable_selected = Some(i + 1);
                        }
                    },
                    None => {},
                }
                true
            },
            Key::Left => {
                self.focused_field = FocusedField::Tabs;
                true
            },
            Key::Char('s') => {
                self.sidebar_visible = !self.sidebar_visible;
                true
            },
            _ => false,
        }
    }

    /// Records the status of a node. The run is done once every recorded
    /// node succeeded, and failed once one of them failed.
    pub fn set_node_status(&mut self, node_id: &str, status: NodeStatus)
        ensures
            final(self).node_statuses@ == old(self).node_statuses@.insert(node_id@, status),
            *final(self) == (WorkflowPane {
                node_statuses: final(self).node_statuses,
                workflow_state: final(self).workflow_state,
                ..*old(self)
            }),
            final(self).workflow_state == (if all_succeeded(final(self).node_statuses@) {
                WorkflowState::Done
            } else if some_failed(final(self).node_statuses@) {
                WorkflowState::Failed
            } else {
                old(self).workflow_state
            }),
    {
        self.node_statuses.insert(copy_str(node_id), status);
        let (all_ok, any_err) = status_summary(&self.node_statuses);
        if all_ok {
            self.workflow_state = WorkflowState::Done;
        } else if any_err {
            self.workflow_state = WorkflowState::Failed;
        }
    }

    pub fn set_workflow_state(&mut self, state: WorkflowState)
        ensures
            *final(self) == (WorkflowPane { workflow_state: state, ..*old(self) }),
    {
        self.workflow_state = state;
    }

    pub fn focused_field(&self) -> (r: FocusedField)
        ensures
            r == self.focused_field,
    {
        self.focused_field
    }

    pub fn set_focused_field(&mut self, field: FocusedField)
        ensures
            *final(self) == old(self).focused_on(field),
    {
        self.focused_field = field;
    }
}

/// Every recorded node succeeded.
pub open spec fn all_succeeded(m: Map<Seq<char>, NodeStatus>) -> bool {
    forall|k: Seq<char>| m.contains_key(k) ==> m[k] == NodeStatus::Success
}

/// Some recorded node failed.
pub open spec fn some_failed(m: Map<Seq<char>, NodeStatus>) -> bool {
    exists|k: Seq<char>| m.contains_key(k) && m[k] == NodeStatus::Error
}

/// Whether every recorded status is a success, and whether one is an error.
fn status_summary(m: &StrMap<NodeStatus>) -> (r: (bool, bool))
    ensures
        r.0 == all_succeeded(m@),
        r.1 == some_failed(m@),
{
    m.keys_are_unique();
    let n = m.len();
    let mut all_ok = true;
    let mut any_err = false;
    let mut i: usize = 0;
    while i < n
        invariant
            n == m.entries().len(),
            unique_keys(m.entries()),
            i <= n,
            all_ok == (forall|j: int| 0 <= j < i ==> m.entries()[j].1 == NodeStatus::Success),
            any_err == (exists|j: int| 0 <= j < i && m.entries()[j].1 == NodeStatus::Error),
        decreases n - i,
    {
        let (_, v) = m.entry_at(i);
        if *v != NodeStatus::Success {
            all_ok = false;
        }
        if *v == NodeStatus::Error {
            any_err = true;
        }
        i += 1;
    }
    proof {
        let s = m.entries();
        assert forall|k: Seq<char>| m@.contains_key(k) implies exists|j: int| 0 <= j < s.len() && s[j].0 == k
            && m@[k] == s[j].1 by {
            lemma_assoc_dom(s, k);
            let j = choose|j: int| 0 <= j < s.len() && s[j].0 == k;
            lemma_assoc_lookup(s, j);
        }
        assert forall|j: int| 0 <= j < s.len() implies m@.contains_key(s[j].0) && m@[s[j].0] == s[j].1 by {
            lemma_assoc_lookup(s, j);
        }
        if all_ok {
            assert forall|k: Seq<char>| m@.contains_key(k) implies m@[k] == NodeStatus::Success by {
                let j = choose|j: int| 0 <= j < s.len() && s[j].0 == k && m@[k] == s[j].1;
            }
        } else {
            let j = choose|j: int| 0 <= j < n && !(s[j].1 == NodeStatus::Success);
            assert(m@.contains_key(s[j].0));
        }
        if any_err {
            let j = choose|j: int| 0 <= j < n && s[j].1 == NodeStatus::Error;
            assert(m@.contains_key(s[j].0));
        } else {
            assert forall|k: Seq<char>| m@.contains_key(k) implies m@[k] != NodeStatus::Error by {
                let j = choose|j: int| 0 <= j < s.len() && s[j].0 == k && m@[k] == s[j].1;
            }
        }
    }
    (all_ok, any_err)
}

} // verus!
