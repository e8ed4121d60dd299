//! Verified core of a terminal HTTP client: workflow graphs, variable
//! substitution, input handling and the state of the terminal panes.

pub mod command_palette;
pub mod digraph;
pub mod editor;
pub mod engine;
pub mod environment_editor;
pub mod environments;
pub mod graph;
pub mod input;
pub mod json;
pub mod laws;
pub mod layout;
pub mod logs_pane;
pub mod matching;
pub mod request;
pub mod request_edit;
pub mod request_pane;
pub mod response_pane;
pub mod runs;
pub mod settings_pane;
pub mod shell;
pub mod sidebar;
pub mod strmap;
pub mod tab_bar;
pub mod terminal;
pub mod text;
pub mod theme;
pub mod units;
pub mod variables;
pub mod virtual_scroll;
pub mod widgets;
pub mod workflow_pane;
