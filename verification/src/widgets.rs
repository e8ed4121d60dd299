use vstd::prelude::*;

use crate::input::byte_len;
use crate::text::{copy_str, push_str, str_eq};
use crate::theme::{BorderType, ColorDef, Theme};

verus! {

/// A list of lines of which one may be selected.
pub struct ScrollableList<'a> {
    pub items: Vec<String>,
    pub selected: Option<usize>,
    pub title: Option<&'a str>,
}

impl<'a> ScrollableList<'a> {
    pub fn new(items: Vec<String>) -> (r: Self)
        ensures
            r.items == items,
            r.selected is None,
            r.title is None,
    {
        ScrollableList { items, selected: None, title: None }
    }

    pub fn with_selected(self, selected: Option<usize>) -> (r: Self)
        ensures
            r.items == self.items,
            r.selected == selected,
            r.title == self.title,
    {
        ScrollableList { items: self.items, selected, title: self.title }
    }

    pub fn with_title(self, title: &'a str) -> (r: Self)
        ensures
            r.items == self.items,
            r.selected == self.selected,
            r.title == Some(title),
    {
        ScrollableList { items: self.items, selected: self.selected, title: Some(title) }
    }
}

/// A table with a header row, rows of cells, a selected row and a column
/// it is sorted by.
pub struct TableWidget<'a> {
    pub headers: Vec<&'a str>,
    pub rows: Vec<Vec<String>>,
    pub selected_row: Option<usize>,
    pub sort_col: Option<usize>,
    pub sort_asc: bool,
}

/// The label of header `h`: marked with an arrow up or down when it reads
/// the same as the header of the sorted column.
pub open spec fn header_label(headers: Seq<Seq<char>>, h: Seq<char>, sort_col: Option<usize>, asc: bool) -> Seq<char> {
    match sort_col {
        Some(col) => if col < headers.len() && headers[col as int] == h {
            h + (if asc { " ▲"@ } else { " ▼"@ })
        } else {
            h
        },
        None => h,
    }
}

impl<'a> TableWidget<'a> {
    pub fn new(headers: Vec<&'a str>) -> (r: Self)
        ensures
            r.headers == headers,
            r.rows@.len() == 0,
            r.selected_row is None,
            r.sort_col is None,
            r.sort_asc,
    {
        TableWidget { headers, rows: Vec::new(), selected_row: None, sort_col: None, sort_asc: true }
    }

    pub fn with_rows(self, rows: Vec<Vec<String>>) -> (r: Self)
        ensures
            r.headers == self.headers,
            r.rows == rows,
            r.selected_row == self.selected_row,
            r.sort_col == self.sort_col,
            r.sort_asc == self.sort_asc,
    {
        TableWidget { headers: self.headers, rows, selected_row: self.selected_row, sort_col: self.sort_col, sort_asc: self.sort_asc }
    }

    pub fn with_selected(self, selected: Option<usize>) -> (r: Self)
        ensures
            r.headers == self.headers,
            r.rows == self.rows,
            r.selected_row == selected,
            r.sort_col == self.sort_col,
            r.sort_asc == self.sort_asc,
    {
        TableWidget { headers: self.headers, rows: self.rows, selected_row: selected, sort_col: self.sort_col, sort_asc: self.sort_asc }
    }

    pub fn with_sort(self, col: Option<usize>, asc: bool) -> (r: Self)
        ensures
            r.headers == self.headers,
            r.rows == self.rows,
            r.selected_row == self.selected_row,
            r.sort_col == col,
            r.sort_asc == asc,
    {
        TableWidget { headers: self.headers, rows: self.rows, selected_row: self.selected_row, sort_col: col, sort_asc: asc }
    }

    /// The texts of the headers, in order.
    pub open spec fn header_texts(&self) -> Seq<Seq<char>> {
        self.headers@.map_values(|h: &str| h@)
    }

    /// The header labels as the table shows them.
    pub fn header_labels(&self) -> (r: Vec<String>)
        ensures
            r@.len() == self.headers@.len(),
            forall|i: int| 0 <= i < r@.len() ==> #[trigger] r@[i]@ == header_label(
                self.header_texts(),
                self.header_texts()[i],
                self.sort_col,
                self.sort_asc,
            ),
    {
        let mut out: Vec<String> = Vec::new();
        let mut i: usize = 0;
        while i < self.headers.len()
            invariant
                i <= self.headers@.len(),
                out@.len() == i,
                forall|j: int| 0 <= j < i ==> #[trigger] out@[j]@ == header_label(
                    self.header_texts(),
                    self.header_texts()[j],
                    self.sort_col,
                    self.sort_asc,
                ),
            decreases self.headers@.len() - i,
        {
            let h = self.headers[i];
            let mut text = copy_str(h);
            let ghost hv = self.header_texts()[i as int];
            proof { assert(h@ == hv); }
            match self.sort_col {
                Some(col) => {
                    if col < self.headers.len() && str_eq(self.headers[col], h) {
                        proof { assert(self.headers[col as int]@ == self.header_texts()[col as int]); }
                        push_str(&mut text, if self.sort_asc { " ▲" } else { " ▼" });
                    } else {
                        proof {
                            if col < self.headers.len() {
                                assert(self.headers[col as int]@ == self.header_texts()[col as int]);
                            }
                        }
                    }
                },
                None => {},
            }
            out.push(text);
            i += 1;
        }
        out
    }

    /// The share of the width each column gets, in percent.
    pub fn column_percent(&self) -> (r: u16)
        ensures
            r == 100nat / (if self.headers@.len() > 1 { self.headers@.len() } else { 1nat }),
    {
        let n = self.headers.len();
        if n > 1 {
            if n > 100 {
                proof {
                    assert(100nat / (n as nat) == 0) by (nonlinear_arith)
                        requires
                            n > 100,
                    ;
                }
                0
            } else {
                (100 / n) as u16
            }
        } else {
            100
        }
    }
}

/// A row of tab titles with one selected.
pub struct TabsWidget<'a> {
    pub titles: Vec<&'a str>,
    pub selected: usize,
}

impl<'a> TabsWidget<'a> {
    pub fn new(titles: Vec<&'a str>) -> (r: Self)
        ensures
            r.titles == titles,
            r.selected == 0,
    {
        TabsWidget { titles, selected: 0 }
    }

    /// Selects tab `selected`, or the last tab when there are not so many.
    pub fn with_selected(self, selected: usize) -> (r: Self)
        ensures
            r.titles == self.titles,
            r.selected == (if self.titles@.len() == 0 { 0 } else if selected < self.titles@.len() {
                selected as int
            } else {
                self.titles@.len() - 1
            }),
    {
        let n = self.titles.len();
        let last = if n == 0 { 0 } else { n - 1 };
        let s = if selected < last { selected } else { last };
        TabsWidget { titles: self.titles, selected: s }
    }
}

/// A one-line text field with a cursor counted in bytes.
pub struct InputField<'a> {
    pub content: &'a str,
    pub cursor_pos: usize,
    pub title: Option<&'a str>,
    pub is_focused: bool,
}

impl<'a> InputField<'a> {
    /// A field showing `content` with the cursor at its end.
    pub fn new(content: &'a str) -> (r: Self)
        ensures
            r.content == content,
            r.cursor_pos == byte_len(content@),
            r.title is None,
            !r.is_focused,
    {
        InputField { content, cursor_pos: content.len(), title: None, is_focused: false }
    }

    /// Puts the cursor at `cursor_pos`, at most at the end.
    pub fn with_cursor(self, cursor_pos: usize) -> (r: Self)
        ensures
            r.content == self.content,
            r.cursor_pos == (if cursor_pos < byte_len(self.content@) { cursor_pos } else { byte_len(self.content@) }),
            r.title == self.title,
            r.is_focused == self.is_focused,
    {
        let n = self.content.len();
        let c = if cursor_pos < n { cursor_pos } else { n };
        InputField { content: self.content, cursor_pos: c, title: self.title, is_focused: self.is_focused }
    }

    pub fn with_title(self, title: &'a str) -> (r: Self)
        ensures
            r.content == self.content,
            r.cursor_pos == self.cursor_pos,
            r.title == Some(title),
            r.is_focused == self.is_focused,
    {
        InputField { content: self.content, cursor_pos: self.cursor_pos, title: Some(title), is_focused: self.is_focused }
    }

    pub fn focused(self, is_focused: bool) -> (r: Self)
        ensures
            r.content == self.content,
            r.cursor_pos == self.cursor_pos,
            r.title == self.title,
            r.is_focused == is_focused,
    {
        InputField { content: self.content, cursor_pos: self.cursor_pos, title: self.title, is_focused }
    }
}

/// A bordered panel with a title, drawn active or not.
pub struct Panel<'a> {
    pub title: &'a str,
    pub is_active: bool,
    pub border_style: Option<BorderType>,
}

impl<'a> Panel<'a> {
    pub fn new(title: &'a str) -> (r: Self)
        ensures
            r.title == title,
            !r.is_active,
            r.border_style is None,
    {
        Panel { title, is_active: false, border_style: None }
    }

    pub fn active(self, is_active: bool) -> (r: Self)
        ensures
            r == (Panel { is_active, ..self }),
    {
        Panel { is_active, ..self }
    }

    pub fn border_type(self, border_type: BorderType) -> (r: Self)
        ensures
            r == (Panel { border_style: Some(border_type), ..self }),
    {
        Panel { border_style: Some(border_type), ..self }
    }
}

/// Where the network stands, as the status bar shows it.
#[derive(Debug, Clone, PartialEq, Eq)]
pub enum NetworkState {
    Idle,
    Loading,
    Streaming,
    Error(String),
}

/// The status bar: the input mode, hints, the network state, the cursor,
/// three free texts and what came back for the last request.
pub struct StatusBar<'a> {
    pub hints: Vec<(&'a str, &'a str)>,
    pub mode: &'a str,
    pub network_state: Option<&'a NetworkState>,
    pub cursor_line: usize,
    pub cursor_col: usize,
    pub left: &'a str,
    pub center: &'a str,
    pub right: &'a str,
    pub status_code: Option<u16>,
    pub response_time_ms: Option<u128>,
}

impl<'a> StatusBar<'a> {
    pub fn new(mode: &'a str) -> (r: Self)
        ensures
            r.mode == mode,
            r.hints@.len() == 0,
            r.network_state is None,
            r.cursor_line == 0 && r.cursor_col == 0,
            r.left@.len() == 0 && r.center@.len() == 0 && r.right@.len() == 0,
            r.status_code is None && r.response_time_ms is None,
    {
        let bar = StatusBar {
            hints: Vec::new(),
            mode,
            network_state: None,
            cursor_line: 0,
            cursor_col: 0,
            left: "",
            center: "",
            right: "",
            status_code: None,
            response_time_ms: None,
        };
        proof { reveal_strlit(""); }
        bar
    }

    pub fn with_hints(self, hints: Vec<(&'a str, &'a str)>) -> (r: Self)
        ensures
            r == (StatusBar { hints, ..self }),
    {
        StatusBar { hints, ..self }
    }

    pub fn with_network_state(self, state: &'a NetworkState) -> (r: Self)
        ensures
            r == (StatusBar { network_state: Some(state), ..self }),
    {
        StatusBar { network_state: Some(state), ..self }
    }

    pub fn with_cursor(self, line: usize, col: usize) -> (r: Self)
        ensures
            r == (StatusBar { cursor_line: line, cursor_col: col, ..self }),
    {
        StatusBar { cursor_line: line, cursor_col: col, ..self }
    }

    pub fn with_left(self, left: &'a str) -> (r: Self)
        ensures
            r == (StatusBar { left, ..self }),
    {
        StatusBar { left, ..self }
    }

    pub fn with_center(self, center: &'a str) -> (r: Self)
        ensures
            r == (StatusBar { center, ..self }),
    {
        StatusBar { center, ..self }
    }

    pub fn with_right(self, right: &'a str) -> (r: Self)
        ensures
            r == (StatusBar { right, ..self }),
    {
        StatusBar { right, ..self }
    }

    pub fn set_response_info(&mut self, status: u16, time_ms: u128)
        ensures
            *final(self) == (StatusBar { status_code: Some(status), response_time_ms: Some(time_ms), ..*old(self) }),
    {
        self.status_code = Some(status);
        self.response_time_ms = Some(time_ms);
    }

    /// The color of the mode pill: info for `NORMAL`, success for `INSERT`,
    /// warning for `VISUAL`, the foreground otherwise.
    pub fn mode_color(&self, theme: &Theme) -> (r: ColorDef)
        ensures
            r == (if self.mode@ == "NORMAL"@ {
                theme.semantic.info
            } else if self.mode@ == "INSERT"@ {
                theme.semantic.success
            } else if self.mode@ == "VISUAL"@ {
                theme.semantic.warning
            } else {
                theme.foreground
            }),
    {
        if str_eq(self.mode, "NORMAL") {
            theme.semantic.info
        } else if str_eq(self.mode, "INSERT") {
            theme.semantic.success
        } else if str_eq(self.mode, "VISUAL") {
            theme.semantic.warning
        } else {
            theme.foreground
        }
    }

    /// The label of the network state; `IDLE` where none is given.
    pub fn network_status_text(&self) -> (r: &'static str)
        ensures
            r@ == match self.network_state {
                Some(NetworkState::Loading) => "LOADING"@,
                Some(NetworkState::Streaming) => "STREAMING"@,
                Some(NetworkState::Error(_)) => "ERROR"@,
                _ => "IDLE"@,
            },
    {
        match self.network_state {
            Some(NetworkState::Idle) => "IDLE",
            Some(NetworkState::Loading) => "LOADING",
            Some(NetworkState::Streaming) => "STREAMING",
            Some(NetworkState::Error(_)) => "ERROR",
            None => "IDLE",
        }
    }

    /// The color of the network state; the foreground where none is given.
    pub fn network_status_color(&self, theme: &Theme) -> (r: ColorDef)
        ensures
            r == match self.network_state {
                Some(NetworkState::Idle) => theme.semantic.success,
                Some(NetworkState::Loading) => theme.semantic.warning,
                Some(NetworkState::Streaming) => theme.semantic.info,
                Some(NetworkState::Error(_)) => theme.semantic.error,
                None => theme.foreground,
            },
    {
        match self.network_state {
            Some(NetworkState::Idle) => theme.semantic.success,
            Some(NetworkState::Loading) => theme.semantic.warning,
            Some(NetworkState::Streaming) => theme.semantic.info,
            Some(NetworkState::Error(_)) => theme.semantic.error,
            None => theme.foreground,
        }
    }
}

/// A dialog: a title, lines of text and actions, one of them selected.
pub struct Modal<'a> {
    pub title: &'a str,
    pub content: Vec<String>,
    pub actions: Vec<(&'a str, &'a str)>,
    pub selected_action: usize,
}

impl<'a> Modal<'a> {
    pub fn new(title: &'a str) -> (r: Self)
        ensures
            r.title == title,
            r.content@.len() == 0,
            r.actions@.len() == 0,
            r.selected_action == 0,
    {
        Modal { title, content: Vec::new(), actions: Vec::new(), selected_action: 0 }
    }

    pub fn with_content(self, content: Vec<String>) -> (r: Self)
        ensures
            r == (Modal { content, ..self }),
    {
        Modal { content, ..self }
    }

    pub fn with_actions(self, actions: Vec<(&'a str, &'a str)>) -> (r: Self)
        ensures
            r == (Modal { actions, ..self }),
    {
        Modal { actions, ..self }
    }

    /// The dialog with action `selected` selected, the last one at most.
    pub fn with_selected_action(self, selected: usize) -> (r: Self)
        ensures
            r == (Modal {
                selected_action: if selected < self.actions@.len() {
                    selected
                } else if self.actions@.len() > 0 {
                    (self.actions@.len() - 1) as usize
                } else {
                    0
                },
                ..self
            }),
    {
        let last = self.actions.len().saturating_sub(1);
        let selected_action = if selected < last { selected } else { last };
        Modal { selected_action, ..self }
    }
}

} // verus!
