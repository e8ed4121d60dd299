use vstd::prelude::*;

use crate::graph::names_view;
use crate::strmap::StrMap;
use crate::text::{copy_str, str_eq};

verus! {

/// A color: red, green and blue, a palette index, or the terminal's own.
#[derive(Debug, Clone, Copy, PartialEq, Eq, Structural)]
pub enum ColorDef {
    Rgb(u8, u8, u8),
    Indexed(u8),
    Reset,
}

/// A piece of text with its colors (none: those around it) and whether it is bold.
pub struct StyledSpan {
    pub text: String,
    pub fg: Option<ColorDef>,
    pub bg: Option<ColorDef>,
    pub bold: bool,
}

/// The pieces as text, foreground, background and boldness.
pub open spec fn styled_view(spans: Seq<StyledSpan>) -> Seq<(Seq<char>, Option<ColorDef>, Option<ColorDef>, bool)> {
    spans.map_values(|t: StyledSpan| (t.text@, t.fg, t.bg, t.bold))
}

/// How borders are drawn.
#[derive(Debug, Clone, Copy, PartialEq, Eq, Structural)]
pub enum BorderType {
    Plain,
    Rounded,
    Double,
    Thick,
}

#[derive(Debug, Clone, Copy, PartialEq, Eq, Structural)]
pub struct BorderStyle {
    pub color: ColorDef,
    pub active_color: ColorDef,
    pub style: BorderType,
}

#[derive(Debug, Clone, Copy, PartialEq, Eq, Structural)]
pub struct HighlightStyle {
    pub bg: ColorDef,
    pub fg: ColorDef,
    pub selected_bg: ColorDef,
    pub selected_fg: ColorDef,
}

#[derive(Debug, Clone, Copy, PartialEq, Eq, Structural)]
pub struct SemanticColors {
    pub success: ColorDef,
    pub error: ColorDef,
    pub warning: ColorDef,
    pub info: ColorDef,
}

#[derive(Debug, Clone, Copy, PartialEq, Eq, Structural)]
pub struct TypographyLevels {
    pub title: ColorDef,
    pub heading: ColorDef,
    pub body: ColorDef,
    pub caption: ColorDef,
    pub dim: ColorDef,
}

#[derive(Debug, Clone, Copy, PartialEq, Eq, Structural)]
pub struct PaneColors {
    pub background: Option<ColorDef>,
    pub active_background: Option<ColorDef>,
    pub inactive_background: Option<ColorDef>,
    pub subtle_background: Option<ColorDef>,
    pub title: ColorDef,
    pub inactive_title: ColorDef,
    pub muted: ColorDef,
    pub placeholder: ColorDef,
    pub status_bar_bg: ColorDef,
    pub status_bar_fg: ColorDef,
    pub typography: TypographyLevels,
}

/// The emphasis that goes with a level of text.
#[derive(Debug, Clone, Copy, PartialEq, Eq, Structural)]
pub enum TextEmphasis {
    Bold,
    Plain,
    Dim,
}

impl PaneColors {
    /// The pane background, the terminal's own when none is set.
    pub fn bg_color(&self) -> (r: ColorDef)
        ensures
            r == match self.background {
                Some(c) => c,
                None => ColorDef::Reset,
            },
    {
        match self.background {
            Some(c) => c,
            None => ColorDef::Reset,
        }
    }

    /// The background of an active or inactive pane: its own color if set,
    /// else the pane background, else the terminal's own.
    pub fn bg_for(&self, is_active: bool) -> (r: ColorDef)
        ensures
            r == match (if is_active { self.active_background } else { self.inactive_background }) {
                Some(c) => c,
                None => match self.background {
                    Some(c) => c,
                    None => ColorDef::Reset,
                },
            },
    {
        let preferred = if is_active { self.active_background } else { self.inactive_background };
        match preferred {
            Some(c) => c,
            None => self.bg_color(),
        }
    }

    /// The subtle background, else the pane background, else the
    /// terminal's own.
    pub fn subtle_bg_color(&self) -> (r: ColorDef)
        ensures
            r == match self.subtle_background {
                Some(c) => c,
                None => match self.background {
                    Some(c) => c,
                    None => ColorDef::Reset,
                },
            },
    {
        match self.subtle_background {
            Some(c) => c,
            None => self.bg_color(),
        }
    }
}

/// The colors of a theme, all but its name.
pub struct Palette {
    pub background: Option<ColorDef>,
    pub foreground: ColorDef,
    pub border: BorderStyle,
    pub highlight: HighlightStyle,
    pub semantic: SemanticColors,
    pub pane: PaneColors,
}

/// A named set of colors for the interface.
#[derive(Debug, Clone, PartialEq)]
pub struct Theme {
    pub name: String,
    pub background: Option<ColorDef>,
    pub foreground: ColorDef,
    pub border: BorderStyle,
    pub highlight: HighlightStyle,
    pub semantic: SemanticColors,
    pub pane: PaneColors,
}

/// The colors of the `postman` theme.
pub open spec fn postman_palette() -> Palette {
    Palette {
        background: None,
        foreground: ColorDef::Reset,
        border: BorderStyle { color: ColorDef::Indexed(242), active_color: ColorDef::Indexed(6), style: BorderType::Plain },
        highlight: HighlightStyle { bg: ColorDef::Reset, fg: ColorDef::Reset, selected_bg: ColorDef::Indexed(6), selected_fg: ColorDef::Indexed(15) },
        semantic: SemanticColors { success: ColorDef::Indexed(2), error: ColorDef::Indexed(1), warning: ColorDef::Indexed(3), info: ColorDef::Indexed(4) },
        pane: PaneColors {
            background: None,
            active_background: None,
            inactive_background: None,
            subtle_background: None,
            title: ColorDef::Indexed(6),
            inactive_title: ColorDef::Indexed(248),
            muted: ColorDef::Indexed(248),
            placeholder: ColorDef::Indexed(250),
            status_bar_bg: ColorDef::Reset,
            status_bar_fg: ColorDef::Reset,
            typography: TypographyLevels { title: ColorDef::Indexed(6), heading: ColorDef::Indexed(250), body: ColorDef::Indexed(252), caption: ColorDef::Indexed(245), dim: ColorDef::Indexed(240) },
        },
    }
}

/// The colors of the `dark` theme.
pub open spec fn dark_palette() -> Palette {
    Palette {
        background: Some(ColorDef::Rgb(13, 16, 22)),
        foreground: ColorDef::Rgb(224, 230, 238),
        border: BorderStyle { color: ColorDef::Rgb(82, 96, 116), active_color: ColorDef::Rgb(150, 198, 255), style: BorderType::Plain },
        highlight: HighlightStyle { bg: ColorDef::Rgb(30, 38, 50), fg: ColorDef::Rgb(230, 235, 242), selected_bg: ColorDef::Rgb(78, 118, 178), selected_fg: ColorDef::Rgb(255, 255, 255) },
        semantic: SemanticColors { success: ColorDef::Rgb(104, 187, 129), error: ColorDef::Rgb(235, 120, 120), warning: ColorDef::Rgb(232, 196, 106), info: ColorDef::Rgb(125, 185, 235) },
        pane: PaneColors {
            background: Some(ColorDef::Rgb(16, 20, 28)),
            active_background: Some(ColorDef::Rgb(19, 25, 34)),
            inactive_background: Some(ColorDef::Rgb(14, 18, 25)),
            subtle_background: Some(ColorDef::Rgb(22, 28, 38)),
            title: ColorDef::Rgb(200, 220, 245),
            inactive_title: ColorDef::Rgb(170, 183, 205),
            muted: ColorDef::Rgb(182, 195, 215),
            placeholder: ColorDef::Rgb(168, 180, 198),
            status_bar_bg: ColorDef::Rgb(18, 23, 32),
            status_bar_fg: ColorDef::Rgb(224, 230, 238),
            typography: TypographyLevels { title: ColorDef::Rgb(200, 220, 245), heading: ColorDef::Rgb(180, 192, 210), body: ColorDef::Rgb(224, 230, 238), caption: ColorDef::Rgb(150, 165, 185), dim: ColorDef::Rgb(80, 95, 115) },
        },
    }
}

/// The colors of the `light` theme.
pub open spec fn light_palette() -> Palette {
    Palette {
        background: Some(ColorDef::Rgb(248, 245, 239)),
        foreground: ColorDef::Rgb(48, 43, 37),
        border: BorderStyle { color: ColorDef::Rgb(187, 177, 165), active_color: ColorDef::Rgb(119, 131, 196), style: BorderType::Plain },
        highlight: HighlightStyle { bg: ColorDef::Rgb(237, 231, 223), fg: ColorDef::Rgb(54, 48, 41), selected_bg: ColorDef::Rgb(119, 131, 196), selected_fg: ColorDef::Rgb(252, 251, 248) },
        semantic: SemanticColors { success: ColorDef::Rgb(63, 136, 93), error: ColorDef::Rgb(187, 74, 86), warning: ColorDef::Rgb(175, 125, 52), info: ColorDef::Rgb(86, 111, 177) },
        pane: PaneColors {
            background: Some(ColorDef::Rgb(252, 250, 246)),
            active_background: Some(ColorDef::Rgb(255, 253, 249)),
            inactive_background: Some(ColorDef::Rgb(246, 242, 236)),
            subtle_background: Some(ColorDef::Rgb(239, 234, 227)),
            title: ColorDef::Rgb(85, 97, 150),
            inactive_title: ColorDef::Rgb(143, 132, 121),
            muted: ColorDef::Rgb(135, 124, 112),
            placeholder: ColorDef::Rgb(152, 142, 131),
            status_bar_bg: ColorDef::Rgb(235, 229, 221),
            status_bar_fg: ColorDef::Rgb(48, 43, 37),
            typography: TypographyLevels { title: ColorDef::Rgb(85, 97, 150), heading: ColorDef::Rgb(115, 105, 95), body: ColorDef::Rgb(48, 43, 37), caption: ColorDef::Rgb(140, 130, 120), dim: ColorDef::Rgb(175, 165, 155) },
        },
    }
}

/// The colors of the `forest` theme.
pub open spec fn forest_palette() -> Palette {
    Palette {
        background: Some(ColorDef::Rgb(14, 20, 17)),
        foreground: ColorDef::Rgb(222, 230, 221),
        border: BorderStyle { color: ColorDef::Rgb(84, 106, 92), active_color: ColorDef::Rgb(140, 210, 172), style: BorderType::Plain },
        highlight: HighlightStyle { bg: ColorDef::Rgb(30, 44, 37), fg: ColorDef::Rgb(228, 235, 225), selected_bg: ColorDef::Rgb(73, 120, 98), selected_fg: ColorDef::Rgb(255, 255, 255) },
        semantic: SemanticColors { success: ColorDef::Rgb(117, 191, 136), error: ColorDef::Rgb(209, 104, 104), warning: ColorDef::Rgb(209, 180, 107), info: ColorDef::Rgb(116, 188, 182) },
        pane: PaneColors {
            background: Some(ColorDef::Rgb(17, 25, 21)),
            active_background: Some(ColorDef::Rgb(20, 29, 24)),
            inactive_background: Some(ColorDef::Rgb(14, 22, 18)),
            subtle_background: Some(ColorDef::Rgb(22, 32, 27)),
            title: ColorDef::Rgb(182, 222, 198),
            inactive_title: ColorDef::Rgb(172, 188, 176),
            muted: ColorDef::Rgb(182, 198, 188),
            placeholder: ColorDef::Rgb(168, 182, 170),
            status_bar_bg: ColorDef::Rgb(18, 27, 22),
            status_bar_fg: ColorDef::Rgb(222, 230, 221),
            typography: TypographyLevels { title: ColorDef::Rgb(182, 222, 198), heading: ColorDef::Rgb(182, 198, 188), body: ColorDef::Rgb(222, 230, 221), caption: ColorDef::Rgb(160, 178, 165), dim: ColorDef::Rgb(85, 105, 90) },
        },
    }
}

/// The colors of the `terminal` theme.
pub open spec fn terminal_palette() -> Palette {
    Palette {
        background: None,
        foreground: ColorDef::Reset,
        border: BorderStyle { color: ColorDef::Rgb(48, 48, 52), active_color: ColorDef::Rgb(150, 200, 255), style: BorderType::Plain },
        highlight: HighlightStyle { bg: ColorDef::Reset, fg: ColorDef::Reset, selected_bg: ColorDef::Rgb(70, 85, 104), selected_fg: ColorDef::Reset },
        semantic: SemanticColors { success: ColorDef::Rgb(80, 200, 120), error: ColorDef::Rgb(220, 50, 47), warning: ColorDef::Rgb(255, 184, 108), info: ColorDef::Rgb(150, 200, 255) },
        pane: PaneColors {
            background: None,
            active_background: None,
            inactive_background: None,
            subtle_background: None,
            title: ColorDef::Rgb(150, 200, 255),
            inactive_title: ColorDef::Rgb(78, 78, 82),
            muted: ColorDef::Rgb(78, 78, 82),
            placeholder: ColorDef::Rgb(78, 78, 82),
            status_bar_bg: ColorDef::Reset,
            status_bar_fg: ColorDef::Reset,
            typography: TypographyLevels { title: ColorDef::Rgb(150, 200, 255), heading: ColorDef::Rgb(78, 78, 82), body: ColorDef::Reset, caption: ColorDef::Rgb(78, 78, 82), dim: ColorDef::Rgb(78, 78, 82) },
        },
    }
}

impl Theme {
    /// The colors of the theme, all but its name.
    pub open spec fn palette(&self) -> Palette {
        Palette {
            background: self.background,
            foreground: self.foreground,
            border: self.border,
            highlight: self.highlight,
            semantic: self.semantic,
            pane: self.pane,
        }
    }

    /// Colors by palette index on the terminal's own background.
    pub fn postman() -> (r: Self)
        ensures
            r.name@ == "postman"@,
            r.palette() == postman_palette(),
    {
        Theme {
            name: copy_str("postman"),
            background: None,
            foreground: ColorDef::Reset,
            border: BorderStyle { color: ColorDef::Indexed(242), active_color: ColorDef::Indexed(6), style: BorderType::Plain },
            highlight: HighlightStyle { bg: ColorDef::Reset, fg: ColorDef::Reset, selected_bg: ColorDef::Indexed(6), selected_fg: ColorDef::Indexed(15) },
            semantic: SemanticColors { success: ColorDef::Indexed(2), error: ColorDef::Indexed(1), warning: ColorDef::Indexed(3), info: ColorDef::Indexed(4) },
            pane: PaneColors {
                background: None,
                active_background: None,
                inactive_background: None,
                subtle_background: None,
                title: ColorDef::Indexed(6),
                inactive_title: ColorDef::Indexed(248),
                muted: ColorDef::Indexed(248),
                placeholder: ColorDef::Indexed(250),
                status_bar_bg: ColorDef::Reset,
                status_bar_fg: ColorDef::Reset,
                typography: TypographyLevels { title: ColorDef::Indexed(6), heading: ColorDef::Indexed(250), body: ColorDef::Indexed(252), caption: ColorDef::Indexed(245), dim: ColorDef::Indexed(240) },
            },
        }
    }

    /// Light text on dark blue-grey.
    pub fn dark() -> (r: Self)
        ensures
            r.name@ == "dark"@,
            r.palette() == dark_palette(),
    {
        Theme {
            name: copy_str("dark"),
            background: Some(ColorDef::Rgb(13, 16, 22)),
            foreground: ColorDef::Rgb(224, 230, 238),
            border: BorderStyle { color: ColorDef::Rgb(82, 96, 116), active_color: ColorDef::Rgb(150, 198, 255), style: BorderType::Plain },
            highlight: HighlightStyle { bg: ColorDef::Rgb(30, 38, 50), fg: ColorDef::Rgb(230, 235, 242), selected_bg: ColorDef::Rgb(78, 118, 178), selected_fg: ColorDef::Rgb(255, 255, 255) },
            semantic: SemanticColors { success: ColorDef::Rgb(104, 187, 129), error: ColorDef::Rgb(235, 120, 120), warning: ColorDef::Rgb(232, 196, 106), info: ColorDef::Rgb(125, 185, 235) },
            pane: PaneColors {
                background: Some(ColorDef::Rgb(16, 20, 28)),
                active_background: Some(ColorDef::Rgb(19, 25, 34)),
                inactive_background: Some(ColorDef::Rgb(14, 18, 25)),
                subtle_background: Some(ColorDef::Rgb(22, 28, 38)),
                title: ColorDef::Rgb(200, 220, 245),
                inactive_title: ColorDef::Rgb(170, 183, 205),
                muted: ColorDef::Rgb(182, 195, 215),
                placeholder: ColorDef::Rgb(168, 180, 198),
                status_bar_bg: ColorDef::Rgb(18, 23, 32),
                status_bar_fg: ColorDef::Rgb(224, 230, 238),
                typography: TypographyLevels { title: ColorDef::Rgb(200, 220, 245), heading: ColorDef::Rgb(180, 192, 210), body: ColorDef::Rgb(224, 230, 238), caption: ColorDef::Rgb(150, 165, 185), dim: ColorDef::Rgb(80, 95, 115) },
            },
        }
    }

    /// Dark text on warm off-white.
    pub fn light() -> (r: Self)
        ensures
            r.name@ == "light"@,
            r.palette() == light_palette(),
    {
        Theme {
            name: copy_str("light"),
            background: Some(ColorDef::Rgb(248, 245, 239)),
            foreground: ColorDef::Rgb(48, 43, 37),
            border: BorderStyle { color: ColorDef::Rgb(187, 177, 165), active_color: ColorDef::Rgb(119, 131, 196), style: BorderType::Plain },
            highlight: HighlightStyle { bg: ColorDef::Rgb(237, 231, 223), fg: ColorDef::Rgb(54, 48, 41), selected_bg: ColorDef::Rgb(119, 131, 196), selected_fg: ColorDef::Rgb(252, 251, 248) },
            semantic: SemanticColors { success: ColorDef::Rgb(63, 136, 93), error: ColorDef::Rgb(187, 74, 86), warning: ColorDef::Rgb(175, 125, 52), info: ColorDef::Rgb(86, 111, 177) },
            pane: PaneColors {
                background: Some(ColorDef::Rgb(252, 250, 246)),
                active_background: Some(ColorDef::Rgb(255, 253, 249)),
                inactive_background: Some(ColorDef::Rgb(246, 242, 236)),
                subtle_background: Some(ColorDef::Rgb(239, 234, 227)),
                title: ColorDef::Rgb(85, 97, 150),
                inactive_title: ColorDef::Rgb(143, 132, 121),
                muted: ColorDef::Rgb(135, 124, 112),
                placeholder: ColorDef::Rgb(152, 142, 131),
                status_bar_bg: ColorDef::Rgb(235, 229, 221),
                status_bar_fg: ColorDef::Rgb(48, 43, 37),
                typography: TypographyLevels { title: ColorDef::Rgb(85, 97, 150), heading: ColorDef::Rgb(115, 105, 95), body: ColorDef::Rgb(48, 43, 37), caption: ColorDef::Rgb(140, 130, 120), dim: ColorDef::Rgb(175, 165, 155) },
            },
        }
    }

    /// Light text on dark green.
    pub fn forest() -> (r: Self)
        ensures
            r.name@ == "forest"@,
            r.palette() == forest_palette(),
    {
        Theme {
            name: copy_str("forest"),
            background: Some(ColorDef::Rgb(14, 20, 17)),
            foreground: ColorDef::Rgb(222, 230, 221),
            border: BorderStyle { color: ColorDef::Rgb(84, 106, 92), active_color: ColorDef::Rgb(140, 210, 172), style: BorderType::Plain },
            highlight: HighlightStyle { bg: ColorDef::Rgb(30, 44, 37), fg: ColorDef::Rgb(228, 235, 225), selected_bg: ColorDef::Rgb(73, 120, 98), selected_fg: ColorDef::Rgb(255, 255, 255) },
            semantic: SemanticColors { success: ColorDef::Rgb(117, 191, 136), error: ColorDef::Rgb(209, 104, 104), warning: ColorDef::Rgb(209, 180, 107), info: ColorDef::Rgb(116, 188, 182) },
            pane: PaneColors {
                background: Some(ColorDef::Rgb(17, 25, 21)),
                active_background: Some(ColorDef::Rgb(20, 29, 24)),
                inactive_background: Some(ColorDef::Rgb(14, 22, 18)),
                subtle_background: Some(ColorDef::Rgb(22, 32, 27)),
                title: ColorDef::Rgb(182, 222, 198),
                inactive_title: ColorDef::Rgb(172, 188, 176),
                muted: ColorDef::Rgb(182, 198, 188),
                placeholder: ColorDef::Rgb(168, 182, 170),
                status_bar_bg: ColorDef::Rgb(18, 27, 22),
                status_bar_fg: ColorDef::Rgb(222, 230, 221),
                typography: TypographyLevels { title: ColorDef::Rgb(182, 222, 198), heading: ColorDef::Rgb(182, 198, 188), body: ColorDef::Rgb(222, 230, 221), caption: ColorDef::Rgb(160, 178, 165), dim: ColorDef::Rgb(85, 105, 90) },
            },
        }
    }

    /// The terminal's own background and text, with borders, selection and
    /// titles derived from a dark background and a light blue accent.
    pub fn terminal_default() -> (r: Self)
        ensures
            r.name@ == "terminal"@,
            r.palette() == terminal_palette(),
    {
        Theme {
            name: copy_str("terminal"),
            background: None,
            foreground: ColorDef::Reset,
            border: BorderStyle { color: ColorDef::Rgb(48, 48, 52), active_color: ColorDef::Rgb(150, 200, 255), style: BorderType::Plain },
            highlight: HighlightStyle { bg: ColorDef::Reset, fg: ColorDef::Reset, selected_bg: ColorDef::Rgb(70, 85, 104), selected_fg: ColorDef::Reset },
            semantic: SemanticColors { success: ColorDef::Rgb(80, 200, 120), error: ColorDef::Rgb(220, 50, 47), warning: ColorDef::Rgb(255, 184, 108), info: ColorDef::Rgb(150, 200, 255) },
            pane: PaneColors {
                background: None,
                active_background: None,
                inactive_background: None,
                subtle_background: None,
                title: ColorDef::Rgb(150, 200, 255),
                inactive_title: ColorDef::Rgb(78, 78, 82),
                muted: ColorDef::Rgb(78, 78, 82),
                placeholder: ColorDef::Rgb(78, 78, 82),
                status_bar_bg: ColorDef::Reset,
                status_bar_fg: ColorDef::Reset,
                typography: TypographyLevels { title: ColorDef::Rgb(150, 200, 255), heading: ColorDef::Rgb(78, 78, 82), body: ColorDef::Reset, caption: ColorDef::Rgb(78, 78, 82), dim: ColorDef::Rgb(78, 78, 82) },
            },
        }
    }

    /// The built-in themes in their fixed order.
    pub fn builtin_themes() -> (r: Vec<Self>)
        ensures
            r@.len() == 5,
            r@[0].name@ == "postman"@ && r@[0].palette() == postman_palette(),
            r@[1].name@ == "dark"@ && r@[1].palette() == dark_palette(),
            r@[2].name@ == "light"@ && r@[2].palette() == light_palette(),
            r@[3].name@ == "forest"@ && r@[3].palette() == forest_palette(),
            r@[4].name@ == "terminal"@ && r@[4].palette() == terminal_palette(),
    {
        let mut v: Vec<Self> = Vec::new();
        v.push(Self::postman());
        v.push(Self::dark());
        v.push(Self::light());
        v.push(Self::forest());
        v.push(Self::terminal_default());
        v
    }

    /// The names of the built-in themes in their fixed order.
    pub fn builtin_theme_names() -> (r: Vec<String>)
        ensures
            names_view(r@) == builtin_names(),
    {
        let themes = Self::builtin_themes();
        let mut names: Vec<String> = Vec::new();
        names.push(themes[0].name.clone());
        names.push(themes[1].name.clone());
        names.push(themes[2].name.clone());
        names.push(themes[3].name.clone());
        names.push(themes[4].name.clone());
        proof { assert(names_view(names@) =~= builtin_names()); }
        names
    }

    /// The built-in theme of a name; `terminal_default` is another name of
    /// `terminal`.
    pub fn get_by_name(name: &str) -> (r: Option<Self>)
        ensures
            match theme_for_name(name@) {
                Some((n, p)) => r matches Some(t) && t.name@ == n && t.palette() == p,
                None => r is None,
            },
    {
        if str_eq(name, "postman") {
            Some(Self::postman())
        } else if str_eq(name, "terminal") || str_eq(name, "terminal_default") {
            Some(Self::terminal_default())
        } else if str_eq(name, "dark") {
            Some(Self::dark())
        } else if str_eq(name, "light") {
            Some(Self::light())
        } else if str_eq(name, "forest") {
            Some(Self::forest())
        } else {
            None
        }
    }

    /// The border color of an active or inactive pane.
    pub fn border_color(&self, is_active: bool) -> (r: ColorDef)
        ensures
            r == if is_active { self.border.active_color } else { self.border.color },
    {
        if is_active {
            self.border.active_color
        } else {
            self.border.color
        }
    }

    /// The background of an active or inactive pane.
    pub fn pane_bg(&self, is_active: bool) -> (r: ColorDef)
        ensures
            r == match (if is_active { self.pane.active_background } else { self.pane.inactive_background }) {
                Some(c) => c,
                None => match self.pane.background {
                    Some(c) => c,
                    None => ColorDef::Reset,
                },
            },
    {
        self.pane.bg_for(is_active)
    }

    /// The subtle background of panes.
    pub fn subtle_bg(&self) -> (r: ColorDef)
        ensures
            r == match self.pane.subtle_background {
                Some(c) => c,
                None => match self.pane.background {
                    Some(c) => c,
                    None => ColorDef::Reset,
                },
            },
    {
        self.pane.subtle_bg_color()
    }

    /// The title color of an active or inactive pane.
    pub fn title_color(&self, is_active: bool) -> (r: ColorDef)
        ensures
            r == if is_active { self.pane.title } else { self.pane.inactive_title },
    {
        if is_active {
            self.pane.title
        } else {
            self.pane.inactive_title
        }
    }

    pub fn muted_color(&self) -> (r: ColorDef)
        ensures
            r == self.pane.muted,
    {
        self.pane.muted
    }

    pub fn placeholder_color(&self) -> (r: ColorDef)
        ensures
            r == self.pane.placeholder,
    {
        self.pane.placeholder
    }

    /// The color and emphasis of a level of text: 0 title, 1 heading,
    /// 2 body, 3 caption, anything else dim.
    pub fn typography_level(&self, level: u8) -> (r: (ColorDef, TextEmphasis))
        ensures
            r == (match level {
                0 => (self.pane.typography.title, TextEmphasis::Bold),
                1 => (self.pane.typography.heading, TextEmphasis::Bold),
                2 => (self.pane.typography.body, TextEmphasis::Plain),
                3 => (self.pane.typography.caption, TextEmphasis::Dim),
                _ => (self.pane.typography.dim, TextEmphasis::Dim),
            }),
    {
        match level {
            0 => (self.pane.typography.title, TextEmphasis::Bold),
            1 => (self.pane.typography.heading, TextEmphasis::Bold),
            2 => (self.pane.typography.body, TextEmphasis::Plain),
            3 => (self.pane.typography.caption, TextEmphasis::Dim),
            _ => (self.pane.typography.dim, TextEmphasis::Dim),
        }
    }

    /// The border color toned towards the pane background when both are
    /// RGB colors.
    pub fn dim_border_color(&self) -> (r: ColorDef)
        ensures
            r == match (self.border.color, self.pane.background) {
                (ColorDef::Rgb(r1, g1, b1), Some(ColorDef::Rgb(r2, g2, b2))) => ColorDef::Rgb(
                    dim_channel(r1, r2),
                    dim_channel(g1, g2),
                    dim_channel(b1, b2),
                ),
                _ => self.border.color,
            },
    {
        let c = self.border.color;
        match (c, self.pane.background) {
            (ColorDef::Rgb(r1, g1, b1), Some(ColorDef::Rgb(r2, g2, b2))) => ColorDef::Rgb(
                dim_channel_exec(r1, r2),
                dim_channel_exec(g1, g2),
                dim_channel_exec(b1, b2),
            ),
            _ => c,
        }
    }

    pub fn bg_panel(&self) -> (r: ColorDef)
        ensures
            r == match self.pane.background {
                Some(c) => c,
                None => ColorDef::Reset,
            },
    {
        self.pane.bg_color()
    }

    pub fn bg_element(&self) -> (r: ColorDef)
        ensures
            r == match self.pane.subtle_background {
                Some(c) => c,
                None => match self.pane.background {
                    Some(c) => c,
                    None => ColorDef::Reset,
                },
            },
    {
        self.subtle_bg()
    }

    pub fn text_muted(&self) -> (r: ColorDef)
        ensures
            r == self.pane.muted,
    {
        self.muted_color()
    }

    pub fn border_subtle(&self) -> (r: ColorDef)
        ensures
            r == match (self.border.color, self.pane.background) {
                (ColorDef::Rgb(r1, g1, b1), Some(ColorDef::Rgb(r2, g2, b2))) => ColorDef::Rgb(
                    dim_channel(r1, r2),
                    dim_channel(g1, g2),
                    dim_channel(b1, b2),
                ),
                _ => self.border.color,
            },
    {
        self.dim_border_color()
    }

    pub fn section_title(&self) -> (r: ColorDef)
        ensures
            r == self.pane.title,
    {
        self.pane.title
    }

    pub fn section_title_inactive(&self) -> (r: ColorDef)
        ensures
            r == self.pane.inactive_title,
    {
        self.pane.inactive_title
    }
}

/// The names of the built-in themes in their fixed order.
pub open spec fn builtin_names() -> Seq<Seq<char>> {
    seq!["postman"@, "dark"@, "light"@, "forest"@, "terminal"@]
}

/// The name and colors of the built-in theme that a name selects.
pub open spec fn theme_for_name(n: Seq<char>) -> Option<(Seq<char>, Palette)> {
    if n == "postman"@ {
        Some(("postman"@, postman_palette()))
    } else if n == "terminal"@ || n == "terminal_default"@ {
        Some(("terminal"@, terminal_palette()))
    } else if n == "dark"@ {
        Some(("dark"@, dark_palette()))
    } else if n == "light"@ {
        Some(("light"@, light_palette()))
    } else if n == "forest"@ {
        Some(("forest"@, forest_palette()))
    } else {
        None
    }
}

/// One channel of a border toned towards a background: the border channel
/// plus two thirds of the background channel, kept to a byte.
pub open spec fn dim_channel(a: u8, b: u8) -> u8 {
    ((a + (b * 2) / 3) % 256) as u8
}

fn dim_channel_exec(a: u8, b: u8) -> (r: u8)
    ensures
        r == dim_channel(a, b),
{
    let v: u16 = a as u16 + (b as u16 * 2) / 3;
    (v % 256) as u8
}

/// The first position of `x` in `s`, or -1.
pub open spec fn position_of(s: Seq<Seq<char>>, x: Seq<char>) -> int
    decreases s.len(),
{
    if s.len() == 0 {
        -1
    } else if s.last() == x {
        let p = position_of(s.drop_last(), x);
        if p >= 0 { p } else { s.len() - 1 }
    } else {
        position_of(s.drop_last(), x)
    }
}

proof fn lemma_position_of(s: Seq<Seq<char>>, x: Seq<char>)
    ensures
        -1 <= position_of(s, x) < s.len(),
        position_of(s, x) >= 0 ==> s[position_of(s, x)] == x,
        position_of(s, x) >= 0 ==> forall|i: int| 0 <= i < position_of(s, x) ==> s[i] != x,
        position_of(s, x) < 0 ==> forall|i: int| 0 <= i < s.len() ==> s[i] != x,
    decreases s.len(),
{
    if s.len() > 0 {
        lemma_position_of(s.drop_last(), x);
        assert forall|i: int| 0 <= i < s.len() - 1 implies s.drop_last()[i] == s[i] by {}
    }
}

/// The theme after `current` in `order`, going round; the first when no
/// theme is current, and also when the current one is not in the order.
pub open spec fn next_theme_name(order: Seq<Seq<char>>, current: Seq<char>) -> Seq<char> {
    if current.len() == 0 {
        order[0]
    } else {
        let p = position_of(order, current);
        let i = if p >= 0 { p } else { 0 };
        order[(i + 1) % (order.len() as int)]
    }
}

/// The themes that can be chosen, in the order they were registered, and
/// the one in use.
pub struct ThemeRegistry {
    themes: StrMap<Theme>,
    current: String,
}

impl ThemeRegistry {
    /// The themes by name.
    pub closed spec fn themes_map(&self) -> Map<Seq<char>, Theme> {
        self.themes@
    }

    /// The names in the order they were first registered.
    pub closed spec fn order(&self) -> Seq<Seq<char>> {
        self.themes.keys()
    }

    /// The name of the theme in use; empty when none is.
    pub closed spec fn current_name(&self) -> Seq<char> {
        self.current@
    }

    /// The theme in use, if any, is registered.
    pub closed spec fn wf(&self) -> bool {
        &&& self.current@.len() == 0 || self.themes@.contains_key(self.current@)
        &&& crate::strmap::unique_keys(self.themes.entries())
    }

    /// The names listed in the order are those of the registered themes,
    /// each once.
    proof fn lemma_order_facts(&self)
        requires
            self.wf(),
        ensures
            forall|i: int| 0 <= i < self.order().len() ==> self.themes_map().contains_key(#[trigger] self.order()[i]),
            forall|k: Seq<char>| #[trigger] self.themes_map().contains_key(k) ==> self.order().contains(k),
            self.order().no_duplicates(),
            self.order().len() == self.themes_map().dom().len(),
            self.current_name().len() == 0 || self.themes_map().contains_key(self.current_name()),
    {
        let e = self.themes.entries();
        crate::strmap::lemma_assoc_len(e);
        assert forall|i: int| 0 <= i < self.order().len() implies self.themes_map().contains_key(#[trigger] self.order()[i]) by {
            crate::strmap::lemma_assoc_dom(e, self.order()[i]);
            assert(e[i].0 == self.order()[i]);
        }
        assert forall|k: Seq<char>| #[trigger] self.themes_map().contains_key(k) implies self.order().contains(k) by {
            crate::strmap::lemma_assoc_dom(e, k);
            let i = choose|i: int| 0 <= i < e.len() && e[i].0 == k;
            assert(self.order()[i] == k);
        }
        assert forall|i: int, j: int| 0 <= i < self.order().len() && 0 <= j < self.order().len() && i != j implies self.order()[i]
            != self.order()[j] by {
            assert(self.order()[i] == e[i].0 && self.order()[j] == e[j].0);
        }
    }

    fn order_facts(&self)
        requires
            self.wf(),
        ensures
            forall|i: int| 0 <= i < self.order().len() ==> self.themes_map().contains_key(#[trigger] self.order()[i]),
            forall|k: Seq<char>| #[trigger] self.themes_map().contains_key(k) ==> self.order().contains(k),
            self.order().no_duplicates(),
            self.order().len() == self.themes_map().dom().len(),
            self.current_name().len() == 0 || self.themes_map().contains_key(self.current_name()),
    {
        proof { law_names_are_the_registered_themes(self); }
    }

    pub fn new() -> (r: Self)
        ensures
            r.wf(),
            r.themes_map() == Map::<Seq<char>, Theme>::empty(),
            r.order().len() == 0,
            r.current_name().len() == 0,
    {
        let r = ThemeRegistry { themes: StrMap::new(), current: String::new() };
        r.themes.keys_are_unique();
        r
    }

    /// How many themes are registered.
    pub fn len(&self) -> (r: usize)
        ensures
            r == self.themes_map().dom().len(),
    {
        self.themes.len()
    }

    /// Registers `theme` under `name`, replacing a theme of that name but
    /// keeping its place in the order.
    pub fn register(&mut self, name: String, theme: Theme)
        requires
            old(self).wf(),
        ensures
            final(self).wf(),
            final(self).themes_map() == old(self).themes_map().insert(name@, theme),
            final(self).order() == if old(self).themes_map().contains_key(name@) {
                old(self).order()
            } else {
                old(self).order().push(name@)
            },
            final(self).current_name() == old(self).current_name(),
    {
        self.themes.insert(name, theme);
        self.themes.keys_are_unique();
    }

    /// The names in the order they were first registered.
    pub fn names(&self) -> (r: Vec<String>)
        ensures
            names_view(r@) == self.order(),
    {
        let n = self.themes.len();
        let mut out: Vec<String> = Vec::new();
        let mut i: usize = 0;
        while i < n
            invariant
                n == self.themes.entries().len(),
                i <= n,
                names_view(out@) == self.order().take(i as int),
            decreases n - i,
        {
            let (k, _) = self.themes.entry_at(i);
            proof { assert(self.order()[i as int] == k@); }
            let ghost before = out@;
            out.push(k.clone());
            proof {
                assert(names_view(out@) =~= names_view(before).push(k@));
                assert(self.order().take(i + 1) =~= self.order().take(i as int).push(self.order()[i as int]));
            }
            i += 1;
        }
        proof { assert(self.order().take(n as int) =~= self.order()); }
        out
    }

    pub fn get(&self, name: &str) -> (r: Option<&Theme>)
        ensures
            match r {
                Some(t) => self.themes_map().contains_key(name@) && *t == self.themes_map()[name@],
                None => !self.themes_map().contains_key(name@),
            },
    {
        self.themes.get(name)
    }

    /// Makes `name` the theme in use when it is registered.
    pub fn set_current(&mut self, name: &str)
        requires
            old(self).wf(),
        ensures
            final(self).wf(),
            final(self).themes_map() == old(self).themes_map(),
            final(self).order() == old(self).order(),
            final(self).current_name() == if old(self).themes_map().contains_key(name@) {
                name@
            } else {
                old(self).current_name()
            },
    {
        if self.themes.contains_key(name) {
            self.current = copy_str(name);
        }
        self.themes.keys_are_unique();
    }

    /// The theme in use.
    pub fn current(&self) -> (r: Option<&Theme>)
        requires
            self.wf(),
        ensures
            self.current_name().len() == 0 ==> r is None,
            self.current_name().len() > 0 ==> (r matches Some(t) && *t == self.themes_map()[self.current_name()]),
    {
        if self.current.as_str().is_empty() {
            None
        } else {
            self.themes.get(self.current.as_str())
        }
    }

    /// Moves to the next theme in the order, going round, and gives it.
    pub fn cycle_next(&mut self) -> (r: &Theme)
        requires
            old(self).wf(),
            old(self).order().len() > 0,
        ensures
            final(self).wf(),
            final(self).themes_map() == old(self).themes_map(),
            final(self).order() == old(self).order(),
            final(self).current_name() == next_theme_name(old(self).order(), old(self).current_name()),
            final(self).themes_map().contains_key(final(self).current_name()),
            *r == final(self).themes_map()[final(self).current_name()],
    {
        self.order_facts();
        proof { lemma_position_of(self.order(), self.current_name()); }
        let n = self.themes.len();
        if self.current.as_str().is_empty() {
            let (k, _) = self.themes.entry_at(0);
            proof { assert(self.order()[0] == k@); }
            self.current = k.clone();
        } else {
            let mut idx: usize = 0;
            let mut found = false;
            let mut i: usize = 0;
            while i < n
                invariant
                    n == self.themes.entries().len(),
                    i <= n,
                    !found ==> idx == 0,
                    found ==> idx as int == position_of(self.order(), self.current_name()),
                    !found ==> forall|j: int| 0 <= j < i ==> self.order()[j] != self.current_name(),
                    -1 <= position_of(self.order(), self.current_name()) < self.order().len(),
                    position_of(self.order(), self.current_name()) >= 0 ==> self.order()[position_of(
                        self.order(),
                        self.current_name(),
                    )] == self.current_name(),
                    position_of(self.order(), self.current_name()) >= 0 ==> forall|j: int|
                        0 <= j < position_of(self.order(), self.current_name()) ==> self.order()[j]
                            != self.current_name(),
                    position_of(self.order(), self.current_name()) < 0 ==> forall|j: int|
                        0 <= j < self.order().len() ==> self.order()[j] != self.current_name(),
                decreases n - i,
            {
                let (k, _) = self.themes.entry_at(i);
                proof { assert(self.order()[i as int] == k@); }
                if !found && str_eq(k.as_str(), self.current.as_str()) {
                    idx = i;
                    found = true;
                }
                i += 1;
            }
            let next = (idx + 1) % n;
            let (k, _) = self.themes.entry_at(next);
            proof { assert(self.order()[next as int] == k@); }
            self.current = k.clone();
        }
        self.themes.keys_are_unique();
        self.order_facts();
        match self.themes.get(self.current.as_str()) {
            Some(t) => t,
            None => {
                proof { assert(false); }
                self.themes.entry_at(0).1
            },
        }
    }

    /// A registry of the built-in themes with `terminal` in use.
    pub fn with_defaults() -> (r: Self)
        ensures
            r.wf(),
            r.order() == builtin_names(),
            r.current_name() == "terminal"@,
            r.themes_map().dom() == builtin_names().to_set(),
            r.themes_map().dom().len() == 5,
            forall|i: int| 0 <= i < 5 ==> {
                let n = #[trigger] builtin_names()[i];
                &&& r.themes_map().contains_key(n)
                &&& r.themes_map()[n].name@ == n
                &&& Some((n, r.themes_map()[n].palette())) == theme_for_name(n)
            },
    {
        let mut r = Self::new();
        let mut themes = Theme::builtin_themes();
        let ghost tv = themes@;
        let t4 = themes.pop().unwrap();
        let t3 = themes.pop().unwrap();
        let t2 = themes.pop().unwrap();
        let t1 = themes.pop().unwrap();
        let t0 = themes.pop().unwrap();
        proof {
            reveal_strlit("postman");
            reveal_strlit("dark");
            reveal_strlit("light");
            reveal_strlit("forest");
            reveal_strlit("terminal");
            reveal_strlit("terminal_default");
        }
        proof {
            assert("dark"@.len() == 4 && "light"@.len() == 5 && "forest"@.len() == 6);
            assert("postman"@.len() == 7 && "terminal"@.len() == 8);
        }
        let n0 = t0.name.clone();
        r.register(n0, t0);
        proof { assert(r.order() =~= seq!["postman"@]); }
        let n1 = t1.name.clone();
        r.register(n1, t1);
        proof { assert(r.order() =~= seq!["postman"@, "dark"@]); }
        let n2 = t2.name.clone();
        r.register(n2, t2);
        proof { assert(r.order() =~= seq!["postman"@, "dark"@, "light"@]); }
        let n3 = t3.name.clone();
        r.register(n3, t3);
        proof { assert(r.order() =~= seq!["postman"@, "dark"@, "light"@, "forest"@]); }
        let n4 = t4.name.clone();
        r.register(n4, t4);
        proof { assert(r.order() =~= builtin_names()); }
        r.set_current("terminal");
        proof {
            law_names_are_the_registered_themes(&r);
            assert forall|k: Seq<char>| r.themes_map().dom().contains(k) <==> builtin_names().to_set().contains(k) by {
                if builtin_names().to_set().contains(k) {
                    let i = choose|i: int| 0 <= i < builtin_names().len() && builtin_names()[i] == k;
                    assert(r.order()[i] == k);
                }
            }
            assert(r.themes_map().dom() =~= builtin_names().to_set());
        }
        r
    }
}

/// The theme reached from `current` after `k` steps of `cycle_next`.
pub open spec fn cycled(order: Seq<Seq<char>>, current: Seq<char>, k: nat) -> Seq<char>
    decreases k,
{
    if k == 0 {
        current
    } else {
        cycled(order, next_theme_name(order, current), (k - 1) as nat)
    }
}

proof fn lemma_position_of_listed(order: Seq<Seq<char>>, i: int)
    requires
        order.no_duplicates(),
        0 <= i < order.len(),
    ensures
        position_of(order, order[i]) == i,
{
    lemma_position_of(order, order[i]);
    let p = position_of(order, order[i]);
    if p < 0 {
        assert(order[i] != order[i]);
    }
}

proof fn lemma_cycled_index(order: Seq<Seq<char>>, i: int, k: nat)
    requires
        order.no_duplicates(),
        0 <= i < order.len(),
        forall|j: int| 0 <= j < order.len() ==> (#[trigger] order[j]).len() > 0,
    ensures
        cycled(order, order[i], k) == order[(i + k) % (order.len() as int)],
    decreases k,
{
    let n = order.len() as int;
    if k == 0 {
        assert(i % n == i) by (nonlinear_arith)
            requires
                0 <= i < n,
        ;
    } else {
        lemma_position_of_listed(order, i);
        let next = (i + 1) % n;
        assert(0 <= next < n) by (nonlinear_arith)
            requires
                n > 0,
                next == (i + 1) % n,
        ;
        assert(next_theme_name(order, order[i]) == order[next]);
        lemma_cycled_index(order, next, (k - 1) as nat);
        vstd::arithmetic::div_mod::lemma_add_mod_noop(i + 1, (k - 1) as int, n);
        vstd::arithmetic::div_mod::lemma_add_mod_noop(next, (k - 1) as int, n);
        vstd::arithmetic::div_mod::lemma_small_mod(next as nat, n as nat);
        assert((next + (k - 1)) % n == (i + k) % n);
    }
}

/// Cycling through as many themes as are registered comes back to the theme
/// one started from, when it is one of them (themes are registered under
/// non-empty names).
pub proof fn law_cycle_returns(order: Seq<Seq<char>>, current: Seq<char>)
    requires
        order.no_duplicates(),
        order.contains(current),
        forall|j: int| 0 <= j < order.len() ==> (#[trigger] order[j]).len() > 0,
    ensures
        cycled(order, current, order.len()) == current,
{
    let i = choose|i: int| 0 <= i < order.len() && order[i] == current;
    lemma_cycled_index(order, i, order.len());
    let n = order.len() as int;
    vstd::arithmetic::div_mod::lemma_mod_add_multiples_vanish(i, n);
    vstd::arithmetic::div_mod::lemma_small_mod(i as nat, n as nat);
    assert((i + n) % n == i);
}


/// The names a registry lists are its registered themes, each once: so
/// `len` is the number of names, and every name listed can be looked up.
pub proof fn law_names_are_the_registered_themes(r: &ThemeRegistry)
    requires
        r.wf(),
    ensures
        forall|i: int| 0 <= i < r.order().len() ==> r.themes_map().contains_key(#[trigger] r.order()[i]),
        forall|k: Seq<char>| #[trigger] r.themes_map().contains_key(k) ==> r.order().contains(k),
        r.order().no_duplicates(),
        r.order().len() == r.themes_map().dom().len(),
        r.current_name().len() == 0 || r.themes_map().contains_key(r.current_name()),
{
    r.lemma_order_facts();
}

} // verus!
