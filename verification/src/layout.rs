use vstd::prelude::*;

verus! {

/// The size limits of a pane and how much it matters when space is short.
#[derive(Debug, Clone, Copy, PartialEq, Eq, Structural)]
pub struct PaneConstraints {
    pub min_width: u16,
    pub min_height: u16,
    pub max_width: Option<u16>,
    pub max_height: Option<u16>,
    pub priority: u8,
}

impl Default for PaneConstraints {
    fn default() -> (r: Self)
        ensures
            r == (PaneConstraints { min_width: 20, min_height: 10, max_width: None, max_height: None, priority: 1 }),
    {
        PaneConstraints { min_width: 20, min_height: 10, max_width: None, max_height: None, priority: 1 }
    }
}

/// The arrangements of the panes.
#[derive(Debug, Clone, Copy, PartialEq, Eq, Structural)]
pub enum LayoutPreset {
    Default,
    Mixed,
    Wide,
}

/// What the layout has to make room for.
#[derive(Debug, Clone, Copy, PartialEq, Eq, Structural)]
pub struct LayoutContext {
    pub show_logs: bool,
    pub compact_logs: bool,
}

impl Default for LayoutContext {
    fn default() -> (r: Self)
        ensures
            r == (LayoutContext { show_logs: true, compact_logs: false }),
    {
        LayoutContext { show_logs: true, compact_logs: false }
    }
}

/// The constraints of each pane.
#[derive(Debug, Clone, Copy, PartialEq, Eq, Structural)]
pub struct PaneConstraintsMap {
    pub request: PaneConstraints,
    pub response: PaneConstraints,
    pub logs: PaneConstraints,
    pub status_bar: PaneConstraints,
}

impl Default for PaneConstraintsMap {
    fn default() -> (r: Self)
        ensures
            r.request == (PaneConstraints { min_width: 50, min_height: 5, max_width: None, max_height: None, priority: 3 }),
            r.response == (PaneConstraints { min_width: 40, min_height: 5, max_width: None, max_height: None, priority: 4 }),
            r.logs == (PaneConstraints { min_width: 20, min_height: 5, max_width: None, max_height: None, priority: 1 }),
            r.status_bar == (PaneConstraints { min_width: 10, min_height: 1, max_width: None, max_height: Some(3u16), priority: 0 }),
    {
        PaneConstraintsMap {
            request: PaneConstraints { min_width: 50, min_height: 5, max_width: None, max_height: None, priority: 3 },
            response: PaneConstraints { min_width: 40, min_height: 5, max_width: None, max_height: None, priority: 4 },
            logs: PaneConstraints { min_width: 20, min_height: 5, max_width: None, max_height: None, priority: 1 },
            status_bar: PaneConstraints { min_width: 10, min_height: 1, max_width: None, max_height: Some(3), priority: 0 },
        }
    }
}

/// `v` raised to `min`, then lowered to `max` when there is one.
pub open spec fn bounded(v: u16, min: u16, max: Option<u16>) -> u16 {
    let w = if v < min { min } else { v };
    match max {
        Some(m) => if m < w { m } else { w },
        None => w,
    }
}

/// A width raised to the minimum, then lowered to the maximum.
pub fn bounded_width(width: u16, min: u16, max: Option<u16>) -> (r: u16)
    ensures
        r == bounded(width, min, max),
{
    let w = if width < min { min } else { width };
    match max {
        Some(m) => if m < w { m } else { w },
        None => w,
    }
}

/// A height raised to the minimum, then lowered to the maximum.
pub fn bounded_height(height: u16, min: u16, max: Option<u16>) -> (r: u16)
    ensures
        r == bounded(height, min, max),
{
    bounded_width(height, min, max)
}

/// A rectangle of the screen.
#[derive(Debug, Clone, Copy, PartialEq, Eq, Structural)]
pub struct PaneRect {
    pub x: u16,
    pub y: u16,
    pub width: u16,
    pub height: u16,
}

/// The rectangles of the panes.
#[derive(Debug, Clone, Copy, PartialEq, Eq, Structural)]
pub struct PaneRects {
    pub request: PaneRect,
    pub response: PaneRect,
    pub logs: PaneRect,
    pub status_bar: PaneRect,
}

/// A rectangle as `ratatui::layout::Rect::new` makes it: the width and
/// height cut so that the right and bottom edges stay within `u16`.
pub open spec fn rect(x: u16, y: u16, w: u16, h: u16) -> PaneRect {
    PaneRect {
        x,
        y,
        width: if x + w > u16::MAX { (u16::MAX - x) as u16 } else { w },
        height: if y + h > u16::MAX { (u16::MAX - y) as u16 } else { h },
    }
}

fn make_rect(x: u16, y: u16, w: u16, h: u16) -> (r: PaneRect)
    ensures
        r == rect(x, y, w, h),
{
    PaneRect {
        x,
        y,
        width: if w > u16::MAX - x { u16::MAX - x } else { w },
        height: if h > u16::MAX - y { u16::MAX - y } else { h },
    }
}

/// `a - b`, or 0 below it.
pub open spec fn sat_sub(a: u16, b: u16) -> u16 {
    if a > b { (a - b) as u16 } else { 0 }
}

/// The status bar's height (its minimum, within the terminal) and the
/// height left above it.
pub open spec fn status_split(c: PaneConstraintsMap, term_height: u16) -> (u16, u16) {
    let s = if c.status_bar.min_height < term_height { c.status_bar.min_height } else { term_height };
    (s, (term_height - s) as u16)
}

/// The height of the logs pane out of `available` rows: none when the logs
/// are hidden; at most four rows when compact; else `ratio_height` (the
/// configured share of the rows) held between the pane's minimum and what
/// leaves the response pane its minimum, all of that when it is below the
/// minimum.
pub open spec fn logs_height_of(available: u16, ratio_height: u16, c: PaneConstraintsMap, ctx: LayoutContext) -> u16 {
    if !ctx.show_logs {
        0
    } else if ctx.compact_logs {
        let room = sat_sub(available, c.response.min_height);
        if room < 4 { room } else { 4 }
    } else {
        let min_h = if c.logs.min_height < available { c.logs.min_height } else { available };
        let max_h = sat_sub(available, c.response.min_height);
        if max_h == 0 {
            0
        } else if max_h < min_h {
            max_h
        } else if ratio_height < min_h {
            min_h
        } else if ratio_height > max_h {
            max_h
        } else {
            ratio_height
        }
    }
}

/// The wide arrangement: the request pane on the left at its configured
/// width within its limits, the response pane on the right above the logs,
/// and the status bar below.
pub open spec fn wide_rects(
    width: u16,
    available: u16,
    status_h: u16,
    request_pane_width: u16,
    c: PaneConstraintsMap,
    ctx: LayoutContext,
    ratio_height: u16,
) -> PaneRects {
    let req_w = bounded(request_pane_width, c.request.min_width, c.request.max_width);
    let right_w = sat_sub(width, req_w);
    let logs_h = logs_height_of(available, ratio_height, c, ctx);
    let rest = sat_sub(available, logs_h);
    let resp_h = if rest < c.response.min_height { c.response.min_height } else { rest };
    PaneRects {
        request: rect(0, 0, req_w, available),
        response: rect(req_w, 0, right_w, resp_h),
        logs: if logs_h == 0 { rect(req_w, resp_h, 0, 0) } else { rect(req_w, resp_h, right_w, logs_h) },
        status_bar: rect(0, available, width, status_h),
    }
}

/// The height of the status bar and the height left above it.
pub fn status_bar_split(c: &PaneConstraintsMap, term_height: u16) -> (r: (u16, u16))
    ensures
        r == status_split(*c, term_height),
{
    let s = if c.status_bar.min_height < term_height { c.status_bar.min_height } else { term_height };
    (s, term_height - s)
}

/// The height of the logs pane (`logs_height_of`); `ratio_height` is the
/// configured share of `available`, worked out by the caller.
pub fn logs_height(available: u16, ratio_height: u16, c: &PaneConstraintsMap, ctx: LayoutContext) -> (r: u16)
    ensures
        r == logs_height_of(available, ratio_height, *c, ctx),
{
    if !ctx.show_logs {
        return 0;
    }
    let room = if available > c.response.min_height { available - c.response.min_height } else { 0 };
    if ctx.compact_logs {
        return if room < 4 { room } else { 4 };
    }
    let min_h = if c.logs.min_height < available { c.logs.min_height } else { available };
    if room == 0 {
        0
    } else if room < min_h {
        room
    } else if ratio_height < min_h {
        min_h
    } else if ratio_height > room {
        room
    } else {
        ratio_height
    }
}

/// The panes in the wide arrangement (`wide_rects`).
pub fn calculate_wide(
    width: u16,
    available: u16,
    status_h: u16,
    request_pane_width: u16,
    c: &PaneConstraintsMap,
    ctx: LayoutContext,
    ratio_height: u16,
) -> (r: PaneRects)
    ensures
        r == wide_rects(width, available, status_h, request_pane_width, *c, ctx, ratio_height),
{
    let req_w = bounded_width(request_pane_width, c.request.min_width, c.request.max_width);
    let right_w = if width > req_w { width - req_w } else { 0 };
    let logs_h = logs_height(available, ratio_height, c, ctx);
    let rest = if available > logs_h { available - logs_h } else { 0 };
    let resp_h = if rest < c.response.min_height { c.response.min_height } else { rest };
    let logs = if logs_h == 0 { make_rect(req_w, resp_h, 0, 0) } else { make_rect(req_w, resp_h, right_w, logs_h) };
    PaneRects {
        request: make_rect(0, 0, req_w, available),
        response: make_rect(req_w, 0, right_w, resp_h),
        logs,
        status_bar: make_rect(0, available, width, status_h),
    }
}

/// The mixed arrangement: the request pane across the top at `top_height`
/// (its share of the rows, raised to its minimum), and below it the
/// response pane `response_width` wide beside the logs (at least their
/// minimum width), or the response pane alone when the logs are hidden.
pub open spec fn mixed_rects(
    width: u16,
    available: u16,
    status_h: u16,
    c: PaneConstraintsMap,
    ctx: LayoutContext,
    top_height: u16,
    response_width: u16,
) -> PaneRects {
    let req_h = if top_height < c.request.min_height { c.request.min_height } else { top_height };
    let bottom = sat_sub(available, req_h);
    let under = (req_h + bottom) as u16;
    let logs_w0 = sat_sub(width, response_width);
    let logs_w = if logs_w0 < c.logs.min_width { c.logs.min_width } else { logs_w0 };
    if !ctx.show_logs {
        PaneRects {
            request: rect(0, 0, width, req_h),
            response: rect(0, req_h, width, bottom),
            logs: rect(0, under, 0, 0),
            status_bar: rect(0, under, width, status_h),
        }
    } else {
        PaneRects {
            request: rect(0, 0, width, req_h),
            response: rect(0, req_h, response_width, bottom),
            logs: rect(response_width, req_h, logs_w, bottom),
            status_bar: rect(0, under, width, status_h),
        }
    }
}

/// The panes in the mixed arrangement (`mixed_rects`); the request pane's
/// share of the rows and the response pane's of the columns are worked out
/// by the caller.
pub fn calculate_mixed(
    width: u16,
    available: u16,
    status_h: u16,
    c: &PaneConstraintsMap,
    ctx: LayoutContext,
    top_height: u16,
    response_width: u16,
) -> (r: PaneRects)
    ensures
        r == mixed_rects(width, available, status_h, *c, ctx, top_height, response_width),
{
    let req_h = if top_height < c.request.min_height { c.request.min_height } else { top_height };
    let bottom = if available > req_h { available - req_h } else { 0 };
    let under = req_h + bottom;
    let status_bar = make_rect(0, under, width, status_h);
    if !ctx.show_logs {
        return PaneRects {
            request: make_rect(0, 0, width, req_h),
            response: make_rect(0, req_h, width, bottom),
            logs: make_rect(0, under, 0, 0),
            status_bar,
        };
    }
    let logs_w0 = if width > response_width { width - response_width } else { 0 };
    let logs_w = if logs_w0 < c.logs.min_width { c.logs.min_width } else { logs_w0 };
    PaneRects {
        request: make_rect(0, 0, width, req_h),
        response: make_rect(0, req_h, response_width, bottom),
        logs: make_rect(response_width, req_h, logs_w, bottom),
        status_bar,
    }
}

} // verus!
