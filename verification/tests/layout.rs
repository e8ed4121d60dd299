use yinx::layout::{calculate_mixed, calculate_wide, logs_height, status_bar_split, LayoutContext, PaneConstraintsMap, PaneRects};

/// The default arrangement (wide, request pane 60 wide, logs a 0.35 share)
/// of a terminal of the given size.
fn wide(width: u16, height: u16, ctx: LayoutContext) -> PaneRects {
    let c = PaneConstraintsMap::default();
    let (status_h, available) = status_bar_split(&c, height);
    let ratio_height = (available as f32 * 0.35) as u16;
    calculate_wide(width, available, status_h, 60, &c, ctx, ratio_height)
}

#[test]
fn test_pane_rects_dimensions() {
    let rects = wide(100, 30, LayoutContext::default());
    assert_eq!(rects.request.width, 60);
    assert_eq!(rects.response.width, 40);
    assert_eq!(rects.status_bar.y, 29);
}

#[test]
fn test_calculate_horizontal_layout() {
    let rects = wide(120, 40, LayoutContext::default());
    assert!(rects.request.width > 0);
    assert!(rects.response.width > 0);
    assert!(rects.logs.height > 0);
}

#[test]
fn test_horizontal_layout_has_gutter() {
    let rects = wide(120, 40, LayoutContext::default());
    assert_eq!(rects.request.x + rects.request.width, rects.response.x);
}

#[test]
fn test_compact_logs_reduce_height() {
    let rects = wide(120, 40, LayoutContext { show_logs: true, compact_logs: true });
    assert_eq!(rects.logs.height, 4);
}

#[test]
fn test_hidden_logs_collapse_area() {
    let rects = wide(120, 40, LayoutContext { show_logs: false, compact_logs: false });
    assert_eq!(rects.logs.width as u32 * rects.logs.height as u32, 0);
}

#[test]
fn wide_layout_of_a_large_terminal() {
    let rects = wide(120, 40, LayoutContext::default());
    assert_eq!((rects.request.x, rects.request.y, rects.request.width, rects.request.height), (0, 0, 60, 39));
    assert_eq!((rects.response.x, rects.response.y, rects.response.width, rects.response.height), (60, 0, 60, 26));
    assert_eq!((rects.logs.x, rects.logs.y, rects.logs.width, rects.logs.height), (60, 26, 60, 13));
    assert_eq!((rects.status_bar.x, rects.status_bar.y, rects.status_bar.width, rects.status_bar.height), (0, 39, 120, 1));
}

#[test]
fn logs_height_is_held_between_its_limits() {
    let c = PaneConstraintsMap::default();
    let ctx = LayoutContext::default();
    assert_eq!(logs_height(39, 2, &c, ctx), 5);
    assert_eq!(logs_height(39, 50, &c, ctx), 34);
    assert_eq!(logs_height(8, 3, &c, ctx), 3);
    assert_eq!(logs_height(5, 3, &c, ctx), 0);
}

/// The mixed arrangement with the default shares.
fn mixed(width: u16, height: u16, ctx: LayoutContext) -> PaneRects {
    let c = PaneConstraintsMap::default();
    let (status_h, available) = status_bar_split(&c, height);
    let top = (available as f32 * 0.34) as u16;
    let response_width = (width as f32 * 0.65f32 / (0.65f32 + 0.35f32)) as u16;
    calculate_mixed(width, available, status_h, &c, ctx, top, response_width)
}

#[test]
fn test_mixed_layout_request_on_top() {
    let rects = mixed(120, 40, LayoutContext::default());
    assert_eq!(rects.request.y, 0);
    assert!(rects.request.height >= 5);
}

#[test]
fn mixed_layout_puts_the_logs_beside_the_response() {
    let rects = mixed(120, 40, LayoutContext::default());
    let response_width = (120f32 * 0.65f32 / (0.65f32 + 0.35f32)) as u16;
    assert_eq!((rects.request.width, rects.request.height), (120, 13));
    assert_eq!((rects.response.x, rects.response.y, rects.response.width, rects.response.height), (0, 13, response_width, 26));
    assert_eq!((rects.logs.x, rects.logs.y, rects.logs.width, rects.logs.height), (response_width, 13, 120 - response_width, 26));
    assert_eq!((rects.status_bar.y, rects.status_bar.height), (39, 1));
    let hidden = mixed(120, 40, LayoutContext { show_logs: false, compact_logs: false });
    assert_eq!(hidden.response.width, 120);
    assert_eq!((hidden.logs.width, hidden.logs.height), (0, 0));
}

#[test]
fn test_pane_rects_all_panes_have_area() {
    let rects = wide(120, 40, LayoutContext::default());
    let area = |r: yinx::layout::PaneRect| r.width as u32 * r.height as u32;
    let total = area(rects.request) + area(rects.response) + area(rects.logs) + area(rects.status_bar);
    assert!(total > 0);
}
