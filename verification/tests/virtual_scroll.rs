use yinx::virtual_scroll::VirtualScroll;

#[test]
fn test_virtual_scroll_new() {
    let items = vec!["a", "b", "c"];
    let vs = VirtualScroll::new(items);
    assert_eq!(vs.total_items(), 3);
    assert_eq!(vs.scroll_offset(), 0);
}

#[test]
fn test_virtual_scroll_scroll_by() {
    let items = vec!["a", "b", "c", "d", "e"];
    let mut vs = VirtualScroll::new(items);
    vs.set_viewport_height(2);
    vs.scroll_by(1);
    assert_eq!(vs.scroll_offset(), 1);
}

#[test]
fn test_virtual_scroll_scroll_by_negative() {
    let items = vec!["a", "b", "c", "d", "e"];
    let mut vs = VirtualScroll::new(items);
    vs.set_viewport_height(2);
    vs.scroll_by(-1);
    assert_eq!(vs.scroll_offset(), 0);
}

#[test]
fn test_virtual_scroll_scroll_to_bottom() {
    let items = vec!["a", "b", "c", "d", "e"];
    let mut vs = VirtualScroll::new(items);
    vs.set_viewport_height(2);
    vs.scroll_to_bottom();
    assert_eq!(vs.scroll_offset(), 3);
}

#[test]
fn test_virtual_scroll_visible_range() {
    let items = vec!["a", "b", "c", "d", "e"];
    let mut vs = VirtualScroll::new(items);
    vs.set_viewport_height(2);
    vs.set_scroll_offset(1);
    let (start, end) = vs.visible_range();
    assert_eq!(start, 1);
    assert_eq!(end, 3);
}

#[test]
fn test_virtual_scroll_visible_items() {
    let items = vec!["a", "b", "c", "d", "e"];
    let mut vs = VirtualScroll::new(items);
    vs.set_viewport_height(2);
    vs.set_scroll_offset(2);
    let visible = vs.visible_items();
    assert_eq!(visible, &["c", "d"]);
}

#[test]
fn test_virtual_scroll_set_viewport_height_truncates_offset() {
    let items = vec!["a", "b", "c"];
    let mut vs = VirtualScroll::new(items);
    vs.set_scroll_offset(10);
    vs.set_viewport_height(1);
    assert_eq!(vs.scroll_offset(), 2);
}

#[test]
fn test_virtual_scroll_empty() {
    let items: Vec<String> = Vec::new();
    let mut vs = VirtualScroll::new(items);
    vs.set_viewport_height(10);
    assert_eq!(vs.total_items(), 0);
    assert!(vs.visible_items().is_empty());
}

#[test]
fn scrolling_stays_within_the_list() {
    let mut vs = VirtualScroll::new(vec![1, 2, 3, 4, 5, 6]);
    vs.set_viewport_height(4);
    vs.scroll_by(100);
    assert_eq!(vs.scroll_offset(), 2);
    vs.scroll_to_top();
    assert_eq!(vs.scroll_offset(), 0);
    vs.scroll_by(i64::MIN);
    assert_eq!(vs.scroll_offset(), 0);
}
