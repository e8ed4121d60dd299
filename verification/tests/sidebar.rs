use yinx::environments::Environment;
use yinx::input::Key;
use yinx::logs_pane::Timestamp;
use yinx::sidebar::{
    relative_time, relative_time_at, truncate_text, Collection, CollectionItem, HistoryEntry, Sidebar,
    SidebarItem, SidebarSection,
};

fn at(secs: i64) -> Timestamp {
    Timestamp { secs, nanos: 0 }
}

fn collection() -> Collection {
    Collection {
        id: "c1".to_string(),
        name: "Users API".to_string(),
        items: vec![
            CollectionItem::Request("List users".to_string()),
            CollectionItem::Folder {
                name: "Admin".to_string(),
                children: vec![CollectionItem::Request("Delete user".to_string())],
            },
        ],
    }
}

fn header(section: SidebarSection) -> SidebarItem {
    SidebarItem::SectionHeader { section }
}

#[test]
fn truncation_keeps_short_text_and_marks_cuts() {
    assert_eq!(truncate_text("hello", 0), "");
    assert_eq!(truncate_text("hello", 5), "hello");
    assert_eq!(truncate_text("hello", 1), "…");
    assert_eq!(truncate_text("hello", 3), "he…");
    assert_eq!(truncate_text("héllo wörld", 4), "hél…");
}

#[test]
fn relative_time_uses_the_largest_unit() {
    let now = at(10_000_000);
    assert_eq!(relative_time_at(now, at(10_000_000 - 59)), "59s ago");
    assert_eq!(relative_time_at(now, at(10_000_000 - 60)), "1m ago");
    assert_eq!(relative_time_at(now, at(10_000_000 - 7200)), "2h ago");
    assert_eq!(relative_time_at(now, at(10_000_000 - 3 * 86400)), "3d ago");
    assert_eq!(relative_time_at(now, at(10_000_000 - 14 * 86400)), "2w ago");
    assert_eq!(relative_time_at(now, at(10_000_000 - 2_592_000 * 3)), "3mo ago");
    assert_eq!(relative_time_at(now, at(10_000_000 + 30)), "30s ago");
    let half = Timestamp { secs: 9_999_999, nanos: 500_000_000 };
    assert_eq!(relative_time_at(now, half), "0s ago");
}

#[test]
fn relative_time_of_the_present_is_seconds() {
    assert!(relative_time(at(0)).ends_with("mo ago"));
}

#[test]
fn collections_are_flattened_under_their_headers() {
    let mut sidebar = Sidebar::new();
    sidebar.set_collections(vec![collection()]);
    assert_eq!(
        sidebar.items,
        vec![
            header(SidebarSection::Collections),
            SidebarItem::CollectionHeader { id: "c1".to_string(), name: "Users API".to_string() },
            SidebarItem::CollectionRequest { name: "List users".to_string(), depth: 1 },
            SidebarItem::CollectionFolder { name: "Admin".to_string(), depth: 1 },
            SidebarItem::CollectionRequest { name: "Delete user".to_string(), depth: 2 },
            header(SidebarSection::Environments),
            header(SidebarSection::History),
        ]
    );
}

#[test]
fn collapsing_a_folder_hides_what_it_holds() {
    let mut sidebar = Sidebar::new();
    sidebar.set_collections(vec![collection()]);
    sidebar.selected_index = 3;
    assert!(sidebar.handle_key(&Key::Left));
    assert_eq!(sidebar.items.len(), 6);
    assert_eq!(sidebar.collapsed_folders, vec![vec!["Admin".to_string()]]);
    assert!(sidebar.handle_key(&Key::Right));
    assert_eq!(sidebar.items.len(), 7);
    assert!(sidebar.collapsed_folders.is_empty());
}

#[test]
fn collapsing_a_section_keeps_its_header() {
    let mut sidebar = Sidebar::new();
    sidebar.set_collections(vec![collection()]);
    assert!(sidebar.handle_key(&Key::Char('h')));
    assert_eq!(sidebar.items.len(), 3);
    sidebar.toggle_section(SidebarSection::Collections);
    assert_eq!(sidebar.items.len(), 7);
    sidebar.toggle_section(SidebarSection::History);
    assert_eq!(sidebar.collapsed_sections, vec![SidebarSection::History]);
}

#[test]
fn collapsing_a_collection_keeps_its_header() {
    let mut sidebar = Sidebar::new();
    sidebar.set_collections(vec![collection()]);
    sidebar.selected_index = 1;
    sidebar.handle_key(&Key::Left);
    assert_eq!(sidebar.items.len(), 4);
    sidebar.handle_key(&Key::Left);
    assert_eq!(sidebar.collapsed_collections, vec!["c1".to_string()]);
    sidebar.handle_key(&Key::Right);
    assert_eq!(sidebar.items.len(), 7);
}

#[test]
fn the_filter_matches_names_without_regard_to_case() {
    let mut sidebar = Sidebar::new();
    sidebar.set_collections(vec![collection()]);
    assert!(sidebar.handle_key(&Key::Char('/')));
    assert!(sidebar.filter_active);
    for c in "LIST".chars() {
        assert!(sidebar.handle_key(&Key::Char(c)));
    }
    assert_eq!(sidebar.filter(), "LIST");
    assert_eq!(sidebar.items.len(), 5);
    assert!(sidebar.handle_key(&Key::Backspace));
    assert_eq!(sidebar.filter(), "LIS");
    assert!(sidebar.handle_key(&Key::Enter));
    assert!(!sidebar.filter_active);
    assert_eq!(sidebar.filter(), "LIS");
    sidebar.handle_key(&Key::Char('/'));
    assert!(sidebar.handle_key(&Key::Esc));
    assert_eq!(sidebar.filter(), "");
    assert_eq!(sidebar.items.len(), 7);
}

#[test]
fn enter_toggles_the_active_environment() {
    let mut sidebar = Sidebar::new();
    sidebar.set_environments(
        vec![Environment { id: "dev".to_string(), name: "Dev".to_string(), variables: Vec::new() }],
        None,
    );
    sidebar.selected_index = 2;
    assert!(sidebar.handle_key(&Key::Enter));
    assert_eq!(sidebar.active_environment_id(), Some("dev".to_string()));
    assert_eq!(
        sidebar.selected_item(),
        Some(&SidebarItem::Environment { id: "dev".to_string(), name: "Dev".to_string(), active: true })
    );
    assert!(sidebar.handle_key(&Key::Enter));
    assert_eq!(sidebar.active_environment_id(), None);
}

#[test]
fn history_lines_lead_back_to_their_entry() {
    let mut sidebar = Sidebar::new();
    sidebar.set_history(vec![HistoryEntry {
        id: "h1".to_string(),
        method: "GET".to_string(),
        url: "https://example.com".to_string(),
        status: Some(200),
        timestamp: at(0),
    }]);
    assert_eq!(sidebar.items.len(), 4);
    assert!(sidebar.handle_key(&Key::Char('G')));
    assert_eq!(sidebar.selected_index(), 3);
    assert_eq!(sidebar.selected_history_entry().map(|e| e.id.as_str()), Some("h1"));
    assert!(sidebar.handle_key(&Key::Down));
    assert_eq!(sidebar.selected_index(), 3);
    assert!(sidebar.handle_key(&Key::Char('g')));
    assert!(sidebar.selected_history_entry().is_none());
    sidebar.handle_key(&Key::Char('G'));
    sidebar.clear_history_items();
    assert!(sidebar.get_history().is_empty());
    assert_eq!(sidebar.selected_index(), 2);
    assert!(!sidebar.handle_key(&Key::Char('x')));
}

#[test]
fn display_rows_draw_folds_indents_and_history() {
    let theme = yinx::theme::Theme::dark();
    let mut sidebar = Sidebar::new();
    sidebar.set_collections(vec![collection()]);
    sidebar.toggle_section(SidebarSection::History);
    assert!(sidebar.fits_indents());
    let rows = sidebar.display_rows(30, &theme);
    assert_eq!(rows.len(), sidebar.items.len());
    assert_eq!(rows[0][0][0].text, " ▾ COLLECTIONS ");
    assert_eq!(rows[0][0][0].bg, Some(theme.subtle_bg()));
    assert_eq!(rows[1][0][0].text, "  ▾ Users API ");
    assert_eq!(rows[2][0][0].text, "      ▪ List users ");
    assert_eq!(rows[3][0][0].text, "    ▾ Admin ");
    assert_eq!(rows[4][0][0].text, "        ▪ Delete user ");
    assert_eq!(rows[6][0][0].text, " ▸ HISTORY ");
    let narrow = sidebar.display_rows(10, &theme);
    assert_eq!(narrow[1][0][0].text, "  ▾ U… ");
}

#[test]
fn history_rows_show_method_status_and_url() {
    let theme = yinx::theme::Theme::dark();
    let mut sidebar = Sidebar::new();
    sidebar.items = vec![SidebarItem::HistoryEntry {
        id: "h".to_string(),
        method: "DELETE".to_string(),
        url: "https://example.com/a/very/long/path".to_string(),
        status: Some(503),
        time_ago: "2m ago".to_string(),
    }];
    let rows = sidebar.display_rows(24, &theme);
    let first: Vec<&str> = rows[0][0].iter().map(|s| s.text.as_str()).collect();
    assert_eq!(first, vec![" DELETE ", "503 ", "2m ago"]);
    assert_eq!(rows[0][0][0].fg, Some(theme.semantic.error));
    assert_eq!(rows[0][0][1].fg, Some(theme.semantic.error));
    assert_eq!(rows[0][1][0].text, "  https:/…");
}
