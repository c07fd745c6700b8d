use lightspeed::icons::{Glyph, Icon};
use lightspeed::lists::{
    append_tree_level, search_result_is_current, toggle_path, Entry, ListAction, ListRow, Listing,
};
use lightspeed::sidebar::{sidebar_click, SidebarClick};

fn file(name: &str, path: &str) -> Entry {
    Entry {
        name: name.to_string(),
        path: path.to_string(),
        directory: false,
        children: Listing::Unread,
    }
}

fn directory(name: &str, path: &str, children: Listing) -> Entry {
    Entry { name: name.to_string(), path: path.to_string(), directory: true, children }
}

fn rows_of(listing: &Listing, expanded: &[&str]) -> Vec<ListRow<String>> {
    let expanded: Vec<String> = expanded.iter().map(|path| path.to_string()).collect();
    let mut rows = Vec::new();
    append_tree_level(listing, &expanded, 0, &mut rows);
    rows
}

#[test]
fn clicking_the_search_field_focuses_it_instead_of_the_results_list() {
    assert_eq!(sidebar_click(1, 3, true), SidebarClick::SearchField, "the query field");
    assert_eq!(sidebar_click(2, 3, true), SidebarClick::SearchField, "the replace field");
    assert_eq!(sidebar_click(0, 3, true), SidebarClick::SearchField, "the title row");
}

#[test]
fn clicking_past_the_search_header_still_picks_a_result() {
    assert_eq!(sidebar_click(3, 3, true), SidebarClick::Row(0));
    assert_eq!(sidebar_click(7, 3, true), SidebarClick::Row(4));
}

#[test]
fn an_ordinary_panels_title_row_is_not_a_text_field() {
    assert_eq!(sidebar_click(0, 1, false), SidebarClick::Header);
    assert_eq!(sidebar_click(1, 1, false), SidebarClick::Row(0));
    assert_eq!(sidebar_click(4, 1, false), SidebarClick::Row(3));
}

#[test]
fn results_for_a_query_already_typed_past_are_not_shown() {
    assert!(search_result_is_current("needle", Some("needle")));
    assert!(!search_result_is_current("nee", Some("needle")), "a stale prefix must not show");
    assert!(
        !search_result_is_current("needles", Some("needle")),
        "nor a query the user has since backspaced past"
    );
}

#[test]
fn a_dismissed_search_field_still_shows_whatever_last_completed() {
    assert!(search_result_is_current("needle", None));
}

#[test]
fn collapsed_directories_show_only_their_own_name() {
    let root = Listing::Entries(vec![
        directory("src", "/w/src", Listing::Unread),
        file("README.md", "/w/README.md"),
    ]);
    let rows = rows_of(&root, &[]);
    assert_eq!(rows.len(), 2, "one directory row, one file row, nothing from inside src/");
    let dir_row = rows.iter().find(|r| r.label.contains("src")).unwrap();
    assert_eq!(
        dir_row.chevron,
        Some(Icon::ChevronRight),
        "a collapsed directory points its chevron sideways"
    );
    assert_eq!(dir_row.icon, Some(Glyph::from(Icon::Folder)));
    assert!(matches!(dir_row.action, Some(ListAction::ToggleDirectory(_))));
}

#[test]
fn expanding_a_directory_reveals_its_children_indented_one_level_deeper() {
    let root = Listing::Entries(vec![directory(
        "src",
        "/w/src",
        Listing::Entries(vec![file("main.rs", "/w/src/main.rs")]),
    )]);
    let rows = rows_of(&root, &["/w/src"]);
    assert_eq!(rows.len(), 2, "the directory row, plus main.rs inside it");
    let dir_row = &rows[0];
    assert_eq!(
        dir_row.chevron,
        Some(Icon::ChevronDown),
        "an expanded directory points its chevron down"
    );
    assert_eq!(dir_row.icon, Some(Glyph::from(Icon::FolderOpened)));
    assert_eq!(dir_row.depth, 0);
    let file_row = &rows[1];
    assert!(file_row.label.contains("main.rs"));
    assert_eq!(file_row.depth, 1, "a child sits one level deeper than its parent");
    assert_eq!(file_row.chevron, None, "a file has nothing to expand");
    assert!(matches!(&file_row.action, Some(ListAction::OpenFile(p)) if p.ends_with("main.rs")));
}

#[test]
fn two_separate_branches_can_be_expanded_at_once() {
    let root = Listing::Entries(vec![
        directory("alpha", "/w/alpha", Listing::Entries(vec![file("a.rs", "/w/alpha/a.rs")])),
        directory("beta", "/w/beta", Listing::Entries(vec![file("b.rs", "/w/beta/b.rs")])),
    ]);
    let rows = rows_of(&root, &["/w/alpha", "/w/beta"]);
    assert_eq!(rows.len(), 4, "alpha, a.rs, beta, b.rs");
    assert!(rows.iter().any(|r| r.label.contains("a.rs")));
    assert!(rows.iter().any(|r| r.label.contains("b.rs")));
}

#[test]
fn a_collapsed_directory_never_touches_its_children_on_disk() {
    // What is not expanded is not even looked at, however much it holds.
    let inside: Vec<Entry> = (0..50)
        .map(|index| file(&format!("f{index}.txt"), &format!("/w/huge/f{index}.txt")))
        .collect();
    let root = Listing::Entries(vec![directory("huge", "/w/huge", Listing::Entries(inside))]);
    let rows = rows_of(&root, &[]);
    assert_eq!(rows.len(), 1, "only the collapsed huge/ row itself, none of its 50 files");
}

#[test]
fn a_directory_that_cannot_be_read_says_why() {
    let root = Listing::Entries(vec![directory(
        "locked",
        "/w/locked",
        Listing::Failed("permission denied".to_string()),
    )]);
    let rows = rows_of(&root, &["/w/locked"]);
    assert_eq!(rows.len(), 2);
    assert_eq!(rows[1].label, "permission denied");
    assert_eq!(rows[1].depth, 1);
    assert_eq!(rows[1].action, None);
}

#[test]
fn toggling_a_directory_twice_leaves_it_as_it_was() {
    let mut expanded = vec!["/w/a".to_string()];
    toggle_path(&mut expanded, "/w/b");
    assert!(expanded.iter().any(|path| path == "/w/b"));
    toggle_path(&mut expanded, "/w/b");
    assert_eq!(expanded, vec!["/w/a".to_string()]);
    toggle_path(&mut expanded, "/w/a");
    assert!(expanded.is_empty());
}
