use lightspeed::menu::{
    edit_items, file_items, hit, is_enabled, item_text, menus, recent_item_text, row_count,
    title_cell_chars, title_label, MenuHit, MenuItem, MenuPoint, MenuState, RecentRow,
    FILE_MENU_INDEX, TITLE_LEAD, TITLE_TRAIL,
};

fn on_title(index: usize) -> MenuPoint {
    MenuPoint { title: Some(index), in_dropdown: false, row: None }
}

fn on_row(row: usize) -> MenuPoint {
    MenuPoint { title: None, in_dropdown: true, row: Some(row) }
}

fn recent(paths: &[&str]) -> Vec<RecentRow> {
    paths
        .iter()
        .map(|path| RecentRow { label: path.to_string(), path: path.to_string() })
        .collect()
}

#[test]
fn the_three_required_menus_exist_with_their_required_items() {
    let titles: Vec<&str> = menus().iter().map(|menu| menu.title).collect();
    assert_eq!(titles, vec!["File", "Edit", "View"]);

    let file: Vec<&str> = file_items().iter().map(|item| item.label).collect();
    assert_eq!(file, vec!["New", "Open...", "Open Folder", "Save", "Save As...", "Exit"]);

    let edit: Vec<&str> = edit_items().iter().map(|item| item.label).collect();
    assert_eq!(
        edit,
        vec![
            "Undo",
            "Redo",
            "Cut",
            "Copy",
            "Paste",
            "Select All",
            "Delete",
            "Find...",
            "Find Next",
            "Find Previous"
        ]
    );
}

#[test]
fn opening_and_closing_a_menu() {
    let mut state = MenuState::default();
    assert!(!state.is_open());
    state.toggle(0);
    assert_eq!(state.open, Some(0));
    state.toggle(0);
    assert!(!state.is_open(), "clicking an open title closes it");
    state.toggle(1);
    state.toggle(2);
    assert_eq!(state.open, Some(2), "clicking another title switches to it");
    state.close();
    assert!(!state.is_open());
}

#[test]
fn clicking_a_title_reports_that_title() {
    assert_eq!(hit(on_title(0), MenuState::default(), &Vec::new()), MenuHit::Title(0));
    assert_eq!(hit(on_title(1), MenuState::default(), &Vec::new()), MenuHit::Title(1));
}

#[test]
fn clicking_an_item_reports_its_command() {
    let state = MenuState { open: Some(0), hovered_item: None };
    assert_eq!(hit(on_row(0), state, &Vec::new()), MenuHit::Command("file.new"));
    // New, Open..., Open Folder, Save
    assert_eq!(hit(on_row(3), state, &Vec::new()), MenuHit::Command("file.save"));
}

#[test]
fn a_titles_rectangle_is_exactly_as_wide_as_its_own_label() {
    for menu in &menus() {
        let label = title_label(menu);
        let cell = title_cell_chars(menu);
        assert_eq!(
            label.chars().count(),
            cell,
            "the label's length must equal the width the cell is measured by"
        );
        assert_eq!(cell, TITLE_LEAD + menu.title.chars().count() + TITLE_TRAIL);
    }
}

#[test]
fn clicking_outside_the_menu_is_not_a_menu_hit() {
    let state = MenuState { open: Some(0), hovered_item: None };
    let outside = MenuPoint { title: None, in_dropdown: false, row: None };
    assert_eq!(hit(outside, state, &Vec::new()), MenuHit::Elsewhere);
}

#[test]
fn a_click_inside_the_panel_but_off_a_row_is_swallowed() {
    let state = MenuState { open: Some(0), hovered_item: None };
    let padding = MenuPoint { title: None, in_dropdown: true, row: None };
    assert_eq!(hit(padding, state, &Vec::new()), MenuHit::Swallowed);
}

#[test]
fn recent_files_are_appended_below_files_static_items() {
    let recent = recent(&["a.rs", "b.rs"]);
    assert_eq!(
        row_count(FILE_MENU_INDEX, &recent),
        row_count(FILE_MENU_INDEX, &Vec::new()) + recent.len()
    );
    // The entries keep their rows; the recent files come after them.
    let state = MenuState { open: Some(FILE_MENU_INDEX), hovered_item: None };
    for (row, item) in file_items().iter().enumerate() {
        assert_eq!(hit(on_row(row), state, &recent), MenuHit::Command(item.command.unwrap()));
    }
}

#[test]
fn recent_files_are_only_appended_to_the_file_menu() {
    let recent = recent(&["a.rs"]);
    for open in [1usize, 2] {
        assert_eq!(
            row_count(open, &recent),
            row_count(open, &Vec::new()),
            "menu {open} is not File and must not grow"
        );
    }
}

#[test]
fn clicking_a_recent_row_reports_its_path_not_a_command() {
    let state = MenuState { open: Some(FILE_MENU_INDEX), hovered_item: None };
    let recent = recent(&["one.rs", "two.rs"]);
    let own = file_items().len();
    assert_eq!(hit(on_row(own), state, &recent), MenuHit::OpenRecent("one.rs".to_string()));
    assert_eq!(hit(on_row(own + 1), state, &recent), MenuHit::OpenRecent("two.rs".to_string()));
    assert_eq!(hit(on_row(3), state, &recent), MenuHit::Command("file.save"));
}

#[test]
fn an_empty_recent_list_leaves_the_file_menu_exactly_as_before() {
    assert_eq!(row_count(FILE_MENU_INDEX, &recent(&[])), file_items().len());
}

#[test]
fn recent_item_text_is_padded_to_the_column_width() {
    let row = RecentRow { label: "main.rs".to_string(), path: "main.rs".to_string() };
    let rendered = recent_item_text(&row, 20);
    assert_eq!(rendered.chars().count(), 20);
    assert!(rendered.starts_with("main.rs"));
}

#[test]
fn enablement_comes_from_the_registry_not_the_menu() {
    let items = edit_items();
    let undo = items.iter().find(|item| item.label == "Undo").unwrap();
    let copy = items.iter().find(|item| item.label == "Copy").unwrap();

    let mut enabled: Vec<String> = Vec::new();
    assert!(!is_enabled(&enabled, undo), "nothing to undo yet");
    assert!(!is_enabled(&enabled, copy), "nothing selected yet");

    enabled.push("edit.undo".to_string());
    assert!(is_enabled(&enabled, undo));
    assert!(!is_enabled(&enabled, copy));

    enabled.push("edit.copy".to_string());
    assert!(is_enabled(&enabled, copy));
}

#[test]
fn item_text_lines_up_shortcuts() {
    let item = MenuItem::item("Save", "file.save", "Ctrl+S");
    let rendered = item_text(&item, 24);
    assert!(rendered.starts_with("Save"));
    assert!(rendered.ends_with("Ctrl+S"));
    assert_eq!(rendered.chars().count(), 24);
}

#[test]
fn item_text_never_collapses_the_gap() {
    let item =
        MenuItem::item("Toggle Performance Overlay", "view.toggle_performance_overlay", "F12");
    let rendered = item_text(&item, 10);
    assert!(rendered.contains("  "), "there is always a visible gap: {rendered}");
}
