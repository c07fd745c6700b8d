use lightspeed::keymap::{Key, NamedKey};
use lightspeed::palette::{
    filter, CommandDescriptor, CommandPalette, PaletteRequest, PaletteRow, MAX_VISIBLE_ROWS,
};

fn sample() -> Vec<CommandDescriptor> {
    [
        ("file.new", "New File"),
        ("file.open", "Open File"),
        ("file.save", "Save"),
        ("file.save_as", "Save As"),
        ("edit.undo", "Undo"),
        ("edit.find", "Find"),
    ]
    .into_iter()
    .map(|(id, display_name)| CommandDescriptor { id, display_name })
    .collect()
}

fn all_enabled(commands: &[CommandDescriptor]) -> Vec<String> {
    commands.iter().map(|command| command.id.to_string()).collect()
}

#[test]
fn an_empty_query_lists_every_enabled_command_in_registry_order() {
    let rows = filter(&sample(), "", &all_enabled(&sample()));
    assert_eq!(rows.len(), sample().len());
    for (row, command) in rows.iter().zip(sample()) {
        assert_eq!(row.id, command.id);
    }
}

#[test]
fn the_query_matches_the_display_name_case_insensitively() {
    let rows = filter(&sample(), "SAVE AS", &all_enabled(&sample()));
    assert!(
        rows.iter().any(|row| row.display_name.eq_ignore_ascii_case("Save As")),
        "expected a \"Save As\"-ish command in {rows:?}"
    );
    assert!(
        rows.iter().all(|row| row.display_name.to_ascii_lowercase().contains("save as")),
        "every row must actually match the query"
    );
    assert_eq!(rows, vec![PaletteRow { id: "file.save_as", display_name: "Save As" }]);
}

#[test]
fn a_disabled_command_never_appears_even_if_its_name_matches() {
    let target = sample()[0].id;
    let enabled: Vec<String> =
        all_enabled(&sample()).into_iter().filter(|id| id != target).collect();
    let rows = filter(&sample(), "", &enabled);
    assert!(rows.iter().all(|row| row.id != target));
    assert_eq!(rows.len(), sample().len() - 1);
}

#[test]
fn a_query_matching_nothing_yields_an_empty_list_not_a_panic() {
    let rows =
        filter(&sample(), "no command could ever be named this", &all_enabled(&sample()));
    assert!(rows.is_empty());
}

#[test]
fn the_highlight_never_leaves_the_rows_that_are_shown() {
    let mut palette = CommandPalette::new();
    assert!(!palette.open);
    palette.show();
    assert!(palette.open);
    for _ in 0..40 {
        assert_eq!(
            palette.key(&Key::Named(NamedKey::ArrowDown), None, 500),
            PaletteRequest::Redraw
        );
    }
    assert_eq!(palette.selected, MAX_VISIBLE_ROWS - 1);
    for _ in 0..40 {
        palette.key(&Key::Named(NamedKey::ArrowUp), None, 500);
    }
    assert_eq!(palette.selected, 0);
}

#[test]
fn typing_narrows_the_palette_and_starts_again_at_the_top() {
    let mut palette = CommandPalette::new();
    palette.show();
    palette.key(&Key::Named(NamedKey::ArrowDown), None, 6);
    assert_eq!(palette.selected, 1);
    let typed = "s".to_string();
    palette.key(&Key::Character(typed.clone()), Some(&typed), 6);
    assert_eq!(palette.query, vec!['s']);
    assert_eq!(palette.selected, 0);
    let rows = palette.rows(&sample(), &all_enabled(&sample()));
    assert_eq!(rows.len(), 2);
    let text = palette.rich(&rows).text();
    assert!(text.contains("s\u{2588}"), "{text}");
    assert!(text.contains("Save As"), "{text}");
}

#[test]
fn escape_closes_the_palette_and_enter_runs_it() {
    let mut palette = CommandPalette::new();
    palette.show();
    assert_eq!(palette.key(&Key::Named(NamedKey::Escape), None, 3), PaletteRequest::Close);
    assert_eq!(palette.key(&Key::Named(NamedKey::Enter), None, 3), PaletteRequest::Run);
    assert_eq!(palette.key(&Key::Unidentified, None, 3), PaletteRequest::Ignore);
}
