use lightspeed::compose::{DrawList, Fill, Place, Quad, Region};
use lightspeed::depgraph::Mark;
use lightspeed::frame::{
    add_editor_layer, editor_text, ControlMark, ControlShape, CursorMark, Decoration,
    DecorationKind, EditorArea, EditorFrame, FrameError, OnScreen, SelectionSpan, SettingsMarks,
    Snapshot, SnapshotLine, SyntaxSpan,
};
use lightspeed::keymap::{Key, Modifiers, NamedKey};
use lightspeed::settings::{
    tab_width, ControlKind, SettingChange, SettingDescriptor, SettingsHit, SettingsReply,
    SettingsScreen,
};
use lightspeed::terminal::{LineOutcome, ShellState, TerminalPanel};

const PLAIN: Modifiers = Modifiers { control: false, shift: false, alt: false };

fn chars(text: &str) -> Vec<char> {
    text.chars().collect()
}

fn input_of(panel: &TerminalPanel) -> String {
    panel.rows(100).pop().unwrap()
}

fn typed(panel: &mut TerminalPanel, text: &str) {
    panel.insert(&chars(text));
}

fn snapshot() -> Snapshot {
    let line = |index, text: &str| SnapshotLine { index, text: text.to_string() };
    Snapshot {
        lines: vec![line(9, "let \u{e9} = 1;"), line(10, "done")],
        decorations: vec![
            Decoration {
                line: 9,
                start_column_chars: 4,
                end_column_chars: 5,
                kind: DecorationKind::SyntaxToken(2),
            },
            Decoration {
                line: 10,
                start_column_chars: 0,
                end_column_chars: 4,
                kind: DecorationKind::SearchMatch,
            },
        ],
        selections: vec![],
        cursors: vec![CursorMark { line: 9, column_chars: 5, primary: true }],
        first_line: 9,
        visible_lines: 2,
        total_lines: 40,
    }
}

fn document(snapshot: Snapshot) -> EditorFrame {
    EditorFrame {
        area: EditorArea::Document(Some(snapshot)),
        line_numbers: true,
        caret_visible: true,
        screen: OnScreen { from: 0, to: 30 },
    }
}

fn drawn(frame: &EditorFrame) -> DrawList {
    let mut list = DrawList::new();
    add_editor_layer(frame, &mut list);
    list
}

// --- the terminal -------------------------------------------------------------

#[test]
fn backspace_undoes_typing() {
    let mut panel = TerminalPanel::new();
    typed(&mut panel, "ls");
    typed(&mut panel, "x");
    panel.backspace();
    assert_eq!(input_of(&panel), "> ls\u{2588}");
    panel.move_home();
    panel.backspace();
    assert_eq!(input_of(&panel), "> \u{2588}ls", "nothing before the line");
    panel.delete_forward();
    panel.move_right();
    panel.move_right();
    panel.move_left();
    assert_eq!(input_of(&panel), "> \u{2588}s");
    panel.move_end();
    assert_eq!(input_of(&panel), "> s\u{2588}");
}

#[test]
fn down_gives_back_what_was_being_typed() {
    let mut panel = TerminalPanel::new();
    typed(&mut panel, "make");
    assert_eq!(panel.enter(ShellState::Running), LineOutcome::Send("make".to_string()));
    typed(&mut panel, "gre");
    panel.history_up();
    assert_eq!(input_of(&panel), "> make\u{2588}");
    panel.history_down();
    assert_eq!(input_of(&panel), "> gre\u{2588}");
}

#[test]
fn a_line_goes_to_the_shell_only_while_it_runs() {
    let mut panel = TerminalPanel::new();
    typed(&mut panel, "a");
    assert_eq!(panel.enter(ShellState::NotStarted), LineOutcome::Dropped);
    typed(&mut panel, "b");
    assert_eq!(panel.enter(ShellState::Exited), LineOutcome::ShellExited);
    typed(&mut panel, "c");
    assert_eq!(panel.enter(ShellState::Running), LineOutcome::Send("c".to_string()));
    assert!(panel.rows(10).contains(&"> c".to_string()));
}

#[test]
fn the_rows_fit_the_panel_and_scroll_back() {
    let mut panel = TerminalPanel::new();
    panel.set_visible(true);
    assert!(panel.is_visible());
    for line in 0..20 {
        panel.drain_output(&format!("line {line}\n"), None);
    }
    let rows = panel.rows(5);
    assert_eq!(rows.len(), 7, "the header, five lines and the input");
    assert_eq!(rows[5], "line 19");
    panel.scroll_by_lines(3, 5);
    let rows = panel.rows(5);
    assert_eq!(rows[5], "line 16");
    assert_eq!(rows[6], "-- scrolled back 3 lines --");
    panel.scroll_by_lines(-100, 5);
    assert_eq!(panel.rows(5)[5], "line 19");
    panel.scroll_by_lines(1000, 5);
    assert_eq!(panel.rows(5)[1], "line 0");
}

#[test]
fn the_scrollback_is_bounded() {
    let mut panel = TerminalPanel::new();
    let line = "x".repeat(999);
    for _ in 0..200 {
        panel.drain_output(&format!("{line}\n"), None);
    }
    let kept: usize = panel.rows(1000).iter().map(|row| row.len() + 1).sum();
    assert!(kept < 70_000, "{kept}");
}

// --- the settings screen ------------------------------------------------------

fn screen() -> SettingsScreen {
    let mut screen = SettingsScreen::new();
    screen.toggle();
    assert!(screen.open);
    screen
}

fn key(screen: &mut SettingsScreen, named: NamedKey) -> SettingsReply<String> {
    screen.key(&Key::Named(named), &PLAIN)
}

fn character(screen: &mut SettingsScreen, text: &str) -> SettingsReply<String> {
    screen.key(&Key::Character(text.to_string()), &PLAIN)
}

#[test]
fn escape_abandons_the_draft_then_the_query_then_the_screen() {
    let mut screen = screen();
    character(&mut screen, "t");
    screen.press(
        &SettingsHit::Control("editor.tabWidth".to_string()),
        &ControlKind::Field("4".to_string()),
    );
    assert!(screen.editing.is_some());
    key(&mut screen, NamedKey::Escape);
    assert!(screen.editing.is_none(), "the draft is dropped");
    let mut presses = 0;
    while screen.open && presses < 5 {
        key(&mut screen, NamedKey::Escape);
        presses += 1;
    }
    assert!(presses <= 2);
}

#[test]
fn a_click_elsewhere_writes_the_draft() {
    let mut screen = screen();
    screen.press(
        &SettingsHit::Control("editor.tabWidth".to_string()),
        &ControlKind::Field("4".to_string()),
    );
    character(&mut screen, "2");
    key(&mut screen, NamedKey::Backspace);
    character(&mut screen, "8");
    let reply = screen.press(&SettingsHit::Nothing, &ControlKind::Unknown);
    assert_eq!(
        reply.commit,
        Some(SettingChange::Write("editor.tabWidth".to_string(), "48".to_string()))
    );
    assert!(screen.editing.is_none());
}

#[test]
fn a_switch_is_flipped_a_choice_taken_and_a_setting_reset() {
    let mut screen = screen();
    let flipped = screen.press(
        &SettingsHit::Control("editor.caretBlink".to_string()),
        &ControlKind::Switch(true),
    );
    assert_eq!(
        flipped.change,
        Some(SettingChange::Write("editor.caretBlink".to_string(), "false".to_string()))
    );
    let chosen = screen.press(
        &SettingsHit::Choice("files.eol".to_string(), "lf".to_string()),
        &ControlKind::Unknown,
    );
    assert_eq!(
        chosen.change,
        Some(SettingChange::Write("files.eol".to_string(), "lf".to_string()))
    );
    let reset =
        screen.press(&SettingsHit::Reset("files.eol".to_string()), &ControlKind::Unknown);
    assert_eq!(reset.change, Some(SettingChange::Reset("files.eol".to_string())));
}

#[test]
fn picking_a_section_twice_widens_the_list_again() {
    let descriptor = |key, section| SettingDescriptor { key, section };
    let found = vec![descriptor("editor.tabWidth", "Editor"), descriptor("files.eol", "Files")];
    let sections = vec!["Editor", "Files"];
    let mut screen = screen();
    assert_eq!(screen.visible_settings(&found, &sections).len(), 2);
    screen.press(&SettingsHit::Category(1), &ControlKind::Unknown);
    let shown = screen.visible_settings(&found, &sections);
    assert_eq!(shown, vec![descriptor("files.eol", "Files")]);
    screen.press(&SettingsHit::Category(1), &ControlKind::Unknown);
    assert_eq!(screen.visible_settings(&found, &sections).len(), 2);
}

#[test]
fn the_list_scrolls_within_its_rows() {
    let mut screen = screen();
    assert!(screen.scroll_to(7, 5));
    assert_eq!(screen.scroll, 5);
    assert!(screen.scroll_to(-3, 5));
    assert_eq!(screen.scroll, 0);
    assert!(!screen.scroll_to(0, 5));
    assert_eq!(tab_width(0), 1);
    assert_eq!(tab_width(-4), 1);
    assert_eq!(tab_width(8), 8);
}

// --- a frame of the document --------------------------------------------------

#[test]
fn tokens_are_placed_by_bytes_in_the_whole_text() {
    let text = editor_text(Some(&snapshot()), "unused", true);
    assert_eq!(text.editor, "let \u{e9} = 1;\ndone");
    assert_eq!(text.gutter, " 10\n 11");
    assert_eq!(text.spans, vec![SyntaxSpan { start: 4, end: 6, kind: 2 }]);
    let empty = editor_text(None, "Open a file", true);
    assert_eq!((empty.editor.as_str(), empty.gutter.as_str()), ("Open a file", ""));
    assert!(empty.spans.is_empty());
}

#[test]
fn a_document_draws_its_line_its_matches_its_caret_and_its_scrollbar() {
    let list = drawn(&document(snapshot()));
    let quads = &list.base_quads;
    assert_eq!(quads[0], Quad::new(Place::TextRow(0), Fill::CurrentLine));
    assert!(quads.contains(&Quad::new(
        Place::Glyphs { row: 1, start: 0, end: 4 },
        Fill::SearchMatch
    )));
    assert!(quads.contains(&Quad::new(Place::Caret { row: 0, byte: 6 }, Fill::Cursor)));
    assert!(quads.contains(&Quad::new(Place::ScrollThumb, Fill::Scrollbar)));
    assert!(list.layer_of(Region::Editor).is_some());
    assert!(list.layer_of(Region::Gutter).is_some());
}

#[test]
fn blinking_changes_only_the_caret() {
    let shown = drawn(&document(snapshot()));
    let mut dark = document(snapshot());
    dark.caret_visible = false;
    let hidden = drawn(&dark);
    assert_eq!(hidden.base_quads.len() + 1, shown.base_quads.len());
    assert!(!hidden.base_quads.iter().any(|quad| quad.fill == Fill::Cursor));
}

#[test]
fn a_selection_replaces_the_current_line() {
    let mut selected = snapshot();
    selected.selections = vec![SelectionSpan {
        line: 9,
        start_column_chars: 0,
        end_column_chars: 5,
        includes_line_break: true,
    }];
    let list = drawn(&document(selected));
    assert!(!list.base_quads.iter().any(|quad| quad.fill == Fill::CurrentLine));
    assert!(list.base_quads.contains(&Quad::new(
        Place::Glyphs { row: 0, start: 0, end: 6 },
        Fill::Selection
    )));
    assert!(list.base_quads.contains(&Quad::new(Place::LineBreak(0), Fill::Selection)));
}

#[test]
fn what_is_off_screen_is_not_drawn() {
    let mut frame = document(snapshot());
    frame.screen = OnScreen { from: 1, to: 2 };
    let list = drawn(&frame);
    assert!(!list.base_quads.iter().any(|quad| quad.fill == Fill::Cursor));
}

#[test]
fn what_stands_in_hides_the_document() {
    let mut graph = document(snapshot());
    let marks = vec![
        Mark::Stroke { segment: 0, lit: false },
        Mark::Stroke { segment: 1, lit: true },
        Mark::Ring { node: 0 },
        Mark::Circle { node: 0, imported: true },
        Mark::Circle { node: 1, imported: false },
    ];
    graph.area = EditorArea::Graph(marks.clone());
    let list = drawn(&graph);
    let fills = [
        Fill::GraphEdge,
        Fill::GraphTraced,
        Fill::GraphTraced,
        Fill::GraphFile,
        Fill::GraphEntry,
    ];
    assert_eq!(list.base_quads.len(), 5, "the graph and nothing else");
    for (quad, (mark, fill)) in list.base_quads.iter().zip(marks.iter().zip(fills)) {
        assert_eq!((quad.place, quad.fill), (Place::GraphMark(*mark), fill));
    }
    assert!(list.overlay_quads.is_empty());
    assert!(list.layer_of(Region::DependencyGraph).is_some());
    assert_eq!(list.layer_of(Region::Editor), None);

    let mut settings = document(snapshot());
    settings.area = EditorArea::Settings(SettingsMarks {
        section: Some(0),
        sections: 2,
        editing: Some("a".to_string()),
        controls: vec![
            ControlMark { in_list: true, shape: ControlShape::Switch(true), reset: true },
            ControlMark {
                in_list: true,
                shape: ControlShape::Field("a".to_string()),
                reset: false,
            },
            ControlMark { in_list: false, shape: ControlShape::Switch(true), reset: true },
        ],
    });
    let list = drawn(&settings);
    assert_eq!(list.layer_of(Region::Editor), None);
    assert!(list.layer_of(Region::SettingsList).is_some());
    assert!(list.base_quads.iter().any(|quad| quad.place == Place::Control(0)));
    assert!(list.base_quads.iter().any(|quad| quad.place == Place::Reset(0)));
    assert!(!list.base_quads.iter().any(|quad| quad.place == Place::Control(2)));
}

#[test]
fn a_lost_surface_has_words_for_it() {
    assert!(!FrameError::SurfaceLost.text().is_empty());
}
