use lightspeed::clock::{Duration, Instant};
use lightspeed::clusters::{
    activity_active_index, activity_rich, bottom_panel_rail_rich, breadcrumb_rich, tab_actions_rich,
    tab_nav_rich, title_center_rich, title_left_rich, title_right_rich, Trail,
};
use lightspeed::icons::{icon_for_file, Glyph, Icon};
use lightspeed::lists::{
    list_rows, matching_search_result, GitFile, GitStatus, ListFacts, ListKind, ListRow, SearchHit,
    SearchResult, SidebarRowKind, Tab,
};
use lightspeed::lsp::{Diagnostic, DiagnosticSeverity, Language, PersistenceState};
use lightspeed::menu::{edit_items, items_of, RecentRow};
use lightspeed::overlay::{
    build_overlay, panel_rows, DocumentCounts, DrawCounts, MetricRow, OverlayFacts,
};
use lightspeed::regions::{
    chars_before, dropdown_texts, line_at, line_count, menu_enabled, row_at,
    settings_categories_rich, settings_list_rich, settings_search_rich, tab_row_rich, widest,
    SettingsRow, TabLabel,
};
use lightspeed::rich::{Color, Paint, RichText, Role};
use lightspeed::settings::SettingsScope;
use lightspeed::sidebar::{
    query_shown, showing_search_panel, sidebar_header_lines, sidebar_hovered_row,
    sidebar_row_color, sidebar_rows, sidebar_selected_row, SearchPads,
};
use lightspeed::status::{
    banner_text, compute_title, diagnostic_counts, document_state_label, find_bar_text,
    live_status_severity, open_message, prompt_text, quit_message, save_message, status_color,
    status_left, status_right, storm_message, ContentState, DocumentPlace, DocumentState,
    ExternalState, ExternalWatch, FindFacts, OpenOutcome, Prompt, Severity, StatusMessage,
    TitleFacts,
};
use lightspeed::settings::SaveOutcome;

fn at(millis: u64) -> Instant {
    Instant { nanos: 0 }.plus(Duration::from_millis(millis))
}

fn no_lists() -> ListFacts {
    ListFacts {
        tabs: vec![],
        tree: None,
        git: None,
        git_pending: false,
        search: None,
        search_pending: false,
    }
}

// --- the status bar -----------------------------------------------------------

#[test]
fn a_message_stays_for_a_while_and_stays_gone() {
    let message = Some(StatusMessage {
        text: "Saved".to_string(),
        at: at(1000),
        severity: Severity::Warning,
    });
    assert_eq!(live_status_severity(&message, at(1001)), Some(Severity::Warning));
    let mut gone = false;
    for step in 0..40 {
        let live = live_status_severity(&message, at(1000 + step * 1000)).is_some();
        assert!(!(gone && live), "once gone, gone");
        gone = !live;
    }
    assert!(gone);
    assert_eq!(live_status_severity(&None, at(0)), None);
}

#[test]
fn severities_have_colours_of_their_own() {
    let colours = [
        status_color(Some(Severity::Success)),
        status_color(Some(Severity::Warning)),
        status_color(Some(Severity::Error)),
    ];
    assert_ne!(colours[0], colours[1]);
    assert_ne!(colours[1], colours[2]);
    assert_eq!(status_color(None), Role::StatusText);
}

#[test]
fn a_document_is_labelled_by_what_is_happening_to_it() {
    let state = |loading, saving, kept| Some(DocumentState { loading, saving, kept });
    assert_eq!(document_state_label(None), "");
    assert_eq!(document_state_label(state(true, false, None)), "Loading");
    assert_eq!(document_state_label(state(false, true, None)), "Saving...");
    let kept = |persistence, content| state(false, false, Some((persistence, content)));
    assert_eq!(
        document_state_label(kept(PersistenceState::SaveFailed, ContentState::Dirty)),
        "Save failed"
    );
    assert_eq!(
        document_state_label(kept(PersistenceState::SaveSucceeded, ContentState::Clean)),
        "Saved"
    );
    assert_eq!(
        document_state_label(kept(PersistenceState::NeverSaved, ContentState::Dirty)),
        "Dirty"
    );
    assert_eq!(
        document_state_label(kept(PersistenceState::NeverSaved, ContentState::Clean)),
        "Clean"
    );
}

#[test]
fn problems_are_counted_over_every_document() {
    let diagnostic = |severity| Diagnostic {
        line: 0,
        start_column_chars: 0,
        end_column_chars: 1,
        severity,
        message: "m".to_string(),
    };
    let documents = vec![
        vec![diagnostic(DiagnosticSeverity::Error), diagnostic(DiagnosticSeverity::Hint)],
        vec![diagnostic(DiagnosticSeverity::Warning), diagnostic(DiagnosticSeverity::Error)],
    ];
    assert_eq!(diagnostic_counts(&documents), (2, 1));
}

#[test]
fn the_status_bar_shows_the_branch_the_problems_and_the_message() {
    let git = Some(GitStatus { branch: Some("main".to_string()), clean: false, files: vec![] });
    let message = Some(StatusMessage {
        text: "Saved a.rs".to_string(),
        at: at(0),
        severity: Severity::Success,
    });
    let shown = status_left(&git, (2, 1), &message, at(1), &None, "Clean").text();
    assert!(shown.contains("main*"), "{shown}");
    assert!(shown.contains(" 2 ") && shown.contains(" 1"), "{shown}");
    assert!(shown.contains("Saved a.rs"), "{shown}");
    let quiet = status_left(&git, (0, 0), &None, at(1), &None, "Clean").text();
    assert!(quiet.contains("Clean"), "{quiet}");

    let place = Some(DocumentPlace {
        line: 11,
        column: 4,
        encoding: "UTF-8".to_string(),
        line_ending: "LF".to_string(),
        mixed: true,
        language: Language::Rust,
    });
    let right = status_right(&place).text();
    assert!(right.contains("Ln 12, Col 5   UTF-8   LF (mixed)   Rust"), "{right}");
}

#[test]
fn a_confirmation_hides_the_find_bar() {
    let prompt = Some(Prompt::ConfirmClose {
        document: 1,
        name: "a.rs".to_string(),
        quitting: false,
    });
    let find = Some(FindFacts { query: "needle".to_string(), position: Some((2, 5)) });
    assert_eq!(
        prompt_text(&prompt).unwrap(),
        "a.rs has unsaved changes.    [S] Save     [D] Don't Save     [Esc] Cancel"
    );
    assert_eq!(
        find_bar_text(&find).unwrap(),
        "Find: needle    2 of 5    [Enter] Next  [Shift+Enter] Prev  [Esc] Close"
    );
    assert_eq!(banner_text(&prompt, &find), prompt_text(&prompt));
    assert_eq!(banner_text(&None, &find), find_bar_text(&find));
    assert_eq!(banner_text(&None, &None), None);
    let lost = Some(FindFacts { query: "zzz".to_string(), position: None });
    assert!(find_bar_text(&lost).unwrap().contains("No results"));
    let empty = Some(FindFacts { query: String::new(), position: None });
    assert!(!find_bar_text(&empty).unwrap().contains("No results"));
}

#[test]
fn the_window_is_titled_by_its_document() {
    assert_eq!(compute_title(&TitleFacts::Nothing), "LightSpeed IDE");
    assert_eq!(
        compute_title(&TitleFacts::Loading(Some("a.rs".to_string()))),
        "LightSpeed IDE - a.rs (loading)"
    );
    assert_eq!(
        compute_title(&TitleFacts::Open { name: "a.rs".to_string(), dirty: true }),
        "LightSpeed IDE - a.rs *"
    );
}

#[test]
fn messages_say_what_happened() {
    assert_eq!(open_message(OpenOutcome::Started, "/a"), "Loading /a...");
    assert_eq!(open_message(OpenOutcome::AlreadyOpen, "/a"), "/a is already open");
    assert_eq!(
        open_message(OpenOutcome::Joined, "/a"),
        "Joined the load already running for /a"
    );
    assert!(quit_message(3).contains("3 unsaved document(s)"));
    assert!(storm_message(4).ends_with("4 joined the same task"));
    assert_eq!(save_message(&SaveOutcome::Written), None);
    assert_eq!(save_message(&SaveOutcome::Nowhere).unwrap().1, Severity::Warning);
    assert_eq!(
        save_message(&SaveOutcome::Failed("/s".to_string())),
        Some(("Could not write /s".to_string(), Severity::Error))
    );
}

#[test]
fn a_change_on_disk_is_noticed_once_until_it_is_forgotten() {
    let mut watch = ExternalWatch::new();
    assert_eq!(watch.notice(1, "a.rs", ExternalState::Unchanged), None);
    assert_eq!(
        watch.notice(1, "a.rs", ExternalState::ExternallyChanged).unwrap(),
        "a.rs changed on disk"
    );
    assert_eq!(watch.notice(1, "a.rs", ExternalState::ExternallyChanged), None);
    assert_eq!(
        watch.notice(1, "a.rs", ExternalState::Missing).unwrap(),
        "a.rs was deleted or moved"
    );
    watch.forget(1);
    assert!(watch.notice(1, "a.rs", ExternalState::Missing).is_some());
}

// --- clusters -----------------------------------------------------------------

#[test]
fn one_activity_is_bright() {
    assert_eq!(activity_active_index(false, false, None), None);
    let files = activity_active_index(false, false, Some(ListKind::FileTree));
    let typing = activity_active_index(false, true, Some(ListKind::FileTree));
    assert!(files.is_some() && typing.is_some());
    assert_ne!(files, typing, "typing a query shows the search activity");
    let rich = activity_rich(files);
    let bright = activity_rich(None);
    assert_ne!(rich, bright);
    assert_eq!(rich.text(), bright.text(), "only a colour differs");
}

#[test]
fn the_trail_starts_at_the_root() {
    let path = |parts: &[&str]| parts.iter().map(|part| part.to_string()).collect::<Vec<_>>();
    let trail = Trail::Path {
        components: path(&["/", "home", "me", "src", "a.rs"]),
        root: Some(path(&["/", "home", "me"])),
    };
    let shown = breadcrumb_rich(&trail).text();
    assert!(shown.starts_with("src "), "{shown}");
    assert!(shown.ends_with(" a.rs"), "{shown}");
    let elsewhere = Trail::Path {
        components: path(&["/", "etc", "hosts"]),
        root: Some(path(&["/", "home", "me"])),
    };
    assert!(breadcrumb_rich(&elsewhere).text().starts_with("/ "));
    assert_eq!(breadcrumb_rich(&Trail::Untitled("Untitled-1".to_string())).text(), "Untitled-1");
    assert!(breadcrumb_rich(&Trail::Nothing).is_empty());
}

#[test]
fn the_title_bar_names_the_workspace() {
    assert!(title_center_rich(&Some("lightspeed".to_string())).text().ends_with("lightspeed"));
    assert!(title_center_rich(&None).text().ends_with("Open Folder"));
    assert_eq!(title_left_rich().text(), Icon::Menu.glyph().to_string());
    assert!(title_right_rich().text().contains(Icon::SettingsGear.glyph()));
    assert!(tab_nav_rich().text().contains(Icon::ArrowLeft.glyph()));
    assert!(!tab_actions_rich().is_empty());
    assert!(bottom_panel_rail_rich(false).is_empty());
    assert!(!bottom_panel_rail_rich(true).is_empty());
}

// --- the diagnostics overlay --------------------------------------------------

#[test]
fn the_overlay_lists_what_was_measured() {
    let metric = |name: &str, count| MetricRow {
        name: name.to_string(),
        count,
        p50: "1.0".to_string(),
        p95: "2.0".to_string(),
        p99: "3.0".to_string(),
        status: "ok".to_string(),
    };
    let facts = OverlayFacts {
        metrics: vec![metric("frame", 5), metric("never", 0)],
        resident: "10.5".to_string(),
        peak: "12.0".to_string(),
        processor: "3.5".to_string(),
        documents: 2,
        dropped: 1,
        drawn: Some(DrawCounts { quads: 40, reshaped: 3 }),
        document: Some(DocumentCounts { revision: 9, undo: 2, redo: 0, lines: 120 }),
    };
    let rows = build_overlay(&facts);
    assert_eq!(rows[0], "LightSpeed Performance");
    assert_eq!(rows[2], "frame                       1.0      2.0      3.0     ok");
    assert!(!rows.iter().any(|row| row.starts_with("never")));
    assert!(rows.contains(&"RSS 10.5 MB   peak 12.0 MB   CPU 3.5%".to_string()));
    assert!(rows.contains(&"documents 2   dropped events 1".to_string()));
    assert!(rows.contains(&"quads 40   regions reshaped 3".to_string()));
    assert!(rows.contains(&"revision 9   undo 2   redo 0   lines 120".to_string()));
}

#[test]
fn hidden_panels_take_no_rows() {
    let rows = |text: &str| vec![text.to_string()];
    let all = panel_rows(true, &rows("d"), true, &rows("r"), true, &rows("o"));
    assert_eq!(all, vec!["d", "", "r", "", "o"]);
    assert!(panel_rows(false, &rows("d"), false, &rows("r"), false, &rows("o")).is_empty());
    assert_eq!(panel_rows(false, &rows("d"), false, &rows("r"), true, &rows("o")), vec!["o"]);
}

// --- the sidebar --------------------------------------------------------------

#[test]
fn the_header_is_as_tall_as_it_is_hit() {
    assert!(showing_search_panel(None, true));
    assert!(showing_search_panel(Some(ListKind::SearchResults), false));
    assert!(!showing_search_panel(Some(ListKind::FileTree), false));
    for (active, typing) in [
        (Some(ListKind::FileTree), false),
        (Some(ListKind::GitStatus), false),
        (Some(ListKind::SearchResults), false),
    ] {
        let typed = if typing { Some(vec![]) } else { None };
        let pads = SearchPads { title: 2, query: 2, replace: 2 };
        let rows = vec![ListRow::message("first row")];
        let text = sidebar_rows(active, &typed, &no_lists(), &rows, 20, pads).text();
        let header = sidebar_header_lines(active, typing);
        let line = text.split('\n').position(|line| line.contains("first row"));
        assert_eq!(line, Some(header), "{active:?}: {text}");
        assert_eq!(sidebar_selected_row(active, typing, 2), Some(header + 2));
    }
    assert_eq!(sidebar_selected_row(None, false, 2), None);
    assert_eq!(sidebar_hovered_row(0, 1, 3), None, "the header is not a row");
    assert_eq!(sidebar_hovered_row(2, 1, 3), Some(2));
    assert_eq!(sidebar_hovered_row(4, 1, 3), None, "below the last row");
}

#[test]
fn rows_are_coloured_by_what_they_are() {
    assert_eq!(sidebar_row_color(SidebarRowKind::File), Role::SidebarFile);
    assert_eq!(sidebar_row_color(SidebarRowKind::Info), Role::SidebarInfo);
    let rows = vec![ListRow::message("nothing here at all")];
    let pads = SearchPads { title: 0, query: 0, replace: 0 };
    let shown = sidebar_rows(Some(ListKind::FileTree), &None, &no_lists(), &rows, 8, pads).text();
    assert!(shown.starts_with("EXPLORER\n"), "{shown}");
    assert!(shown.contains("nothing\u{2026}"), "{shown}");
}

#[test]
fn git_status_lists_what_is_staged_and_what_is_not() {
    let mut facts = no_lists();
    let file = |path: &str, staged| GitFile {
        path: path.to_string(),
        full_path: Some(format!("/w/{path}")),
        staged,
    };
    facts.git = Some(GitStatus {
        branch: Some("main".to_string()),
        clean: false,
        files: vec![file("a.rs", true), file("b.rs", false)],
    });
    let rows = list_rows(Some(ListKind::GitStatus), &facts, &vec![], &None, false);
    assert!(rows.iter().any(|row| row.label.contains("a.rs")));
    assert!(rows.iter().any(|row| row.label.contains("b.rs")));
    assert!(list_rows(None, &facts, &vec![], &None, false).is_empty());
}

#[test]
fn search_results_show_only_for_what_is_typed() {
    let mut facts = no_lists();
    facts.search = Some(SearchResult {
        query: "needle".to_string(),
        hits: vec![SearchHit {
            name: "a.rs".to_string(),
            path: "/w/a.rs".to_string(),
            line_number: 3,
            preview: "a needle".to_string(),
        }],
        truncated: false,
    });
    let typed = |text: &str| Some(text.chars().collect::<Vec<char>>());
    assert!(matching_search_result(&facts, &typed("needle")).is_some());
    assert!(matching_search_result(&facts, &typed("nee")).is_none());
    assert!(matching_search_result(&facts, &None).is_some());
    assert_eq!(query_shown(&typed("nee"), &facts, 20), "nee");
    assert_eq!(query_shown(&None, &facts, 20), "needle");
}

#[test]
fn open_editors_are_listed_above_the_tree() {
    let mut facts = no_lists();
    facts.tabs = vec![Tab {
        id: 4,
        title: "a.rs".to_string(),
        active: true,
        dirty: false,
        loading: false,
    }];
    let rows = list_rows(Some(ListKind::FileTree), &facts, &vec![], &None, false);
    assert!(rows.iter().any(|row| row.label.contains("a.rs")));
}

// --- regions ------------------------------------------------------------------

#[test]
fn tabs_are_a_row_of_icons_and_labels() {
    let icon = icon_for_file("a.rs");
    let tabs = vec![TabLabel {
        icon: Glyph::from(icon),
        icon_color: icon.color(),
        label: " a.rs ".to_string(),
        active: true,
    }];
    assert_eq!(tab_row_rich(&tabs).text(), format!(" {} a.rs ", icon.glyph()));
}

#[test]
fn a_dropdown_is_two_texts_one_for_what_can_run() {
    let items = edit_items();
    let enabled: Vec<bool> = (0..items.len()).map(|row| row != 1).collect();
    let recent = vec![RecentRow { label: "r.rs".to_string(), path: "/r.rs".to_string() }];
    let mut all = enabled.clone();
    all.push(true);
    let (can, cannot) = dropdown_texts(&items, &recent, &all, 30);
    let rows: Vec<&str> = can.split('\n').collect();
    let others: Vec<&str> = cannot.split('\n').collect();
    assert!(rows[0].starts_with("Undo") && rows[1].trim().is_empty());
    assert!(others[0].trim().is_empty() && others[1].starts_with("Redo"));
    assert!(can.contains("r.rs"));
    let ids: Vec<String> = vec!["edit.undo".to_string()];
    let flags = menu_enabled(&items_of(1), 2, &ids);
    assert_eq!(flags.len(), items.len() + 2);
    assert!(flags[0] && !flags[1] && flags[items.len()]);
}

#[test]
fn the_settings_screen_shows_its_query_sections_and_rows() {
    assert!(settings_search_rich(&vec![], false).text().contains("Search settings"));
    assert!(settings_search_rich(&vec!['t'], true).text().contains("t\u{2588}"));
    let sections = settings_categories_rich(SettingsScope::User, &vec!["Editor", "Files"], Some(1));
    assert!(sections.text().starts_with("User  Workspace"));
    assert!(sections.text().contains("Editor") && sections.text().contains("Files"));
    let rows = vec![
        SettingsRow::Heading("Editor".to_string()),
        SettingsRow::Title("Tab Width".to_string()),
        SettingsRow::Description("How wide".to_string()),
        SettingsRow::Value("4".to_string()),
        SettingsRow::Blank,
    ];
    assert_eq!(
        settings_list_rich(&rows, 0).text(),
        "Editor\nTab Width\n  How wide\n     4\n\n"
    );
    assert_eq!(settings_list_rich(&rows, 3).text(), "     4\n\n");
}

#[test]
fn points_are_found_by_row_and_column() {
    assert_eq!(widest(&vec!["a".to_string(), "h\u{e9}llo".to_string()]), 5);
    let mut rich = RichText::new();
    rich.plain("a");
    rich.newline();
    rich.plain("b");
    rich.glyph(Glyph::from(Icon::Close), Paint::Own(Color::rgb(1, 2, 3)));
    assert_eq!(line_count(&rich), 2);
    assert_eq!(chars_before("h\u{e9}llo", 3), 2);
    assert_eq!(chars_before("h\u{e9}llo", 99), 5);
    assert_eq!(row_at(7, 3), 2);
    assert_eq!(line_at(10, 2, 100), 12);
    assert_eq!(line_at(10, 2, 5), 4);
}
