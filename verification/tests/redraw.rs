use lightspeed::clock::Instant;
use lightspeed::clusters::Trail;
use lightspeed::depgraph::Mark;
use lightspeed::devpanel::{Current, PanelFacts, SchedulerCounts};
use lightspeed::frame::{EditorArea, SettingsMarks, Snapshot, SnapshotLine};
use lightspeed::icons::{icon_for_file, Glyph};
use lightspeed::lists::{ListFacts, ListKind, Tab};
use lightspeed::menu::RecentRow;
use lightspeed::overlay::OverlayFacts;
use lightspeed::palette::CommandDescriptor;
use lightspeed::redraw::{acquire, Acquire, FrameFacts, Room, SurfaceState};
use lightspeed::regions::{SettingsRow, TabLabel};
use lightspeed::resources::{BasePriorities, ResourceFacts};
use lightspeed::rich::Role;
use lightspeed::shell::LightSpeed;
use lightspeed::sidebar::SearchPads;
use lightspeed::status::{FindFacts, Severity, TitleFacts};
use lightspeed::wording::{TextFacts, PLACEHOLDER};

fn at(millis: u64) -> Instant {
    Instant { nanos: millis * 1_000_000 }
}

fn scheduler() -> SchedulerCounts {
    SchedulerCounts { workers: 4, queued: 0, capacity: 8, running: 0, dropped: 0 }
}

fn facts() -> FrameFacts {
    FrameFacts {
        title: TitleFacts::Nothing,
        tabs: Vec::new(),
        git: None,
        diagnostics: Vec::new(),
        active: None,
        pending: None,
        finished: Vec::new(),
        state: None,
        place: None,
        trail: Trail::Nothing,
        workspace: None,
        find: None,
        lists: ListFacts {
            tabs: Vec::new(),
            tree: None,
            git: None,
            git_pending: false,
            search: None,
            search_pending: false,
        },
        commands: vec![
            CommandDescriptor { id: "file.save", display_name: "Save" },
            CommandDescriptor { id: "edit.undo", display_name: "Undo" },
        ],
        enabled: vec!["file.save".to_string()],
        recent: 2,
        dev: PanelFacts {
            ticks: 1,
            since_last_tick: "0.0 ms".to_string(),
            longest_gap: "0.0 ms".to_string(),
            scheduler: scheduler(),
            current: Current::NoTab,
            loading: 0,
            tabs: 0,
            recent: Vec::new(),
        },
        resources: ResourceFacts {
            scheduler: scheduler(),
            submitted: 0,
            rejected: 0,
            bases: BasePriorities {
                document_io: 800,
                language: 600,
                search: 500,
                git: 400,
                indexing: 200,
            },
            records: Vec::new(),
            memory: "1".to_string(),
            processor: "0".to_string(),
        },
        overlay: OverlayFacts {
            metrics: Vec::new(),
            resident: "1.0".to_string(),
            peak: "2.0".to_string(),
            processor: "0.0".to_string(),
            documents: 0,
            dropped: 0,
            drawn: None,
            document: None,
        },
        root_open: false,
        scanning: false,
        room: Room {
            titles: 3,
            label_chars: 20,
            pads: SearchPads { title: 1, query: 1, replace: 1 },
            terminal_lines: 5,
        },
    }
}

fn tab(id: u64, loading: bool) -> Tab {
    Tab { id, title: format!("{id}.rs"), active: id == 1, dirty: id == 2, loading }
}

#[test]
fn the_process_is_sampled_about_once_a_second() {
    let mut shell = LightSpeed::new(at(0));
    assert!(!shell.begin_frame(at(999)).sample);
    assert!(shell.begin_frame(at(1000)).sample);
    assert!(!shell.begin_frame(at(1500)).sample, "counted from the last sample");
    assert!(shell.begin_frame(at(2000)).sample);
}

#[test]
fn the_view_follows_the_caret_for_one_frame() {
    let mut shell = LightSpeed::new(at(0));
    assert!(shell.begin_frame(at(1)).reveal, "the first frame shows the caret");
    assert!(!shell.begin_frame(at(2)).reveal);
}

#[test]
fn the_title_is_set_only_when_it_changes() {
    let mut shell = LightSpeed::new(at(0));
    let mut facts = facts();
    assert_eq!(shell.frame(&facts, at(1)).title.as_deref(), Some("LightSpeed IDE"));
    assert_eq!(shell.frame(&facts, at(2)).title, None);
    facts.title = TitleFacts::Open { name: "a.rs".to_string(), dirty: true };
    assert_eq!(shell.frame(&facts, at(3)).title.as_deref(), Some("LightSpeed IDE - a.rs *"));
}

#[test]
fn a_quiet_shell_shows_none_of_the_optional_surfaces() {
    let mut shell = LightSpeed::new(at(0));
    let frame = shell.frame(&facts(), at(1));
    assert_eq!(frame.prompt, None);
    assert_eq!(frame.panel, None);
    assert!(frame.sidebar.is_none() && frame.palette.is_none() && frame.bottom_panel.is_none());
    assert_eq!(frame.dependency, None);
    assert!(frame.bottom_panel_rail.is_empty());
    assert!(frame.caret_visible);
    let chrome = &frame.chrome;
    assert!(chrome.show_status_bar);
    assert!(!chrome.dropdown && !chrome.prompt && !chrome.overlay_panel && !chrome.sidebar_panel);
    assert_eq!((chrome.titles, chrome.rows), (3, 0));
    assert_eq!(chrome.status_color, Role::StatusText);
}

#[test]
fn what_is_switched_on_is_in_the_frame() {
    let mut shell = LightSpeed::new(at(0));
    shell.palette.open = true;
    shell.at.graph.view = true;
    shell.at.list.active = Some(ListKind::GitStatus);
    shell.at.panels.overlay = true;
    shell.set_status("saved".to_string(), Severity::Success, at(1));
    let mut facts = facts();
    facts.find = Some(FindFacts { query: "x".to_string(), position: None });
    let frame = shell.frame(&facts, at(2));
    assert!(frame.palette.unwrap().text().ends_with("\nSave"), "only what can run is offered");
    assert_eq!(frame.palette_selected, Some(0));
    assert_eq!(
        frame.dependency,
        Some("  No folder is open.\n\n  File > Open Folder, then pick the dependency view again.")
    );
    assert_eq!(frame.panel.unwrap()[0], "LightSpeed Performance");
    assert!(frame.prompt.is_some() && frame.chrome.prompt);
    assert!(frame.sidebar.is_some() && frame.chrome.sidebar_panel);
    assert_eq!(frame.chrome.status_color, Role::Success);
    assert!(frame.status_left.text().contains("saved"));
    assert_eq!(frame.activity_active, Some(5), "the dependency view");
}

#[test]
fn the_line_last_hovered_is_the_one_that_is_drawn() {
    let mut shell = LightSpeed::new(at(0));
    shell.at.list.active = Some(ListKind::GitStatus);
    shell.at.hover.row = Some(7);
    assert_eq!(shell.frame(&facts(), at(1)).chrome.sidebar_hovered_row, Some(7));
    shell.at.hover.row = None;
    assert_eq!(shell.frame(&facts(), at(2)).chrome.sidebar_hovered_row, None);
}

#[test]
fn an_open_file_menu_offers_the_recent_files() {
    let mut shell = LightSpeed::new(at(0));
    let facts = facts();
    shell.at.menu.open = Some(0);
    let file = shell.frame(&facts, at(1)).chrome;
    assert!(file.dropdown);
    assert_eq!(file.menu_enabled.len(), file.rows);
    assert_eq!(file.menu_enabled[file.rows - 2..], [true, true], "recent files can be opened");
    assert_eq!(file.menu_enabled.iter().filter(|row| **row).count(), 3, "and saving");
    shell.at.menu.open = Some(1);
    let edit = shell.frame(&facts, at(1)).chrome;
    assert!(edit.menu_enabled.iter().all(|row| !row), "nothing there can run");
}

#[test]
fn a_tab_that_loads_in_no_time_is_never_in_a_frame() {
    let mut shell = LightSpeed::new(at(0));
    shell.loading.insert(2, at(0));
    let mut facts = facts();
    facts.tabs = vec![tab(1, false), tab(2, true)];
    let early = shell.frame(&facts, at(50));
    assert_eq!(early.tabs.len(), 1);
    assert_eq!(early.chrome.tabs.len(), 1);
    let late = shell.frame(&facts, at(120));
    assert_eq!(late.tabs.len(), 2);
    assert!(late.chrome.tabs[0].active && late.chrome.tabs[1].dirty);
}

#[test]
fn only_live_numbers_ask_for_another_frame() {
    let mut shell = LightSpeed::new(at(0));
    shell.at.timing.pending_input = Some(at(3));
    let first = shell.end_frame(0);
    assert!(first.first && !first.again);
    assert_eq!(first.answered, Some(at(3)));
    let second = shell.end_frame(0);
    assert!(!second.first && !second.again);
    assert_eq!(second.answered, None);
    assert!(shell.end_frame(1).again, "a load in flight");
    shell.at.panels.dev = true;
    assert!(shell.end_frame(0).again, "the loading panel");
    shell.at.panels.dev = false;
    shell.at.panels.overlay = true;
    assert!(shell.end_frame(0).again, "the overlay");
}

#[test]
fn the_settings_cover_the_graph_and_the_graph_the_document() {
    let marks = || SettingsMarks {
        section: None,
        sections: 0,
        editing: None,
        controls: Vec::new(),
    };
    let graph = || vec![Mark::Circle { node: 0, imported: true }];
    let mut shell = LightSpeed::new(at(0));
    assert!(matches!(shell.editor_area(None, graph(), marks()), EditorArea::Document(None)));
    shell.at.graph.view = true;
    assert_eq!(shell.editor_area(None, graph(), marks()), EditorArea::Graph(graph()));
    shell.settings.open = true;
    assert!(matches!(shell.editor_area(None, graph(), marks()), EditorArea::Settings(_)));
}

#[test]
fn a_lost_surface_is_made_anew() {
    assert_eq!(acquire(SurfaceState::Success), Acquire::Draw);
    assert_eq!(acquire(SurfaceState::Timeout), Acquire::Skip);
    assert_eq!(acquire(SurfaceState::Occluded), Acquire::Skip);
    assert_eq!(acquire(SurfaceState::Outdated), Acquire::Reconfigure);
    assert_eq!(acquire(SurfaceState::Suboptimal), Acquire::Reconfigure);
    assert_eq!(acquire(SurfaceState::Lost), Acquire::Recreate);
    assert_eq!(acquire(SurfaceState::Validation), Acquire::Fail);
}

fn text_facts() -> TextFacts {
    TextFacts {
        snapshot: None,
        line_numbers: true,
        tabs: Vec::new(),
        recent: vec![RecentRow { label: "a.rs".to_string(), path: "/w/a.rs".to_string() }],
        menu_columns: 30,
        labels: None,
        sections: vec!["Editor"],
        settings: vec![SettingsRow::Title("Font size".to_string())],
    }
}

#[test]
fn without_a_document_the_shortcuts_are_shown() {
    let mut shell = LightSpeed::new(at(0));
    let frame = shell.frame(&facts(), at(1));
    let text = shell.build_text(&frame, &text_facts());
    assert_eq!(text.editor.editor, PLACEHOLDER);
    assert_eq!(text.editor.gutter, "");
    assert_eq!(text.dropdown, (String::new(), String::new()));
    assert_eq!((text.prompt.as_str(), text.panel.as_str()), ("", ""));
    assert_eq!(text.bottom_panel, "");
    assert_eq!(text.sidebar_lines, 1);
    assert_eq!(text.dependency, None);
    assert!(text.settings.is_none());
}

#[test]
fn every_region_says_what_the_frame_shows() {
    let mut shell = LightSpeed::new(at(0));
    shell.at.panels.overlay = true;
    shell.at.graph.view = true;
    shell.at.menu.open = Some(0);
    shell.settings.open = true;
    let mut engine = facts();
    engine.recent = 1;
    engine.tabs = vec![tab(1, false)];
    engine.root_open = true;
    engine.scanning = true;
    let frame = shell.frame(&engine, at(1));
    let mut facts = text_facts();
    facts.snapshot = Some(Snapshot {
        lines: vec![
            SnapshotLine { index: 8, text: "one".to_string() },
            SnapshotLine { index: 9, text: "two".to_string() },
        ],
        decorations: Vec::new(),
        selections: Vec::new(),
        cursors: Vec::new(),
        first_line: 8,
        visible_lines: 2,
        total_lines: 10,
    });
    let icon = icon_for_file("1.rs");
    facts.tabs = vec![TabLabel {
        icon: Glyph::from(icon),
        icon_color: icon.color(),
        label: "1.rs".to_string(),
        active: true,
    }];
    let text = shell.build_text(&frame, &facts);
    assert_eq!(text.editor.editor, "one\ntwo");
    assert_eq!(text.editor.gutter, "  9\n 10");
    assert!(text.tabs.text().ends_with("1.rs"));
    assert!(text.dropdown.0.contains("a.rs"), "recent files can be opened");
    assert!(text.dropdown.1.contains("Open"), "what cannot run is dim");
    assert!(text.panel.starts_with("LightSpeed Performance\n"));
    assert_eq!(
        text.dependency.as_deref(),
        Some("  Scanning the workspace for dependencies...")
    );
    let settings = text.settings.unwrap();
    assert!(settings.categories.text().contains("Editor"));
    assert!(settings.list.text().contains("Font size"));
    facts.labels = Some("main.rs".to_string());
    assert_eq!(shell.build_text(&frame, &facts).dependency.as_deref(), Some("main.rs"));
}
