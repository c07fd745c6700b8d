use lightspeed::clock::{Duration, Instant, CARET_BLINK, LOADING_TAB_GRACE};
use lightspeed::focus::{InputFocus, PointerOver};
use lightspeed::keymap::{CommandArgs, Key, Modifiers, NamedKey};
use lightspeed::keys::{KeyEvent, Moment, SEARCH_DEBOUNCE};
use lightspeed::lifecycle::{line_number_digits, ChangeFacts, CloseOutcome, Requested, WorkFacts};
use lightspeed::lists::{Entry, ListFacts, ListKind, Listing, SearchHit, SearchResult, Tab};
use lightspeed::menu::{MenuPoint, MenuState};
use lightspeed::palette::CommandDescriptor;
use lightspeed::pointer::{Areas, Motion, NodeInfo, Press, TabHit, WheelAction};
use lightspeed::requests::{GraphSource, Picked, ShellFacts, ShellRequest};
use lightspeed::settings::{ControlKind, SettingsHit};
use lightspeed::shell::{
    Action, CursorShape, Injection, LightSpeed, PromptAnswer, Registry, EXTERNAL_WATCH_INTERVAL,
};
use lightspeed::status::{ExternalState, OpenOutcome, Prompt, Severity};
use lightspeed::terminal::ShellState;

fn at(millis: u64) -> Instant {
    Instant { nanos: 0 }.plus(Duration::from_millis(millis))
}

fn facts() -> ShellFacts {
    ShellFacts {
        find_open: false,
        root: Some("/w".to_string()),
        parent: Some("/".to_string()),
        dirty: 0,
        shell: ShellState::NotStarted,
    }
}

fn no_lists() -> ListFacts {
    ListFacts {
        tabs: vec![],
        tree: None,
        git: None,
        git_pending: false,
        search: None,
        search_pending: false,
    }
}

fn moment() -> Moment {
    Moment {
        shell: facts(),
        registry: Registry {
            commands: vec![
                CommandDescriptor { id: "file.save", display_name: "Save" },
                CommandDescriptor { id: "edit.undo", display_name: "Undo" },
            ],
            enabled: vec!["file.save".to_string(), "edit.undo".to_string()],
            active: Some(1),
        },
        find_query: String::new(),
        lists: no_lists(),
    }
}

const PLAIN: Modifiers = Modifiers { control: false, shift: false, alt: false };
const CONTROL: Modifiers = Modifiers { control: true, shift: false, alt: false };
const BOTH: Modifiers = Modifiers { control: true, shift: true, alt: false };

fn named(key: NamedKey) -> KeyEvent {
    KeyEvent { key: Key::Named(key), text: None, modifiers: PLAIN }
}

fn typed(text: &str) -> KeyEvent {
    KeyEvent {
        key: Key::Character(text.to_string()),
        text: Some(text.to_string()),
        modifiers: PLAIN,
    }
}

fn chord(text: &str, modifiers: Modifiers) -> KeyEvent {
    KeyEvent { key: Key::Character(text.to_string()), text: None, modifiers }
}

fn nowhere() -> Areas {
    Areas {
        title_search: false,
        sidebar_grip: false,
        bottom_grip: false,
        activity: None,
        text: false,
        gutter: false,
        scrollbar: false,
        bottom_rail: false,
        bottom_panel: false,
        gear: false,
        tab: None,
        sidebar: None,
        node: None,
    }
}

fn press(areas: Areas) -> Press {
    Press {
        menu: None,
        recent: vec![],
        palette_row: None,
        areas,
        settings_hit: SettingsHit::Nothing,
        control: ControlKind::Unknown,
        near: true,
        shift: false,
    }
}

fn still() -> Motion {
    Motion {
        node: None,
        info: None,
        menu_row: None,
        sidebar_grip: false,
        bottom_grip: false,
        sidebar: None,
        palette_row: None,
        activity: None,
    }
}

fn has(actions: &[Action<String>], wanted: &Action<String>) -> bool {
    actions.iter().any(|action| action == wanted)
}

fn asked_to_close() -> LightSpeed {
    let mut shell = LightSpeed::new(at(0));
    shell.document_closed(7, CloseOutcome::Unsaved("a.rs".to_string()), false, at(0));
    shell
}

// --- keys ---------------------------------------------------------------------

#[test]
fn plain_typing_goes_to_the_document() {
    let mut shell = LightSpeed::new(at(0));
    let actions = shell.key(&typed("x"), &moment(), at(10));
    assert!(has(
        &actions,
        &Action::Execute("edit.insert_text", CommandArgs::Text("x".to_string()))
    ));
}

#[test]
fn typing_into_the_terminal_leaves_the_document_alone() {
    let mut shell = LightSpeed::new(at(0));
    shell.toggle_terminal(&facts());
    shell.terminal_spawned(None, at(0));
    assert_eq!(shell.at.focus, InputFocus::Terminal);
    let actions = shell.key(&typed("l"), &moment(), at(10));
    assert!(!actions.iter().any(|action| matches!(action, Action::Execute(..))));
    let rows = shell.terminal.rows(5);
    assert_eq!(rows.last().unwrap(), "> l\u{2588}");
}

#[test]
fn a_confirmation_owns_the_keyboard() {
    let mut shell = asked_to_close();
    assert_eq!(shell.at.focus, InputFocus::Prompt);
    let actions = shell.key(&typed("x"), &moment(), at(10));
    assert!(!actions.iter().any(|action| matches!(action, Action::Execute(..))));
    assert!(shell.prompt.is_some(), "an answer that is none leaves it standing");
}

#[test]
fn only_discarding_discards() {
    let mut shell = asked_to_close();
    let saved = shell.resolve_prompt(PromptAnswer::Save, false, at(10));
    assert!(!saved.iter().any(|action| matches!(action, Action::CloseDiscarding(_))));
    assert!(saved.iter().any(|action| matches!(action, Action::SaveToClose { .. })));

    let mut shell = asked_to_close();
    let cancelled = shell.resolve_prompt(PromptAnswer::Cancel, false, at(10));
    assert!(!cancelled.iter().any(|action| matches!(action, Action::CloseDiscarding(_))));
    assert!(shell.prompt.is_none());

    let mut shell = asked_to_close();
    let discarded = shell.resolve_prompt(PromptAnswer::Discard, false, at(10));
    assert!(has(&discarded, &Action::CloseDiscarding(7)));
}

#[test]
fn the_palette_opens_from_anywhere_and_takes_the_keyboard() {
    let mut shell = LightSpeed::new(at(0));
    shell.key(&chord("p", BOTH), &moment(), at(0));
    assert!(shell.palette.open);
    assert_eq!(shell.at.focus, InputFocus::CommandPalette);
    let actions = shell.key(&typed("u"), &moment(), at(1));
    assert!(!actions.iter().any(|action| matches!(action, Action::Execute(..))));
    let actions = shell.key(&named(NamedKey::Enter), &moment(), at(2));
    assert!(!shell.palette.open);
    assert!(has(&actions, &Action::Execute("edit.undo", CommandArgs::Nothing)));
}

#[test]
fn control_keys_run_commands() {
    let mut shell = LightSpeed::new(at(0));
    let actions = shell.key(&chord("s", CONTROL), &moment(), at(0));
    assert!(has(&actions, &Action::Execute("file.save", CommandArgs::Nothing)));
}

#[test]
fn a_search_waits_for_the_typing_to_stop() {
    let mut shell = LightSpeed::new(at(0));
    shell.open_search_query();
    assert_eq!(shell.at.focus, InputFocus::SearchQuery);
    shell.key(&typed("n"), &moment(), at(100));
    assert_eq!(shell.query, Some(vec!['n']));
    let deadline = shell.at.list.deadline.expect("a search is due");
    assert_eq!(deadline, at(100 + SEARCH_DEBOUNCE));
    assert!(!shell
        .tick(at(100 + SEARCH_DEBOUNCE - 1))
        .iter()
        .any(|action| matches!(action, Action::RequestSearch(_))));
    assert!(has(
        &shell.tick(at(100 + SEARCH_DEBOUNCE)),
        &Action::RequestSearch("n".to_string())
    ));
    assert_eq!(shell.at.list.deadline, None);
}

#[test]
fn the_selection_stays_in_the_list() {
    let mut shell = LightSpeed::new(at(0));
    shell.toggle_file_tree(&facts(), at(0));
    let mut moment = moment();
    let file = |name: &str| Entry {
        name: name.to_string(),
        path: format!("/w/{name}"),
        directory: false,
        children: Listing::Unread,
    };
    moment.lists.tree = Some(Listing::Entries(vec![file("a.rs"), file("b.rs")]));
    let rows = shell.list_rows(&moment.lists).len();
    for _ in 0..20 {
        shell.key(&named(NamedKey::ArrowDown), &moment, at(1));
    }
    assert_eq!(shell.at.list.selected, rows - 1);
    let actions = shell.key(&named(NamedKey::Enter), &moment, at(2));
    assert!(has(&actions, &Action::OpenPath("/w/b.rs".to_string())));
    shell.clamp_selection(1);
    assert_eq!(shell.at.list.selected, 0);
}

#[test]
fn quitting_with_unsaved_changes_asks_once() {
    let mut shell = LightSpeed::new(at(0));
    shell.request_quit(2, at(0));
    assert!(!shell.take_exit());
    assert!(shell.message.is_some());
    shell.request_quit(2, at(10));
    assert!(shell.take_exit());
    assert!(!shell.take_exit(), "taken once");

    let mut shell = LightSpeed::new(at(0));
    shell.request_quit(0, at(0));
    assert!(shell.take_exit(), "nothing to lose");
}

// --- requests -----------------------------------------------------------------

#[test]
fn the_shown_activity_closes_and_another_one_opens() {
    let mut shell = LightSpeed::new(at(0));
    shell.activate_activity_item(0, &facts(), at(0));
    assert_eq!(shell.at.list.active, Some(ListKind::FileTree));
    assert_eq!(shell.activity_active_index(), Some(0));
    shell.activate_activity_item(0, &facts(), at(1));
    assert_eq!(shell.at.list.active, None);
    assert!(!shell.sidebar_visible());
}

#[test]
fn another_activity_clears_the_query() {
    let mut shell = LightSpeed::new(at(0));
    shell.open_search_query();
    shell.key(&typed("n"), &moment(), at(0));
    assert!(shell.query.is_some());
    shell.activate_activity_item(2, &facts(), at(1));
    assert_eq!(shell.query, None);
}

#[test]
fn hiding_the_terminal_keeps_its_contents() {
    let mut shell = LightSpeed::new(at(0));
    assert!(has(&shell.toggle_terminal(&facts()), &Action::SpawnTerminal));
    shell.terminal_spawned(None, at(0));
    assert!(shell.bottom_panel_visible());
    shell.drain_terminal_output("hello\n", None);
    let mut running = facts();
    running.shell = ShellState::Running;
    shell.toggle_terminal(&running);
    assert!(!shell.bottom_panel_visible());
    shell.toggle_terminal(&running);
    assert!(shell.bottom_panel_visible());
    assert!(shell.terminal.rows(5).iter().any(|row| row == "hello"));
}

#[test]
fn a_terminal_that_does_not_start_says_so() {
    let mut shell = LightSpeed::new(at(0));
    shell.toggle_terminal(&facts());
    shell.terminal_spawned(Some("no shell".to_string()), at(0));
    assert!(!shell.bottom_panel_visible());
    assert_eq!(shell.message.as_ref().unwrap().severity, Severity::Error);
}

#[test]
fn opening_the_settings_puts_the_graph_away() {
    let mut shell = LightSpeed::new(at(0));
    shell.toggle_dependency_view(false, false);
    assert!(shell.at.graph.view);
    shell.toggle_settings(false);
    assert!(shell.settings.open);
    assert!(!shell.at.graph.view);
}

#[test]
fn a_folder_that_was_picked_is_opened() {
    let mut shell = LightSpeed::new(at(0));
    assert!(shell
        .show_open_folder_dialog(&facts(), at(0))
        .iter()
        .any(|action| matches!(action, Action::PickFolder(_))));
    let actions = shell.folder_picked(Picked::Folder("/p".to_string()), at(1));
    assert!(has(&actions, &Action::OpenWorkspace("/p".to_string())));
    let actions = shell.workspace_opened("/p".to_string(), None, at(2));
    assert!(has(&actions, &Action::ReloadSettings));
    assert_eq!(shell.tree_root.as_deref(), Some("/p"));
    assert_eq!(shell.at.list.active, Some(ListKind::FileTree));

    let mut shell = LightSpeed::new(at(0));
    shell.show_open_folder_dialog(&facts(), at(0));
    shell.folder_picked(Picked::Failed("no dialog".to_string()), at(1));
    assert_eq!(shell.message.as_ref().unwrap().text, "no dialog");
}

#[test]
fn a_scan_of_part_of_a_workspace_warns() {
    let mut shell = LightSpeed::new(at(0));
    shell.adopt_dependency_graph(3, 2, GraphSource::Scan, at(0));
    let message = shell.message.clone().unwrap();
    assert_eq!(message.text, "Dependencies: 3 files, 2 links");
    assert_eq!(message.severity, Severity::Success);
    shell.adopt_dependency_graph(3, 2, GraphSource::PartialScan, at(0));
    assert_eq!(shell.message.as_ref().unwrap().severity, Severity::Warning);
    shell.adopt_dependency_graph(3, 2, GraphSource::Saved, at(0));
    assert!(shell.message.as_ref().unwrap().text.ends_with("(saved; Ctrl+Shift+R to rescan)"));
    assert!(shell.at.graph.from_cache);
}

#[test]
fn panels_toggle_one_by_one() {
    let mut shell = LightSpeed::new(at(0));
    for (request, read) in [
        (ShellRequest::ToggleDevPanel, (|s: &LightSpeed| s.at.panels.dev) as fn(&LightSpeed) -> bool),
        (ShellRequest::ToggleResourceCenter, |s: &LightSpeed| s.at.panels.resources),
        (ShellRequest::TogglePerformanceOverlay, |s: &LightSpeed| s.at.panels.overlay),
        (ShellRequest::ToggleStatusBar, |s: &LightSpeed| s.at.panels.status_bar),
    ] {
        let before = read(&shell);
        shell.handle_shell_request(request, &facts(), at(0));
        assert_eq!(read(&shell), !before, "{request:?}");
        shell.handle_shell_request(request, &facts(), at(0));
        assert_eq!(read(&shell), before, "{request:?}");
    }
}

#[test]
fn a_load_to_test_with_needs_a_file_that_was_opened() {
    let mut shell = LightSpeed::new(at(0));
    let actions = shell.diagnostics_injected_load(Injection::Slow, at(0));
    assert!(!actions.iter().any(|action| matches!(action, Action::OpenInjected(..))));
    assert!(shell.message.is_some());
    shell.document_requested(
        "/w/a.rs".to_string(),
        Requested::Document(1, OpenOutcome::Started),
        Some(1),
        at(0),
    );
    let actions = shell.diagnostics_injected_load(Injection::Failing, at(1));
    assert!(has(&actions, &Action::OpenInjected("/w/a.rs".to_string(), Injection::Failing)));
    assert!(shell
        .diagnostics_duplicate_storm(at(2))
        .iter()
        .any(|action| matches!(action, Action::RequestStorm(_))));
}

// --- the pointer --------------------------------------------------------------

#[test]
fn an_open_dropdown_takes_every_press() {
    let mut shell = LightSpeed::new(at(0));
    shell.at.menu = MenuState { open: Some(0), hovered_item: None };
    let mut areas = nowhere();
    areas.text = true;
    let mut press = press(areas);
    press.menu = Some(MenuPoint { title: None, in_dropdown: true, row: Some(3) });
    let actions = shell.on_mouse_press(&press, &moment(), at(0));
    assert!(has(&actions, &Action::Execute("file.save", CommandArgs::Nothing)));
    assert!(!shell.at.menu.is_open());
    assert!(!actions.iter().any(|action| matches!(action, Action::PlaceCaret(_))));
}

#[test]
fn a_confirmation_owns_the_pointer() {
    let mut shell = asked_to_close();
    let mut areas = nowhere();
    areas.text = true;
    let actions = shell.on_mouse_press(&press(areas), &moment(), at(10));
    assert!(!actions.iter().any(|action| matches!(action, Action::PlaceCaret(_))));
    assert!(shell.prompt.is_some());
}

#[test]
fn clicks_count_to_three() {
    let mut shell = LightSpeed::new(at(0));
    let mut areas = nowhere();
    areas.text = true;
    let first = shell.on_mouse_press(&press(areas), &moment(), at(0));
    assert!(has(&first, &Action::PlaceCaret(false)));
    let second = shell.on_mouse_press(&press(areas), &moment(), at(100));
    assert!(has(&second, &Action::Attempt("cursor.word_right.select")));
    let third = shell.on_mouse_press(&press(areas), &moment(), at(200));
    assert!(has(&third, &Action::Attempt("cursor.line_end.select")));
    let late = shell.on_mouse_press(&press(areas), &moment(), at(5000));
    assert!(has(&late, &Action::PlaceCaret(false)));
}

#[test]
fn releasing_ends_every_drag() {
    let mut shell = LightSpeed::new(at(0));
    let mut areas = nowhere();
    areas.sidebar_grip = true;
    shell.toggle_file_tree(&facts(), at(0));
    shell.on_mouse_press(&press(areas), &moment(), at(0));
    assert!(shell.at.drag.sidebar);
    let moved = shell.on_mouse_move(&still(), &moment(), at(1));
    assert!(has(&moved, &Action::ResizeSidebar));
    shell.on_mouse_release(true, None, false);
    let drag = shell.at.drag;
    assert!(!drag.sidebar && !drag.selection && !drag.scrollbar && !drag.bottom_panel);
}

#[test]
fn a_drag_of_the_graph_opens_nothing_and_a_click_opens_the_file() {
    let opened = |still: bool| {
        let mut shell = LightSpeed::new(at(0));
        shell.toggle_dependency_view(false, false);
        shell.adopt_dependency_graph(2, 1, GraphSource::Scan, at(0));
        let mut areas = nowhere();
        areas.text = true;
        areas.node = Some(1);
        shell.on_mouse_press(&press(areas), &moment(), at(0));
        assert!(shell.at.graph.press.is_some());
        let actions = shell.on_mouse_release(still, Some("/w/b.rs".to_string()), false);
        (has(&actions, &Action::OpenPath("/w/b.rs".to_string())), shell.at.graph.view)
    };
    assert_eq!(opened(false), (false, true));
    assert_eq!(opened(true), (true, false), "the graph steps out of the way");
}

#[test]
fn a_click_into_the_text_reclaims_the_keyboard() {
    let mut shell = LightSpeed::new(at(0));
    shell.toggle_file_tree(&facts(), at(0));
    assert_eq!(shell.at.focus, InputFocus::List);
    let mut areas = nowhere();
    areas.text = true;
    shell.on_mouse_press(&press(areas), &moment(), at(1));
    assert_eq!(shell.at.focus, InputFocus::Editor);
    assert!(shell.sidebar_visible(), "the panel stays");
}

#[test]
fn the_search_header_is_a_field() {
    let mut shell = LightSpeed::new(at(0));
    shell.open_search_query();
    let mut text = nowhere();
    text.text = true;
    shell.on_mouse_press(&press(text), &moment(), at(1));
    assert_eq!(shell.at.focus, InputFocus::Editor);
    let mut header = nowhere();
    header.sidebar = Some(1);
    shell.on_mouse_press(&press(header), &moment(), at(2));
    assert_eq!(shell.at.focus, InputFocus::SearchQuery);
}

#[test]
fn a_tab_is_closed_by_its_cross_and_shown_by_its_body() {
    let mut shell = LightSpeed::new(at(0));
    let mut areas = nowhere();
    areas.tab = Some(TabHit::Close(4));
    assert!(has(
        &shell.on_mouse_press(&press(areas), &moment(), at(0)),
        &Action::CloseDocument(4)
    ));
    areas.tab = Some(TabHit::Body(4));
    let actions = shell.on_mouse_press(&press(areas), &moment(), at(1));
    assert!(has(&actions, &Action::ActivateTab(4)) || has(&actions, &Action::SetActive(4)));
}

#[test]
fn the_pointer_shows_what_it_can_drag() {
    let mut shell = LightSpeed::new(at(0));
    shell.toggle_file_tree(&facts(), at(0));
    let mut over = still();
    over.sidebar_grip = true;
    let actions = shell.on_mouse_move(&over, &moment(), at(0));
    assert!(has(&actions, &Action::SetCursor(CursorShape::ColumnResize)));
    let actions = shell.on_mouse_move(&still(), &moment(), at(1));
    assert!(has(&actions, &Action::SetCursor(CursorShape::Arrow)));
}

#[test]
fn resting_on_a_node_describes_it() {
    let mut shell = LightSpeed::new(at(0));
    shell.toggle_dependency_view(false, false);
    shell.adopt_dependency_graph(2, 1, GraphSource::Scan, at(0));
    let mut over = still();
    over.node = Some(0);
    over.info = Some(NodeInfo { path: "src/a.rs".to_string(), imports: 2, imported_by: 1 });
    shell.on_mouse_move(&over, &moment(), at(1));
    assert_eq!(shell.at.graph.hovered, Some(0));
    assert!(shell.message.as_ref().unwrap().text.contains("src/a.rs"));
}

#[test]
fn the_wheel_goes_to_what_is_under_it() {
    let mut shell = LightSpeed::new(at(0));
    let editor = PointerOver { sidebar: false, bottom_panel: false, editor: true };
    let sidebar = PointerOver { sidebar: true, bottom_panel: false, editor: false };
    assert_eq!(shell.on_wheel(Some(editor), at(0)), WheelAction::ScrollEditor);
    assert_eq!(shell.on_wheel(Some(sidebar), at(0)), WheelAction::ScrollSidebar);
    assert_eq!(shell.on_wheel(None, at(0)), WheelAction::Ignore);
    shell.toggle_dependency_view(false, false);
    assert_eq!(shell.on_wheel(Some(editor), at(0)), WheelAction::ZoomGraph);
}

// --- the life of a window -----------------------------------------------------

fn change(active: Option<u64>) -> ChangeFacts {
    ChangeFacts { find_open: false, active, loading: false, document: Some(None) }
}

#[test]
fn a_new_active_document_gets_the_keyboard_and_an_unrelated_change_keeps_it() {
    let mut shell = LightSpeed::new(at(0));
    shell.started(Some(1), at(0));
    shell.toggle_file_tree(&facts(), at(0));
    shell.after_state_change(&change(Some(1)), at(1));
    assert_eq!(shell.at.focus, InputFocus::List);
    shell.after_state_change(&change(Some(2)), at(2));
    assert_eq!(shell.at.focus, InputFocus::Editor);
}

#[test]
fn time_alone_never_moves_the_view() {
    let mut shell = LightSpeed::new(at(0));
    shell.take_reveal();
    for step in 0..50 {
        shell.tick(at(step * 100));
    }
    assert!(!shell.take_reveal());
}

#[test]
fn a_dirty_document_is_asked_about() {
    let shell = asked_to_close();
    assert_eq!(
        shell.prompt,
        Some(Prompt::ConfirmClose { document: 7, name: "a.rs".to_string(), quitting: false })
    );
}

#[test]
fn a_document_that_closed_is_forgotten() {
    let mut shell = LightSpeed::new(at(0));
    shell.document_closed(7, CloseOutcome::Closed, false, at(0));
    assert!(shell.prompt.is_none() && shell.message.is_none());
    shell.document_closed(7, CloseOutcome::Failed("busy".to_string()), false, at(0));
    assert_eq!(shell.message.as_ref().unwrap().text, "busy");
}

#[test]
fn a_close_waits_for_its_save() {
    let mut shell = asked_to_close();
    shell.resolve_prompt(PromptAnswer::Save, false, at(10));
    shell.save_requested(7, "a.rs", false, None, at(11));
    assert!(shell.at.exit.after_save.is_some());
    let work = |still_saving| WorkFacts {
        applied: 1,
        still_saving,
        scan_ready: false,
        loading: vec![],
    };
    let waiting = shell.pump_background_work(&work(true));
    assert!(!waiting.iter().any(|action| matches!(action, Action::CloseSaved(_))));
    let done = shell.pump_background_work(&work(false));
    assert!(done.iter().any(|action| matches!(action, Action::CloseSaved(_))));
}

#[test]
fn an_idle_window_sleeps_until_the_caret_blinks() {
    let mut shell = LightSpeed::new(at(0));
    shell.started(Some(1), at(0));
    assert_eq!(shell.next_wakeup(true, false), Some(at(CARET_BLINK)));
    assert_eq!(shell.next_wakeup(false, false), None);
}

#[test]
fn only_loading_tabs_are_hidden_and_only_at_first() {
    let mut shell = LightSpeed::new(at(0));
    shell.document_requested(
        "/w/a.rs".to_string(),
        Requested::Document(1, OpenOutcome::Started),
        Some(1),
        at(0),
    );
    let tab = |id, loading| Tab {
        id,
        title: format!("{id}.rs"),
        active: id == 1,
        dirty: false,
        loading,
    };
    let tabs = vec![tab(1, true), tab(2, false)];
    assert_eq!(shell.visible_tabs(&tabs, at(1)), vec![tab(2, false)]);
    assert_eq!(shell.visible_tabs(&tabs, at(LOADING_TAB_GRACE)), tabs);
}

#[test]
fn a_request_that_is_refused_says_why() {
    let mut shell = LightSpeed::new(at(0));
    shell.document_requested(
        "/w/a.bin".to_string(),
        Requested::Refused("is binary".to_string()),
        None,
        at(0),
    );
    let message = shell.message.as_ref().unwrap();
    assert_eq!((message.text.as_str(), message.severity), ("is binary", Severity::Error));
}

#[test]
fn a_jump_never_lands_in_another_file() {
    let mut shell = LightSpeed::new(at(0));
    shell.started(Some(1), at(0));
    shell.query = Some(vec!['x']);
    shell.at.list.active = Some(ListKind::SearchResults);
    shell.focus_list();
    let mut moment = moment();
    moment.lists.search = Some(SearchResult {
        query: "x".to_string(),
        hits: vec![SearchHit {
            name: "a.rs".to_string(),
            path: "/w/a.rs".to_string(),
            line_number: 12,
            preview: "x".to_string(),
        }],
        truncated: false,
    });
    let rows = shell.list_rows(&moment.lists);
    shell.at.list.selected = rows.iter().position(|row| row.action.is_some()).unwrap();
    let actions = shell.activate_list_selection(&rows, false);
    assert!(has(&actions, &Action::OpenPath("/w/a.rs".to_string())));
    assert!(shell.pending_jump.is_some());

    let mut other = change(Some(2));
    other.document = Some(Some("/w/b.rs".to_string()));
    let actions = shell.after_state_change(&other, at(1));
    assert!(!actions.iter().any(|action| matches!(action, Action::GoToLine(_))));
    let mut right = change(Some(3));
    right.document = Some(Some("/w/a.rs".to_string()));
    let mut shell = shell;
    shell.pending_jump = Some(("/w/a.rs".to_string(), 12));
    let actions = shell.after_state_change(&right, at(2));
    assert!(actions.iter().any(|action| matches!(action, Action::GoToLine(_))));
}

#[test]
fn a_file_changed_on_disk_is_reported_once() {
    let mut shell = LightSpeed::new(at(0));
    shell.file_found(1, "a.rs", ExternalState::ExternallyChanged, at(0));
    let first = shell.message.take().expect("reported");
    assert!(first.text.contains("a.rs"));
    shell.file_found(1, "a.rs", ExternalState::ExternallyChanged, at(1));
    assert!(shell.message.is_none(), "not again");
    shell.file_found(1, "a.rs", ExternalState::Missing, at(2));
    assert!(shell.message.is_some());
}

#[test]
fn a_failed_tab_switch_says_so() {
    let mut shell = LightSpeed::new(at(0));
    assert!(has(&shell.activate_tab(4, Some(1), at(0)), &Action::SetActive(4)));
    shell.tab_activated(Some("gone".to_string()), at(1));
    assert_eq!(shell.message.as_ref().unwrap().text, "gone");
}

#[test]
fn the_gutter_has_room_for_the_longest_number() {
    assert_eq!(line_number_digits(1), 1);
    assert_eq!(line_number_digits(999), 3);
    assert_eq!(line_number_digits(1000), 4);
}

#[test]
fn the_graph_pane_says_what_it_is_waiting_for() {
    let shell = LightSpeed::new(at(0));
    let without = shell.dependency_placeholder(false, false);
    let reading = shell.dependency_placeholder(true, true);
    assert_ne!(without, reading);
}

#[test]
fn the_time_from_input_to_frame_is_measured_once() {
    let mut shell = LightSpeed::new(at(0));
    shell.note_input(at(5));
    shell.note_input(at(9));
    assert_eq!(shell.frame_drawn(), Some(at(5)));
    assert_eq!(shell.frame_drawn(), None);
}

#[test]
fn a_state_change_ends_with_a_frame() {
    let mut shell = LightSpeed::new(at(0));
    let actions = shell.after_state_change(&change(Some(1)), at(1));
    assert_eq!(
        actions,
        vec![Action::SyncServer, Action::TakeRequests, Action::TakeError, Action::Redraw]
    );
    shell.engine_error(None, at(2));
    assert!(shell.message.is_none());
    shell.engine_error(Some("disk full".to_string()), at(3));
    let message = shell.message.clone().unwrap();
    assert_eq!((message.text.as_str(), message.severity), ("disk full", Severity::Error));
    shell.command_refused("nothing to undo".to_string(), at(4));
    let message = shell.message.clone().unwrap();
    assert_eq!((message.text.as_str(), message.severity), ("nothing to undo", Severity::Warning));
}

#[test]
fn a_directory_is_opened_as_the_workspace() {
    let mut shell = LightSpeed::new(at(0));
    let answer = Requested::Directory;
    let actions = shell.document_requested("/w".to_string(), answer, None, at(1));
    assert_eq!(actions, vec![Action::OpenWorkspace("/w".to_string())]);
    assert!(shell.diagnostics_path.is_none());
}

#[test]
fn a_look_at_the_disk_draws_a_frame() {
    let mut shell = LightSpeed::new(at(0));
    let early = shell.tick(at(EXTERNAL_WATCH_INTERVAL - 1));
    assert!(!has(&early, &Action::PollDisk));
    let due = shell.tick(at(EXTERNAL_WATCH_INTERVAL));
    assert!(has(&due, &Action::PollDisk) && has(&due, &Action::Redraw));
    assert!(!has(&shell.tick(at(EXTERNAL_WATCH_INTERVAL + 1)), &Action::PollDisk));
}

#[test]
fn a_search_that_waits_for_typing_says_so() {
    let mut shell = LightSpeed::new(at(0));
    shell.open_search_query();
    shell.key(&typed("n"), &moment(), at(10));
    let rows = shell.list_rows(&moment().lists);
    assert_eq!(rows.len(), 1);
    assert_eq!(rows[0].label, "Searching...");
    shell.tick(at(10 + SEARCH_DEBOUNCE));
    assert!(shell.list_rows(&moment().lists).is_empty());
}

#[test]
fn a_graph_in_hand_is_not_scanned_again() {
    let mut shell = LightSpeed::new(at(0));
    assert_eq!(shell.toggle_dependency_view(false, false), vec![Action::LoadGraph]);
    shell.adopt_dependency_graph(2, 1, GraphSource::Saved, at(1));
    assert_eq!(shell.toggle_dependency_view(true, false), vec![Action::Redraw]);
    assert_eq!(shell.toggle_dependency_view(false, false), vec![Action::Redraw]);
}
