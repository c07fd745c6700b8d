use lightspeed::clock::{
    earliest, should_show_loading_tab, Caret, Duration, Instant, CARET_BLINK, LOADING_TAB_GRACE,
};
use lightspeed::focus::{
    derive_focus, over, wheel_target, InputFocus, PointerOver, WheelTarget,
};
use lightspeed::terminal::{
    navigate_terminal_history, terminal_char_boundary, terminal_input_row, terminal_visible_lines,
    HistoryDirection,
};

fn over_editor() -> PointerOver {
    PointerOver { sidebar: false, bottom_panel: false, editor: true }
}

fn over_chrome() -> PointerOver {
    PointerOver { sidebar: false, bottom_panel: false, editor: false }
}

fn at(millis: u64) -> Instant {
    Instant { nanos: 0 }.plus(Duration::from_millis(millis))
}

#[test]
fn opening_a_file_from_a_still_open_explorer_keeps_editor_focus() {
    let focus = derive_focus(InputFocus::Editor, false, false, false, false, true, false, false);
    assert_eq!(focus, InputFocus::Editor, "an open panel must not steal a resting Editor focus");
}

#[test]
fn a_resting_focus_survives_an_unrelated_refresh() {
    assert_eq!(
        derive_focus(InputFocus::List, false, false, false, false, true, false, false),
        InputFocus::List
    );
    assert_eq!(
        derive_focus(InputFocus::Terminal, false, false, false, false, false, true, false),
        InputFocus::Terminal
    );
}

#[test]
fn a_resting_focus_falls_back_to_the_editor_once_its_surface_closes() {
    assert_eq!(
        derive_focus(InputFocus::List, false, false, false, false, false, false, false),
        InputFocus::Editor
    );
    assert_eq!(
        derive_focus(InputFocus::Terminal, false, false, false, false, false, false, false),
        InputFocus::Editor
    );
}

#[test]
fn entering_list_or_terminal_focus_is_never_derived_only_explicit() {
    assert_eq!(
        derive_focus(InputFocus::Editor, false, false, false, false, true, false, false),
        InputFocus::Editor
    );
    assert_eq!(
        derive_focus(InputFocus::Editor, false, false, false, false, false, true, false),
        InputFocus::Editor
    );
}

#[test]
fn the_exclusive_surfaces_always_win_over_a_resting_focus() {
    for (prompt, menu, find, palette) in [
        (true, false, false, false),
        (false, true, false, false),
        (false, false, true, false),
        (false, false, false, true),
    ] {
        let focus = derive_focus(InputFocus::List, prompt, menu, false, find, true, false, palette);
        assert_ne!(focus, InputFocus::List, "an exclusive surface must win over a resting one");
    }
}

#[test]
fn a_typed_search_query_cannot_steal_focus_back_from_a_click() {
    assert_eq!(
        derive_focus(InputFocus::Editor, false, false, true, false, false, false, false),
        InputFocus::Editor,
        "a query being open must not be able to grab focus the click already left"
    );
    assert_eq!(
        derive_focus(InputFocus::SearchQuery, false, false, true, false, false, false, false),
        InputFocus::SearchQuery,
        "but it is still a resting focus: unrelated refreshes must not evict it either"
    );
    assert_eq!(
        derive_focus(InputFocus::SearchQuery, false, false, false, false, false, false, false),
        InputFocus::Editor,
        "falls back to the editor once the query itself closes"
    );
}

#[test]
fn deriving_twice_is_deriving_once() {
    let all = [
        InputFocus::Editor,
        InputFocus::Menu,
        InputFocus::Prompt,
        InputFocus::Find,
        InputFocus::SearchQuery,
        InputFocus::List,
        InputFocus::Terminal,
        InputFocus::CommandPalette,
    ];
    for focus in all {
        for bits in 0..128u32 {
            let up = |bit: u32| bits & (1 << bit) != 0;
            let once = derive_focus(focus, up(0), up(1), up(2), up(3), up(4), up(5), up(6));
            let twice = derive_focus(once, up(0), up(1), up(2), up(3), up(4), up(5), up(6));
            assert_eq!(once, twice);
        }
    }
}

#[test]
fn a_load_that_finishes_inside_the_grace_period_never_shows_a_tab() {
    let started = at(1000);
    assert!(
        !should_show_loading_tab(started, started),
        "a load that hasn't been running at all must not show a tab yet"
    );
    assert!(
        !should_show_loading_tab(started, started.plus(Duration::from_millis(50))),
        "well inside the grace period"
    );
    assert!(
        should_show_loading_tab(started, started.plus(Duration::from_millis(LOADING_TAB_GRACE))),
        "exactly at the grace period boundary, the tab should show"
    );
    assert!(
        should_show_loading_tab(started, started.plus(Duration::from_millis(2000))),
        "a genuinely slow load must still show its tab"
    );
}

#[test]
fn the_wheel_scrolls_the_editor_without_a_prior_click() {
    assert_eq!(
        wheel_target(over_editor(), InputFocus::default()),
        WheelTarget::Editor,
        "the default focus is the editor"
    );
}

#[test]
fn the_gutter_and_the_scrollbar_scroll_the_editor_too() {
    let text = over(false, false, true, false, false);
    let gutter = over(false, false, false, true, false);
    let scrollbar = over(false, false, false, false, true);
    for (over, name) in [(text, "text"), (gutter, "gutter"), (scrollbar, "scrollbar")] {
        assert_eq!(wheel_target(over, InputFocus::Editor), WheelTarget::Editor, "{name}");
    }
    let nowhere = over(false, false, false, false, false);
    assert_eq!(wheel_target(nowhere, InputFocus::Editor), WheelTarget::Chrome);
    assert!(over(true, false, false, false, false).sidebar);
    assert!(over(false, true, false, false, false).bottom_panel);
}

#[test]
fn the_wheel_over_chrome_does_not_scroll_the_document() {
    assert_eq!(
        wheel_target(over_chrome(), InputFocus::Editor),
        WheelTarget::Chrome,
        "chrome must not scroll the editor under it"
    );
}

#[test]
fn an_open_menu_or_a_confirmation_swallows_the_wheel() {
    assert_eq!(wheel_target(over_editor(), InputFocus::Menu), WheelTarget::Blocked);
    assert_eq!(wheel_target(over_editor(), InputFocus::Prompt), WheelTarget::Blocked);
}

#[test]
fn the_wheel_scrolls_the_sidebar_regardless_of_focus() {
    let over = over(true, false, false, false, false);
    assert_eq!(wheel_target(over, InputFocus::Editor), WheelTarget::Sidebar);
    assert_eq!(wheel_target(over, InputFocus::List), WheelTarget::Sidebar);
}

#[test]
fn the_terminal_takes_the_wheel_even_while_it_holds_the_keyboard() {
    let over = over(false, true, false, false, false);
    assert_eq!(wheel_target(over, InputFocus::Terminal), WheelTarget::BottomPanel);
    assert_eq!(
        wheel_target(over, InputFocus::Editor),
        WheelTarget::BottomPanel,
        "and without having to focus it at all"
    );
}

#[test]
fn focus_is_derived_from_the_surfaces_that_are_up() {
    let mut focus = InputFocus::Menu;
    assert_eq!(wheel_target(over_editor(), focus), WheelTarget::Blocked);
    focus = InputFocus::Editor;
    assert_eq!(wheel_target(over_editor(), focus), WheelTarget::Editor);
}

#[test]
fn the_caret_asks_for_two_invalidations_a_second_and_no_more() {
    let start = at(5000);
    let mut caret = Caret::new(start);
    assert!(caret.visible);
    let mut flips = 0;
    for step in 0..=100 {
        if caret.tick(start.plus(Duration::from_millis(step * 10))) {
            flips += 1;
        }
    }
    assert_eq!(flips, 2, "one second of blinking is two invalidations");
    assert!(caret.visible, "two flips is one whole cycle, back to solid");
}

#[test]
fn waking_the_caret_makes_it_solid_for_half_a_cycle() {
    let mut caret = Caret::new(at(0));
    assert!(caret.tick(at(CARET_BLINK)));
    assert!(!caret.visible);
    caret.wake(at(CARET_BLINK + 10));
    assert!(caret.visible);
    assert_eq!(caret.deadline, at(2 * CARET_BLINK + 10));
    assert!(!caret.tick(at(2 * CARET_BLINK + 9)));
    assert!(caret.tick(at(2 * CARET_BLINK + 10)));
}

#[test]
fn the_earliest_deadline_is_the_one_to_sleep_until() {
    assert_eq!(earliest(None, None), None);
    assert_eq!(earliest(Some(at(5)), None), Some(at(5)));
    assert_eq!(earliest(None, Some(at(5))), Some(at(5)));
    assert_eq!(earliest(Some(at(9)), Some(at(5))), Some(at(5)));
}

#[test]
fn the_clock_stops_at_its_last_instant_and_no_span_is_negative() {
    let last = Instant { nanos: u64::MAX };
    assert_eq!(last.plus(Duration::from_millis(1)), last);
    assert_eq!(at(1).since(at(2)), Duration::zero());
    assert_eq!(at(5).since(at(2)), Duration::from_millis(3));
}

#[test]
fn the_cursor_is_visible_at_the_end_of_an_empty_or_full_line() {
    assert_eq!(terminal_input_row("", 0), "> \u{2588}");
    assert_eq!(terminal_input_row("cd Light", 8), "> cd Light\u{2588}");
}

#[test]
fn the_cursor_splices_in_wherever_it_actually_is_not_just_the_end() {
    assert_eq!(terminal_input_row("cd Light", 2), "> cd\u{2588} Light");
    assert_eq!(terminal_input_row("cd Light", 0), "> \u{2588}cd Light");
}

#[test]
fn the_cursor_never_splits_a_multibyte_character() {
    let line = "caf\u{e9} \u{1f389}party";
    assert_eq!(terminal_input_row(line, 4), "> caf\u{e9}\u{2588} \u{1f389}party");
    assert_eq!(terminal_input_row(line, 5), "> caf\u{e9} \u{2588}\u{1f389}party");
    assert_eq!(terminal_input_row(line, 6), "> caf\u{e9} \u{1f389}\u{2588}party");
    assert_eq!(terminal_char_boundary(line, 3), 3);
    assert_eq!(terminal_char_boundary(line, 4), 5);
    assert_eq!(terminal_char_boundary(line, 6), 10);
    assert_eq!(terminal_char_boundary(line, 60), line.len());
}

#[test]
fn a_cursor_index_past_the_end_of_the_line_clamps_to_the_end() {
    assert_eq!(terminal_input_row("hi", 50), "> hi\u{2588}");
}

#[test]
fn the_terminal_shows_as_many_lines_as_its_panel_actually_has_room_for() {
    assert_eq!(
        terminal_visible_lines(10),
        8,
        "ten rows of space, less the header and the input line"
    );
    assert_eq!(terminal_visible_lines(30), 28, "a taller panel shows more");
}

#[test]
fn a_terminal_panel_too_small_for_its_own_chrome_still_shows_a_line() {
    assert_eq!(terminal_visible_lines(0), 1);
    assert_eq!(terminal_visible_lines(1), 1);
    assert_eq!(terminal_visible_lines(3), 1);
    assert_eq!(terminal_visible_lines(4), 2);
}

#[test]
fn pressing_up_on_an_empty_history_does_nothing() {
    assert_eq!(navigate_terminal_history(&[], None, HistoryDirection::Older), None);
}

#[test]
fn up_from_a_live_line_recalls_the_newest_command_first() {
    let history = vec!["git status".to_string(), "cargo build".to_string(), "ls".to_string()];
    assert_eq!(navigate_terminal_history(&history, None, HistoryDirection::Older), Some(2));
}

#[test]
fn repeated_up_walks_toward_the_oldest_entry_and_stops_there() {
    let history = vec!["one".to_string(), "two".to_string(), "three".to_string()];
    assert_eq!(navigate_terminal_history(&history, Some(2), HistoryDirection::Older), Some(1));
    assert_eq!(navigate_terminal_history(&history, Some(1), HistoryDirection::Older), Some(0));
    assert_eq!(
        navigate_terminal_history(&history, Some(0), HistoryDirection::Older),
        Some(0),
        "the oldest entry is the floor, not a place to run off the front of the list"
    );
}

#[test]
fn down_walks_toward_the_newest_entry_then_back_to_the_live_line() {
    let history = vec!["one".to_string(), "two".to_string(), "three".to_string()];
    assert_eq!(navigate_terminal_history(&history, Some(0), HistoryDirection::Newer), Some(1));
    assert_eq!(navigate_terminal_history(&history, Some(1), HistoryDirection::Newer), Some(2));
    assert_eq!(
        navigate_terminal_history(&history, Some(2), HistoryDirection::Newer),
        None,
        "past the newest entry is the live line, not a wrap back to the oldest"
    );
}

#[test]
fn down_on_a_live_line_that_was_never_recalled_stays_on_it() {
    let history = vec!["one".to_string()];
    assert_eq!(navigate_terminal_history(&history, None, HistoryDirection::Newer), None);
}
