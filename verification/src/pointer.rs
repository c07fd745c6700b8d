//! The pointer: what a press lands on, what moving it changes, where the wheel
//! goes.
//!
//! Rectangles belong to the program; what arrives here is which of them the
//! pointer is in.  What is drawn on top is asked first, so a press never
//! reaches through a dropdown, the palette or a confirmation.

use crate::clock::{span, Caret, Instant, NANOS_PER_MILLI};
use crate::focus::{wheel_goes, wheel_target, InputFocus, PointerOver, WheelTarget};
use crate::keymap::CommandArgs;
use crate::keys::{activation, input_noted, selecting, shown_rows, Moment};
use crate::lists::ListKind;
use crate::menu::{closed_menu, hit, menu_hit, toggled, MenuHit, MenuPoint, MenuState, RecentRow};
use crate::palette::Palette;
use crate::requests::{activity_step, terminal_toggled, Step};
use crate::settings::{control_view, settings_hit_view, settings_press, ControlKind, SettingsHit};
use crate::shell::{
    action_views, list_focused, no_action, one_action, palette_closed, palette_opened, push_action,
    redraw, refreshed, routed, run_command, said, selection_run, settings_toggled, terminal_focused,
    two_actions, Action, Click, CursorShape, Drag, GraphPane, Hover, LightSpeed, ListPanel, Shell,
    Surface, Timing,
};
use crate::sidebar::{
    click_on, header_lines, hovered_line, search_shown, showing_search_panel, sidebar_click,
    sidebar_header_lines, sidebar_hovered_row, submitted_query, SidebarClick,
};
use crate::status::{opt_view, Severity};
use crate::terminal::sound;
use crate::text::{chars_of, decimal, decimal_of, least, listed, lists};
use vstd::prelude::*;

verus! {

/// How close in time two clicks have to be to count as one gesture, in
/// milliseconds.
pub const DOUBLE_CLICK_TIME: u64 = 400;

/// What a press on the tab bar landed on.
#[derive(Copy, Clone, Debug, PartialEq, Eq, Structural)]
pub enum TabHit {
    /// A tab's close control, resolved before its body.
    Close(u64),
    Body(u64),
    Elsewhere,
}

/// Which of the window's areas a press is in.
#[derive(Copy, Clone, Debug)]
pub struct Areas {
    /// The title bar's command field.
    pub title_search: bool,
    pub sidebar_grip: bool,
    pub bottom_grip: bool,
    /// The row of the activity bar.
    pub activity: Option<usize>,
    pub text: bool,
    pub gutter: bool,
    pub scrollbar: bool,
    /// The icon rail of the bottom panel, while that is shown.
    pub bottom_rail: bool,
    /// The bottom panel, while it is shown.
    pub bottom_panel: bool,
    /// The settings gear of the title bar.
    pub gear: bool,
    /// The tab bar, and what of it.
    pub tab: Option<TabHit>,
    /// The line of the sidebar, while that is shown.
    pub sidebar: Option<usize>,
    /// The node of the graph.
    pub node: Option<usize>,
}

/// A press of the pointer.
#[derive(Clone, Debug)]
pub struct Press {
    /// Where it is in the menu, once that has been laid out.
    pub menu: Option<MenuPoint>,
    /// The recent files of the menu.
    pub recent: Vec<RecentRow>,
    /// The row of the palette.
    pub palette_row: Option<usize>,
    pub areas: Areas,
    /// What of the settings screen it hit, and what that edits.
    pub settings_hit: SettingsHit<String>,
    pub control: ControlKind<String>,
    /// Whether it is where the press before was.
    pub near: bool,
    /// Whether shift is held.
    pub shift: bool,
}

// --- presses -----------------------------------------------------------------

/// A press on the menu; nothing when it belongs to whatever is underneath.
#[verifier::opaque]
pub open spec fn menu_press(s: Shell, press: Press, m: Moment) -> Option<Step> {
    let find_open = m.shell.find_open;
    let closed = refreshed(Shell { at: Surface { menu: closed_menu(), ..s.at }, ..s }, find_open);
    match press.menu {
        None => None,
        Some(point) => match menu_hit(point, s.at.menu, press.recent@) {
            MenuHit::Title(index) => Some(
                (
                    refreshed(
                        Shell {
                            at: Surface { menu: toggled(s.at.menu, index), ..s.at },
                            ..s
                        },
                        find_open,
                    ),
                    redraw(),
                ),
            ),
            MenuHit::Command(command) => Some(
                (
                    closed,
                    if listed(m.registry.enabled@, command@) {
                        routed(command, CommandArgs::Nothing, m.registry.active)
                    } else {
                        redraw()
                    },
                ),
            ),
            MenuHit::OpenRecent(path) => Some((closed, seq![Action::OpenPath(path)])),
            MenuHit::Swallowed => Some((s, Seq::empty())),
            MenuHit::Elsewhere => if s.at.menu.open is Some {
                Some((closed, redraw()))
            } else {
                None
            },
        },
    }
}

/// A press while the palette is open: on a row, or anywhere else.
#[verifier::opaque]
pub open spec fn palette_press(s: Shell, row: Option<usize>, m: Moment) -> Step {
    match row {
        Some(index) => selection_run(
            Shell { palette: Palette { selected: index, ..s.palette }, ..s },
            m.registry,
            m.shell.find_open,
        ),
        None => (palette_closed(s, m.shell.find_open), redraw()),
    }
}

/// How many presses have now landed in the same place: at most three count.
pub open spec fn click_count(last: Option<Click>, near: bool, now: Instant) -> u32 {
    match last {
        Some(click) => if span(click.at, now) < DOUBLE_CLICK_TIME * NANOS_PER_MILLI && near {
            least(click.count + 1, 3) as u32
        } else {
            1
        },
        None => 1,
    }
}

/// The press counted.
pub open spec fn clicked(s: Shell, near: bool, now: Instant) -> Shell {
    Shell {
        at: Surface {
            timing: Timing {
                last_click: Some(
                    Click {
                        at: now,
                        count: click_count(s.at.timing.last_click, near, now),
                    },
                ),
                ..s.at.timing
            },
            ..s.at
        },
        ..s
    }
}

/// What the shell does with the settings screen's answer to a press.
#[verifier::opaque]
pub open spec fn settings_pressed(
    s: Shell,
    hit: SettingsHit<Seq<char>>,
    control: ControlKind<Seq<char>>,
) -> Step {
    let (settings, press) = settings_press(s.settings, hit, control);
    let commit = match press.commit {
        Some(change) => seq![Action::ChangeSetting(change)],
        None => Seq::empty(),
    };
    let change = match press.change {
        Some(change) => seq![Action::ChangeSetting(change)],
        None => Seq::empty(),
    };
    let unknown = hit is Control && control is Unknown;
    (
        Shell { settings, ..s },
        commit + change + (if unknown {
            Seq::empty()
        } else {
            redraw()
        }),
    )
}

/// A press on the graph: a second one on the empty canvas fits it to the
/// window, any other is held until it is released.
pub open spec fn graph_pressed(s: Shell, node: Option<usize>) -> Step {
    let repeats = match s.at.timing.last_click {
        Some(click) => click.count,
        None => 1,
    };
    if node is None && repeats >= 2 {
        (
            Shell { at: Surface { graph: GraphPane { press: None, ..s.at.graph }, ..s.at }, ..s },
            seq![Action::FitGraph],
        )
    } else {
        (
            Shell {
                at: Surface { graph: GraphPane { press: Some(node), ..s.at.graph }, ..s.at },
                ..s
            },
            Seq::empty(),
        )
    }
}

/// The search field given the keyboard, with the query that produced the
/// results on screen.
pub open spec fn field_focused(s: Shell, submitted: Option<Seq<char>>) -> Shell {
    Shell {
        at: Surface {
            list: ListPanel { active: Some(ListKind::SearchResults), ..s.at.list },
            focus: InputFocus::SearchQuery,
            ..s.at
        },
        query: match s.query {
            Some(query) => Some(query),
            None => match submitted {
                Some(query) => Some(query),
                None => Some(Seq::empty()),
            },
        },
        ..s
    }
}

/// A press on a line of the sidebar.
#[verifier::opaque]
pub open spec fn sidebar_pressed(s: Shell, line: usize, m: Moment) -> Step {
    let typing = s.query is Some;
    let click = click_on(
        line,
        header_lines(s.at.list.active, typing),
        search_shown(s.at.list.active, typing),
    );
    match click {
        SidebarClick::SearchField => (field_focused(s, submitted_query(m.lists)), redraw()),
        SidebarClick::Header => (list_focused(s), redraw()),
        SidebarClick::Row(index) => {
            let rows = shown_rows(s, m.lists);
            if index < rows.len() {
                let step = activation(
                    selecting(list_focused(s), index),
                    rows,
                    m.shell.find_open,
                );
                (step.0, redraw() + step.1)
            } else {
                (list_focused(s), redraw())
            }
        },
    }
}

/// The caret placed, and a selection made from it with the movement commands,
/// rather than with a second definition of a word or a line.
pub open spec fn selects(shift: bool, start: &'static str, end: &'static str) -> Seq<
    Action<Seq<char>>,
> {
    seq![
        Action::PlaceCaret(shift),
        Action::Attempt(start),
        Action::Attempt(end),
        Action::StateChanged,
    ]
}

/// A press on the text: the caret goes there, a second one selects the word and
/// a third the line.
#[verifier::opaque]
pub open spec fn text_pressed(s: Shell, count: u32, shift: bool, now: Instant) -> Step {
    (
        Shell {
            at: Surface {
                focus: InputFocus::Editor,
                drag: Drag {
                    selection: s.at.drag.selection || (count != 2 && count != 3),
                    ..s.at.drag
                },
                timing: Timing { caret: crate::clock::woken(now), ..s.at.timing },
                ..s.at
            },
            ..s
        },
        if count == 2 {
            selects(shift, "cursor.word_left", "cursor.word_right.select")
        } else if count == 3 {
            selects(shift, "cursor.line_start", "cursor.line_end.select")
        } else {
            seq![Action::PlaceCaret(shift)]
        },
    )
}

/// Something being dragged from now on.
pub open spec fn dragging(s: Shell, drag: Drag) -> Shell {
    Shell { at: Surface { drag, ..s.at }, ..s }
}

/// A press on the window itself, with nothing drawn over it.
#[verifier::opaque]
pub open spec fn surface_press(s: Shell, press: Press, m: Moment, now: Instant) -> Step {
    let areas = press.areas;
    if areas.sidebar_grip {
        (dragging(s, Drag { sidebar: true, ..s.at.drag }), Seq::empty())
    } else if areas.bottom_grip {
        (dragging(s, Drag { bottom_panel: true, ..s.at.drag }), Seq::empty())
    } else if areas.activity is Some {
        activity_step(s, areas.activity->0, m.shell, now)
    } else if areas.text && s.settings.open {
        settings_pressed(
            s,
            settings_hit_view(press.settings_hit),
            control_view(press.control),
        )
    } else if areas.text && s.at.graph.view {
        graph_pressed(s, areas.node)
    } else if areas.bottom_rail {
        terminal_toggled(s, m.shell)
    } else if areas.bottom_panel {
        (terminal_focused(s), redraw())
    } else if areas.gear {
        (settings_toggled(s, m.shell.find_open), redraw())
    } else if areas.tab is Some {
        (
            s,
            match areas.tab->0 {
                TabHit::Close(id) => seq![Action::CloseDocument(id)],
                TabHit::Body(id) => seq![Action::ActivateTab(id)],
                TabHit::Elsewhere => Seq::empty(),
            },
        )
    } else if areas.scrollbar {
        (
            dragging(s, Drag { scrollbar: true, ..s.at.drag }),
            seq![Action::ScrollToPointer],
        )
    } else if areas.sidebar is Some && s.at.list.active is Some {
        sidebar_pressed(s, areas.sidebar->0, m)
    } else if areas.text || areas.gutter {
        text_pressed(
            s,
            match s.at.timing.last_click {
                Some(click) => click.count,
                None => 1,
            },
            press.shift,
            now,
        )
    } else {
        (s, Seq::empty())
    }
}

/// What a press does.
#[verifier::opaque]
pub open spec fn press_step(s: Shell, press: Press, m: Moment, now: Instant) -> Step {
    let noted = input_noted(s, now);
    match menu_press(noted, press, m) {
        Some(step) => step,
        None => if noted.palette.open {
            palette_press(noted, press.palette_row, m)
        } else if noted.prompt is Some {
            (noted, Seq::empty())
        } else if press.areas.title_search {
            (palette_opened(noted, m.shell.find_open), redraw())
        } else {
            surface_press(clicked(noted, press.near, now), press, m, now)
        },
    }
}

/// Places the caret and selects from it.
fn select_from(shift: bool, start: &'static str, end: &'static str) -> (r: Vec<Action<String>>)
    ensures
        action_views(r@) == selects(shift, start, end),
{
    let mut actions = two_actions(Action::PlaceCaret(shift), Action::Attempt(start));
    push_action(&mut actions, Action::Attempt(end));
    push_action(&mut actions, Action::StateChanged);
    assert(action_views(actions@) =~= selects(shift, start, end));
    actions
}

/// What came of a press on the menu.
enum MenuAnswer {
    /// It was one, and this is what to do.
    Taken(Vec<Action<String>>),
    /// The press belongs to whatever is underneath.
    Passed,
}

impl LightSpeed {
    /// Puts the keyboard in the search field.
    fn focus_search_field(&mut self, m: &Moment)
        ensures
            final(self)@ == field_focused(old(self)@, submitted_query(m.lists)),
            final(self)@.terminal == old(self)@.terminal,
    {
        if self.query.is_none() {
            let previous = match &m.lists.search {
                Some(result) => chars_of(result.query.as_str()),
                None => Vec::new(),
            };
            assert(m.lists.search is None ==> previous@ =~= Seq::<char>::empty());
            self.query = Some(previous);
        }
        self.at = Surface {
            list: ListPanel { active: Some(ListKind::SearchResults), ..self.at.list },
            focus: InputFocus::SearchQuery,
            ..self.at
        };
    }

    fn close_menu(&mut self, find_open: bool)
        ensures
            final(self)@ == refreshed(
                Shell { at: Surface { menu: closed_menu(), ..old(self)@.at }, ..old(self)@ },
                find_open,
            ),
            final(self)@.terminal == old(self)@.terminal,
    {
        self.at = Surface { menu: MenuState { open: None, hovered_item: None }, ..self.at };
        self.refresh_focus(find_open);
    }

    fn press_menu(&mut self, press: &Press, m: &Moment) -> (r: MenuAnswer)
        ensures
            match r {
                MenuAnswer::Taken(actions) => menu_press(old(self)@, *press, *m) == Some(
                    (final(self)@, action_views(actions@)),
                ),
                MenuAnswer::Passed => menu_press(old(self)@, *press, *m) is None && final(self)@
                    == old(self)@,
            },
            final(self)@.terminal == old(self)@.terminal,
    {
        reveal(menu_press);
        let find_open = m.shell.find_open;
        match press.menu {
            None => MenuAnswer::Passed,
            Some(point) => match hit(point, self.at.menu, &press.recent) {
                MenuHit::Title(index) => {
                    let mut menu = self.at.menu;
                    menu.toggle(index);
                    self.at = Surface { menu, ..self.at };
                    self.refresh_focus(find_open);
                    MenuAnswer::Taken(one_action(Action::Redraw))
                },
                MenuHit::Command(command) => {
                    self.close_menu(find_open);
                    if lists(&m.registry.enabled, command) {
                        MenuAnswer::Taken(
                            run_command(command, CommandArgs::Nothing, m.registry.active),
                        )
                    } else {
                        MenuAnswer::Taken(one_action(Action::Redraw))
                    }
                },
                MenuHit::OpenRecent(path) => {
                    self.close_menu(find_open);
                    MenuAnswer::Taken(one_action(Action::OpenPath(path)))
                },
                MenuHit::Swallowed => MenuAnswer::Taken(no_action()),
                MenuHit::Elsewhere => {
                    if self.at.menu.is_open() {
                        self.close_menu(find_open);
                        MenuAnswer::Taken(one_action(Action::Redraw))
                    } else {
                        MenuAnswer::Passed
                    }
                },
            },
        }
    }

    fn press_palette(&mut self, row: Option<usize>, m: &Moment) -> (r: Vec<Action<String>>)
        ensures
            (final(self)@, action_views(r@)) == palette_press(old(self)@, row, *m),
            final(self)@.terminal == old(self)@.terminal,
    {
        reveal(palette_press);
        match row {
            Some(index) => {
                self.palette.selected = index;
                self.run_palette_selection(&m.registry, m.shell.find_open)
            },
            None => {
                self.close_command_palette(m.shell.find_open);
                one_action(Action::Redraw)
            },
        }
    }

    fn count_click(&mut self, near: bool, now: Instant)
        ensures
            final(self)@ == clicked(old(self)@, near, now),
            final(self)@.terminal == old(self)@.terminal,
    {
        let count: u32 = match self.at.timing.last_click {
            Some(click) => if now.since(click.at).nanos < DOUBLE_CLICK_TIME * NANOS_PER_MILLI
                && near {
                if click.count < 3 {
                    click.count + 1
                } else {
                    3
                }
            } else {
                1
            },
            None => 1,
        };
        self.at = Surface {
            timing: Timing { last_click: Some(Click { at: now, count }), ..self.at.timing },
            ..self.at
        };
    }

    fn press_settings(&mut self, press: &Press) -> (r: Vec<Action<String>>)
        ensures
            (final(self)@, action_views(r@)) == settings_pressed(
                old(self)@,
                settings_hit_view(press.settings_hit),
                control_view(press.control),
            ),
            final(self)@.terminal == old(self)@.terminal,
    {
        reveal(settings_pressed);
        let answer = self.settings.press(&press.settings_hit, &press.control);
        let mut actions = no_action();
        if let Some(change) = answer.commit {
            push_action(&mut actions, Action::ChangeSetting(change));
        }
        if let Some(change) = answer.change {
            push_action(&mut actions, Action::ChangeSetting(change));
        }
        let unknown = match (&press.settings_hit, &press.control) {
            (SettingsHit::Control(_), ControlKind::Unknown) => true,
            _ => false,
        };
        if !unknown {
            push_action(&mut actions, Action::Redraw);
        }
        assert(action_views(actions@) =~= settings_pressed(
            old(self)@,
            settings_hit_view(press.settings_hit),
            control_view(press.control),
        ).1);
        actions
    }

    fn press_dependency_view(&mut self, node: Option<usize>) -> (r: Vec<Action<String>>)
        ensures
            (final(self)@, action_views(r@)) == graph_pressed(old(self)@, node),
            final(self)@.terminal == old(self)@.terminal,
    {
        let repeats: u32 = match self.at.timing.last_click {
            Some(click) => click.count,
            None => 1,
        };
        if node.is_none() && repeats >= 2 {
            self.at = Surface { graph: GraphPane { press: None, ..self.at.graph }, ..self.at };
            one_action(Action::FitGraph)
        } else {
            self.at = Surface {
                graph: GraphPane { press: Some(node), ..self.at.graph },
                ..self.at
            };
            no_action()
        }
    }

    fn press_sidebar(&mut self, line: usize, m: &Moment) -> (r: Vec<Action<String>>)
        ensures
            (final(self)@, action_views(r@)) == sidebar_pressed(old(self)@, line, *m),
            final(self)@.terminal == old(self)@.terminal,
    {
        reveal(sidebar_pressed);
        let typing = self.query.is_some();
        let active = self.at.list.active;
        match sidebar_click(
            line,
            sidebar_header_lines(active, typing),
            showing_search_panel(active, typing),
        ) {
            SidebarClick::SearchField => {
                self.focus_search_field(m);
                one_action(Action::Redraw)
            },
            SidebarClick::Header => {
                self.focus_list();
                one_action(Action::Redraw)
            },
            SidebarClick::Row(index) => {
                let rows = self.list_rows(&m.lists);
                self.focus_list();
                let mut actions = one_action(Action::Redraw);
                assert(crate::lists::row_views(rows@).len() == rows@.len());
                if index < rows.len() {
                    self.at = Surface {
                        list: ListPanel { selected: index, ..self.at.list },
                        ..self.at
                    };
                    assert(self@ == selecting(list_focused(old(self)@), index));
                    let mut more = self.activate_list_selection(&rows, m.shell.find_open);
                    let ghost first = action_views(actions@);
                    let ghost then = action_views(more@);
                    actions.append(&mut more);
                    assert(action_views(actions@) =~= first + then);
                }
                actions
            },
        }
    }

    fn press_text(&mut self, count: u32, shift: bool, now: Instant) -> (r: Vec<Action<String>>)
        ensures
            (final(self)@, action_views(r@)) == text_pressed(old(self)@, count, shift, now),
            final(self)@.terminal == old(self)@.terminal,
    {
        reveal(text_pressed);
        let selection = self.at.drag.selection || (count != 2 && count != 3);
        self.at = Surface {
            focus: InputFocus::Editor,
            drag: Drag { selection, ..self.at.drag },
            timing: Timing { caret: Caret::new(now), ..self.at.timing },
            ..self.at
        };
        if count == 2 {
            select_from(shift, "cursor.word_left", "cursor.word_right.select")
        } else if count == 3 {
            select_from(shift, "cursor.line_start", "cursor.line_end.select")
        } else {
            one_action(Action::PlaceCaret(shift))
        }
    }

    fn press_surface(&mut self, press: &Press, m: &Moment, now: Instant) -> (r: Vec<
        Action<String>,
    >)
        requires
            sound(old(self)@.terminal),
        ensures
            (final(self)@, action_views(r@)) == surface_press(old(self)@, *press, *m, now),
            sound(final(self)@.terminal),
    {
        reveal(surface_press);
        let areas = press.areas;
        if areas.sidebar_grip {
            self.at = Surface { drag: Drag { sidebar: true, ..self.at.drag }, ..self.at };
            return no_action();
        }
        if areas.bottom_grip {
            self.at = Surface { drag: Drag { bottom_panel: true, ..self.at.drag }, ..self.at };
            return no_action();
        }
        if let Some(index) = areas.activity {
            return self.activate_activity_item(index, &m.shell, now);
        }
        if areas.text && self.settings.open {
            return self.press_settings(press);
        }
        if areas.text && self.at.graph.view {
            return self.press_dependency_view(areas.node);
        }
        if areas.bottom_rail {
            return self.toggle_terminal(&m.shell);
        }
        if areas.bottom_panel {
            self.focus_terminal();
            return one_action(Action::Redraw);
        }
        if areas.gear {
            self.toggle_settings(m.shell.find_open);
            return one_action(Action::Redraw);
        }
        if let Some(tab) = areas.tab {
            return match tab {
                TabHit::Close(id) => one_action(Action::CloseDocument(id)),
                TabHit::Body(id) => one_action(Action::ActivateTab(id)),
                TabHit::Elsewhere => no_action(),
            };
        }
        if areas.scrollbar {
            self.at = Surface { drag: Drag { scrollbar: true, ..self.at.drag }, ..self.at };
            return one_action(Action::ScrollToPointer);
        }
        if let Some(line) = areas.sidebar {
            if self.at.list.active.is_some() {
                return self.press_sidebar(line, m);
            }
        }
        if areas.text || areas.gutter {
            let count: u32 = match self.at.timing.last_click {
                Some(click) => click.count,
                None => 1,
            };
            return self.press_text(count, press.shift, now);
        }
        no_action()
    }

    /// Handles a press of the pointer.
    pub fn on_mouse_press(&mut self, press: &Press, m: &Moment, now: Instant) -> (r: Vec<
        Action<String>,
    >)
        requires
            sound(old(self)@.terminal),
        ensures
            (final(self)@, action_views(r@)) == press_step(old(self)@, *press, *m, now),
            sound(final(self)@.terminal),
    {
        reveal(press_step);
        self.note_input(now);
        match self.press_menu(press, m) {
            MenuAnswer::Taken(actions) => {
                return actions;
            },
            MenuAnswer::Passed => {},
        }
        if self.palette.open {
            return self.press_palette(press.palette_row, m);
        }
        if self.prompt.is_some() {
            return no_action();
        }
        if press.areas.title_search {
            self.open_command_palette(m.shell.find_open);
            return one_action(Action::Redraw);
        }
        self.count_click(press.near, now);
        self.press_surface(press, m, now)
    }
}

// --- moving ------------------------------------------------------------------

/// A file of the graph, as the status bar describes it.
#[derive(Clone, Debug, PartialEq, Eq)]
pub struct NodeInfo {
    pub path: String,
    pub imports: u64,
    pub imported_by: u64,
}

/// What is said of the file under the pointer.
pub open spec fn node_text(info: NodeInfo) -> Seq<char> {
    info.path@ + "  -  imports "@ + decimal(info.imports as nat) + ", imported by "@ + decimal(
        info.imported_by as nat,
    ) + "  (click to open)"@
}

/// Where the pointer has moved to.
#[derive(Clone, Debug)]
pub struct Motion {
    /// The node of the graph, and what it is.
    pub node: Option<usize>,
    pub info: Option<NodeInfo>,
    /// The row of the open dropdown.
    pub menu_row: Option<usize>,
    pub sidebar_grip: bool,
    pub bottom_grip: bool,
    /// The line of the sidebar, while that is shown.
    pub sidebar: Option<usize>,
    pub palette_row: Option<usize>,
    pub activity: Option<usize>,
}

/// The pointer on another node of the graph, or on none.
#[verifier::opaque]
pub open spec fn graph_hovered(s: Shell, motion: Motion, now: Instant) -> Step {
    if motion.node == s.at.graph.hovered {
        (s, Seq::empty())
    } else {
        let moved = Shell {
            at: Surface { graph: GraphPane { hovered: motion.node, ..s.at.graph }, ..s.at },
            ..s
        };
        (
            if motion.node is Some && motion.info is Some {
                said(moved, node_text(motion.info->0), Severity::Success, now)
            } else {
                moved
            },
            redraw(),
        )
    }
}

/// The shape of the pointer over the two grips.
pub open spec fn grip_shape(sidebar: bool, bottom: bool) -> CursorShape {
    if sidebar {
        CursorShape::ColumnResize
    } else if bottom {
        CursorShape::RowResize
    } else {
        CursorShape::Arrow
    }
}

/// The sidebar line that is highlighted under the pointer: none on a grip,
/// none on the header, none past the last row.
pub open spec fn row_under(s: Shell, motion: Motion, m: Moment) -> Option<usize> {
    if motion.sidebar is Some && !motion.sidebar_grip && !motion.bottom_grip
        && s.at.list.active is Some {
        hovered_line(
            motion.sidebar->0,
            header_lines(s.at.list.active, s.query is Some),
            shown_rows(s, m.lists).len() as int,
        )
    } else {
        None
    }
}

/// The activity-bar row under the pointer: none on a grip.
pub open spec fn activity_under(motion: Motion) -> Option<usize> {
    if motion.sidebar_grip || motion.bottom_grip {
        None
    } else {
        motion.activity
    }
}

/// What changes when the pointer moves with no button held: the pointer's
/// shape over a grip, and the rows highlighted under it.
#[verifier::opaque]
pub open spec fn pointed(s: Shell, motion: Motion, m: Moment) -> Step {
    let row = row_under(s, motion, m);
    let activity = activity_under(motion);
    (
        Shell {
            at: Surface {
                hover: Hover {
                    sidebar_grip: motion.sidebar_grip,
                    bottom_grip: motion.bottom_grip,
                    row,
                    activity,
                },
                ..s.at
            },
            palette: Palette { hovered: motion.palette_row, ..s.palette },
            ..s
        },
        (if motion.sidebar_grip != s.at.hover.sidebar_grip || motion.bottom_grip
            != s.at.hover.bottom_grip {
            seq![Action::SetCursor(grip_shape(motion.sidebar_grip, motion.bottom_grip))]
        } else {
            Seq::empty()
        }) + (if row != s.at.hover.row || motion.palette_row != s.palette.hovered || activity
            != s.at.hover.activity {
            redraw()
        } else {
            Seq::empty()
        }),
    )
}

/// What moving the pointer does: over the graph it pans or traces, over an open
/// dropdown it highlights, and with a button held it drags.
#[verifier::opaque]
pub open spec fn motion_step(s: Shell, motion: Motion, m: Moment, now: Instant) -> Step {
    if s.at.graph.view {
        if s.at.graph.press is Some {
            (s, seq![Action::DragGraph])
        } else {
            graph_hovered(s, motion, now)
        }
    } else if s.at.menu.open is Some {
        if motion.menu_row != s.at.menu.hovered_item {
            (
                Shell {
                    at: Surface {
                        menu: MenuState { hovered_item: motion.menu_row, ..s.at.menu },
                        ..s.at
                    },
                    ..s
                },
                redraw(),
            )
        } else {
            (s, Seq::empty())
        }
    } else if s.at.drag.selection {
        (s, seq![Action::PlaceCaret(true)])
    } else if s.at.drag.scrollbar {
        (s, seq![Action::ScrollToPointer])
    } else if s.at.drag.sidebar {
        (s, seq![Action::ResizeSidebar])
    } else if s.at.drag.bottom_panel {
        (s, seq![Action::ResizeBottomPanel])
    } else {
        pointed(s, motion, m)
    }
}

/// A button released. A press that stayed put on a node opens its file, and
/// steps out of the way; one that moved was a drag.
#[verifier::opaque]
pub open spec fn release_step(
    s: Shell,
    still: bool,
    target: Option<Seq<char>>,
    find_open: bool,
) -> Step {
    let opens = s.at.graph.press is Some && s.at.graph.press->0 is Some && still && target is Some;
    let lifted = Shell {
        at: Surface {
            graph: GraphPane {
                press: None,
                view: s.at.graph.view && !opens,
                hovered: if opens {
                    None
                } else {
                    s.at.graph.hovered
                },
                ..s.at.graph
            },
            drag: Drag {
                selection: false,
                scrollbar: false,
                sidebar: false,
                bottom_panel: false,
            },
            ..s.at
        },
        ..s
    };
    if opens {
        (refreshed(lifted, find_open), seq![Action::OpenPath(target->0)])
    } else {
        (lifted, Seq::empty())
    }
}

fn same_row(a: Option<usize>, b: Option<usize>) -> (r: bool)
    ensures
        r == (a == b),
{
    match (a, b) {
        (Some(x), Some(y)) => x == y,
        (None, None) => true,
        _ => false,
    }
}

impl LightSpeed {
    fn hover_dependency_view(&mut self, motion: &Motion, now: Instant) -> (r: Vec<Action<String>>)
        ensures
            (final(self)@, action_views(r@)) == graph_hovered(old(self)@, *motion, now),
            final(self)@.terminal == old(self)@.terminal,
    {
        reveal(graph_hovered);
        if same_row(motion.node, self.at.graph.hovered) {
            return no_action();
        }
        self.at = Surface {
            graph: GraphPane { hovered: motion.node, ..self.at.graph },
            ..self.at
        };
        if motion.node.is_some() {
            if let Some(info) = &motion.info {
                let mut text = info.path.clone();
                text.push_str("  -  imports ");
                text.push_str(decimal_of(info.imports).as_str());
                text.push_str(", imported by ");
                text.push_str(decimal_of(info.imported_by).as_str());
                text.push_str("  (click to open)");
                self.set_status(text, Severity::Success, now);
            }
        }
        one_action(Action::Redraw)
    }

    /// Tracks what plain pointer movement changes: the resize cursor over a
    /// grip, and which row is under the pointer.
    pub fn update_pointer_interaction(&mut self, motion: &Motion, m: &Moment) -> (r: Vec<
        Action<String>,
    >)
        ensures
            (final(self)@, action_views(r@)) == pointed(old(self)@, *motion, *m),
            final(self)@.terminal == old(self)@.terminal,
    {
        reveal(pointed);
        let mut actions = no_action();
        let any_grip = motion.sidebar_grip || motion.bottom_grip;
        if motion.sidebar_grip != self.at.hover.sidebar_grip || motion.bottom_grip
            != self.at.hover.bottom_grip {
            let shape = if motion.sidebar_grip {
                CursorShape::ColumnResize
            } else if motion.bottom_grip {
                CursorShape::RowResize
            } else {
                CursorShape::Arrow
            };
            push_action(&mut actions, Action::SetCursor(shape));
        }
        let mut row: Option<usize> = None;
        if let Some(line) = motion.sidebar {
            if !any_grip && self.at.list.active.is_some() {
                let header = sidebar_header_lines(self.at.list.active, self.query.is_some());
                let rows = self.list_rows(&m.lists);
                assert(crate::lists::row_views(rows@).len() == rows@.len());
                row = sidebar_hovered_row(line, header, rows.len());
            }
        }
        let activity = if any_grip {
            None
        } else {
            motion.activity
        };
        if !same_row(row, self.at.hover.row) || !same_row(
            motion.palette_row,
            self.palette.hovered,
        ) || !same_row(activity, self.at.hover.activity) {
            push_action(&mut actions, Action::Redraw);
        }
        self.at = Surface {
            hover: Hover {
                sidebar_grip: motion.sidebar_grip,
                bottom_grip: motion.bottom_grip,
                row,
                activity,
            },
            ..self.at
        };
        self.palette.hovered = motion.palette_row;
        assert(action_views(actions@) =~= pointed(old(self)@, *motion, *m).1);
        actions
    }

    /// Handles a movement of the pointer.
    pub fn on_mouse_move(&mut self, motion: &Motion, m: &Moment, now: Instant) -> (r: Vec<
        Action<String>,
    >)
        ensures
            (final(self)@, action_views(r@)) == motion_step(old(self)@, *motion, *m, now),
            final(self)@.terminal == old(self)@.terminal,
    {
        reveal(motion_step);
        if self.at.graph.view {
            if self.at.graph.press.is_some() {
                return one_action(Action::DragGraph);
            }
            return self.hover_dependency_view(motion, now);
        }
        if self.at.menu.is_open() {
            if !same_row(motion.menu_row, self.at.menu.hovered_item) {
                self.at = Surface {
                    menu: MenuState { hovered_item: motion.menu_row, ..self.at.menu },
                    ..self.at
                };
                return one_action(Action::Redraw);
            }
            return no_action();
        }
        if self.at.drag.selection {
            one_action(Action::PlaceCaret(true))
        } else if self.at.drag.scrollbar {
            one_action(Action::ScrollToPointer)
        } else if self.at.drag.sidebar {
            one_action(Action::ResizeSidebar)
        } else if self.at.drag.bottom_panel {
            one_action(Action::ResizeBottomPanel)
        } else {
            self.update_pointer_interaction(motion, m)
        }
    }

    /// Handles the release that ends a press. `still` says whether the pointer
    /// stayed where it went down, and `target` which file the pressed node
    /// stands for.
    pub fn on_mouse_release(&mut self, still: bool, target: Option<String>, find_open: bool) -> (r:
        Vec<Action<String>>)
        ensures
            (final(self)@, action_views(r@)) == release_step(
                old(self)@,
                still,
                opt_view(target),
                find_open,
            ),
            final(self)@.terminal == old(self)@.terminal,
    {
        reveal(release_step);
        let on_node = match self.at.graph.press {
            Some(node) => node.is_some(),
            None => false,
        };
        let opens = on_node && still && target.is_some();
        let view = self.at.graph.view && !opens;
        let hovered = if opens {
            None
        } else {
            self.at.graph.hovered
        };
        self.at = Surface {
            graph: GraphPane { press: None, view, hovered, ..self.at.graph },
            drag: Drag {
                selection: false,
                scrollbar: false,
                sidebar: false,
                bottom_panel: false,
            },
            ..self.at
        };
        if opens {
            if let Some(path) = target {
                self.refresh_focus(find_open);
                return one_action(Action::OpenPath(path));
            }
        }
        no_action()
    }
}

// --- the wheel ---------------------------------------------------------------

/// What the wheel does.
#[derive(Copy, Clone, Debug, PartialEq, Eq, Structural)]
pub enum WheelAction {
    Ignore,
    ScrollTerminal,
    ScrollSidebar,
    ScrollSettings,
    ZoomGraph,
    ScrollEditor,
}

/// What the wheel does: a docked panel scrolls under the pointer, and over the
/// editor area whatever stands in it does.
pub open spec fn wheel_action(s: Shell, over: Option<PointerOver>) -> WheelAction {
    match over {
        None => WheelAction::Ignore,
        Some(over) => match wheel_goes(over, s.at.focus) {
            WheelTarget::Chrome | WheelTarget::Blocked => WheelAction::Ignore,
            WheelTarget::BottomPanel => WheelAction::ScrollTerminal,
            WheelTarget::Sidebar => WheelAction::ScrollSidebar,
            WheelTarget::Editor => if s.settings.open {
                WheelAction::ScrollSettings
            } else if s.at.graph.view {
                WheelAction::ZoomGraph
            } else {
                WheelAction::ScrollEditor
            },
        },
    }
}

impl LightSpeed {
    /// Routes a turn of the wheel. `over` is what the pointer is over, once the
    /// window has been laid out.
    pub fn on_wheel(&mut self, over: Option<PointerOver>, now: Instant) -> (r: WheelAction)
        ensures
            final(self)@ == input_noted(old(self)@, now),
            r == wheel_action(old(self)@, over),
    {
        self.note_input(now);
        match over {
            None => WheelAction::Ignore,
            Some(over) => match wheel_target(over, self.at.focus) {
                WheelTarget::Chrome | WheelTarget::Blocked => WheelAction::Ignore,
                WheelTarget::BottomPanel => WheelAction::ScrollTerminal,
                WheelTarget::Sidebar => WheelAction::ScrollSidebar,
                WheelTarget::Editor => if self.settings.open {
                    WheelAction::ScrollSettings
                } else if self.at.graph.view {
                    WheelAction::ZoomGraph
                } else {
                    WheelAction::ScrollEditor
                },
            },
        }
    }
}

// --- laws --------------------------------------------------------------------

/// A press never reaches through a dropdown: with one open, nothing under it
/// happens, wherever the press lands.
pub proof fn an_open_dropdown_takes_every_press(s: Shell, press: Press, m: Moment)
    requires
        s.at.menu.open is Some,
        press.menu is Some,
    ensures
        menu_press(s, press, m) is Some,
{
    reveal(menu_press);
}

/// While a confirmation is up a press that misses the menu does nothing.
pub proof fn a_confirmation_owns_the_pointer(s: Shell, press: Press, m: Moment, now: Instant)
    requires
        s.prompt is Some,
        !s.palette.open,
        menu_press(input_noted(s, now), press, m) is None,
    ensures
        press_step(s, press, m, now) == (
            input_noted(s, now),
            Seq::<Action<Seq<char>>>::empty(),
        ),
{
    reveal(press_step);
}

/// A fourth press in the same place stays at the line that the third selected.
pub proof fn clicks_count_to_three(last: Option<Click>, near: bool, now: Instant)
    requires
        last matches Some(click) ==> 1 <= click.count <= 3,
    ensures
        1 <= click_count(last, near, now) <= 3,
{
}

/// Releasing the button always ends every drag.
pub proof fn releasing_ends_every_drag(
    s: Shell,
    still: bool,
    target: Option<Seq<char>>,
    find_open: bool,
)
    ensures
        ({
            let after = release_step(s, still, target, find_open).0;
            &&& !after.at.drag.selection
            &&& !after.at.drag.scrollbar
            &&& !after.at.drag.sidebar
            &&& !after.at.drag.bottom_panel
            &&& after.at.graph.press is None
        }),
{
    reveal(release_step);
    reveal(refreshed);
}

/// Dragging the graph never opens a file: only a press that stayed put does.
pub proof fn a_drag_opens_nothing(s: Shell, target: Option<Seq<char>>, find_open: bool)
    ensures
        release_step(s, false, target, find_open).1.len() == 0,
{
    reveal(release_step);
}

/// Clicking into the text gives the editor the keyboard, whichever panel had
/// it.
pub proof fn a_click_into_the_text_reclaims_the_keyboard(
    s: Shell,
    count: u32,
    shift: bool,
    now: Instant,
)
    ensures
        text_pressed(s, count, shift, now).0.at.focus == InputFocus::Editor,
{
    reveal(text_pressed);
}

/// Clicking into the search panel's header puts the keyboard into its field,
/// and what is typed there is kept.
pub proof fn the_search_header_is_a_field(s: Shell, line: usize, m: Moment)
    requires
        search_shown(s.at.list.active, s.query is Some),
        line < header_lines(s.at.list.active, s.query is Some),
    ensures
        ({
            let after = sidebar_pressed(s, line, m).0;
            &&& after.at.focus == InputFocus::SearchQuery
            &&& after.query is Some
            &&& s.query is Some ==> after.query == s.query
        }),
{
    reveal(sidebar_pressed);
}

/// A menu's command runs if it can and closes the menu either way; a recent
/// file is the one that is opened; a press beside an open menu only closes it.
pub proof fn a_press_on_the_menu_does_what_the_row_says(
    s: Shell,
    press: Press,
    m: Moment,
    command: &'static str,
    path: Seq<char>,
)
    requires
        press.menu is Some,
    ensures
        ({
            let hit = menu_hit(press.menu->0, s.at.menu, press.recent@);
            let step = menu_press(s, press, m);
            let runs = exists|i: int|
                0 <= i < m.registry.enabled@.len() && #[trigger] m.registry.enabled@[i]@
                    == command@;
            &&& hit == MenuHit::<Seq<char>>::Command(command) ==> {
                &&& step is Some
                &&& (step->0).0.at.menu.open is None
                &&& runs && command@ != "file.close_tab"@ ==> (step->0).1 == seq![
                    Action::<Seq<char>>::Execute(command, CommandArgs::Nothing),
                    Action::StateChanged,
                ]
                &&& !runs ==> (step->0).1 == seq![Action::<Seq<char>>::Redraw]
            }
            &&& hit == MenuHit::OpenRecent(path) ==> {
                &&& step is Some
                &&& (step->0).0.at.menu.open is None
                &&& (step->0).1 == seq![Action::OpenPath(path)]
            }
            &&& hit == MenuHit::<Seq<char>>::Elsewhere && s.at.menu.open is Some ==> {
                &&& step is Some
                &&& (step->0).0.at.menu.open is None
                &&& (step->0).1 == seq![Action::<Seq<char>>::Redraw]
            }
            &&& hit == MenuHit::<Seq<char>>::Elsewhere && s.at.menu.open is None ==> step is None
            &&& hit == MenuHit::<Seq<char>>::Swallowed ==> step is Some && (step->0).0 == s
                && (step->0).1.len() == 0
        }),
{
    reveal(menu_press);
    reveal(refreshed);
}

/// A press on a row of the palette runs that row, and one beside the palette
/// closes it and runs nothing.
pub proof fn a_palette_row_runs_itself(s: Shell, index: usize, m: Moment)
    ensures
        palette_press(s, Some(index), m) == selection_run(
            Shell { palette: Palette { selected: index, ..s.palette }, ..s },
            m.registry,
            m.shell.find_open,
        ),
        !palette_press(s, None, m).0.palette.open,
        palette_press(s, None, m).1 == seq![Action::<Seq<char>>::Redraw],
{
    reveal(palette_press);
    reveal(palette_closed);
    reveal(refreshed);
}

/// Presses within 400 milliseconds of each other in one place count up, to
/// three; any other press is the first of its own.
pub proof fn presses_in_one_place_count_up(last: Click, near: bool, now: Instant)
    requires
        1 <= last.count <= 3,
        last.at.nanos <= now.nanos,
    ensures
        near && now.nanos - last.at.nanos < 400_000_000 && last.count < 3 ==> click_count(
            Some(last),
            near,
            now,
        ) == last.count + 1,
        near && now.nanos - last.at.nanos < 400_000_000 && last.count == 3 ==> click_count(
            Some(last),
            near,
            now,
        ) == 3,
        !near || now.nanos - last.at.nanos >= 400_000_000 ==> click_count(Some(last), near, now)
            == 1,
        click_count(None, near, now) == 1,
{
}

/// A press is counted from the one before it and remembered with its own time.
pub proof fn a_press_is_remembered(s: Shell, near: bool, now: Instant)
    ensures
        clicked(s, near, now).at.timing.last_click is Some,
        clicked(s, near, now).at.timing.last_click->0.at == now,
        clicked(s, near, now).at.timing.last_click->0.count == click_count(
            s.at.timing.last_click,
            near,
            now,
        ),
        clicked(s, near, now).at.focus == s.at.focus,
        clicked(s, near, now).at.list == s.at.list,
        clicked(s, near, now).at.timing.caret == s.at.timing.caret,
{
}

/// One press on the text places the caret and starts a selection that follows
/// the pointer. The second selects the word around it, from its left end to
/// its right one, and the third its line, from its start to its end.
pub proof fn presses_on_the_text_select(s: Shell, count: u32, shift: bool, now: Instant)
    ensures
        ({
            let step = text_pressed(s, count, shift, now);
            &&& step.1.len() >= 1
            &&& step.1[0] == Action::<Seq<char>>::PlaceCaret(shift)
            &&& count == 1 ==> step.1.len() == 1 && step.0.at.drag.selection
            &&& count == 2 ==> {
                &&& step.1.len() == 4
                &&& step.1[1] == Action::<Seq<char>>::Attempt("cursor.word_left")
                &&& step.1[2] == Action::<Seq<char>>::Attempt("cursor.word_right.select")
                &&& step.1[3] == Action::<Seq<char>>::StateChanged
                &&& step.0.at.drag == s.at.drag
            }
            &&& count == 3 ==> {
                &&& step.1.len() == 4
                &&& step.1[1] == Action::<Seq<char>>::Attempt("cursor.line_start")
                &&& step.1[2] == Action::<Seq<char>>::Attempt("cursor.line_end.select")
                &&& step.1[3] == Action::<Seq<char>>::StateChanged
                &&& step.0.at.drag == s.at.drag
            }
            &&& step.0.at.timing.caret.visible
            &&& step.0.at.drag.scrollbar == s.at.drag.scrollbar
            &&& step.0.at.drag.sidebar == s.at.drag.sidebar
            &&& step.0.at.list == s.at.list
        }),
{
    reveal(text_pressed);
}

/// A press on a row of the sidebar's list selects that row and chooses it, with
/// the keyboard in the list. One on the title, or below the last row, only
/// takes the keyboard.
pub proof fn a_press_on_a_row_chooses_it(s: Shell, line: usize, m: Moment)
    requires
        s.at.list.active is Some,
        s.query is None,
        s.at.list.active != Some(ListKind::SearchResults),
    ensures
        ({
            let rows = shown_rows(s, m.lists);
            let step = sidebar_pressed(s, line, m);
            let on_row = line >= 1 && line - 1 < rows.len();
            &&& !on_row ==> {
                &&& step.0.at.list == s.at.list
                &&& step.0.at.focus == InputFocus::List
                &&& step.1 == seq![Action::<Seq<char>>::Redraw]
            }
            &&& on_row ==> {
                let chosen = rows[line - 1].action;
                &&& step.0.at.list.selected == line - 1
                &&& step.0.at.list.active == s.at.list.active
                &&& step.1.len() >= 2
                &&& step.1[0] == Action::<Seq<char>>::Redraw
                &&& forall|path: Seq<char>|
                    chosen == Some(crate::lists::ListAction::OpenFile(path)) ==> #[trigger]
                        step.1.contains(Action::OpenPath(path))
                &&& forall|id: u64|
                    chosen == Some(crate::lists::ListAction::<Seq<char>>::ActivateTab(id))
                        ==> #[trigger] step.1.contains(Action::ActivateTab(id))
            }
        }),
{
    reveal(sidebar_pressed);
    reveal(activation);
    reveal(refreshed);
    let rows = shown_rows(s, m.lists);
    let step = sidebar_pressed(s, line, m);
    if line >= 1 && line - 1 < rows.len() {
        let more = activation(
            selecting(list_focused(s), (line - 1) as usize),
            rows,
            m.shell.find_open,
        );
        assert(step.1 == redraw() + more.1);
        assert(step.1[1] == more.1[0]);
    }
}

/// What is drawn over the window is pressed first, and of the window itself
/// the grips before everything else. A grip, the scrollbar and the text each
/// start their own drag and no other.
pub proof fn a_press_starts_its_own_drag(s: Shell, press: Press, m: Moment, now: Instant)
    ensures
        ({
            let step = surface_press(s, press, m, now);
            let areas = press.areas;
            let plain = !areas.sidebar_grip && !areas.bottom_grip && areas.activity is None
                && !areas.text && !areas.bottom_rail && !areas.bottom_panel && !areas.gear
                && areas.tab is None;
            &&& areas.sidebar_grip ==> {
                &&& step.0.at.drag == (Drag { sidebar: true, ..s.at.drag })
                &&& step.1.len() == 0
            }
            &&& !areas.sidebar_grip && areas.bottom_grip ==> {
                &&& step.0.at.drag == (Drag { bottom_panel: true, ..s.at.drag })
                &&& step.1.len() == 0
            }
            &&& plain && areas.scrollbar ==> {
                &&& step.0.at.drag == (Drag { scrollbar: true, ..s.at.drag })
                &&& step.1 == seq![Action::<Seq<char>>::ScrollToPointer]
            }
        }),
{
    reveal(surface_press);
}

/// A press on a tab's cross closes that tab's document, one on its body
/// activates it, and one beside the tabs does nothing.
pub proof fn a_press_on_a_tab_is_for_its_document(
    s: Shell,
    press: Press,
    m: Moment,
    id: u64,
    now: Instant,
)
    requires
        ({
            let areas = press.areas;
            &&& !areas.sidebar_grip
            &&& !areas.bottom_grip
            &&& areas.activity is None
            &&& !areas.text
            &&& !areas.bottom_rail
            &&& !areas.bottom_panel
            &&& !areas.gear
        }),
    ensures
        press.areas.tab == Some(TabHit::Close(id)) ==> surface_press(s, press, m, now) == (
            s,
            seq![Action::<Seq<char>>::CloseDocument(id)],
        ),
        press.areas.tab == Some(TabHit::Body(id)) ==> surface_press(s, press, m, now) == (
            s,
            seq![Action::<Seq<char>>::ActivateTab(id)],
        ),
        press.areas.tab == Some(TabHit::Elsewhere) ==> surface_press(s, press, m, now) == (
            s,
            Seq::<Action<Seq<char>>>::empty(),
        ),
{
    reveal(surface_press);
}

/// A press in the middle of the window goes to what is shown there: to the
/// settings over the graph, to the graph over the text.
pub proof fn a_press_goes_to_what_is_shown(s: Shell, press: Press, m: Moment, now: Instant)
    requires
        press.areas.text,
        !press.areas.sidebar_grip,
        !press.areas.bottom_grip,
        press.areas.activity is None,
        !press.areas.bottom_rail,
        !press.areas.bottom_panel,
        !press.areas.gear,
        press.areas.tab is None,
        !press.areas.scrollbar,
        press.areas.sidebar is None,
    ensures
        ({
            let step = surface_press(s, press, m, now);
            &&& s.settings.open ==> step.0.at == s.at
            &&& !s.settings.open && s.at.graph.view ==> step.0.at.focus == s.at.focus
                && step.0.settings == s.settings && step.0.at.drag == s.at.drag
            &&& !s.settings.open && !s.at.graph.view ==> step.0.at.focus == InputFocus::Editor
                && step.0.at.graph == s.at.graph && step.1.len() >= 1 && step.1[0]
                == Action::<Seq<char>>::PlaceCaret(press.shift)
        }),
{
    reveal(surface_press);
    reveal(settings_pressed);
    reveal(text_pressed);
}

/// A press on a file of the graph is held until it is released, and so is the
/// first one on the empty canvas; the second there fits the graph to the
/// window.
pub proof fn a_second_press_on_the_canvas_fits_it(s: Shell, node: usize)
    ensures
        graph_pressed(s, Some(node)).0.at.graph.press == Some(Some(node)),
        graph_pressed(s, Some(node)).1.len() == 0,
        ({
            let repeated = s.at.timing.last_click is Some && s.at.timing.last_click->0.count >= 2;
            &&& repeated ==> graph_pressed(s, None).1 == seq![Action::<Seq<char>>::FitGraph]
            &&& repeated ==> graph_pressed(s, None).0.at.graph.press is None
            &&& !repeated ==> graph_pressed(s, None).1.len() == 0
            &&& !repeated ==> graph_pressed(s, None).0.at.graph.press == Some(None::<usize>)
        }),
        graph_pressed(s, Some(node)).0.at.graph.view == s.at.graph.view,
{
}

/// A press that stayed on a file of the graph opens that file and puts the
/// graph away. Any other release opens nothing and leaves the graph up.
pub proof fn a_pressed_file_is_opened(
    s: Shell,
    still: bool,
    target: Option<Seq<char>>,
    find_open: bool,
)
    ensures
        ({
            let step = release_step(s, still, target, find_open);
            let on_file = s.at.graph.press is Some && s.at.graph.press->0 is Some;
            let opens = on_file && still && target is Some;
            &&& opens ==> step.1 == seq![Action::OpenPath(target->0)]
            &&& opens ==> !step.0.at.graph.view && step.0.at.graph.hovered is None
            &&& !opens ==> step.1.len() == 0
            &&& !opens ==> step.0.at.graph.view == s.at.graph.view
            &&& !opens ==> step.0.at.graph.hovered == s.at.graph.hovered
            &&& !opens ==> step.0.at.focus == s.at.focus
            &&& step.0.at.graph.settled == s.at.graph.settled
            &&& step.0.at.list == s.at.list
        }),
{
    reveal(release_step);
    reveal(refreshed);
}

/// Moving the pointer with something held drags just that, and changes nothing
/// else; over the graph it pans while pressed.
pub proof fn moving_drags_what_is_held(s: Shell, motion: Motion, m: Moment, now: Instant)
    ensures
        s.at.graph.view && s.at.graph.press is Some ==> motion_step(s, motion, m, now) == (
            s,
            seq![Action::<Seq<char>>::DragGraph],
        ),
        ({
            let free = !s.at.graph.view && s.at.menu.open is None;
            let drag = s.at.drag;
            &&& free && drag.selection ==> motion_step(s, motion, m, now) == (
                s,
                seq![Action::<Seq<char>>::PlaceCaret(true)],
            )
            &&& free && !drag.selection && drag.scrollbar ==> motion_step(s, motion, m, now) == (
                s,
                seq![Action::<Seq<char>>::ScrollToPointer],
            )
            &&& free && !drag.selection && !drag.scrollbar && drag.sidebar ==> motion_step(
                s,
                motion,
                m,
                now,
            ) == (s, seq![Action::<Seq<char>>::ResizeSidebar])
            &&& free && !drag.selection && !drag.scrollbar && !drag.sidebar && drag.bottom_panel
                ==> motion_step(s, motion, m, now) == (
                s,
                seq![Action::<Seq<char>>::ResizeBottomPanel],
            )
        }),
{
    reveal(motion_step);
}

/// The file of the graph under the pointer is the one that is traced, and what
/// is told of it is its path, what it imports and what imports it. A frame is
/// drawn only when another file is pointed at.
pub proof fn the_file_under_the_pointer_is_traced(
    s: Shell,
    motion: Motion,
    m: Moment,
    now: Instant,
)
    requires
        s.at.graph.view,
        s.at.graph.press is None,
    ensures
        ({
            let step = motion_step(s, motion, m, now);
            &&& step.0.at.graph.hovered == motion.node
            &&& motion.node == s.at.graph.hovered ==> step.1.len() == 0 && step.0 == s
            &&& motion.node != s.at.graph.hovered ==> step.1
                == seq![Action::<Seq<char>>::Redraw]
            &&& motion.node != s.at.graph.hovered && motion.node is Some && motion.info is Some
                ==> {
                &&& step.0.message is Some
                &&& step.0.message->0.at == now
                &&& step.0.message->0.severity == Severity::Success
                &&& step.0.message->0.text == motion.info->0.path@ + "  -  imports "@ + decimal(
                    motion.info->0.imports as nat,
                ) + ", imported by "@ + decimal(motion.info->0.imported_by as nat)
                    + "  (click to open)"@
            }
            &&& motion.node is None ==> step.0.message == s.message
        }),
{
    reveal(motion_step);
    reveal(graph_hovered);
}

/// The row of an open dropdown under the pointer is the one highlighted, and a
/// frame is drawn only when that changes. The menu that is open stays open.
pub proof fn the_menu_row_under_the_pointer_is_highlighted(
    s: Shell,
    motion: Motion,
    m: Moment,
    now: Instant,
)
    requires
        !s.at.graph.view,
        s.at.menu.open is Some,
    ensures
        ({
            let step = motion_step(s, motion, m, now);
            &&& step.0.at.menu.hovered_item == motion.menu_row
            &&& step.0.at.menu.open == s.at.menu.open
            &&& motion.menu_row == s.at.menu.hovered_item ==> step.1.len() == 0
            &&& motion.menu_row != s.at.menu.hovered_item ==> step.1
                == seq![Action::<Seq<char>>::Redraw]
        }),
{
    reveal(motion_step);
}

/// The pointer has the shape of what it is over: a column's edge, a row's
/// edge, or nothing that is dragged. A row or an activity is highlighted where
/// the pointer is on it and on no grip, and what is drawn changes with it.
pub proof fn what_is_under_the_pointer_is_highlighted(s: Shell, motion: Motion, m: Moment)
    ensures
        ({
            let step = pointed(s, motion, m);
            let grip = motion.sidebar_grip || motion.bottom_grip;
            let rows = shown_rows(s, m.lists).len();
            let top: int = if s.query is Some || s.at.list.active == Some(
                ListKind::SearchResults,
            ) {
                3
            } else {
                1
            };
            let on_row = !grip && s.at.list.active is Some && motion.sidebar is Some && top
                <= motion.sidebar->0 < top + rows;
            let moved = step.0.at.hover.row != s.at.hover.row || step.0.palette.hovered
                != s.palette.hovered || step.0.at.hover.activity != s.at.hover.activity;
            let turned = motion.sidebar_grip != s.at.hover.sidebar_grip || motion.bottom_grip
                != s.at.hover.bottom_grip;
            &&& step.0.at.hover.sidebar_grip == motion.sidebar_grip
            &&& step.0.at.hover.bottom_grip == motion.bottom_grip
            &&& on_row ==> step.0.at.hover.row == motion.sidebar
            &&& !on_row ==> step.0.at.hover.row is None
            &&& grip ==> step.0.at.hover.activity is None
            &&& !grip ==> step.0.at.hover.activity == motion.activity
            &&& step.0.palette.hovered == motion.palette_row
            &&& step.0.palette.selected == s.palette.selected
            &&& turned && motion.sidebar_grip ==> step.1[0] == Action::<Seq<char>>::SetCursor(
                CursorShape::ColumnResize,
            )
            &&& turned && !motion.sidebar_grip && motion.bottom_grip ==> step.1[0]
                == Action::<Seq<char>>::SetCursor(CursorShape::RowResize)
            &&& turned && !grip ==> step.1[0] == Action::<Seq<char>>::SetCursor(
                CursorShape::Arrow,
            )
            &&& moved == step.1.contains(Action::<Seq<char>>::Redraw)
            &&& step.1.len() == (if turned {
                1int
            } else {
                0
            }) + (if moved {
                1int
            } else {
                0
            })
        }),
{
    reveal(pointed);
    let step = pointed(s, motion, m);
    if step.1.len() > 0 {
        assert(step.1.last() == step.1[step.1.len() - 1]);
    }
}

/// A turn of the wheel scrolls what the pointer is over: the panel it is over
/// whoever has the keyboard, and in the middle of the window the settings
/// before the graph and the graph before the text. Under something that owns
/// the keyboard the middle does not move.
pub proof fn the_wheel_scrolls_what_is_under_it(s: Shell, over: PointerOver)
    ensures
        wheel_action(s, None) == WheelAction::Ignore,
        over.sidebar ==> wheel_action(s, Some(over)) == WheelAction::ScrollSidebar,
        !over.sidebar && over.bottom_panel ==> wheel_action(s, Some(over))
            == WheelAction::ScrollTerminal,
        ({
            let middle = !over.sidebar && !over.bottom_panel && over.editor;
            let open = s.at.focus == InputFocus::Editor || s.at.focus == InputFocus::Find;
            &&& middle && open && s.settings.open ==> wheel_action(s, Some(over))
                == WheelAction::ScrollSettings
            &&& middle && open && !s.settings.open && s.at.graph.view ==> wheel_action(
                s,
                Some(over),
            ) == WheelAction::ZoomGraph
            &&& middle && open && !s.settings.open && !s.at.graph.view ==> wheel_action(
                s,
                Some(over),
            ) == WheelAction::ScrollEditor
            &&& middle && !open ==> wheel_action(s, Some(over)) == WheelAction::Ignore
        }),
        !over.sidebar && !over.bottom_panel && !over.editor ==> wheel_action(s, Some(over))
            == WheelAction::Ignore,
{
}

/// Whatever was pressed, what is drawn on top takes it: the palette before the
/// confirmation, the confirmation before the title bar, and only what none of
/// them takes is counted as a press on the window.
pub proof fn a_press_goes_to_what_is_on_top(s: Shell, press: Press, m: Moment, now: Instant)
    requires
        press.menu is None,
    ensures
        ({
            let step = press_step(s, press, m, now);
            &&& s.palette.open && press.palette_row is None ==> !step.0.palette.open
                && step.0.prompt == s.prompt && step.0.at.timing.last_click
                == s.at.timing.last_click
            &&& !s.palette.open && s.prompt is Some ==> step.1.len() == 0 && step.0.prompt
                == s.prompt && step.0.at.timing.last_click == s.at.timing.last_click
            &&& !s.palette.open && s.prompt is None && press.areas.title_search ==> {
                &&& step.0.palette.open
                &&& step.0.palette.query.len() == 0
                &&& step.0.at.timing.last_click == s.at.timing.last_click
            }
        }),
{
    reveal(press_step);
    reveal(menu_press);
    reveal(palette_press);
    reveal(palette_closed);
    reveal(palette_opened);
    reveal(refreshed);
}

} // verus!
