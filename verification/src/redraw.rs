//! One frame: what is due before it is drawn, everything it shows, and what is
//! left to do once it is on screen.
//!
//! The program lays the window out, asks for the frame, draws it, and says that
//! it has.  [`LightSpeed::begin_frame`], [`LightSpeed::frame`] and
//! [`LightSpeed::end_frame`] are those three moments.

use crate::clock::{span, Instant, NANOS_PER_MILLI};
use crate::clusters::{
    activity_rich, activity_runs, bottom_panel_rail_rich, breadcrumb_rich, center_runs,
    pair_runs, tab_actions_rich, tab_nav_rich, title_center_rich, title_left_rich,
    title_right_rich, trail_runs, Trail, ACTIVITY_COUNT,
};
use crate::compose::{Chrome, TabPlate};
use crate::depgraph::Mark;
use crate::devpanel::{
    panel_lines, status_summary, summary, wants_continuous_frames, LoadRecord, PanelFacts,
    PendingLoad,
};
use crate::frame::{EditorArea, SettingsMarks, Snapshot};
use crate::icons::Icon;
use crate::keys::shown_rows;
use crate::lifecycle::{placeholder, tabs_shown};
use crate::lists::{GitStatus, ListFacts, Tab};
use crate::lsp::{Diagnostic, DiagnosticSeverity};
use crate::menu::{entry_enabled, items_of, menu_entries, FILE_MENU_INDEX};
use crate::overlay::{build_overlay, overlay_rows, panel_rows, panels, OverlayFacts};
use crate::palette::{offered_rows, palette_rich, CommandDescriptor};
use crate::regions::{enablement, menu_enabled};
use crate::requests::shown_activity;
use crate::resources::{resource_lines, ResourceFacts};
use crate::rich::{icon, RichText, Role, Run};
use crate::shell::{Frames, LightSpeed, Shell, Surface, Timing};
use crate::sidebar::{
    selected_line, sidebar_rows, sidebar_runs, sidebar_selected_row, submitted_query, SearchPads,
};
use crate::status::{
    banner, banner_text, branch_runs, compute_title, count_over, count_runs, diagnostic_counts,
    document_state_label, live_status_severity, opt_view, right_runs, severity_role,
    severity_shown, state_label, status_color, status_left, status_right, tail_runs, title,
    DocumentPlace, DocumentState, FindFacts, TitleFacts,
};
use crate::terminal::sound;
use crate::text::{equal, least, texts};
use vstd::prelude::*;

verus! {

broadcast use vstd::std_specs::hash::group_hash_axioms;

/// How often the process is looked at while frames are drawn, in milliseconds:
/// doing so every frame would be measuring the measurement.
pub const SAMPLE_INTERVAL: u64 = 1000;

/// How much room the layout leaves.
#[derive(Copy, Clone, Debug, PartialEq, Eq)]
pub struct Room {
    /// How many titles the menu bar has.
    pub titles: usize,
    /// How many characters a sidebar label has.
    pub label_chars: usize,
    pub pads: SearchPads,
    /// How many lines of output the bottom panel shows.
    pub terminal_lines: usize,
}

/// What the engine says while a frame is made.
pub struct FrameFacts {
    pub title: TitleFacts<String>,
    pub tabs: Vec<Tab>,
    pub git: Option<GitStatus>,
    /// What each open document's language server has found.
    pub diagnostics: Vec<Vec<Diagnostic<String>>>,
    pub active: Option<u64>,
    /// The active document's load, while it is in flight.
    pub pending: Option<PendingLoad>,
    /// The loads that have finished.
    pub finished: Vec<LoadRecord>,
    pub state: Option<DocumentState>,
    pub place: Option<DocumentPlace>,
    pub trail: Trail,
    /// The workspace's name.
    pub workspace: Option<String>,
    pub find: Option<FindFacts>,
    pub lists: ListFacts,
    pub commands: Vec<CommandDescriptor>,
    /// The commands that can run now.
    pub enabled: Vec<String>,
    /// How many recent files there are.
    pub recent: usize,
    pub dev: PanelFacts,
    pub resources: ResourceFacts,
    pub overlay: OverlayFacts,
    /// Whether a folder is open, and whether a scan of it is under way.
    pub root_open: bool,
    pub scanning: bool,
    pub room: Room,
}

/// Everything a frame shows, apart from the editor area.
#[derive(Clone, Debug)]
pub struct Frame {
    /// The window's title, when it is another than before.
    pub title: Option<String>,
    pub tabs: Vec<Tab>,
    pub status_left: RichText,
    pub status_right: RichText,
    /// The confirmation strip, or the find bar.
    pub prompt: Option<String>,
    /// The floating diagnostics panel.
    pub panel: Option<Vec<String>>,
    pub sidebar: Option<RichText>,
    pub palette: Option<RichText>,
    pub palette_selected: Option<usize>,
    pub palette_hovered: Option<usize>,
    pub activity: RichText,
    pub activity_active: Option<usize>,
    pub activity_hovered: Option<usize>,
    pub bottom_panel: Option<Vec<String>>,
    pub bottom_panel_rail: RichText,
    pub title_left: RichText,
    pub title_center: RichText,
    pub title_right: RichText,
    pub breadcrumb: RichText,
    pub tab_nav: RichText,
    pub tab_actions: RichText,
    /// What stands in for a dependency graph that is not there yet, while the
    /// dependency view is up.
    pub dependency: Option<&'static str>,
    pub caret_visible: bool,
    pub chrome: Chrome,
}

// --- before it is drawn ------------------------------------------------------

/// What is to be done before a frame is laid out.
#[derive(Copy, Clone, Debug, PartialEq, Eq)]
pub struct Opening {
    /// Whether the view is to follow the caret.
    pub reveal: bool,
    /// Whether the process is to be looked at again.
    pub sample: bool,
}

/// Whether the process was last looked at long enough ago.
pub open spec fn sample_due(s: Shell, now: Instant) -> bool {
    span(s.at.frames.last_sample, now) >= SAMPLE_INTERVAL * NANOS_PER_MILLI
}

/// The shell once a frame has been begun.
pub open spec fn begun(s: Shell, now: Instant) -> Shell {
    Shell {
        at: Surface {
            follow: crate::shell::Follow { reveal: false, ..s.at.follow },
            frames: Frames {
                last_sample: if sample_due(s, now) {
                    now
                } else {
                    s.at.frames.last_sample
                },
                ..s.at.frames
            },
            ..s.at
        },
        ..s
    }
}

// --- what it shows -----------------------------------------------------------

/// Which rows of the open menu can be chosen: the items whose command can run,
/// then every recent file.
pub open spec fn rows_enabled(s: Shell, enabled: Seq<String>, recent: usize) -> Seq<bool> {
    match s.at.menu.open {
        Some(open) => {
            let items = menu_entries(open as int);
            enablement(
                Seq::new(items.len(), |i: int| entry_enabled(enabled, items[i])),
                if open == FILE_MENU_INDEX {
                    recent as nat
                } else {
                    0
                },
            )
        },
        None => Seq::empty(),
    }
}

/// The diagnostics panels that are switched on, as one.
pub open spec fn panels_shown(s: Shell, facts: FrameFacts) -> Seq<Seq<char>> {
    panels(
        (s.at.panels.dev, panel_lines(facts.dev)),
        (s.at.panels.resources, resource_lines(facts.resources)),
        (s.at.panels.overlay, overlay_rows(facts.overlay)),
    )
}

/// The plates of the tabs that are shown.
pub open spec fn plates(tabs: Seq<Tab>) -> Seq<TabPlate> {
    Seq::new(
        tabs.len(),
        |i: int| TabPlate { active: tabs[i].active, dirty: tabs[i].dirty },
    )
}

/// Whether `rows` holds these lines, or is missing because there are none.
pub open spec fn holds_lines(rows: Option<Vec<String>>, lines: Seq<Seq<char>>) -> bool {
    match rows {
        Some(rows) => lines.len() > 0 && texts(rows@) == lines,
        None => lines.len() == 0,
    }
}

/// Whether `text` holds these runs, or is missing because there are none.
pub open spec fn holds_runs(text: Option<RichText>, runs: Seq<Run<Seq<char>>>) -> bool {
    match text {
        Some(text) => runs.len() > 0 && text@ == runs,
        None => runs.len() == 0,
    }
}

/// The status bar's left side.
pub open spec fn status_runs(s: Shell, facts: FrameFacts, now: Instant) -> Seq<Run<Seq<char>>> {
    branch_runs(facts.git) + count_runs(
        least(
            count_over(facts.diagnostics@, DiagnosticSeverity::Error),
            usize::MAX as int,
        ) as usize,
        least(
            count_over(facts.diagnostics@, DiagnosticSeverity::Warning),
            usize::MAX as int,
        ) as usize,
    ) + tail_runs(
        s.message,
        now,
        summary(facts.active, facts.pending, facts.finished@),
        state_label(facts.state),
    )
}

/// Whether a frame shows the palette as it is.
pub open spec fn shows_palette(frame: Frame, s: Shell, facts: FrameFacts) -> bool {
    let rows = offered_rows(facts.commands@, s.palette.query, facts.enabled@);
    &&& frame.palette is Some <==> s.palette.open
    &&& frame.palette matches Some(text) ==> text@ == palette_rich(s.palette.query, rows)
    &&& frame.palette_selected == (if s.palette.open && rows.len() > 0 {
        Some(s.palette.selected)
    } else {
        None
    })
    &&& frame.palette_hovered == s.palette.hovered
}

/// Whether a frame shows the clusters of icons around the editor.
pub open spec fn shows_clusters(frame: Frame, s: Shell, facts: FrameFacts) -> bool {
    &&& frame.activity_active == shown_activity(s)
    &&& frame.activity@ == activity_runs(shown_activity(s), ACTIVITY_COUNT as int)
    &&& frame.activity_hovered == s.at.hover.activity
    &&& frame.bottom_panel_rail@ == (if s.terminal.visible {
        seq![icon(Icon::Terminal, Role::ActivityIconActive)]
    } else {
        Seq::empty()
    })
    &&& frame.title_left@ == seq![icon(Icon::Menu, Role::ActivityIconActive)]
    &&& frame.title_center@ == center_runs(facts.workspace)
    &&& frame.title_right@ == pair_runs(Icon::Play, Icon::SettingsGear, Role::ActivityIconActive)
    &&& frame.breadcrumb@ == trail_runs(facts.trail)
    &&& frame.tab_nav@ == pair_runs(
        Icon::ArrowLeft,
        Icon::ArrowRight,
        Role::ActivityIconInactive,
    )
    &&& frame.tab_actions@ == pair_runs(
        Icon::SplitHorizontal,
        Icon::Close,
        Role::ActivityIconInactive,
    )
}

/// Whether a chrome is the one of this frame.
pub open spec fn chrome_is(c: Chrome, s: Shell, facts: FrameFacts, now: Instant) -> bool {
    &&& c.show_status_bar == s.at.panels.status_bar
    &&& c.tabs@ == plates(tabs_shown(facts.tabs@, s.loading, now))
    &&& c.menu == s.at.menu
    &&& c.titles == facts.room.titles
    &&& c.dropdown == s.at.menu.open is Some
    &&& c.menu_enabled@ == rows_enabled(s, facts.enabled@, facts.recent)
    &&& c.rows == c.menu_enabled@.len()
    &&& c.status_color == severity_role(severity_shown(s.message, now))
    &&& c.prompt == banner(s.prompt, facts.find) is Some
    &&& c.overlay_panel == (panels_shown(s, facts).len() > 0)
    &&& c.sidebar_panel == (s.at.list.active is Some || s.query is Some)
    &&& c.sidebar_selected_row == selected_line(
        s.at.list.active,
        s.query is Some,
        s.at.list.selected,
    )
    &&& c.sidebar_hovered_row == s.at.hover.row
}

/// Whether a frame shows the shell as it stands.
pub open spec fn shows(frame: Frame, s: Shell, facts: FrameFacts, now: Instant) -> bool {
    &&& opt_view(frame.title) == (if title(facts.title) == s.title {
        None
    } else {
        Some(title(facts.title))
    })
    &&& frame.tabs@ == tabs_shown(facts.tabs@, s.loading, now)
    &&& frame.status_left@ == status_runs(s, facts, now)
    &&& frame.status_right@ == right_runs(facts.place)
    &&& opt_view(frame.prompt) == banner(s.prompt, facts.find)
    &&& holds_lines(frame.panel, panels_shown(s, facts))
    &&& holds_runs(
        frame.sidebar,
        sidebar_runs(
            s.at.list.active,
            s.query,
            submitted_query(facts.lists),
            shown_rows(s, facts.lists),
            facts.room.label_chars,
            facts.room.pads,
        ),
    )
    &&& shows_palette(frame, s, facts)
    &&& shows_clusters(frame, s, facts)
    &&& frame.bottom_panel is Some <==> s.terminal.visible
    &&& frame.bottom_panel matches Some(rows) ==> texts(rows@) == crate::terminal::panel_rows(
        s.terminal,
        facts.room.terminal_lines as int,
    )
    &&& frame.dependency is Some <==> s.at.graph.view
    &&& frame.dependency matches Some(text) ==> text@ == placeholder(
        s,
        facts.root_open,
        facts.scanning,
    )
    &&& frame.caret_visible == s.at.timing.caret.visible
    &&& chrome_is(frame.chrome, s, facts, now)
}

/// Whether the resource center can add its records up.
pub open spec fn can_add_up(facts: ResourceFacts) -> bool {
    forall|i: int|
        0 <= i < facts.records.len() ==> (#[trigger] facts.records@[i]).bytes_read
            + facts.records@[i].bytes_written <= u64::MAX
}

// --- once it is on screen ----------------------------------------------------

/// What is to be done once a frame is on screen.
#[derive(Copy, Clone, Debug, PartialEq, Eq)]
pub struct Closing {
    /// When the input that the frame answers arrived.
    pub answered: Option<Instant>,
    /// Whether this was the first frame, to be reported.
    pub first: bool,
    /// Whether another frame is due at once: live numbers keep the loop
    /// turning.
    pub again: bool,
}

/// The shell once a frame is on screen.
pub open spec fn ended(s: Shell) -> Shell {
    Shell {
        at: Surface {
            timing: Timing { pending_input: None, ..s.at.timing },
            frames: Frames { reported: true, ..s.at.frames },
            ..s.at
        },
        ..s
    }
}

/// What stands in the editor area: the settings screen covers the dependency
/// view, which covers the document.
pub open spec fn area_of(
    s: Shell,
    snapshot: Option<Snapshot>,
    graph: Vec<Mark>,
    settings: SettingsMarks,
) -> EditorArea {
    if s.settings.open {
        EditorArea::Settings(settings)
    } else if s.at.graph.view {
        EditorArea::Graph(graph)
    } else {
        EditorArea::Document(snapshot)
    }
}

/// The rows, unless there are none.
fn unless_empty(rows: Vec<String>) -> (r: Option<Vec<String>>)
    ensures
        holds_lines(r, texts(rows@)),
{
    if rows.len() > 0 {
        Some(rows)
    } else {
        None
    }
}

fn plates_of(tabs: &Vec<Tab>) -> (r: Vec<TabPlate>)
    ensures
        r@ == plates(tabs@),
{
    let mut out: Vec<TabPlate> = Vec::new();
    for i in 0..tabs.len()
        invariant
            out@ == plates(tabs@).take(i as int),
    {
        out.push(TabPlate { active: tabs[i].active, dirty: tabs[i].dirty });
        assert(out@ =~= plates(tabs@).take(i + 1));
    }
    assert(plates(tabs@).take(tabs.len() as int) =~= plates(tabs@));
    out
}

impl LightSpeed {
    /// Begins a frame.
    pub fn begin_frame(&mut self, now: Instant) -> (r: Opening)
        ensures
            final(self)@ == begun(old(self)@, now),
            r.reveal == old(self)@.at.follow.reveal,
            r.sample == sample_due(old(self)@, now),
    {
        let sample = now.since(self.at.frames.last_sample).nanos >= SAMPLE_INTERVAL
            * NANOS_PER_MILLI;
        let reveal_now = self.take_reveal();
        if sample {
            self.at = Surface { frames: Frames { last_sample: now, ..self.at.frames }, ..self.at };
        }
        Opening { reveal: reveal_now, sample }
    }

    fn rows_of_menu(&self, enabled: &Vec<String>, recent: usize) -> (r: Vec<bool>)
        ensures
            r@ == rows_enabled(self@, enabled@, recent),
    {
        match self.at.menu.open {
            Some(open) => {
                let items = items_of(open);
                let offered: usize = if open == FILE_MENU_INDEX { recent } else { 0 };
                let rows = menu_enabled(&items, offered, enabled);
                assert(rows@ =~= rows_enabled(self@, enabled@, recent));
                rows
            },
            None => Vec::new(),
        }
    }

    fn diagnostics_panel(&self, facts: &FrameFacts) -> (r: Option<Vec<String>>)
        requires
            self@.at.panels.resources ==> can_add_up(facts.resources),
        ensures
            holds_lines(r, panels_shown(self@, *facts)),
    {
        let shown = self.at.panels;
        let none: Vec<String> = Vec::new();
        let dev = if shown.dev { crate::devpanel::lines(&facts.dev) } else { Vec::new() };
        let resources = if shown.resources {
            crate::resources::lines(&facts.resources)
        } else {
            Vec::new()
        };
        let overlay = if shown.overlay { build_overlay(&facts.overlay) } else { none };
        unless_empty(
            panel_rows(shown.dev, &dev, shown.resources, &resources, shown.overlay, &overlay),
        )
    }

    fn chrome_now(
        &self,
        facts: &FrameFacts,
        tabs: &Vec<Tab>,
        prompt: bool,
        overlay_panel: bool,
        now: Instant,
    ) -> (r: Chrome)
        requires
            tabs@ == tabs_shown(facts.tabs@, self@.loading, now),
            prompt == banner(self@.prompt, facts.find) is Some,
            overlay_panel == (panels_shown(self@, *facts).len() > 0),
        ensures
            chrome_is(r, self@, *facts, now),
    {
        let typing = self.query.is_some();
        let list = self.at.list;
        let enabled = self.rows_of_menu(&facts.enabled, facts.recent);
        Chrome {
            show_status_bar: self.at.panels.status_bar,
            tabs: plates_of(tabs),
            menu: self.at.menu,
            titles: facts.room.titles,
            dropdown: self.at.menu.open.is_some(),
            rows: enabled.len(),
            menu_enabled: enabled,
            status_color: status_color(live_status_severity(&self.message, now)),
            prompt,
            overlay_panel,
            sidebar_panel: self.sidebar_visible(),
            sidebar_selected_row: sidebar_selected_row(list.active, typing, list.selected),
            sidebar_hovered_row: self.at.hover.row,
        }
    }

    /// Everything the frame shows, apart from the editor area. The window's
    /// title is part of it only when it is another than the last frame's.
    #[verifier::rlimit(50)]
    #[verifier::spinoff_prover]
    pub fn frame(&mut self, facts: &FrameFacts, now: Instant) -> (r: Frame)
        requires
            sound(old(self)@.terminal),
            old(self)@.at.panels.resources ==> can_add_up(facts.resources),
        ensures
            shows(r, old(self)@, *facts, now),
            final(self)@ == (Shell { title: title(facts.title), ..old(self)@ }),
    {
        let tabs = self.visible_tabs(&facts.tabs, now);
        let summary = status_summary(facts.active, &facts.pending, &facts.finished);
        let left = status_left(
            &facts.git,
            diagnostic_counts(&facts.diagnostics),
            &self.message,
            now,
            &summary,
            document_state_label(facts.state),
        );
        let prompt = banner_text(&self.prompt, &facts.find);
        let panel = self.diagnostics_panel(facts);
        let rows = self.list_rows(&facts.lists);
        let side = sidebar_rows(
            self.at.list.active,
            &self.query,
            &facts.lists,
            &rows,
            facts.room.label_chars,
            facts.room.pads,
        );
        let sidebar = if side.is_empty() { None } else { Some(side) };
        let offered = self.palette.rows(&facts.commands, &facts.enabled);
        let palette = if self.palette.open { Some(self.palette.rich(&offered)) } else { None };
        let bottom_panel = if self.bottom_panel_visible() {
            Some(self.terminal.rows(facts.room.terminal_lines))
        } else {
            None
        };
        let dependency = if self.at.graph.view {
            Some(self.dependency_placeholder(facts.root_open, facts.scanning))
        } else {
            None
        };
        let chrome = self.chrome_now(facts, &tabs, prompt.is_some(), panel.is_some(), now);
        let active = self.activity_active_index();
        let name = compute_title(&facts.title);
        let renamed = !equal(name.as_str(), self.title.as_str());
        let frame = Frame {
            title: if renamed { Some(name.clone()) } else { None },
            tabs,
            status_left: left,
            status_right: status_right(&facts.place),
            prompt,
            panel,
            sidebar,
            palette_selected: self.palette_selected(offered.len()),
            palette,
            palette_hovered: self.palette.hovered,
            activity: activity_rich(active),
            activity_active: active,
            activity_hovered: self.at.hover.activity,
            bottom_panel,
            bottom_panel_rail: bottom_panel_rail_rich(self.bottom_panel_visible()),
            title_left: title_left_rich(),
            title_center: title_center_rich(&facts.workspace),
            title_right: title_right_rich(),
            breadcrumb: breadcrumb_rich(&facts.trail),
            tab_nav: tab_nav_rich(),
            tab_actions: tab_actions_rich(),
            dependency,
            caret_visible: self.at.timing.caret.visible,
            chrome,
        };
        self.title = name;
        frame
    }

    /// What stands in the editor area: `graph` is what is drawn of the
    /// dependency graph, which is nothing while there is none.
    pub fn editor_area(
        &self,
        snapshot: Option<Snapshot>,
        graph: Vec<Mark>,
        settings: SettingsMarks,
    ) -> (r: EditorArea)
        ensures
            r == area_of(self@, snapshot, graph, settings),
    {
        if self.settings.open {
            EditorArea::Settings(settings)
        } else if self.at.graph.view {
            EditorArea::Graph(graph)
        } else {
            EditorArea::Document(snapshot)
        }
    }

    /// Ends a frame that is on screen, with this many loads in flight.
    pub fn end_frame(&mut self, loading: u64) -> (r: Closing)
        ensures
            final(self)@ == ended(old(self)@),
            r.answered == old(self)@.at.timing.pending_input,
            r.first == !old(self)@.at.frames.reported,
            r.again == (old(self)@.at.panels.overlay || old(self)@.at.panels.dev || loading > 0),
    {
        let answered = self.frame_drawn();
        let first = !self.at.frames.reported;
        self.at = Surface { frames: Frames { reported: true, ..self.at.frames }, ..self.at };
        let shown = self.at.panels;
        Closing {
            answered,
            first,
            again: shown.overlay || wants_continuous_frames(loading, shown.dev),
        }
    }
}

// --- the surface a frame is drawn on -----------------------------------------

/// What asking for something to draw on came back with.
#[derive(Copy, Clone, Debug, PartialEq, Eq, Structural)]
pub enum SurfaceState {
    Success,
    Timeout,
    Occluded,
    Outdated,
    Suboptimal,
    Lost,
    Validation,
}

/// What then becomes of the frame.
#[derive(Copy, Clone, Debug, PartialEq, Eq, Structural)]
pub enum Acquire {
    /// It is drawn.
    Draw,
    /// It is skipped: there is nobody to see it.
    Skip,
    /// The surface is configured again, and another frame asked for.
    Reconfigure,
    /// The surface is made anew and configured, and another frame asked for.
    Recreate,
    /// It fails.
    Fail,
}

/// What becomes of a frame, from the state of the surface.
pub open spec fn acquired(state: SurfaceState) -> Acquire {
    match state {
        SurfaceState::Success => Acquire::Draw,
        SurfaceState::Timeout | SurfaceState::Occluded => Acquire::Skip,
        SurfaceState::Outdated | SurfaceState::Suboptimal => Acquire::Reconfigure,
        SurfaceState::Lost => Acquire::Recreate,
        SurfaceState::Validation => Acquire::Fail,
    }
}

/// What becomes of a frame, recovering from the states that can be recovered
/// from.
pub fn acquire(state: SurfaceState) -> (r: Acquire)
    ensures
        r == acquired(state),
{
    match state {
        SurfaceState::Success => Acquire::Draw,
        SurfaceState::Timeout | SurfaceState::Occluded => Acquire::Skip,
        SurfaceState::Outdated | SurfaceState::Suboptimal => Acquire::Reconfigure,
        SurfaceState::Lost => Acquire::Recreate,
        SurfaceState::Validation => Acquire::Fail,
    }
}

// --- laws --------------------------------------------------------------------

/// The process is looked at no more than once a second, however many frames
/// are drawn.
pub proof fn the_process_is_sampled_once_a_second(s: Shell, first: Instant, second: Instant)
    requires
        sample_due(s, first),
        second.nanos < first.nanos + SAMPLE_INTERVAL * NANOS_PER_MILLI,
    ensures
        !sample_due(begun(s, first), second),
        begun(begun(s, first), second).at.frames == begun(s, first).at.frames,
{
}

/// The view follows the caret once for each time it was asked to: a second
/// frame leaves it where the user has scrolled it.
pub proof fn the_view_follows_once(s: Shell, first: Instant)
    ensures
        !begun(s, first).at.follow.reveal,
        begun(s, first).at.follow.last_active == s.at.follow.last_active,
{
}

/// A title is handed to the window once: the next frame with the same title
/// leaves it alone.
pub proof fn a_title_is_set_once(frame: Frame, s: Shell, facts: FrameFacts, now: Instant)
    requires
        shows(frame, Shell { title: title(facts.title), ..s }, facts, now),
    ensures
        frame.title is None,
{
}

/// A surface that is hidden is no part of the frame.
pub proof fn hidden_surfaces_are_not_shown(frame: Frame, s: Shell, facts: FrameFacts, now: Instant)
    requires
        shows(frame, s, facts, now),
    ensures
        !s.palette.open ==> frame.palette is None && frame.palette_selected is None,
        !s.terminal.visible ==> frame.bottom_panel is None && frame.bottom_panel_rail@.len() == 0,
        !s.at.graph.view ==> frame.dependency is None,
        s.at.menu.open is None ==> frame.chrome.menu_enabled@.len() == 0 && !frame.chrome.dropdown,
        s.at.list.active is None && s.query is None ==> frame.sidebar is None,
        !s.at.panels.dev && !s.at.panels.resources && !s.at.panels.overlay ==> frame.panel is None,
{
}

/// Beginning a frame looks at the process after a second and not before, and
/// changes nothing else but that the view has followed.
pub proof fn a_second_makes_a_look_due(s: Shell, now: Instant)
    ensures
        sample_due(s, now) == (now.nanos - s.at.frames.last_sample.nanos >= 1_000_000_000),
        sample_due(s, now) ==> begun(s, now).at.frames.last_sample == now,
        !sample_due(s, now) ==> begun(s, now).at.frames.last_sample == s.at.frames.last_sample,
        begun(s, now).at.frames.reported == s.at.frames.reported,
        begun(s, now).at.timing == s.at.timing,
        begun(s, now).at.focus == s.at.focus,
        begun(s, now).at.list == s.at.list,
        begun(s, now).message == s.message,
        begun(s, now).terminal == s.terminal,
{
}

/// Once a frame is on screen no input waits for one, the first frame has been
/// reported, and nothing that is shown has changed.
pub proof fn a_drawn_frame_answers_the_input(s: Shell)
    ensures
        ended(s).at.timing.pending_input is None,
        ended(s).at.frames.reported,
        ended(s).at.timing.caret == s.at.timing.caret,
        ended(s).at.timing.last_click == s.at.timing.last_click,
        ended(s).at.timing.next_watch == s.at.timing.next_watch,
        ended(s).at.frames.last_sample == s.at.frames.last_sample,
        ended(s).at.list == s.at.list,
        ended(s).at.focus == s.at.focus,
        ended(s).message == s.message,
{
}

/// The settings cover the graph, and the graph covers the document.
pub proof fn the_settings_cover_the_graph(
    s: Shell,
    snapshot: Option<Snapshot>,
    graph: Vec<Mark>,
    settings: SettingsMarks,
)
    ensures
        s.settings.open ==> area_of(s, snapshot, graph, settings) == EditorArea::Settings(settings),
        !s.settings.open && s.at.graph.view ==> area_of(s, snapshot, graph, settings)
            == EditorArea::Graph(graph),
        !s.settings.open && !s.at.graph.view ==> area_of(s, snapshot, graph, settings)
            == EditorArea::Document(snapshot),
{
}

/// What there is nobody to see is skipped, what can be mended is mended, and
/// only what can be drawn on is drawn on.
pub proof fn a_surface_is_recovered_where_it_can_be(state: SurfaceState)
    ensures
        acquired(state) == Acquire::Draw <==> state == SurfaceState::Success,
        acquired(state) == Acquire::Skip <==> state == SurfaceState::Timeout || state
            == SurfaceState::Occluded,
        acquired(state) == Acquire::Reconfigure <==> state == SurfaceState::Outdated || state
            == SurfaceState::Suboptimal,
        acquired(state) == Acquire::Recreate <==> state == SurfaceState::Lost,
        acquired(state) == Acquire::Fail <==> state == SurfaceState::Validation,
{
}

/// Every tab that is drawn has its plate, which tells whether the tab is the
/// active one and whether its document has unsaved edits.
pub proof fn every_tab_tells_its_state(frame: Frame, s: Shell, facts: FrameFacts, now: Instant)
    requires
        shows(frame, s, facts, now),
    ensures
        frame.chrome.tabs@.len() == frame.tabs@.len(),
        forall|i: int|
            0 <= i < frame.tabs@.len() ==> (#[trigger] frame.chrome.tabs@[i]).active
                == frame.tabs@[i].active && frame.chrome.tabs@[i].dirty == frame.tabs@[i].dirty,
{
}

/// A row of the open menu can be chosen if and only if its command can run;
/// below the items of the first menu, every recent file can.
pub proof fn a_row_can_be_chosen_if_it_runs(
    frame: Frame,
    s: Shell,
    facts: FrameFacts,
    now: Instant,
    at: int,
)
    requires
        shows(frame, s, facts, now),
        s.at.menu.open is Some,
    ensures
        ({
            let items = menu_entries(s.at.menu.open->0 as int);
            let rows = frame.chrome.menu_enabled@;
            &&& s.at.menu.open->0 == 0 ==> rows.len() == items.len() + facts.recent
            &&& s.at.menu.open->0 != 0 ==> rows.len() == items.len()
            &&& 0 <= at < items.len() ==> rows[at] == entry_enabled(facts.enabled@, items[at])
            &&& items.len() <= at < rows.len() ==> rows[at]
        }),
{
}

/// What the frame shows of the shell is what the shell has: its tabs and its
/// caret, the rows it has lit, the panels that are on.
pub proof fn a_frame_shows_what_the_shell_has(
    frame: Frame,
    s: Shell,
    facts: FrameFacts,
    now: Instant,
)
    requires
        shows(frame, s, facts, now),
    ensures
        s.palette.open ==> frame.palette is Some,
        s.terminal.visible ==> frame.bottom_panel is Some && frame.bottom_panel_rail@.len() == 1,
        s.at.graph.view ==> frame.dependency is Some,
        frame.caret_visible == s.at.timing.caret.visible,
        frame.palette_hovered == s.palette.hovered,
        frame.activity_hovered == s.at.hover.activity,
        frame.chrome.sidebar_hovered_row == s.at.hover.row,
        frame.chrome.show_status_bar == s.at.panels.status_bar,
        frame.chrome.dropdown == (s.at.menu.open is Some),
        frame.chrome.menu == s.at.menu,
        frame.chrome.sidebar_panel == (s.at.list.active is Some || s.query is Some),
        frame.chrome.prompt == (frame.prompt is Some),
        frame.chrome.overlay_panel == (frame.panel is Some),
        s.prompt is Some ==> frame.prompt is Some,
        s.at.graph.view ==> frame.activity_active == Some(5usize),
        !s.at.graph.view && s.query is Some ==> frame.activity_active == Some(1usize),
        !s.at.graph.view && s.query is None && s.at.list.active == Some(
            crate::lists::ListKind::FileTree,
        ) ==> frame.activity_active == Some(0usize),
        !s.at.graph.view && s.query is None && s.at.list.active == Some(
            crate::lists::ListKind::GitStatus,
        ) ==> frame.activity_active == Some(2usize),
        !s.at.graph.view && s.query is None && s.at.list.active is None
            ==> frame.activity_active is None,
{
}

/// The status bar counts the errors before the warnings, over all the open
/// documents, behind the branch.
pub proof fn the_status_bar_counts_the_problems(
    frame: Frame,
    s: Shell,
    facts: FrameFacts,
    now: Instant,
)
    requires
        shows(frame, s, facts, now),
        count_over(facts.diagnostics@, DiagnosticSeverity::Error) <= usize::MAX,
        count_over(facts.diagnostics@, DiagnosticSeverity::Warning) <= usize::MAX,
    ensures
        ({
            let runs = frame.status_left@;
            let b = branch_runs(facts.git).len() as int;
            let errors = count_over(facts.diagnostics@, DiagnosticSeverity::Error);
            let warnings = count_over(facts.diagnostics@, DiagnosticSeverity::Warning);
            &&& runs.len() >= b + 4
            &&& runs.take(b) == branch_runs(facts.git)
            &&& runs[b + 1].text == " "@ + crate::text::decimal(errors as nat) + "  "@
            &&& runs[b + 3].text == " "@ + crate::text::decimal(warnings as nat)
            &&& runs.skip(b + 4) == tail_runs(
                s.message,
                now,
                summary(facts.active, facts.pending, facts.finished@),
                state_label(facts.state),
            )
        }),
{
    let runs = frame.status_left@;
    let b = branch_runs(facts.git).len() as int;
    crate::status::counts_are_not_negative(facts.diagnostics@, DiagnosticSeverity::Error);
    crate::status::counts_are_not_negative(facts.diagnostics@, DiagnosticSeverity::Warning);
    assert(runs.take(b) =~= branch_runs(facts.git));
    assert(runs.skip(b + 4) =~= tail_runs(
        s.message,
        now,
        summary(facts.active, facts.pending, facts.finished@),
        state_label(facts.state),
    ));
}

} // verus!
