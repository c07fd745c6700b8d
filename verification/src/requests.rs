//! What commands ask of the shell: panels shown and hidden, dialogs opened,
//! the graph scanned, the program ended.

use crate::clock::Instant;
use crate::clusters::{
    activity_active_index, activity_shown, ACTIVITY_DEPENDENCIES, ACTIVITY_EXPLORER,
    ACTIVITY_SEARCH, ACTIVITY_SOURCE_CONTROL,
};
use crate::focus::InputFocus;
use crate::lists::ListKind;
use crate::shell::{
    action_views, copied, list_focused, no_action, one_action, redraw, refreshed, said,
    settings_toggled, terminal_focused, two_actions, Action, Exit, GraphPane, Injection, LightSpeed,
    ListPanel, Panels, Shell, Surface,
};
use crate::status::{opt_view, quit_message, quit_text, storm_message, Severity};
use crate::terminal::{Panel, ShellState};
use crate::text::{decimal, decimal_of, owned};
use vstd::prelude::*;

verus! {

/// Something a command asks the shell for.
#[derive(Copy, Clone, Debug, PartialEq, Eq, Structural)]
pub enum ShellRequest {
    OpenFileDialog,
    SaveAsDialog,
    TogglePerformanceOverlay,
    ToggleDevPanel,
    ToggleResourceCenter,
    ToggleFileTree,
    OpenFolderDialog,
    WorkspaceSearch,
    ToggleGitStatus,
    ToggleSettings,
    RefreshDependencyView,
    ToggleDependencyView,
    ToggleTerminal,
    ToggleStatusBar,
    DiagnosticsDuplicateStorm,
    DiagnosticsSlowLoad,
    DiagnosticsFailingLoad,
    Quit,
}

/// What the engine and the window say while a request is handled.
#[derive(Clone, Debug)]
pub struct ShellFacts {
    /// Whether the find bar is open.
    pub find_open: bool,
    /// The workspace root, once a folder is open.
    pub root: Option<String>,
    /// The directory of the active document's file.
    pub parent: Option<String>,
    /// How many open documents have unsaved edits.
    pub dirty: usize,
    /// What became of the terminal's shell.
    pub shell: ShellState,
}

/// A state and what to do next.
pub type Step = (Shell, Seq<Action<Seq<char>>>);

/// Where a folder view starts: the workspace, else where the document lies.
pub open spec fn start_of(facts: ShellFacts) -> Option<Seq<char>> {
    if facts.root is Some {
        opt_view(facts.root)
    } else {
        opt_view(facts.parent)
    }
}

/// The sidebar closed.
pub open spec fn list_closed(s: Shell, find_open: bool) -> Shell {
    refreshed(
        Shell { at: Surface { list: ListPanel { active: None, ..s.at.list }, ..s.at }, ..s },
        find_open,
    )
}

/// A list shown from its top, with the keyboard in it.
pub open spec fn list_shown(s: Shell, kind: ListKind) -> Shell {
    list_focused(
        Shell {
            at: Surface {
                list: ListPanel { active: Some(kind), selected: 0, ..s.at.list },
                ..s.at
            },
            ..s
        },
    )
}

/// The explorer opened or closed. Without a folder to start in, it says so.
#[verifier::opaque]
pub open spec fn tree_toggled(s: Shell, facts: ShellFacts, now: Instant) -> Step {
    if s.at.list.active == Some(ListKind::FileTree) {
        (list_closed(s, facts.find_open), redraw())
    } else if start_of(facts) is Some {
        (
            list_shown(Shell { tree_root: start_of(facts), ..s }, ListKind::FileTree),
            redraw(),
        )
    } else {
        (
            said(s, "Open a file first, or use File > Open Folder"@, Severity::Warning, now),
            Seq::empty(),
        )
    }
}

/// A folder asked for, unless it already is.
#[verifier::opaque]
pub open spec fn folder_asked(s: Shell, facts: ShellFacts, now: Instant) -> Step {
    if s.at.folder_picker_open {
        (s, Seq::empty())
    } else {
        (
            said(
                Shell { at: Surface { folder_picker_open: true, ..s.at }, ..s },
                "Opening the folder picker..."@,
                Severity::Success,
                now,
            ),
            seq![Action::PickFolder(start_of(facts))],
        )
    }
}

/// What the folder picker came back with.
#[derive(Clone, Debug, PartialEq, Eq)]
pub enum Picked<T> {
    Folder(T),
    Cancelled,
    Failed(T),
}

/// An answer with its text as characters.
pub open spec fn picked_view(picked: Picked<String>) -> Picked<Seq<char>> {
    match picked {
        Picked::Folder(dir) => Picked::Folder(dir@),
        Picked::Cancelled => Picked::Cancelled,
        Picked::Failed(error) => Picked::Failed(error@),
    }
}

/// The picker closed, with its answer.
#[verifier::opaque]
pub open spec fn folder_answered(s: Shell, picked: Picked<Seq<char>>, now: Instant) -> Step {
    let closed = Shell { at: Surface { folder_picker_open: false, ..s.at }, message: None, ..s };
    match picked {
        Picked::Folder(dir) => (closed, seq![Action::OpenWorkspace(dir), Action::Redraw]),
        Picked::Cancelled => (closed, redraw()),
        Picked::Failed(error) => (said(closed, error, Severity::Error, now), redraw()),
    }
}

/// A folder opened as the workspace and shown in the explorer, or not.
#[verifier::opaque]
pub open spec fn workspace_answered(
    s: Shell,
    dir: Seq<char>,
    error: Option<Seq<char>>,
    now: Instant,
) -> Step {
    match error {
        Some(error) => (said(s, error, Severity::Error, now), Seq::empty()),
        None => (
            list_shown(Shell { tree_root: Some(dir), ..s }, ListKind::FileTree),
            seq![Action::ReloadSettings, Action::Redraw],
        ),
    }
}

/// The git panel asked for, or closed.
#[verifier::opaque]
pub open spec fn git_toggled(s: Shell, find_open: bool) -> Step {
    if s.at.list.active == Some(ListKind::GitStatus) {
        (list_closed(s, find_open), redraw())
    } else {
        (s, seq![Action::RequestGitStatus])
    }
}

/// The git panel shown, or why it is not.
#[verifier::opaque]
pub open spec fn git_answered(s: Shell, error: Option<Seq<char>>, now: Instant) -> Step {
    match error {
        Some(error) => (said(s, error, Severity::Error, now), Seq::empty()),
        None => (list_shown(s, ListKind::GitStatus), redraw()),
    }
}

/// The search panel opened with an empty field that has the keyboard.
#[verifier::opaque]
pub open spec fn search_opened(s: Shell) -> Shell {
    Shell {
        at: Surface {
            focus: InputFocus::SearchQuery,
            list: ListPanel { active: Some(ListKind::SearchResults), selected: 0, deadline: None },
            ..s.at
        },
        query: Some(Seq::empty()),
        ..s
    }
}

/// The terminal on screen, with the keyboard in it.
pub open spec fn terminal_shown(s: Shell) -> Shell {
    terminal_focused(Shell { terminal: Panel { visible: true, ..s.terminal }, ..s })
}

/// The terminal shown or hidden; hiding it leaves its shell running.
#[verifier::opaque]
pub open spec fn terminal_toggled(s: Shell, facts: ShellFacts) -> Step {
    if s.terminal.visible {
        (
            refreshed(
                Shell { terminal: Panel { visible: false, ..s.terminal }, ..s },
                facts.find_open,
            ),
            redraw(),
        )
    } else if facts.shell == ShellState::NotStarted {
        (s, seq![Action::SpawnTerminal])
    } else {
        (terminal_shown(s), redraw())
    }
}

/// A shell started for the terminal, or not.
#[verifier::opaque]
pub open spec fn spawn_answered(s: Shell, error: Option<Seq<char>>, now: Instant) -> Step {
    match error {
        Some(error) => (
            said(s, "could not start a shell: "@ + error, Severity::Error, now),
            Seq::empty(),
        ),
        None => (terminal_shown(s), redraw()),
    }
}

/// The dependency view opened or closed. Opening it scans only when no graph
/// is in hand.
#[verifier::opaque]
pub open spec fn graph_toggled(s: Shell, already_active: bool, find_open: bool) -> Step {
    if already_active {
        (
            refreshed(
                Shell {
                    at: Surface {
                        graph: GraphPane { view: false, press: None, ..s.at.graph },
                        ..s.at
                    },
                    ..s
                },
                find_open,
            ),
            redraw(),
        )
    } else {
        (
            refreshed(
                Shell {
                    at: Surface {
                        graph: GraphPane { view: true, press: None, hovered: None, ..s.at.graph },
                        list: ListPanel { active: None, ..s.at.list },
                        ..s.at
                    },
                    ..s
                },
                find_open,
            ),
            if s.at.graph.settled {
                redraw()
            } else {
                seq![Action::LoadGraph]
            },
        )
    }
}

/// The workspace scanned again, with the view up.
#[verifier::opaque]
pub open spec fn graph_refreshed(s: Shell, facts: ShellFacts, now: Instant) -> Step {
    if facts.root is None {
        (said(s, "Dependency view: open a folder first"@, Severity::Warning, now), Seq::empty())
    } else {
        (
            refreshed(
                Shell {
                    at: Surface {
                        graph: GraphPane { view: true, ..s.at.graph },
                        list: ListPanel { active: None, ..s.at.list },
                        ..s.at
                    },
                    ..s
                },
                facts.find_open,
            ),
            seq![
                Action::ScanGraph,
                Action::Say(
                    "Rescanning the workspace for dependencies..."@,
                    Severity::Success,
                ),
            ],
        )
    }
}

/// A scan started, which throws away what is known, or not.
#[verifier::opaque]
pub open spec fn scan_answered(s: Shell, error: Option<Seq<char>>, now: Instant) -> Step {
    match error {
        Some(error) => (
            said(s, "Dependency view: "@ + error, Severity::Warning, now),
            Seq::empty(),
        ),
        None => (
            Shell {
                at: Surface {
                    graph: GraphPane {
                        settled: false,
                        hovered: None,
                        from_cache: false,
                        ..s.at.graph
                    },
                    ..s.at
                },
                ..s
            },
            redraw(),
        ),
    }
}

/// Where a graph came from.
#[derive(Copy, Clone, Debug, PartialEq, Eq, Structural)]
pub enum GraphSource {
    /// The copy saved for this workspace.
    Saved,
    /// A scan of all of it.
    Scan,
    /// A scan that stopped early.
    PartialScan,
}

/// What is said of a graph.
pub open spec fn graph_text(files: u64, edges: u64, source: GraphSource) -> Seq<char> {
    "Dependencies: "@ + decimal(files as nat) + " files, "@ + decimal(edges as nat) + " links"@
        + (match source {
        GraphSource::Saved => " (saved; Ctrl+Shift+R to rescan)"@,
        GraphSource::Scan => ""@,
        GraphSource::PartialScan => " (workspace too large; the scan stopped early)"@,
    })
}

/// A graph in hand.
#[verifier::opaque]
pub open spec fn graph_adopted(
    s: Shell,
    files: u64,
    edges: u64,
    source: GraphSource,
    now: Instant,
) -> Shell {
    said(
        Shell {
            at: Surface {
                graph: GraphPane {
                    settled: true,
                    from_cache: source == GraphSource::Saved,
                    ..s.at.graph
                },
                ..s.at
            },
            ..s
        },
        graph_text(files, edges, source),
        if source == GraphSource::PartialScan {
            Severity::Warning
        } else {
            Severity::Success
        },
        now,
    )
}

/// Quitting: with unsaved documents the first request only warns.
#[verifier::opaque]
pub open spec fn quit_requested(s: Shell, dirty: usize, now: Instant) -> Step {
    if dirty > 0 && !s.at.exit.confirm_pending {
        (
            said(
                Shell {
                    at: Surface { exit: Exit { confirm_pending: true, ..s.at.exit }, ..s.at },
                    ..s
                },
                quit_text(dirty),
                Severity::Warning,
                now,
            ),
            redraw(),
        )
    } else {
        (
            Shell {
                at: Surface {
                    exit: Exit { confirm_pending: false, due: true, ..s.at.exit },
                    ..s.at
                },
                ..s
            },
            redraw(),
        )
    }
}

/// A load of the last file with a fault put into it.
#[verifier::opaque]
pub open spec fn injected_load(s: Shell, injection: Injection, now: Instant) -> Step {
    match s.diagnostics_path {
        None => (said(s, "Open a file first (Ctrl+O)"@, Severity::Warning, now), Seq::empty()),
        Some(path) => (
            said(
                Shell { at: Surface { panels: Panels { dev: true, ..s.at.panels }, ..s.at }, ..s },
                (match injection {
                    Injection::Slow => "Slow-loading"@,
                    Injection::Failing => "Failing load of"@,
                }) + " "@ + path,
                Severity::Warning,
                now,
            ),
            seq![Action::CloseTarget(path), Action::OpenInjected(path, injection)],
        ),
    }
}

/// How many requests for one file are issued at once.
pub const STORM_REQUESTS: usize = 5;

/// Several requests for the last file at once.
#[verifier::opaque]
pub open spec fn storm_started(s: Shell, now: Instant) -> Step {
    match s.diagnostics_path {
        None => (said(s, "Open a file first (Ctrl+O)"@, Severity::Warning, now), Seq::empty()),
        Some(path) => (s, seq![Action::CloseTarget(path), Action::RequestStorm(path)]),
    }
}

/// What came of several requests at once.
#[verifier::opaque]
pub open spec fn storm_answered(
    s: Shell,
    joined: usize,
    error: Option<Seq<char>>,
    now: Instant,
) -> Step {
    match error {
        Some(error) => (said(s, error, Severity::Error, now), Seq::empty()),
        None => (
            said(
                Shell { at: Surface { panels: Panels { dev: true, ..s.at.panels }, ..s.at }, ..s },
                "Issued 5 requests for one path; "@ + decimal(joined as nat)
                    + " joined the same task"@,
                Severity::Success,
                now,
            ),
            redraw(),
        ),
    }
}

/// What a request does.
#[verifier::opaque]
pub open spec fn request_step(
    s: Shell,
    request: ShellRequest,
    facts: ShellFacts,
    now: Instant,
) -> Step {
    match request {
        ShellRequest::OpenFileDialog => (s, seq![Action::OpenFileDialog]),
        ShellRequest::SaveAsDialog => (s, seq![Action::SaveAsDialog]),
        ShellRequest::TogglePerformanceOverlay => (
            Shell {
                at: Surface {
                    panels: Panels { overlay: !s.at.panels.overlay, ..s.at.panels },
                    ..s.at
                },
                ..s
            },
            Seq::empty(),
        ),
        ShellRequest::ToggleDevPanel => (
            Shell {
                at: Surface { panels: Panels { dev: !s.at.panels.dev, ..s.at.panels }, ..s.at },
                ..s
            },
            Seq::empty(),
        ),
        ShellRequest::ToggleResourceCenter => (
            Shell {
                at: Surface {
                    panels: Panels { resources: !s.at.panels.resources, ..s.at.panels },
                    ..s.at
                },
                ..s
            },
            Seq::empty(),
        ),
        ShellRequest::ToggleStatusBar => (
            Shell {
                at: Surface {
                    panels: Panels { status_bar: !s.at.panels.status_bar, ..s.at.panels },
                    ..s.at
                },
                ..s
            },
            Seq::empty(),
        ),
        ShellRequest::ToggleFileTree => tree_toggled(s, facts, now),
        ShellRequest::OpenFolderDialog => folder_asked(s, facts, now),
        ShellRequest::WorkspaceSearch => (search_opened(s), redraw()),
        ShellRequest::ToggleGitStatus => git_toggled(s, facts.find_open),
        ShellRequest::ToggleSettings => (settings_toggled(s, facts.find_open), redraw()),
        ShellRequest::RefreshDependencyView => graph_refreshed(s, facts, now),
        ShellRequest::ToggleDependencyView => graph_toggled(
            s,
            shown_activity(s) == Some(ACTIVITY_DEPENDENCIES),
            facts.find_open,
        ),
        ShellRequest::ToggleTerminal => terminal_toggled(s, facts),
        ShellRequest::DiagnosticsDuplicateStorm => storm_started(s, now),
        ShellRequest::DiagnosticsSlowLoad => injected_load(s, Injection::Slow, now),
        ShellRequest::DiagnosticsFailingLoad => injected_load(s, Injection::Failing, now),
        ShellRequest::Quit => quit_requested(s, facts.dirty, now),
    }
}

/// Which row of the activity bar belongs to what is shown.
pub open spec fn shown_activity(s: Shell) -> Option<usize> {
    activity_shown(s.at.graph.view, s.query is Some, s.at.list.active)
}

/// What a click on an activity-bar row does. Only one activity is shown at a
/// time, and the one that is already shown closes.
#[verifier::opaque]
pub open spec fn activity_step(
    s: Shell,
    index: usize,
    facts: ShellFacts,
    now: Instant,
) -> Step {
    let already_active = shown_activity(s) == Some(index);
    let cleared = Shell {
        at: Surface {
            graph: GraphPane {
                view: s.at.graph.view && index == ACTIVITY_DEPENDENCIES,
                ..s.at.graph
            },
            ..s.at
        },
        query: if index == ACTIVITY_SEARCH {
            s.query
        } else {
            None
        },
        ..s
    };
    if index == ACTIVITY_EXPLORER {
        tree_toggled(cleared, facts, now)
    } else if index == ACTIVITY_SEARCH {
        if already_active {
            (list_closed(Shell { query: None, ..cleared }, facts.find_open), redraw())
        } else {
            (search_opened(cleared), redraw())
        }
    } else if index == ACTIVITY_SOURCE_CONTROL {
        git_toggled(cleared, facts.find_open)
    } else if index == ACTIVITY_DEPENDENCIES {
        graph_toggled(cleared, already_active, facts.find_open)
    } else {
        (cleared, Seq::empty())
    }
}

/// Where a folder view starts.
fn start_dir(facts: &ShellFacts) -> (r: Option<String>)
    ensures
        opt_view(r) == start_of(*facts),
{
    match &facts.root {
        Some(root) => Some(root.clone()),
        None => copied(&facts.parent),
    }
}

fn is_list(active: Option<ListKind>, kind: ListKind) -> (r: bool)
    ensures
        r == (active == Some(kind)),
{
    match active {
        Some(shown) => shown == kind,
        None => false,
    }
}

impl LightSpeed {
    /// Closes the sidebar.
    pub fn close_list(&mut self, find_open: bool)
        ensures
            final(self)@ == list_closed(old(self)@, find_open),
            final(self)@.terminal == old(self)@.terminal,
    {
        self.at = Surface { list: ListPanel { active: None, ..self.at.list }, ..self.at };
        self.refresh_focus(find_open);
    }

    /// Shows a list from its top, with the keyboard in it.
    fn show_list(&mut self, kind: ListKind)
        ensures
            final(self)@ == list_shown(old(self)@, kind),
    {
        self.at = Surface {
            list: ListPanel { active: Some(kind), selected: 0, ..self.at.list },
            ..self.at
        };
        self.focus_list();
    }

    /// Opens the file tree, rooted at the workspace root or at the active
    /// document's directory, or closes it.
    pub fn toggle_file_tree(&mut self, facts: &ShellFacts, now: Instant) -> (r: Vec<
        Action<String>,
    >)
        ensures
            (final(self)@, action_views(r@)) == tree_toggled(old(self)@, *facts, now),
            final(self)@.terminal == old(self)@.terminal,
    {
        reveal(tree_toggled);
        if is_list(self.at.list.active, ListKind::FileTree) {
            self.close_list(facts.find_open);
            return one_action(Action::Redraw);
        }
        match start_dir(facts) {
            Some(start) => {
                self.tree_root = Some(start);
                self.show_list(ListKind::FileTree);
                one_action(Action::Redraw)
            },
            None => {
                self.set_status(
                    owned("Open a file first, or use File > Open Folder"),
                    Severity::Warning,
                    now,
                );
                no_action()
            },
        }
    }

    /// Asks for a folder, unless a picker is already up.
    pub fn show_open_folder_dialog(&mut self, facts: &ShellFacts, now: Instant) -> (r: Vec<
        Action<String>,
    >)
        ensures
            (final(self)@, action_views(r@)) == folder_asked(old(self)@, *facts, now),
            final(self)@.terminal == old(self)@.terminal,
    {
        reveal(folder_asked);
        if self.at.folder_picker_open {
            return no_action();
        }
        self.at = Surface { folder_picker_open: true, ..self.at };
        self.set_status(owned("Opening the folder picker..."), Severity::Success, now);
        one_action(Action::PickFolder(start_dir(facts)))
    }

    /// Applies whatever the folder picker came back with.
    pub fn folder_picked(&mut self, picked: Picked<String>, now: Instant) -> (r: Vec<
        Action<String>,
    >)
        ensures
            (final(self)@, action_views(r@)) == folder_answered(
                old(self)@,
                picked_view(picked),
                now,
            ),
    {
        reveal(folder_answered);
        self.at = Surface { folder_picker_open: false, ..self.at };
        self.message = None;
        match picked {
            Picked::Folder(dir) => two_actions(Action::OpenWorkspace(dir), Action::Redraw),
            Picked::Cancelled => one_action(Action::Redraw),
            Picked::Failed(error) => {
                self.set_status(error, Severity::Error, now);
                one_action(Action::Redraw)
            },
        }
    }

    /// Shows the folder that was opened as the workspace, or says why it was
    /// not.
    pub fn workspace_opened(&mut self, dir: String, error: Option<String>, now: Instant) -> (r: Vec<
        Action<String>,
    >)
        ensures
            (final(self)@, action_views(r@)) == workspace_answered(
                old(self)@,
                dir@,
                opt_view(error),
                now,
            ),
    {
        reveal(workspace_answered);
        match error {
            Some(error) => {
                self.set_status(error, Severity::Error, now);
                no_action()
            },
            None => {
                self.tree_root = Some(dir);
                self.show_list(ListKind::FileTree);
                two_actions(Action::ReloadSettings, Action::Redraw)
            },
        }
    }

    /// Asks for git's view of the workspace, or closes the panel.
    pub fn toggle_git_status(&mut self, find_open: bool) -> (r: Vec<Action<String>>)
        ensures
            (final(self)@, action_views(r@)) == git_toggled(old(self)@, find_open),
            final(self)@.terminal == old(self)@.terminal,
    {
        reveal(git_toggled);
        if is_list(self.at.list.active, ListKind::GitStatus) {
            self.close_list(find_open);
            return one_action(Action::Redraw);
        }
        one_action(Action::RequestGitStatus)
    }

    /// Shows the git panel once the request has gone out.
    pub fn git_status_requested(&mut self, error: Option<String>, now: Instant) -> (r: Vec<
        Action<String>,
    >)
        ensures
            (final(self)@, action_views(r@)) == git_answered(old(self)@, opt_view(error), now),
    {
        reveal(git_answered);
        match error {
            Some(error) => {
                self.set_status(error, Severity::Error, now);
                no_action()
            },
            None => {
                self.show_list(ListKind::GitStatus);
                one_action(Action::Redraw)
            },
        }
    }

    /// Opens the search panel with an empty field.
    pub fn open_search_query(&mut self)
        ensures
            final(self)@ == search_opened(old(self)@),
            final(self)@.terminal == old(self)@.terminal,
    {
        reveal(search_opened);
        self.at = Surface {
            focus: InputFocus::SearchQuery,
            list: ListPanel { active: Some(ListKind::SearchResults), selected: 0, deadline: None },
            ..self.at
        };
        let empty: Vec<char> = Vec::new();
        assert(empty@ =~= Seq::<char>::empty());
        self.query = Some(empty);
    }

    fn show_terminal(&mut self)
        requires
            crate::terminal::sound(old(self)@.terminal),
        ensures
            final(self)@ == terminal_shown(old(self)@),
            crate::terminal::sound(final(self)@.terminal),
    {
        self.terminal.set_visible(true);
        self.focus_terminal();
    }

    /// Shows or hides the command runner. Its shell, once started, keeps
    /// running while the panel is hidden.
    pub fn toggle_terminal(&mut self, facts: &ShellFacts) -> (r: Vec<Action<String>>)
        requires
            crate::terminal::sound(old(self)@.terminal),
        ensures
            (final(self)@, action_views(r@)) == terminal_toggled(old(self)@, *facts),
            crate::terminal::sound(final(self)@.terminal),
    {
        reveal(terminal_toggled);
        if self.terminal.is_visible() {
            self.terminal.set_visible(false);
            self.refresh_focus(facts.find_open);
            return one_action(Action::Redraw);
        }
        if facts.shell == ShellState::NotStarted {
            return one_action(Action::SpawnTerminal);
        }
        self.show_terminal();
        one_action(Action::Redraw)
    }

    /// Shows the terminal once its shell has started.
    pub fn terminal_spawned(&mut self, error: Option<String>, now: Instant) -> (r: Vec<
        Action<String>,
    >)
        requires
            crate::terminal::sound(old(self)@.terminal),
        ensures
            (final(self)@, action_views(r@)) == spawn_answered(old(self)@, opt_view(error), now),
            crate::terminal::sound(final(self)@.terminal),
    {
        reveal(spawn_answered);
        match error {
            Some(error) => {
                let mut text = owned("could not start a shell: ");
                text.push_str(error.as_str());
                self.set_status(text, Severity::Error, now);
                no_action()
            },
            None => {
                self.show_terminal();
                one_action(Action::Redraw)
            },
        }
    }

    /// Opens or closes the dependency view.
    pub fn toggle_dependency_view(&mut self, already_active: bool, find_open: bool) -> (r: Vec<
        Action<String>,
    >)
        ensures
            (final(self)@, action_views(r@)) == graph_toggled(
                old(self)@,
                already_active,
                find_open,
            ),
            final(self)@.terminal == old(self)@.terminal,
    {
        reveal(graph_toggled);
        if already_active {
            self.at = Surface {
                graph: GraphPane { view: false, press: None, ..self.at.graph },
                ..self.at
            };
            self.refresh_focus(find_open);
            return one_action(Action::Redraw);
        }
        let settled = self.at.graph.settled;
        self.at = Surface {
            graph: GraphPane { view: true, press: None, hovered: None, ..self.at.graph },
            list: ListPanel { active: None, ..self.at.list },
            ..self.at
        };
        self.refresh_focus(find_open);
        if settled {
            one_action(Action::Redraw)
        } else {
            one_action(Action::LoadGraph)
        }
    }

    /// Scans the workspace again, opening the view if it is not up.
    pub fn refresh_dependency_view(&mut self, facts: &ShellFacts, now: Instant) -> (r: Vec<
        Action<String>,
    >)
        ensures
            (final(self)@, action_views(r@)) == graph_refreshed(old(self)@, *facts, now),
            final(self)@.terminal == old(self)@.terminal,
    {
        reveal(graph_refreshed);
        if facts.root.is_none() {
            self.set_status(
                owned("Dependency view: open a folder first"),
                Severity::Warning,
                now,
            );
            return no_action();
        }
        self.at = Surface {
            graph: GraphPane { view: true, ..self.at.graph },
            list: ListPanel { active: None, ..self.at.list },
            ..self.at
        };
        self.refresh_focus(facts.find_open);
        two_actions(
            Action::ScanGraph,
            Action::Say(
                owned("Rescanning the workspace for dependencies..."),
                Severity::Success,
            ),
        )
    }

    /// Throws away what is known once a scan has started.
    pub fn scan_requested(&mut self, error: Option<String>, now: Instant) -> (r: Vec<
        Action<String>,
    >)
        ensures
            (final(self)@, action_views(r@)) == scan_answered(old(self)@, opt_view(error), now),
    {
        reveal(scan_answered);
        match error {
            Some(error) => {
                let mut text = owned("Dependency view: ");
                text.push_str(error.as_str());
                self.set_status(text, Severity::Warning, now);
                no_action()
            },
            None => {
                self.at = Surface {
                    graph: GraphPane {
                        settled: false,
                        hovered: None,
                        from_cache: false,
                        ..self.at.graph
                    },
                    ..self.at
                };
                one_action(Action::Redraw)
            },
        }
    }

    /// Takes a settled graph, and reports what it holds.
    pub fn adopt_dependency_graph(
        &mut self,
        files: u64,
        edges: u64,
        source: GraphSource,
        now: Instant,
    )
        ensures
            final(self)@ == graph_adopted(old(self)@, files, edges, source, now),
    {
        reveal(graph_adopted);
        self.at = Surface {
            graph: GraphPane {
                settled: true,
                from_cache: source == GraphSource::Saved,
                ..self.at.graph
            },
            ..self.at
        };
        let mut text = owned("Dependencies: ");
        text.push_str(decimal_of(files).as_str());
        text.push_str(" files, ");
        text.push_str(decimal_of(edges).as_str());
        text.push_str(" links");
        text.push_str(
            match source {
                GraphSource::Saved => " (saved; Ctrl+Shift+R to rescan)",
                GraphSource::Scan => "",
                GraphSource::PartialScan => " (workspace too large; the scan stopped early)",
            },
        );
        let severity = if source == GraphSource::PartialScan {
            Severity::Warning
        } else {
            Severity::Success
        };
        self.set_status(text, severity, now);
    }

    /// Ends the program, or warns once when that would lose edits.
    pub fn request_quit(&mut self, dirty: usize, now: Instant) -> (r: Vec<Action<String>>)
        ensures
            (final(self)@, action_views(r@)) == quit_requested(old(self)@, dirty, now),
            final(self)@.terminal == old(self)@.terminal,
    {
        reveal(quit_requested);
        if dirty > 0 && !self.at.exit.confirm_pending {
            self.at = Surface { exit: Exit { confirm_pending: true, ..self.at.exit }, ..self.at };
            self.set_status(quit_message(dirty), Severity::Warning, now);
            return one_action(Action::Redraw);
        }
        self.at = Surface {
            exit: Exit { confirm_pending: false, due: true, ..self.at.exit },
            ..self.at
        };
        one_action(Action::Redraw)
    }

    /// Whether a confirmed quit is waiting, which is thereby taken.
    pub fn take_exit(&mut self) -> (r: bool)
        ensures
            final(self)@ == (Shell {
                at: Surface { exit: Exit { due: false, ..old(self)@.at.exit }, ..old(self)@.at },
                ..old(self)@
            }),
            r == old(self)@.at.exit.due,
    {
        let exit = self.at.exit.due;
        self.at = Surface { exit: Exit { due: false, ..self.at.exit }, ..self.at };
        exit
    }

    /// Diagnostics: several requests for one path, issued back to back.
    pub fn diagnostics_duplicate_storm(&mut self, now: Instant) -> (r: Vec<Action<String>>)
        ensures
            (final(self)@, action_views(r@)) == storm_started(old(self)@, now),
            final(self)@.terminal == old(self)@.terminal,
    {
        reveal(storm_started);
        match copied(&self.diagnostics_path) {
            None => {
                self.set_status(owned("Open a file first (Ctrl+O)"), Severity::Warning, now);
                no_action()
            },
            Some(path) => two_actions(
                Action::CloseTarget(path.clone()),
                Action::RequestStorm(path),
            ),
        }
    }

    /// Reports what came of several requests at once.
    pub fn storm_done(&mut self, joined: usize, error: Option<String>, now: Instant) -> (r: Vec<
        Action<String>,
    >)
        ensures
            (final(self)@, action_views(r@)) == storm_answered(
                old(self)@,
                joined,
                opt_view(error),
                now,
            ),
    {
        reveal(storm_answered);
        match error {
            Some(error) => {
                self.set_status(error, Severity::Error, now);
                no_action()
            },
            None => {
                self.at = Surface { panels: Panels { dev: true, ..self.at.panels }, ..self.at };
                self.set_status(storm_message(joined), Severity::Success, now);
                one_action(Action::Redraw)
            },
        }
    }

    /// Diagnostics: a load of the last file with a fault put into it.
    pub fn diagnostics_injected_load(&mut self, injection: Injection, now: Instant) -> (r: Vec<
        Action<String>,
    >)
        ensures
            (final(self)@, action_views(r@)) == injected_load(old(self)@, injection, now),
            final(self)@.terminal == old(self)@.terminal,
    {
        reveal(injected_load);
        match copied(&self.diagnostics_path) {
            None => {
                self.set_status(owned("Open a file first (Ctrl+O)"), Severity::Warning, now);
                no_action()
            },
            Some(path) => {
                self.at = Surface { panels: Panels { dev: true, ..self.at.panels }, ..self.at };
                let mut text = owned(
                    match injection {
                        Injection::Slow => "Slow-loading",
                        Injection::Failing => "Failing load of",
                    },
                );
                text.push_str(" ");
                text.push_str(path.as_str());
                self.set_status(text, Severity::Warning, now);
                two_actions(
                    Action::CloseTarget(path.clone()),
                    Action::OpenInjected(path, injection),
                )
            },
        }
    }

    /// Handles one request that a command made of the shell.
    pub fn handle_shell_request(
        &mut self,
        request: ShellRequest,
        facts: &ShellFacts,
        now: Instant,
    ) -> (r: Vec<Action<String>>)
        requires
            crate::terminal::sound(old(self)@.terminal),
        ensures
            (final(self)@, action_views(r@)) == request_step(old(self)@, request, *facts, now),
            crate::terminal::sound(final(self)@.terminal),
    {
        reveal(request_step);
        match request {
            ShellRequest::OpenFileDialog => one_action(Action::OpenFileDialog),
            ShellRequest::SaveAsDialog => one_action(Action::SaveAsDialog),
            ShellRequest::TogglePerformanceOverlay => {
                self.at = Surface {
                    panels: Panels { overlay: !self.at.panels.overlay, ..self.at.panels },
                    ..self.at
                };
                no_action()
            },
            ShellRequest::ToggleDevPanel => {
                self.at = Surface {
                    panels: Panels { dev: !self.at.panels.dev, ..self.at.panels },
                    ..self.at
                };
                no_action()
            },
            ShellRequest::ToggleResourceCenter => {
                self.at = Surface {
                    panels: Panels { resources: !self.at.panels.resources, ..self.at.panels },
                    ..self.at
                };
                no_action()
            },
            ShellRequest::ToggleStatusBar => {
                self.at = Surface {
                    panels: Panels { status_bar: !self.at.panels.status_bar, ..self.at.panels },
                    ..self.at
                };
                no_action()
            },
            ShellRequest::ToggleFileTree => self.toggle_file_tree(facts, now),
            ShellRequest::OpenFolderDialog => self.show_open_folder_dialog(facts, now),
            ShellRequest::WorkspaceSearch => {
                self.open_search_query();
                one_action(Action::Redraw)
            },
            ShellRequest::ToggleGitStatus => self.toggle_git_status(facts.find_open),
            ShellRequest::ToggleSettings => {
                self.toggle_settings(facts.find_open);
                one_action(Action::Redraw)
            },
            ShellRequest::RefreshDependencyView => self.refresh_dependency_view(facts, now),
            ShellRequest::ToggleDependencyView => {
                let active = self.activity_is(ACTIVITY_DEPENDENCIES);
                self.toggle_dependency_view(active, facts.find_open)
            },
            ShellRequest::ToggleTerminal => self.toggle_terminal(facts),
            ShellRequest::DiagnosticsDuplicateStorm => self.diagnostics_duplicate_storm(now),
            ShellRequest::DiagnosticsSlowLoad => self.diagnostics_injected_load(
                Injection::Slow,
                now,
            ),
            ShellRequest::DiagnosticsFailingLoad => self.diagnostics_injected_load(
                Injection::Failing,
                now,
            ),
            ShellRequest::Quit => self.request_quit(facts.dirty, now),
        }
    }

    /// Which activity-bar row corresponds to what is shown, if any.
    pub fn activity_active_index(&self) -> (r: Option<usize>)
        ensures
            r == shown_activity(self@),
    {
        activity_active_index(
            self.at.graph.view,
            self.query.is_some(),
            self.at.list.active,
        )
    }

    fn activity_is(&self, index: usize) -> (r: bool)
        ensures
            r == (shown_activity(self@) == Some(index)),
    {
        match self.activity_active_index() {
            Some(shown) => shown == index,
            None => false,
        }
    }

    /// Handles a click on an activity-bar row. Clicking the one that is
    /// already active closes its panel; Extensions and Debug do nothing.
    pub fn activate_activity_item(&mut self, index: usize, facts: &ShellFacts, now: Instant) -> (r:
        Vec<Action<String>>)
        ensures
            (final(self)@, action_views(r@)) == activity_step(old(self)@, index, *facts, now),
            final(self)@.terminal == old(self)@.terminal,
    {
        reveal(activity_step);
        let already_active = self.activity_is(index);
        let dependency_view = self.at.graph.view && index == ACTIVITY_DEPENDENCIES;
        self.at = Surface {
            graph: GraphPane { view: dependency_view, ..self.at.graph },
            ..self.at
        };
        if index != ACTIVITY_SEARCH {
            self.query = None;
        }
        if index == ACTIVITY_EXPLORER {
            self.toggle_file_tree(facts, now)
        } else if index == ACTIVITY_SEARCH {
            if already_active {
                self.query = None;
                self.close_list(facts.find_open);
            } else {
                self.open_search_query();
            }
            one_action(Action::Redraw)
        } else if index == ACTIVITY_SOURCE_CONTROL {
            self.toggle_git_status(facts.find_open)
        } else if index == ACTIVITY_DEPENDENCIES {
            self.toggle_dependency_view(already_active, facts.find_open)
        } else {
            no_action()
        }
    }
}

/// A search query that was left typed never keeps the Search panel up behind
/// another activity: any other click clears it.
pub proof fn another_activity_clears_the_query(
    s: Shell,
    index: usize,
    facts: ShellFacts,
    now: Instant,
)
    requires
        index != ACTIVITY_SEARCH,
    ensures
        activity_step(s, index, facts, now).0.query is None,
{
    reveal(activity_step);
    reveal(tree_toggled);
    reveal(git_toggled);
    reveal(graph_toggled);
    reveal(search_opened);
    reveal(refreshed);
}

/// Clicking the activity that is shown closes it: it is shown no longer.
pub proof fn the_shown_activity_closes(s: Shell, index: usize, facts: ShellFacts, now: Instant)
    requires
        shown_activity(s) == Some(index),
        s.query is Some ==> s.at.list.active == Some(ListKind::SearchResults),
    ensures
        shown_activity(activity_step(s, index, facts, now).0) != Some(index),
{
    reveal(activity_step);
    reveal(tree_toggled);
    reveal(git_toggled);
    reveal(graph_toggled);
    reveal(search_opened);
    reveal(refreshed);
}

/// Hiding the terminal and showing it again brings back everything in it.
pub proof fn hiding_the_terminal_keeps_its_contents(s: Shell, facts: ShellFacts)
    requires
        s.terminal.visible,
        facts.shell != ShellState::NotStarted,
    ensures
        ({
            let hidden = terminal_toggled(s, facts).0;
            terminal_toggled(hidden, facts).0.terminal == s.terminal
        }),
{
    reveal(terminal_toggled);
    reveal(refreshed);
}

/// Quitting with unsaved documents takes two requests in a row, and without
/// any just one.
pub proof fn quitting_asks_once(s: Shell, dirty: usize, now: Instant)
    requires
        !s.at.exit.confirm_pending,
        !s.at.exit.due,
    ensures
        ({
            let once = quit_requested(s, dirty, now).0;
            &&& once.at.exit.due == (dirty == 0)
            &&& quit_requested(once, dirty, now).0.at.exit.due || dirty == 0
        }),
{
    reveal(quit_requested);
}

/// A graph that is in hand is shown as it is: opening the view neither reads
/// nor scans, and closing it and opening it again keeps it.
pub proof fn a_known_graph_is_not_scanned_again(s: Shell, find_open: bool)
    requires
        s.at.graph.settled,
    ensures
        graph_toggled(s, false, find_open).1 == redraw(),
        ({
            let closed = graph_toggled(s, true, find_open).0;
            let opened = graph_toggled(closed, false, find_open);
            opened.0.at.graph.settled && opened.0.at.graph.view && opened.1 == redraw()
        }),
{
    reveal(graph_toggled);
    reveal(refreshed);
}

/// The status bar tells a text, in the colour of its weight, from now on.
pub open spec fn tells(s: Shell, text: Seq<char>, severity: Severity, now: Instant) -> bool {
    &&& s.message is Some
    &&& s.message->0.text == text
    &&& s.message->0.severity == severity
    &&& s.message->0.at == now
}

/// Two states that differ in nothing but what the status bar tells.
pub open spec fn same_but_told(a: Shell, b: Shell) -> bool {
    Shell { message: b.message, ..a } == b
}

/// Two states that differ in nothing but who has the keyboard.
pub open spec fn same_but_focus(a: Shell, b: Shell) -> bool {
    Shell { at: Surface { focus: b.at.focus, ..a.at }, ..a } == b
}

/// Each panel toggle turns its own panel and no other: the panel shown is
/// hidden, the panel hidden is shown, and asking twice changes nothing.
pub proof fn a_toggle_turns_its_own_panel(s: Shell, facts: ShellFacts, now: Instant)
    ensures
        ({
            let after = request_step(s, ShellRequest::TogglePerformanceOverlay, facts, now).0;
            &&& after.at.panels.overlay != s.at.panels.overlay
            &&& after.at.panels.dev == s.at.panels.dev
            &&& after.at.panels.resources == s.at.panels.resources
            &&& after.at.panels.status_bar == s.at.panels.status_bar
            &&& request_step(after, ShellRequest::TogglePerformanceOverlay, facts, now).0 == s
        }),
        ({
            let after = request_step(s, ShellRequest::ToggleDevPanel, facts, now).0;
            &&& after.at.panels.dev != s.at.panels.dev
            &&& after.at.panels.overlay == s.at.panels.overlay
            &&& after.at.panels.resources == s.at.panels.resources
            &&& after.at.panels.status_bar == s.at.panels.status_bar
            &&& request_step(after, ShellRequest::ToggleDevPanel, facts, now).0 == s
        }),
        ({
            let after = request_step(s, ShellRequest::ToggleResourceCenter, facts, now).0;
            &&& after.at.panels.resources != s.at.panels.resources
            &&& after.at.panels.overlay == s.at.panels.overlay
            &&& after.at.panels.dev == s.at.panels.dev
            &&& after.at.panels.status_bar == s.at.panels.status_bar
            &&& request_step(after, ShellRequest::ToggleResourceCenter, facts, now).0 == s
        }),
        ({
            let after = request_step(s, ShellRequest::ToggleStatusBar, facts, now).0;
            &&& after.at.panels.status_bar != s.at.panels.status_bar
            &&& after.at.panels.overlay == s.at.panels.overlay
            &&& after.at.panels.dev == s.at.panels.dev
            &&& after.at.panels.resources == s.at.panels.resources
            &&& request_step(after, ShellRequest::ToggleStatusBar, facts, now).0 == s
        }),
{
    reveal(request_step);
}

/// The dialogs are asked for by their own requests, and asking changes nothing
/// on screen.
pub proof fn a_dialog_is_asked_for(s: Shell, facts: ShellFacts, now: Instant)
    ensures
        request_step(s, ShellRequest::OpenFileDialog, facts, now) == (
            s,
            seq![Action::<Seq<char>>::OpenFileDialog],
        ),
        request_step(s, ShellRequest::SaveAsDialog, facts, now) == (
            s,
            seq![Action::<Seq<char>>::SaveAsDialog],
        ),
{
    reveal(request_step);
}

/// The explorer opens where the workspace is, else where the document lies,
/// from its top and with the keyboard in it. Asked for again it closes, and
/// nothing but the list and the keyboard has changed. With nowhere to start it
/// does not open, and says so.
pub proof fn the_explorer_opens_at_the_workspace(s: Shell, facts: ShellFacts, now: Instant)
    ensures
        ({
            let step = request_step(s, ShellRequest::ToggleFileTree, facts, now);
            let opens = s.at.list.active != Some(ListKind::FileTree);
            let somewhere = facts.root is Some || facts.parent is Some;
            &&& !opens ==> {
                &&& step.0.at.list.active is None
                &&& step.0.at.list.selected == s.at.list.selected
                &&& step.0.tree_root == s.tree_root
                &&& step.0.message == s.message
                &&& step.1 == seq![Action::<Seq<char>>::Redraw]
            }
            &&& opens && somewhere ==> {
                &&& step.0.at.list.active == Some(ListKind::FileTree)
                &&& step.0.at.list.selected == 0
                &&& step.0.at.focus == InputFocus::List
                &&& step.0.at.menu.open is None
                &&& step.0.message == s.message
                &&& step.1 == seq![Action::<Seq<char>>::Redraw]
            }
            &&& opens && facts.root is Some ==> step.0.tree_root == Some(facts.root->0@)
            &&& opens && facts.root is None && facts.parent is Some ==> step.0.tree_root == Some(
                facts.parent->0@,
            )
            &&& opens && !somewhere ==> {
                &&& same_but_told(s, step.0)
                &&& tells(
                    step.0,
                    "Open a file first, or use File > Open Folder"@,
                    Severity::Warning,
                    now,
                )
            }
            &&& step.0.expanded == s.expanded
            &&& step.0.terminal == s.terminal
            &&& step.0.query == s.query
            &&& step.0.settings == s.settings
        }),
{
    reveal(request_step);
    reveal(tree_toggled);
    reveal(refreshed);
}

/// One folder picker is up at a time. It starts where the workspace is, else
/// where the document lies.
pub proof fn one_folder_picker_at_a_time(s: Shell, facts: ShellFacts, now: Instant)
    ensures
        ({
            let step = request_step(s, ShellRequest::OpenFolderDialog, facts, now);
            let again = request_step(step.0, ShellRequest::OpenFolderDialog, facts, now);
            &&& s.at.folder_picker_open ==> step.0 == s && step.1.len() == 0
            &&& !s.at.folder_picker_open ==> {
                &&& step.0.at.folder_picker_open
                &&& tells(step.0, "Opening the folder picker..."@, Severity::Success, now)
                &&& step.1.len() == 1
                &&& facts.root is Some ==> step.1[0] == Action::PickFolder(Some(facts.root->0@))
                &&& facts.root is None && facts.parent is Some ==> step.1[0]
                    == Action::PickFolder(Some(facts.parent->0@))
                &&& facts.root is None && facts.parent is None ==> step.1[0]
                    == Action::<Seq<char>>::PickFolder(None)
            }
            &&& again.0 == step.0
            &&& again.1.len() == 0
        }),
{
    reveal(request_step);
    reveal(folder_asked);
}

/// The folder that was picked, and no other, is opened. Another picker may
/// come up after any answer, and only a failure is told.
pub proof fn the_picked_folder_is_opened(s: Shell, dir: Seq<char>, error: Seq<char>, now: Instant)
    ensures
        ({
            let picked = folder_answered(s, Picked::Folder(dir), now);
            &&& picked.1 == seq![Action::OpenWorkspace(dir), Action::Redraw]
            &&& !picked.0.at.folder_picker_open
            &&& picked.0.message is None
        }),
        ({
            let cancelled = folder_answered(s, Picked::Cancelled, now);
            &&& cancelled.1 == seq![Action::<Seq<char>>::Redraw]
            &&& !cancelled.0.at.folder_picker_open
            &&& cancelled.0.message is None
        }),
        ({
            let failed = folder_answered(s, Picked::Failed(error), now);
            &&& failed.1 == seq![Action::<Seq<char>>::Redraw]
            &&& !failed.0.at.folder_picker_open
            &&& tells(failed.0, error, Severity::Error, now)
        }),
{
    reveal(folder_answered);
}

/// A workspace that was opened is what the explorer shows, and its settings
/// are read. One that could not be opened leaves everything but the message.
pub proof fn an_opened_workspace_is_shown(s: Shell, dir: Seq<char>, error: Seq<char>, now: Instant)
    ensures
        ({
            let opened = workspace_answered(s, dir, None, now);
            &&& opened.0.tree_root == Some(dir)
            &&& opened.0.at.list.active == Some(ListKind::FileTree)
            &&& opened.0.at.list.selected == 0
            &&& opened.0.at.focus == InputFocus::List
            &&& opened.1.contains(Action::<Seq<char>>::ReloadSettings)
            &&& opened.1.contains(Action::<Seq<char>>::Redraw)
        }),
        ({
            let failed = workspace_answered(s, dir, Some(error), now);
            &&& same_but_told(s, failed.0)
            &&& tells(failed.0, error, Severity::Error, now)
            &&& failed.1.len() == 0
        }),
{
    reveal(workspace_answered);
    let step = workspace_answered(s, dir, None, now);
    assert(step.1[0] == Action::<Seq<char>>::ReloadSettings);
    assert(step.1[1] == Action::<Seq<char>>::Redraw);
}

/// The git panel is not shown before git has answered: it is asked first, and
/// the answer shows the panel from its top. Asked for while it is shown, the
/// panel closes, and git is not asked.
pub proof fn git_is_asked_before_it_is_shown(
    s: Shell,
    facts: ShellFacts,
    error: Seq<char>,
    now: Instant,
)
    ensures
        ({
            let step = request_step(s, ShellRequest::ToggleGitStatus, facts, now);
            &&& s.at.list.active != Some(ListKind::GitStatus) ==> {
                &&& step.0 == s
                &&& step.1 == seq![Action::<Seq<char>>::RequestGitStatus]
            }
            &&& s.at.list.active == Some(ListKind::GitStatus) ==> {
                &&& step.0.at.list.active is None
                &&& step.0.at.list.selected == s.at.list.selected
                &&& step.1 == seq![Action::<Seq<char>>::Redraw]
            }
        }),
        ({
            let shown = git_answered(s, None, now);
            &&& shown.0.at.list.active == Some(ListKind::GitStatus)
            &&& shown.0.at.list.selected == 0
            &&& shown.0.at.focus == InputFocus::List
            &&& shown.0.tree_root == s.tree_root
            &&& shown.1 == seq![Action::<Seq<char>>::Redraw]
        }),
        ({
            let failed = git_answered(s, Some(error), now);
            &&& same_but_told(s, failed.0)
            &&& tells(failed.0, error, Severity::Error, now)
            &&& failed.1.len() == 0
        }),
{
    reveal(request_step);
    reveal(git_toggled);
    reveal(git_answered);
    reveal(refreshed);
}

/// The search opens with nothing typed, the keyboard in its field and its
/// results in the sidebar, whatever was searched for before.
pub proof fn the_search_opens_empty(s: Shell, facts: ShellFacts, now: Instant)
    ensures
        ({
            let step = request_step(s, ShellRequest::WorkspaceSearch, facts, now);
            &&& step.0.query is Some
            &&& step.0.query->0.len() == 0
            &&& step.0.at.focus == InputFocus::SearchQuery
            &&& step.0.at.list.active == Some(ListKind::SearchResults)
            &&& step.0.at.list.selected == 0
            &&& step.0.at.list.deadline is None
            &&& step.0.tree_root == s.tree_root
            &&& step.0.terminal == s.terminal
            &&& step.1 == seq![Action::<Seq<char>>::Redraw]
        }),
{
    reveal(request_step);
    reveal(search_opened);
}

/// The terminal that is shown is hidden, and one that is hidden is shown with
/// the keyboard in it; before there is a shell, one is started first. Nothing
/// that was typed or printed is touched by any of it.
pub proof fn the_terminal_comes_and_goes(
    s: Shell,
    facts: ShellFacts,
    error: Seq<char>,
    now: Instant,
)
    ensures
        ({
            let step = request_step(s, ShellRequest::ToggleTerminal, facts, now);
            let waits = !s.terminal.visible && facts.shell == ShellState::NotStarted;
            &&& waits ==> step.0 == s && step.1 == seq![Action::<Seq<char>>::SpawnTerminal]
            &&& !waits ==> {
                &&& step.0.terminal.visible == !s.terminal.visible
                &&& step.0.terminal == (Panel { visible: !s.terminal.visible, ..s.terminal })
                &&& step.1 == seq![Action::<Seq<char>>::Redraw]
            }
            &&& !waits && !s.terminal.visible ==> step.0.at.focus == InputFocus::Terminal
            &&& s.terminal.visible ==> step.0.at.focus != InputFocus::Terminal
            &&& step.0.at.list == s.at.list
            &&& step.0.query == s.query
        }),
        ({
            let started = spawn_answered(s, None, now);
            &&& started.0.terminal == (Panel { visible: true, ..s.terminal })
            &&& started.0.at.focus == InputFocus::Terminal
            &&& started.1 == seq![Action::<Seq<char>>::Redraw]
        }),
        ({
            let failed = spawn_answered(s, Some(error), now);
            &&& same_but_told(s, failed.0)
            &&& tells(failed.0, "could not start a shell: "@ + error, Severity::Error, now)
            &&& failed.1.len() == 0
        }),
{
    reveal(request_step);
    reveal(terminal_toggled);
    reveal(spawn_answered);
    reveal(refreshed);
}

/// The dependency view that is shown closes, and one that is not opens in the
/// sidebar's place. Opening it reads the saved graph only while there is none
/// in hand.
pub proof fn the_dependency_view_comes_and_goes(s: Shell, facts: ShellFacts, now: Instant)
    ensures
        ({
            let step = request_step(s, ShellRequest::ToggleDependencyView, facts, now);
            &&& step.0.at.graph.view == !s.at.graph.view
            &&& step.0.at.graph.settled == s.at.graph.settled
            &&& step.0.at.graph.from_cache == s.at.graph.from_cache
            &&& step.0.at.graph.press is None
            &&& s.at.graph.view ==> step.0.at.list == s.at.list && step.1
                == seq![Action::<Seq<char>>::Redraw]
            &&& !s.at.graph.view ==> step.0.at.list.active is None && step.0.at.graph.hovered
                is None
            &&& !s.at.graph.view && s.at.graph.settled ==> step.1
                == seq![Action::<Seq<char>>::Redraw]
            &&& !s.at.graph.view && !s.at.graph.settled ==> step.1
                == seq![Action::<Seq<char>>::LoadGraph]
            &&& step.0.settings == s.settings
            &&& step.0.terminal == s.terminal
            &&& step.0.query == s.query
        }),
{
    reveal(request_step);
    reveal(graph_toggled);
    reveal(refreshed);
}

/// Refreshing the dependency view scans the workspace, with the view up, even
/// where a graph is in hand. Without a workspace there is nothing to scan, and
/// that is told.
pub proof fn refreshing_scans_the_workspace(s: Shell, facts: ShellFacts, now: Instant)
    ensures
        ({
            let step = request_step(s, ShellRequest::RefreshDependencyView, facts, now);
            &&& facts.root is Some ==> {
                &&& step.0.at.graph.view
                &&& step.0.at.list.active is None
                &&& step.1.len() == 2
                &&& step.1[0] == Action::<Seq<char>>::ScanGraph
                &&& step.1[1] == Action::Say(
                    "Rescanning the workspace for dependencies..."@,
                    Severity::Success,
                )
            }
            &&& facts.root is None ==> {
                &&& same_but_told(s, step.0)
                &&& tells(step.0, "Dependency view: open a folder first"@, Severity::Warning, now)
                &&& step.1.len() == 0
            }
        }),
{
    reveal(request_step);
    reveal(graph_refreshed);
    reveal(refreshed);
}

/// A scan that starts throws away what was known, and one that does not leaves
/// it and says why.
pub proof fn a_started_scan_forgets_the_graph(s: Shell, error: Seq<char>, now: Instant)
    ensures
        ({
            let started = scan_answered(s, None, now);
            &&& !started.0.at.graph.settled
            &&& !started.0.at.graph.from_cache
            &&& started.0.at.graph.hovered is None
            &&& started.0.at.graph.view == s.at.graph.view
            &&& started.0.message == s.message
            &&& started.1 == seq![Action::<Seq<char>>::Redraw]
        }),
        ({
            let failed = scan_answered(s, Some(error), now);
            &&& same_but_told(s, failed.0)
            &&& tells(failed.0, "Dependency view: "@ + error, Severity::Warning, now)
            &&& failed.1.len() == 0
        }),
{
    reveal(scan_answered);
}

/// A graph that arrives is in hand from then on, so that opening the view
/// again shows it as it is. What is told of it counts its files before its
/// links, and a graph that may be out of date or incomplete says so.
pub proof fn an_arrived_graph_is_in_hand(
    s: Shell,
    files: u64,
    edges: u64,
    source: GraphSource,
    find_open: bool,
    now: Instant,
)
    ensures
        ({
            let after = graph_adopted(s, files, edges, source, now);
            let counted = "Dependencies: "@ + decimal(files as nat) + " files, "@ + decimal(
                edges as nat,
            ) + " links"@;
            &&& after.at.graph.settled
            &&& after.at.graph.view == s.at.graph.view
            &&& after.at.graph.from_cache == (source == GraphSource::Saved)
            &&& graph_toggled(after, false, find_open).1 == seq![Action::<Seq<char>>::Redraw]
            &&& source == GraphSource::Scan ==> tells(after, counted, Severity::Success, now)
            &&& source == GraphSource::Saved ==> tells(
                after,
                counted + " (saved; Ctrl+Shift+R to rescan)"@,
                Severity::Success,
                now,
            )
            &&& source == GraphSource::PartialScan ==> tells(
                after,
                counted + " (workspace too large; the scan stopped early)"@,
                Severity::Warning,
                now,
            )
        }),
{
    reveal(graph_adopted);
    reveal(graph_toggled);
    reveal(refreshed);
    reveal_strlit("");
    let counted = "Dependencies: "@ + decimal(files as nat) + " files, "@ + decimal(edges as nat)
        + " links"@;
    assert(counted + ""@ =~= counted);
}

/// Quitting with nothing unsaved is due at once. With unsaved documents the
/// first request only warns, of how many there are, and a second one in a row
/// is due without another warning.
pub proof fn quitting_warns_of_unsaved_documents(s: Shell, facts: ShellFacts, now: Instant)
    ensures
        ({
            let step = request_step(s, ShellRequest::Quit, facts, now);
            let warns = facts.dirty > 0 && !s.at.exit.confirm_pending;
            &&& warns ==> {
                &&& step.0.at.exit.confirm_pending
                &&& step.0.at.exit.due == s.at.exit.due
                &&& tells(
                    step.0,
                    decimal(facts.dirty as nat)
                        + " unsaved document(s). Press Ctrl+Q again to quit without saving."@,
                    Severity::Warning,
                    now,
                )
                &&& request_step(step.0, ShellRequest::Quit, facts, now).0.at.exit.due
            }
            &&& !warns ==> step.0.at.exit.due && step.0.message == s.message
                && !step.0.at.exit.confirm_pending
            &&& step.0.at.exit.after_save == s.at.exit.after_save
            &&& step.1 == seq![Action::<Seq<char>>::Redraw]
        }),
{
    reveal(request_step);
    reveal(quit_requested);
}

/// A fault is put into a load of the last file: that file is closed, then
/// loaded again with the fault that was asked for, under the eyes of the
/// developer panel. Before any file has been opened there is none to load.
pub proof fn a_fault_is_put_into_the_last_file(s: Shell, facts: ShellFacts, now: Instant)
    ensures
        ({
            let slow = request_step(s, ShellRequest::DiagnosticsSlowLoad, facts, now);
            let failing = request_step(s, ShellRequest::DiagnosticsFailingLoad, facts, now);
            let storm = request_step(s, ShellRequest::DiagnosticsDuplicateStorm, facts, now);
            &&& s.diagnostics_path is Some ==> {
                let path = s.diagnostics_path->0;
                &&& slow.0.at.panels.dev
                &&& failing.0.at.panels.dev
                &&& tells(slow.0, "Slow-loading"@ + " "@ + path, Severity::Warning, now)
                &&& tells(failing.0, "Failing load of"@ + " "@ + path, Severity::Warning, now)
                &&& slow.1 == seq![
                    Action::CloseTarget(path),
                    Action::OpenInjected(path, Injection::Slow),
                ]
                &&& failing.1 == seq![
                    Action::CloseTarget(path),
                    Action::OpenInjected(path, Injection::Failing),
                ]
                &&& storm.0 == s
                &&& storm.1 == seq![Action::CloseTarget(path), Action::RequestStorm(path)]
            }
            &&& s.diagnostics_path is None ==> {
                &&& same_but_told(s, slow.0)
                &&& slow.0 == failing.0
                &&& slow.0 == storm.0
                &&& tells(slow.0, "Open a file first (Ctrl+O)"@, Severity::Warning, now)
                &&& slow.1.len() == 0
                &&& failing.1.len() == 0
                &&& storm.1.len() == 0
            }
        }),
{
    reveal(request_step);
    reveal(injected_load);
    reveal(storm_started);
}

/// After several requests at once, the count of those that joined one task is
/// told, and the developer panel is up to show it.
pub proof fn the_joined_requests_are_counted(
    s: Shell,
    joined: usize,
    error: Seq<char>,
    now: Instant,
)
    ensures
        ({
            let after = storm_answered(s, joined, None, now);
            &&& after.0.at.panels.dev
            &&& tells(
                after.0,
                "Issued 5 requests for one path; "@ + decimal(joined as nat)
                    + " joined the same task"@,
                Severity::Success,
                now,
            )
            &&& after.1 == seq![Action::<Seq<char>>::Redraw]
        }),
        ({
            let failed = storm_answered(s, joined, Some(error), now);
            &&& same_but_told(s, failed.0)
            &&& tells(failed.0, error, Severity::Error, now)
        }),
{
    reveal(storm_answered);
}

/// A click on an activity shows it and nothing else: the explorer, the search
/// and the dependency view come up in each other's place, and git is asked
/// first.
pub proof fn a_click_shows_one_activity(s: Shell, facts: ShellFacts, now: Instant)
    ensures
        ({
            let explorer = activity_step(s, 0, facts, now).0;
            &&& !explorer.at.graph.view
            &&& explorer.query is None
            &&& s.at.list.active != Some(ListKind::FileTree) && facts.root is Some ==> {
                &&& explorer.at.list.active == Some(ListKind::FileTree)
                &&& explorer.tree_root == Some(facts.root->0@)
            }
            &&& s.at.list.active == Some(ListKind::FileTree) ==> explorer.at.list.active is None
        }),
        ({
            let search = activity_step(s, 1, facts, now).0;
            let was_shown = !s.at.graph.view && (s.query is Some || s.at.list.active == Some(
                ListKind::SearchResults,
            ));
            &&& !search.at.graph.view
            &&& was_shown ==> search.query is None && search.at.list.active is None
            &&& !was_shown ==> {
                &&& search.at.list.active == Some(ListKind::SearchResults)
                &&& search.query == Some(Seq::<char>::empty())
                &&& search.at.focus == InputFocus::SearchQuery
            }
        }),
        ({
            let git = activity_step(s, 2, facts, now);
            &&& !git.0.at.graph.view
            &&& git.0.query is None
            &&& s.at.list.active == Some(ListKind::GitStatus) ==> git.0.at.list.active is None
            &&& s.at.list.active != Some(ListKind::GitStatus) ==> {
                &&& git.0.at.list.active == s.at.list.active
                &&& git.1 == seq![Action::<Seq<char>>::RequestGitStatus]
            }
        }),
        ({
            let graph = activity_step(s, 5, facts, now).0;
            &&& graph.at.graph.view == !s.at.graph.view
            &&& graph.query is None
            &&& !s.at.graph.view ==> graph.at.list.active is None
        }),
{
    reveal(activity_step);
    reveal(tree_toggled);
    reveal(git_toggled);
    reveal(graph_toggled);
    reveal(search_opened);
    reveal(refreshed);
}

/// The rows of the activity bar that have nothing behind them show nothing and
/// ask for nothing.
pub proof fn an_empty_activity_shows_nothing(
    s: Shell,
    index: usize,
    facts: ShellFacts,
    now: Instant,
)
    requires
        index == 3 || index == 4,
    ensures
        ({
            let step = activity_step(s, index, facts, now);
            &&& step.1.len() == 0
            &&& step.0.at.list == s.at.list
            &&& step.0.terminal == s.terminal
            &&& step.0.message == s.message
            &&& step.0.at.focus == s.at.focus
        }),
{
    reveal(activity_step);
}

/// Closing the sidebar takes the list off the screen and the keyboard out of
/// it, and changes nothing else.
pub proof fn closing_the_sidebar_leaves_the_rest(s: Shell, find_open: bool)
    ensures
        ({
            let after = list_closed(s, find_open);
            &&& after.at.list.active is None
            &&& after.at.focus != InputFocus::List
            &&& same_but_focus(
                Shell {
                    at: Surface { list: ListPanel { active: None, ..s.at.list }, ..s.at },
                    ..s
                },
                after,
            )
        }),
{
    reveal(refreshed);
}

/// The settings come up over the dependency view and go away leaving
/// everything else as it was.
pub proof fn the_settings_come_and_go(s: Shell, facts: ShellFacts, now: Instant)
    ensures
        ({
            let step = request_step(s, ShellRequest::ToggleSettings, facts, now);
            &&& step.0.settings.open == !s.settings.open
            &&& step.0.at.graph.view == (s.at.graph.view && s.settings.open)
            &&& step.0.at.list == s.at.list
            &&& step.0.terminal == s.terminal
            &&& step.0.query == s.query
            &&& step.0.message == s.message
            &&& step.1 == seq![Action::<Seq<char>>::Redraw]
        }),
{
    reveal(request_step);
    reveal(settings_toggled);
    reveal(refreshed);
}

/// What the folder picker came back with is read as it stands.
pub proof fn the_pickers_answer_is_read_as_it_stands(text: String)
    ensures
        picked_view(Picked::Folder(text)) == Picked::Folder(text@),
        picked_view(Picked::Failed(text)) == Picked::Failed(text@),
        picked_view(Picked::Cancelled) == Picked::<Seq<char>>::Cancelled,
{
}

} // verus!
