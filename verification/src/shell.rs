//! The shell's state, and what moves it.
//!
//! [`LightSpeed`] holds everything the window remembers between two events:
//! which surface has the keyboard, which panels are open, what has been typed
//! into them, what is being waited for.  An event is handed to one of its
//! methods together with what the editing engine and the window say at that
//! moment; the method changes the state and answers with the [`Action`]s the
//! program then carries out, in order.  Actions that can fail come back as a
//! call of their own.
//!
//! The methods are spread over several modules: the keyboard, the pointer, the
//! requests that commands make, and the passing of time each have one.

use crate::clock::{woken, Caret, Instant, NANOS_PER_MILLI};
use crate::focus::{derive_focus, derived_focus, InputFocus};
use crate::keymap::CommandArgs;
use crate::lists::{path_set, ListKind};
use crate::menu::{closed_menu, MenuState};
use crate::palette::{offered_rows, opened, unopened, CommandDescriptor, CommandPalette, Palette};
use crate::settings::{
    change_view, unopened_settings, SettingChange, Settings, SettingsScreen,
};
use crate::status::{
    message_view, opt_view, prompt_view, ExternalState, ExternalWatch, Prompt, Severity,
    StatusMessage,
};
use crate::terminal::{fresh, Panel, TerminalPanel};
use crate::text::equal;
use std::collections::HashMap;
use vstd::prelude::*;

verus! {

broadcast use vstd::std_specs::hash::group_hash_axioms;

/// How the user answered a confirmation.
#[derive(Copy, Clone, Debug, PartialEq, Eq, Structural)]
pub enum PromptAnswer {
    Save,
    Discard,
    Cancel,
}

/// How often open documents are checked against disk, in milliseconds.
pub const EXTERNAL_WATCH_INTERVAL: u64 = 1500;

/// A click: when it was, and how many have now landed in the same place.
#[derive(Copy, Clone, Debug, PartialEq, Eq)]
pub struct Click {
    pub at: Instant,
    pub count: u32,
}

/// A document that closes once its save is done.
#[derive(Copy, Clone, Debug, PartialEq, Eq)]
pub struct PendingClose {
    pub document: u64,
    /// Whether the program ends with it.
    pub quitting: bool,
}

/// The sidebar's list.
#[derive(Copy, Clone, Debug)]
pub struct ListPanel {
    /// Which navigable list is shown, if any.
    pub active: Option<ListKind>,
    pub selected: usize,
    /// When the debounced workspace search runs, if a query is waiting.
    pub deadline: Option<Instant>,
}

/// The panels that a command shows and hides.
#[derive(Copy, Clone, Debug)]
pub struct Panels {
    /// The performance overlay.
    pub overlay: bool,
    /// The loading panel.
    pub dev: bool,
    /// The resource center.
    pub resources: bool,
    pub status_bar: bool,
}

/// What the pointer is dragging while its button is held.
#[derive(Copy, Clone, Debug)]
pub struct Drag {
    pub selection: bool,
    pub scrollbar: bool,
    pub sidebar: bool,
    pub bottom_panel: bool,
}

/// What the pointer is over.
#[derive(Copy, Clone, Debug)]
pub struct Hover {
    pub sidebar_grip: bool,
    pub bottom_grip: bool,
    /// The sidebar line, counted from the top of the panel.
    pub row: Option<usize>,
    /// The activity-bar row.
    pub activity: Option<usize>,
}

/// What stands between a request to quit and the end.
#[derive(Copy, Clone, Debug)]
pub struct Exit {
    /// Whether quitting was asked for once with unsaved documents.
    pub confirm_pending: bool,
    /// A document to close once its save is done.
    pub after_save: Option<PendingClose>,
    /// Whether the program is to end now.
    pub due: bool,
}

/// The dependency view.
#[derive(Copy, Clone, Debug)]
pub struct GraphPane {
    /// Whether it has taken over the editor area.
    pub view: bool,
    /// Whether a settled graph is in hand.
    pub settled: bool,
    /// Whether it came off the disk rather than a scan.
    pub from_cache: bool,
    /// The node under the pointer, traced along its edges.
    pub hovered: Option<usize>,
    /// A press held over the graph, and the node it began on.
    pub press: Option<Option<usize>>,
}

/// How the view follows the documents.
#[derive(Copy, Clone, Debug)]
pub struct Follow {
    /// The document last seen as active.
    pub last_active: Option<u64>,
    /// Set when the caret moved and the view should follow it.
    pub reveal: bool,
}

/// Everything with an instant in it.
#[derive(Copy, Clone, Debug)]
pub struct Timing {
    pub caret: Caret,
    pub last_click: Option<Click>,
    /// When open documents are next checked against disk.
    pub next_watch: Instant,
    /// When the input that still waits for a frame arrived.
    pub pending_input: Option<Instant>,
}

/// What the frames drawn so far have left behind.
#[derive(Copy, Clone, Debug)]
pub struct Frames {
    /// When the process was last looked at.
    pub last_sample: Instant,
    /// Whether the first frame has been reported.
    pub reported: bool,
}

/// The part of the state that holds no text.
#[derive(Copy, Clone, Debug)]
pub struct Surface {
    /// Who consumes keys and the wheel.
    pub focus: InputFocus,
    pub menu: MenuState,
    pub list: ListPanel,
    pub panels: Panels,
    pub drag: Drag,
    pub hover: Hover,
    pub exit: Exit,
    pub graph: GraphPane,
    /// Whether a folder picker is already on screen.
    pub folder_picker_open: bool,
    pub follow: Follow,
    pub timing: Timing,
    pub frames: Frames,
}

/// Everything the window remembers between two events.
#[derive(Clone, Debug)]
pub struct LightSpeed {
    pub at: Surface,
    pub palette: CommandPalette,
    pub settings: SettingsScreen,
    pub terminal: TerminalPanel,
    /// The confirmation the user is being asked for, if any.
    pub prompt: Option<Prompt<String>>,
    pub message: Option<StatusMessage<String>>,
    /// The workspace-search query as it is being typed; `None` while the field
    /// is closed.
    pub query: Option<Vec<char>>,
    /// Which directories of the tree are expanded.
    pub expanded: Vec<String>,
    pub tree_root: Option<String>,
    /// Path the diagnostics commands act on: the last file that was opened.
    pub diagnostics_path: Option<String>,
    /// A line to jump to once the file that holds it has opened.
    pub pending_jump: Option<(String, usize)>,
    pub external: ExternalWatch,
    /// When each load in flight was asked for.
    pub loading: HashMap<u64, Instant>,
    /// The window's title.
    pub title: String,
}

/// The shell in contracts.
pub struct Shell {
    pub at: Surface,
    pub palette: Palette,
    pub settings: Settings,
    pub terminal: Panel,
    pub prompt: Option<Prompt<Seq<char>>>,
    pub message: Option<StatusMessage<Seq<char>>>,
    pub query: Option<Seq<char>>,
    pub expanded: Set<Seq<char>>,
    pub tree_root: Option<Seq<char>>,
    pub diagnostics_path: Option<Seq<char>>,
    pub pending_jump: Option<(Seq<char>, usize)>,
    pub external: Map<u64, ExternalState>,
    pub loading: Map<u64, Instant>,
    pub title: Seq<char>,
}

/// A jump with its path as characters.
pub open spec fn jump_view(jump: Option<(String, usize)>) -> Option<(Seq<char>, usize)> {
    match jump {
        Some((path, line)) => Some((path@, line)),
        None => None,
    }
}

impl View for LightSpeed {
    type V = Shell;

    open spec fn view(&self) -> Shell {
        Shell {
            at: self.at,
            palette: self.palette@,
            settings: self.settings@,
            terminal: self.terminal@,
            prompt: prompt_view(self.prompt),
            message: message_view(self.message),
            query: crate::lists::typed_view(self.query),
            expanded: path_set(self.expanded@),
            tree_root: opt_view(self.tree_root),
            diagnostics_path: opt_view(self.diagnostics_path),
            pending_jump: jump_view(self.pending_jump),
            external: self.external@,
            loading: self.loading@,
            title: self.title@,
        }
    }
}

// --- what the program is asked to do -----------------------------------------

/// A fault put into a load on purpose.
#[derive(Copy, Clone, Debug, PartialEq, Eq, Structural)]
pub enum Injection {
    Slow,
    Failing,
}

/// The shape of the pointer.
#[derive(Copy, Clone, Debug, PartialEq, Eq, Structural)]
pub enum CursorShape {
    Arrow,
    ColumnResize,
    RowResize,
}

/// Something the program carries out for the shell. `T` is how text is held.
#[derive(Clone, Debug, PartialEq, Eq)]
pub enum Action<T> {
    /// Draw a frame.
    Redraw,
    /// Run a command of the registry; a refusal is reported back.
    Execute(&'static str, CommandArgs<T>),
    /// Run a command of the registry, whatever comes of it.
    Attempt(&'static str),
    /// The engine's state may have changed: look at it again.
    StateChanged,
    /// Handle what the engine has asked of the shell.
    TakeRequests,
    /// Report the engine's last error, if it has one.
    TakeError,
    OpenFileDialog,
    SaveAsDialog,
    /// Ask for a folder, starting in this one.
    PickFolder(Option<T>),
    OpenPath(T),
    /// Open this folder as the workspace; the outcome is reported back.
    OpenWorkspace(T),
    OpenInjected(T, Injection),
    /// Ask for this path several times over.
    RequestStorm(T),
    /// Close the document for this path, edits and all, if one is open.
    CloseTarget(T),
    ActivateTab(u64),
    /// Make this document the active one; a refusal is reported back.
    SetActive(u64),
    /// Close this document unless it is dirty; the outcome is reported back.
    CloseDocument(u64),
    CloseDiscarding(u64),
    /// Save this document, to close it afterwards.
    SaveToClose { document: u64, name: T, quitting: bool },
    /// Close this document now that it is saved; the outcome is reported back.
    CloseSaved(PendingClose),
    /// Bring the language server up to date with the active document.
    SyncServer,
    /// Settle a scan that is complete.
    AdoptScan,
    /// Compare the open documents with their files.
    PollDisk,
    /// Keep the list of recent files.
    SaveRecent,
    RequestGitStatus,
    RequestSearch(T),
    /// Read the expanded directories again, and bring the selection in range.
    RereadTree,
    ReloadSettings,
    /// Read the graph saved for this workspace, or scan it.
    LoadGraph,
    ScanGraph,
    /// Put the whole graph back on screen.
    FitGraph,
    DragGraph,
    FindClose,
    FindQuery(T),
    FindNext,
    FindPrevious,
    ChangeSetting(SettingChange<T>),
    SpawnTerminal,
    SendLine(T),
    /// Let go of a shell that has exited.
    DropTerminal,
    /// Say this in the status bar, after what came before.
    Say(T, Severity),
    /// Move the caret to this line of the active document, counted from 0.
    GoToLine(usize),
    /// Move the caret to the pointer, extending the selection or not.
    PlaceCaret(bool),
    ScrollToPointer,
    ResizeSidebar,
    ResizeBottomPanel,
    SetCursor(CursorShape),
}

/// A command's arguments with their text as characters.
pub open spec fn args_view(args: CommandArgs<String>) -> CommandArgs<Seq<char>> {
    match args {
        CommandArgs::Nothing => CommandArgs::Nothing,
        CommandArgs::Text(text) => CommandArgs::Text(text@),
        CommandArgs::Index(index) => CommandArgs::Index(index),
    }
}

/// An action with its text as characters.
pub open spec fn action_view(action: Action<String>) -> Action<Seq<char>> {
    match action {
        Action::Redraw => Action::Redraw,
        Action::Execute(id, args) => Action::Execute(id, args_view(args)),
        Action::Attempt(id) => Action::Attempt(id),
        Action::StateChanged => Action::StateChanged,
        Action::TakeRequests => Action::TakeRequests,
        Action::TakeError => Action::TakeError,
        Action::OpenFileDialog => Action::OpenFileDialog,
        Action::SaveAsDialog => Action::SaveAsDialog,
        Action::PickFolder(start) => Action::PickFolder(opt_view(start)),
        Action::OpenPath(path) => Action::OpenPath(path@),
        Action::OpenWorkspace(path) => Action::OpenWorkspace(path@),
        Action::OpenInjected(path, injection) => Action::OpenInjected(path@, injection),
        Action::RequestStorm(path) => Action::RequestStorm(path@),
        Action::CloseTarget(path) => Action::CloseTarget(path@),
        Action::ActivateTab(id) => Action::ActivateTab(id),
        Action::SetActive(id) => Action::SetActive(id),
        Action::CloseDocument(id) => Action::CloseDocument(id),
        Action::CloseDiscarding(id) => Action::CloseDiscarding(id),
        Action::SaveToClose { document, name, quitting } => Action::SaveToClose {
            document,
            name: name@,
            quitting,
        },
        Action::CloseSaved(waiting) => Action::CloseSaved(waiting),
        Action::SyncServer => Action::SyncServer,
        Action::AdoptScan => Action::AdoptScan,
        Action::PollDisk => Action::PollDisk,
        Action::SaveRecent => Action::SaveRecent,
        Action::RequestGitStatus => Action::RequestGitStatus,
        Action::RequestSearch(query) => Action::RequestSearch(query@),
        Action::RereadTree => Action::RereadTree,
        Action::ReloadSettings => Action::ReloadSettings,
        Action::LoadGraph => Action::LoadGraph,
        Action::ScanGraph => Action::ScanGraph,
        Action::FitGraph => Action::FitGraph,
        Action::DragGraph => Action::DragGraph,
        Action::FindClose => Action::FindClose,
        Action::FindQuery(query) => Action::FindQuery(query@),
        Action::FindNext => Action::FindNext,
        Action::FindPrevious => Action::FindPrevious,
        Action::ChangeSetting(change) => Action::ChangeSetting(change_view(change)),
        Action::SpawnTerminal => Action::SpawnTerminal,
        Action::SendLine(line) => Action::SendLine(line@),
        Action::DropTerminal => Action::DropTerminal,
        Action::Say(text, severity) => Action::Say(text@, severity),
        Action::GoToLine(line) => Action::GoToLine(line),
        Action::PlaceCaret(extend) => Action::PlaceCaret(extend),
        Action::ScrollToPointer => Action::ScrollToPointer,
        Action::ResizeSidebar => Action::ResizeSidebar,
        Action::ResizeBottomPanel => Action::ResizeBottomPanel,
        Action::SetCursor(shape) => Action::SetCursor(shape),
    }
}

/// Actions with their texts as characters.
pub open spec fn action_views(actions: Seq<Action<String>>) -> Seq<Action<Seq<char>>> {
    Seq::new(actions.len(), |i: int| action_view(actions[i]))
}

/// Nothing to do.
pub fn no_action() -> (r: Vec<Action<String>>)
    ensures
        action_views(r@) == Seq::<Action<Seq<char>>>::empty(),
{
    let r: Vec<Action<String>> = Vec::new();
    assert(action_views(r@) =~= Seq::empty());
    r
}

/// One thing to do.
pub fn one_action(first: Action<String>) -> (r: Vec<Action<String>>)
    ensures
        action_views(r@) == seq![action_view(first)],
{
    let r = vec![first];
    assert(action_views(r@) =~= seq![action_view(first)]);
    r
}

/// Two things to do.
pub fn two_actions(first: Action<String>, second: Action<String>) -> (r: Vec<Action<String>>)
    ensures
        action_views(r@) == seq![action_view(first), action_view(second)],
{
    let r = vec![first, second];
    assert(action_views(r@) =~= seq![action_view(first), action_view(second)]);
    r
}

/// One more thing to do.
pub fn push_action(actions: &mut Vec<Action<String>>, next: Action<String>)
    ensures
        action_views(final(actions)@) == action_views(old(actions)@).push(action_view(next)),
{
    actions.push(next);
    assert(action_views(actions@) =~= action_views(old(actions)@).push(action_view(next)));
}

/// A frame, and nothing else.
pub open spec fn redraw() -> Seq<Action<Seq<char>>> {
    seq![Action::Redraw]
}

/// A text that may be there, copied.
pub fn copied(text: &Option<String>) -> (r: Option<String>)
    ensures
        opt_view(r) == opt_view(*text),
{
    match text {
        Some(text) => Some(text.clone()),
        None => None,
    }
}

/// Running a command: closing a tab asks first, so it is not left to the
/// registry while there is a tab to close.
pub open spec fn routed(id: &'static str, args: CommandArgs<Seq<char>>, active: Option<u64>) -> Seq<
    Action<Seq<char>>,
> {
    if id@ == "file.close_tab"@ && active is Some {
        seq![Action::CloseDocument(active->0), Action::StateChanged]
    } else {
        seq![Action::Execute(id, args), Action::StateChanged]
    }
}

/// Runs a command. Closing is the one action with a confirmation step, and
/// asking the user is the shell's job.
pub fn run_command(id: &'static str, args: CommandArgs<String>, active: Option<u64>) -> (r: Vec<
    Action<String>,
>)
    ensures
        action_views(r@) == routed(id, args_view(args), active),
{
    if equal(id, "file.close_tab") {
        if let Some(document) = active {
            return two_actions(Action::CloseDocument(document), Action::StateChanged);
        }
    }
    two_actions(Action::Execute(id, args), Action::StateChanged)
}

// --- how the state moves -----------------------------------------------------

/// The state the window opens with.
pub open spec fn initial(now: Instant) -> Shell {
    Shell {
        at: Surface {
            focus: InputFocus::Editor,
            menu: closed_menu(),
            folder_picker_open: false,
            list: ListPanel { active: None, selected: 0, deadline: None },
            panels: Panels { overlay: false, dev: false, resources: false, status_bar: true },
            drag: Drag { selection: false, scrollbar: false, sidebar: false, bottom_panel: false },
            hover: Hover { sidebar_grip: false, bottom_grip: false, row: None, activity: None },
            exit: Exit { confirm_pending: false, after_save: None, due: false },
            graph: GraphPane {
                view: false,
                settled: false,
                from_cache: false,
                hovered: None,
                press: None,
            },
            follow: Follow { last_active: None, reveal: true },
            timing: Timing {
                caret: woken(now),
                last_click: None,
                next_watch: crate::clock::later(
                    now,
                    (EXTERNAL_WATCH_INTERVAL * NANOS_PER_MILLI) as int,
                ),
                pending_input: None,
            },
            frames: Frames { last_sample: now, reported: false },
        },
        palette: unopened(),
        settings: unopened_settings(),
        terminal: fresh(),
        prompt: None,
        message: None,
        query: None,
        expanded: Set::empty(),
        tree_root: None,
        diagnostics_path: None,
        pending_jump: None,
        external: Map::empty(),
        loading: Map::empty(),
        title: Seq::empty(),
    }
}

/// The input target recomputed from the surfaces that are up.
#[verifier::opaque]
pub open spec fn refreshed(s: Shell, find_open: bool) -> Shell {
    Shell {
        at: Surface { focus: derived_focus(
                s.at.focus,
                s.prompt is Some,
                s.at.menu.open is Some,
                s.query is Some,
                find_open,
                s.at.list.active is Some,
                s.terminal.visible,
                s.palette.open,
            ), ..s.at },
        ..s
    }
}

/// A message in the status bar.
pub open spec fn said(s: Shell, text: Seq<char>, severity: Severity, now: Instant) -> Shell {
    Shell { message: Some(StatusMessage { text, at: now, severity }), ..s }
}

/// The editor given the keyboard, its caret on screen and solid.
pub open spec fn editor_focused(s: Shell, now: Instant) -> Shell {
    Shell {
        at: Surface {
            menu: closed_menu(),
            focus: InputFocus::Editor,
            follow: Follow { reveal: true, ..s.at.follow },
            timing: Timing { caret: woken(now), ..s.at.timing },
            ..s.at
        },
        ..s
    }
}

/// The sidebar's list given the keyboard.
pub open spec fn list_focused(s: Shell) -> Shell {
    Shell { at: Surface { menu: closed_menu(), focus: InputFocus::List, ..s.at }, ..s }
}

/// The terminal given the keyboard.
pub open spec fn terminal_focused(s: Shell) -> Shell {
    Shell { at: Surface { menu: closed_menu(), focus: InputFocus::Terminal, ..s.at }, ..s }
}

/// The palette opened afresh.
#[verifier::opaque]
pub open spec fn palette_opened(s: Shell, find_open: bool) -> Shell {
    refreshed(
        Shell { at: Surface { menu: closed_menu(), ..s.at }, palette: opened(), ..s },
        find_open,
    )
}

/// The palette closed.
#[verifier::opaque]
pub open spec fn palette_closed(s: Shell, find_open: bool) -> Shell {
    refreshed(Shell { palette: Palette { open: false, ..s.palette }, ..s }, find_open)
}

/// The registry as the engine stands: every command, which of them can run
/// now, and which document is active.
#[derive(Clone, Debug)]
pub struct Registry {
    pub commands: Vec<CommandDescriptor>,
    pub enabled: Vec<String>,
    pub active: Option<u64>,
}

/// The palette closed, and the highlighted command run if there is one.
#[verifier::opaque]
pub open spec fn selection_run(s: Shell, registry: Registry, find_open: bool) -> (
    Shell,
    Seq<Action<Seq<char>>>,
) {
    let rows = offered_rows(registry.commands@, s.palette.query, registry.enabled@);
    let closed = palette_closed(s, find_open);
    if s.palette.selected < rows.len() {
        (
            closed,
            redraw() + routed(
                rows[s.palette.selected as int].id,
                CommandArgs::Nothing,
                registry.active,
            ),
        )
    } else {
        (closed, redraw())
    }
}

/// The settings screen opened or closed. Opening it puts the graph away.
#[verifier::opaque]
pub open spec fn settings_toggled(s: Shell, find_open: bool) -> Shell {
    let settings = crate::settings::toggled_settings(s.settings);
    refreshed(
        Shell {
            at: Surface {
                graph: GraphPane { view: s.at.graph.view && !settings.open, ..s.at.graph },
                ..s.at
            },
            settings,
            ..s
        },
        find_open,
    )
}

impl LightSpeed {
    /// The state the window opens with.
    pub fn new(now: Instant) -> (r: Self)
        ensures
            r@ == initial(now),
            crate::terminal::sound(r@.terminal),
    {
        let r = LightSpeed {
            at: Surface {
                focus: InputFocus::Editor,
                menu: MenuState { open: None, hovered_item: None },
                folder_picker_open: false,
                list: ListPanel { active: None, selected: 0, deadline: None },
                panels: Panels { overlay: false, dev: false, resources: false, status_bar: true },
                drag: Drag {
                    selection: false,
                    scrollbar: false,
                    sidebar: false,
                    bottom_panel: false,
                },
                hover: Hover { sidebar_grip: false, bottom_grip: false, row: None, activity: None },
                exit: Exit { confirm_pending: false, after_save: None, due: false },
                graph: GraphPane {
                    view: false,
                    settled: false,
                    from_cache: false,
                    hovered: None,
                    press: None,
                },
                follow: Follow { last_active: None, reveal: true },
                timing: Timing {
                    caret: Caret::new(now),
                    last_click: None,
                    next_watch: now.plus(
                        crate::clock::Duration { nanos: EXTERNAL_WATCH_INTERVAL * NANOS_PER_MILLI },
                    ),
                    pending_input: None,
                },
                frames: Frames { last_sample: now, reported: false },
            },
            palette: CommandPalette::new(),
            settings: SettingsScreen::new(),
            terminal: TerminalPanel::new(),
            prompt: None,
            message: None,
            query: None,
            expanded: Vec::new(),
            tree_root: None,
            diagnostics_path: None,
            pending_jump: None,
            external: ExternalWatch::new(),
            loading: HashMap::new(),
            title: String::new(),
        };
        assert(r@.expanded =~= Set::<Seq<char>>::empty());
        assert(r@.loading =~= Map::<u64, Instant>::empty());
        assert(r@.title =~= Seq::<char>::empty());
        r
    }

    /// Recomputes the input target from the surfaces that are up.
    pub fn refresh_focus(&mut self, find_open: bool)
        ensures
            final(self)@ == refreshed(old(self)@, find_open),
            final(self)@.terminal == old(self)@.terminal,
    {
        reveal(refreshed);
        let focus = derive_focus(
            self.at.focus,
            self.prompt.is_some(),
            self.at.menu.is_open(),
            self.query.is_some(),
            find_open,
            self.at.list.active.is_some(),
            self.terminal.is_visible(),
            self.palette.open,
        );
        self.at = Surface { focus, ..self.at };
    }

    /// Says something in the status bar.
    pub fn set_status(&mut self, text: String, severity: Severity, now: Instant)
        ensures
            final(self)@ == said(old(self)@, text@, severity, now),
    {
        self.message = Some(StatusMessage { text, at: now, severity });
    }

    /// Gives the editor input focus and puts the caret back on screen.
    pub fn focus_editor(&mut self, now: Instant)
        ensures
            final(self)@ == editor_focused(old(self)@, now),
    {
        self.at = Surface {
            menu: MenuState { open: None, hovered_item: None },
            focus: InputFocus::Editor,
            follow: Follow { reveal: true, ..self.at.follow },
            timing: Timing { caret: Caret::new(now), ..self.at.timing },
            ..self.at
        };
    }

    /// Gives the sidebar list input focus: an explicit act, since the panel
    /// stays open after it has lost the keyboard.
    pub fn focus_list(&mut self)
        ensures
            final(self)@ == list_focused(old(self)@),
    {
        self.at = Surface {
            menu: MenuState { open: None, hovered_item: None },
            focus: InputFocus::List,
            ..self.at
        };
    }

    /// Gives the terminal panel input focus, explicitly for the same reason.
    pub fn focus_terminal(&mut self)
        ensures
            final(self)@ == terminal_focused(old(self)@),
    {
        self.at = Surface {
            menu: MenuState { open: None, hovered_item: None },
            focus: InputFocus::Terminal,
            ..self.at
        };
    }

    /// Opens the command palette.
    pub fn open_command_palette(&mut self, find_open: bool)
        ensures
            final(self)@ == palette_opened(old(self)@, find_open),
            final(self)@.terminal == old(self)@.terminal,
    {
        reveal(palette_opened);
        self.at = Surface { menu: MenuState { open: None, hovered_item: None }, ..self.at };
        self.palette.show();
        self.refresh_focus(find_open);
    }

    /// Closes the command palette.
    pub fn close_command_palette(&mut self, find_open: bool)
        ensures
            final(self)@ == palette_closed(old(self)@, find_open),
            final(self)@.terminal == old(self)@.terminal,
    {
        reveal(palette_closed);
        self.palette.open = false;
        self.refresh_focus(find_open);
    }

    /// Runs the highlighted row, if any, and closes the palette either way.
    pub fn run_palette_selection(&mut self, registry: &Registry, find_open: bool) -> (r: Vec<
        Action<String>,
    >)
        ensures
            (final(self)@, action_views(r@)) == selection_run(old(self)@, *registry, find_open),
            final(self)@.terminal == old(self)@.terminal,
    {
        reveal(selection_run);
        let rows = self.palette.rows(&registry.commands, &registry.enabled);
        let selected = self.palette.selected;
        self.close_command_palette(find_open);
        let mut actions = one_action(Action::Redraw);
        if selected < rows.len() {
            let mut run = run_command(rows[selected].id, CommandArgs::Nothing, registry.active);
            let ghost first = action_views(actions@);
            let ghost then = action_views(run@);
            actions.append(&mut run);
            assert(action_views(actions@) =~= first + then);
        }
        actions
    }

    /// Opens or closes the settings screen.
    pub fn toggle_settings(&mut self, find_open: bool)
        ensures
            final(self)@ == settings_toggled(old(self)@, find_open),
            final(self)@.terminal == old(self)@.terminal,
    {
        reveal(settings_toggled);
        self.settings.toggle();
        let dependency_view = self.at.graph.view && !self.settings.open;
        self.at = Surface {
            graph: GraphPane { view: dependency_view, ..self.at.graph },
            ..self.at
        };
        self.refresh_focus(find_open);
    }
}

/// The settings screen never opens behind the graph.
pub proof fn opening_the_settings_puts_the_graph_away(s: Shell, find_open: bool)
    ensures
        settings_toggled(s, find_open).settings.open ==> !settings_toggled(
            s,
            find_open,
        ).at.graph.view,
{
    reveal(settings_toggled);
    reveal(refreshed);
}

/// Whichever surface had the keyboard, the palette has it once opened, unless
/// a confirmation is waiting.
pub proof fn the_palette_takes_the_keyboard(s: Shell, find_open: bool)
    requires
        s.prompt is None,
    ensures
        palette_opened(s, find_open).at.focus == InputFocus::CommandPalette,
        palette_opened(s, find_open).palette.open,
{
    reveal(palette_opened);
    reveal(refreshed);
}

/// A command is handed to the registry with the arguments it was given, and
/// whatever shows the state hears of it afterwards. Closing a tab is the one
/// command that is not: it asks about the document that is active.
pub proof fn a_command_goes_to_the_registry(
    id: &'static str,
    args: CommandArgs<Seq<char>>,
    active: Option<u64>,
)
    ensures
        routed(id, args, active).len() == 2,
        routed(id, args, active)[1] == Action::<Seq<char>>::StateChanged,
        id@ != "file.close_tab"@ ==> routed(id, args, active)[0] == Action::Execute(id, args),
        active is None ==> routed(id, args, active)[0] == Action::Execute(id, args),
        id@ == "file.close_tab"@ && active is Some ==> routed(id, args, active)[0]
            == Action::<Seq<char>>::CloseDocument(active->0),
{
}

/// The palette opens with nothing typed and the first row highlighted. Closing
/// it keeps what was typed until it is opened again.
pub proof fn the_palette_opens_afresh(s: Shell, find_open: bool)
    ensures
        ({
            let after = palette_opened(s, find_open);
            &&& after.palette.open
            &&& after.palette.query.len() == 0
            &&& after.palette.selected == 0
            &&& after.at.menu.open is None
            &&& after.at.list == s.at.list
            &&& after.terminal == s.terminal
            &&& after.query == s.query
        }),
        ({
            let after = palette_closed(s, find_open);
            &&& !after.palette.open
            &&& after.palette.query == s.palette.query
            &&& after.palette.selected == s.palette.selected
            &&& after.at.focus != InputFocus::CommandPalette
            &&& after.at.list == s.at.list
            &&& after.terminal == s.terminal
        }),
{
    reveal(palette_opened);
    reveal(palette_closed);
    reveal(refreshed);
}

/// The window opens on the editor: no panel but the status bar, nothing typed
/// anywhere, nothing asked and nothing told.
pub proof fn the_window_opens_on_the_editor(now: Instant)
    ensures
        ({
            let s = initial(now);
            &&& s.at.focus == InputFocus::Editor
            &&& s.at.menu.open is None
            &&& s.at.list.active is None
            &&& !s.at.panels.overlay
            &&& !s.at.panels.dev
            &&& !s.at.panels.resources
            &&& s.at.panels.status_bar
            &&& !s.at.drag.selection
            &&& !s.at.drag.scrollbar
            &&& !s.at.drag.sidebar
            &&& !s.at.drag.bottom_panel
            &&& !s.at.graph.view
            &&& !s.at.graph.settled
            &&& !s.at.folder_picker_open
            &&& !s.at.exit.due
            &&& !s.at.exit.confirm_pending
            &&& s.at.exit.after_save is None
            &&& !s.palette.open
            &&& !s.settings.open
            &&& !s.terminal.visible
            &&& s.prompt is None
            &&& s.message is None
            &&& s.query is None
            &&& s.tree_root is None
            &&& s.diagnostics_path is None
            &&& s.pending_jump is None
            &&& s.expanded == Set::<Seq<char>>::empty()
        }),
{
}

/// Giving the keyboard to a part of the window closes an open menu and touches
/// nothing that the part shows.
pub proof fn the_keyboard_moves_alone(s: Shell, now: Instant)
    ensures
        ({
            let after = editor_focused(s, now);
            &&& after.at.focus == InputFocus::Editor
            &&& after.at.menu.open is None
            &&& after.at.follow.reveal
            &&& after.at.list == s.at.list
            &&& after.terminal == s.terminal
            &&& after.message == s.message
        }),
        ({
            let after = list_focused(s);
            &&& after.at.focus == InputFocus::List
            &&& after.at.menu.open is None
            &&& after.at.list == s.at.list
            &&& after.terminal == s.terminal
        }),
        ({
            let after = terminal_focused(s);
            &&& after.at.focus == InputFocus::Terminal
            &&& after.at.menu.open is None
            &&& after.at.list == s.at.list
            &&& after.terminal == s.terminal
        }),
{
}

/// Enter in the palette closes it and runs the row that is highlighted; where
/// no row is, it only closes.
pub proof fn the_highlighted_command_is_run(s: Shell, registry: Registry, find_open: bool)
    ensures
        ({
            let rows = offered_rows(registry.commands@, s.palette.query, registry.enabled@);
            let step = selection_run(s, registry, find_open);
            let chosen = s.palette.selected < rows.len();
            &&& !step.0.palette.open
            &&& step.1[0] == Action::<Seq<char>>::Redraw
            &&& !chosen ==> step.1.len() == 1
            &&& chosen ==> step.1.len() == 3 && step.1[2] == Action::<Seq<char>>::StateChanged
            &&& chosen && (registry.active is None || rows[s.palette.selected as int].id@
                != "file.close_tab"@) ==> step.1[1] == Action::<Seq<char>>::Execute(
                rows[s.palette.selected as int].id,
                CommandArgs::Nothing,
            )
            &&& chosen && registry.active is Some && rows[s.palette.selected as int].id@
                == "file.close_tab"@ ==> step.1[1] == Action::<Seq<char>>::CloseDocument(
                registry.active->0,
            )
        }),
{
    reveal(selection_run);
    reveal(palette_closed);
    reveal(refreshed);
}

/// The window's state is read as it stands: nothing of it is left out and no
/// text of it changed.
pub proof fn the_state_is_read_as_it_stands(w: LightSpeed, path: Seq<char>)
    ensures
        w@.at == w.at,
        w@.title == w.title@,
        w.tree_root matches Some(root) ==> w@.tree_root == Some(root@),
        w.tree_root is None ==> w@.tree_root is None,
        w.diagnostics_path matches Some(path) ==> w@.diagnostics_path == Some(path@),
        w.diagnostics_path is None ==> w@.diagnostics_path is None,
        w.pending_jump matches Some(jump) ==> w@.pending_jump == Some((jump.0@, jump.1)),
        w.pending_jump is None ==> w@.pending_jump is None,
        w.query matches Some(query) ==> w@.query == Some(query@),
        w.query is None ==> w@.query is None,
        w.message matches Some(m) ==> {
            &&& w@.message is Some
            &&& w@.message->0.text == m.text@
            &&& w@.message->0.at == m.at
            &&& w@.message->0.severity == m.severity
        },
        w.message is None ==> w@.message is None,
        w.prompt is Some <==> w@.prompt is Some,
        w.prompt matches Some(Prompt::ConfirmClose { document, name, quitting }) ==> w@.prompt
            == Some(Prompt::ConfirmClose { document, name: name@, quitting }),
        w@.loading == w.loading@,
        w@.external == w.external@,
        w@.palette == w.palette@,
        w@.settings == w.settings@,
        w@.terminal == w.terminal@,
        w@.expanded.contains(path) <==> exists|i: int|
            0 <= i < w.expanded@.len() && (#[trigger] w.expanded@[i])@ == path,
{
}

/// What the program is asked to do is read as it stands, one for one and in
/// its order, with every text it carries.
pub proof fn the_actions_are_read_as_they_stand(
    actions: Seq<Action<String>>,
    i: int,
    id: &'static str,
    text: String,
    start: Option<String>,
    document: u64,
    quitting: bool,
    injection: Injection,
    severity: Severity,
)
    requires
        0 <= i < actions.len(),
    ensures
        action_views(actions).len() == actions.len(),
        action_views(actions)[i] == action_view(actions[i]),
        action_view(Action::Execute(id, CommandArgs::Text(text))) == Action::Execute(
            id,
            CommandArgs::Text(text@),
        ),
        action_view(Action::OpenPath(text)) == Action::OpenPath(text@),
        action_view(Action::OpenWorkspace(text)) == Action::OpenWorkspace(text@),
        action_view(Action::OpenInjected(text, injection)) == Action::OpenInjected(
            text@,
            injection,
        ),
        action_view(Action::RequestStorm(text)) == Action::RequestStorm(text@),
        action_view(Action::CloseTarget(text)) == Action::CloseTarget(text@),
        action_view(Action::RequestSearch(text)) == Action::RequestSearch(text@),
        action_view(Action::FindQuery(text)) == Action::FindQuery(text@),
        action_view(Action::SendLine(text)) == Action::SendLine(text@),
        action_view(Action::Say(text, severity)) == Action::Say(text@, severity),
        action_view(Action::PickFolder(Some(text))) == Action::PickFolder(Some(text@)),
        action_view(Action::PickFolder(None)) == Action::<Seq<char>>::PickFolder(None),
        action_view(Action::SaveToClose { document, name: text, quitting }) == (
        Action::SaveToClose { document, name: text@, quitting }),
        action_view(Action::CloseDocument(document)) == Action::<Seq<char>>::CloseDocument(
            document,
        ),
        action_view(Action::ActivateTab(document)) == Action::<Seq<char>>::ActivateTab(document),
        action_view(Action::SetActive(document)) == Action::<Seq<char>>::SetActive(document),
        action_view(Action::CloseDiscarding(document)) == Action::<Seq<char>>::CloseDiscarding(
            document,
        ),
{
}

} // verus!
