//! The keyboard: which surface a key belongs to, and what it does there.
//!
//! A confirmation gets the key first, then the settings screen, then the
//! shortcut that opens the palette; after that whichever surface has the
//! keyboard takes it, and only what nobody claims reaches the document.

use crate::clock::{later, Caret, Duration, Instant, NANOS_PER_MILLI};
use crate::focus::InputFocus;
use crate::keymap::{
    binding, find_action, is_command_palette_shortcut, opens_palette, prompt_answer, resolve,
    resolve_find, resolve_prompt, Binding, CommandArgs, FindAction, Key, Modifiers, NamedKey,
};
use crate::lists::{
    list_rows, matching_result, matching_search_result, row_view, row_views, rows_of, toggle_path,
    toggled_path, ListAction, ListFacts, ListKind, ListRow,
};
use crate::palette::{offered_rows, palette_step, PaletteRequest};
use crate::requests::{list_closed, terminal_toggled, ShellFacts, Step};
use crate::settings::{settings_step, SettingsReply};
use crate::shell::{
    action_views, args_view, no_action, one_action, palette_closed, palette_opened, redraw,
    refreshed, routed, run_command, said, selection_run, settings_toggled, two_actions, Action,
    Exit, LightSpeed, ListPanel, PromptAnswer, Registry, Shell, Surface, Timing,
};
use crate::status::{opt_view, Prompt, Severity};
use crate::terminal::{
    backspaced, deleted_forward, entered, inserted, moved, moved_left, moved_right, recalled_newer,
    recalled_older, sound, LineOutcome, Panel, ShellState,
};
use crate::text::{chars_of, equal, least, owned, printable, printable_of, string_of};
use vstd::prelude::*;

verus! {

/// How long typing has to pause before the workspace search runs, in
/// milliseconds.
pub const SEARCH_DEBOUNCE: u64 = 150;

/// A key going down.
#[derive(Clone, Debug)]
pub struct KeyEvent {
    pub key: Key,
    /// What the key types, if anything.
    pub text: Option<String>,
    pub modifiers: Modifiers,
}

/// What the engine and the window say at the moment of an event.
#[derive(Debug)]
pub struct Moment {
    pub shell: ShellFacts,
    pub registry: Registry,
    /// What the find bar holds.
    pub find_query: String,
    pub lists: ListFacts,
}

/// What a key types, without control characters; empty when it types nothing.
pub open spec fn typed(event: KeyEvent) -> Seq<char> {
    match event.text {
        Some(text) => printable(text@),
        None => Seq::empty(),
    }
}

/// The rows of the list on screen.
pub open spec fn shown_rows(s: Shell, lists: ListFacts) -> Seq<ListRow<Seq<char>>> {
    rows_of(s.at.list.active, lists, s.expanded, s.query, s.at.list.deadline is Some)
}

/// The list with another row selected.
pub open spec fn selecting(s: Shell, selected: usize) -> Shell {
    Shell { at: Surface { list: ListPanel { selected, ..s.at.list }, ..s.at }, ..s }
}

/// The selection one row down, in a list of `rows`.
pub open spec fn selected_down(s: Shell, rows: int) -> Shell {
    if rows > 0 {
        selecting(s, least(s.at.list.selected + 1, rows - 1) as usize)
    } else {
        s
    }
}

/// The selection one row up.
pub open spec fn selected_up(s: Shell) -> Shell {
    selecting(
        s,
        if s.at.list.selected > 0 {
            (s.at.list.selected - 1) as usize
        } else {
            0
        },
    )
}

/// What choosing the selected row does.
#[verifier::opaque]
pub open spec fn activation(s: Shell, rows: Seq<ListRow<Seq<char>>>, find_open: bool) -> Step {
    if s.at.list.selected >= rows.len() {
        (s, Seq::empty())
    } else {
        match rows[s.at.list.selected as int].action {
            Some(ListAction::OpenFile(path)) => (
                s,
                seq![Action::OpenPath(path), Action::Redraw],
            ),
            Some(ListAction::OpenFileAt(path, line)) => (
                Shell { pending_jump: Some((path, line)), ..s },
                seq![Action::OpenPath(path), Action::Redraw],
            ),
            Some(ListAction::ActivateTab(id)) => (
                s,
                seq![Action::ActivateTab(id), Action::Redraw],
            ),
            Some(ListAction::ToggleDirectory(dir)) => (
                refreshed(
                    Shell { expanded: toggled_path(s.expanded, dir), ..s },
                    find_open,
                ),
                seq![Action::RereadTree, Action::Redraw],
            ),
            None => (refreshed(s, find_open), redraw()),
        }
    }
}

/// The search waiting for typing to pause.
pub open spec fn debounced(s: Shell, now: Instant) -> Shell {
    Shell {
        at: Surface {
            list: ListPanel {
                deadline: Some(later(now, (SEARCH_DEBOUNCE * NANOS_PER_MILLI) as int)),
                selected: 0,
                ..s.at.list
            },
            ..s.at
        },
        ..s
    }
}

/// The search sent off, unless there is nothing to search for.
pub open spec fn search_sent(s: Shell) -> Step {
    (
        Shell { at: Surface { list: ListPanel { deadline: None, ..s.at.list }, ..s.at }, ..s },
        if s.query is Some && s.query->0.len() > 0 {
            seq![Action::RequestSearch(s.query->0), Action::Redraw]
        } else {
            Seq::empty()
        },
    )
}

/// How many results the search panel shows for what is typed.
pub open spec fn result_count(s: Shell, lists: ListFacts) -> int {
    if s.at.list.active != Some(ListKind::SearchResults) {
        0
    } else {
        match matching_result(lists, s.query) {
            Some(result) => result.hits@.len() as int,
            None => 0,
        }
    }
}

// --- what each surface does with a key ---------------------------------------

/// A confirmation answered.
#[verifier::opaque]
pub open spec fn prompt_step(s: Shell, answer: PromptAnswer, find_open: bool, now: Instant) -> Step {
    match s.prompt {
        None => (s, Seq::empty()),
        Some(Prompt::ConfirmClose { document, name, quitting }) => {
            let after = refreshed(Shell { prompt: None, ..s }, find_open);
            match answer {
                PromptAnswer::Save => (
                    after,
                    seq![
                        Action::SaveToClose { document, name, quitting },
                        Action::Redraw,
                    ],
                ),
                PromptAnswer::Discard => (
                    Shell {
                        at: Surface {
                            exit: Exit { due: after.at.exit.due || quitting, ..after.at.exit },
                            ..after.at
                        },
                        ..after
                    },
                    seq![Action::CloseDiscarding(document), Action::Redraw],
                ),
                PromptAnswer::Cancel => (
                    said(after, "Close cancelled"@, Severity::Warning, now),
                    redraw(),
                ),
            }
        },
    }
}

/// Whether the key is Ctrl+, with the settings closed.
pub open spec fn opens_settings(s: Shell, event: KeyEvent) -> bool {
    !s.settings.open && event.modifiers.control && !event.modifiers.shift && (event.key matches
        Key::Character(text) && text@ == ","@)
}

/// What the shell does with the settings screen's answer to a key.
#[verifier::opaque]
pub open spec fn settings_answered(
    s: Shell,
    reply: SettingsReply<Seq<char>>,
    find_open: bool,
) -> Step {
    match reply {
        SettingsReply::Passed => (s, Seq::empty()),
        SettingsReply::Taken => (s, redraw()),
        SettingsReply::Closed => (refreshed(s, find_open), redraw()),
        SettingsReply::Change(change) => (
            s,
            seq![Action::ChangeSetting(change), Action::Redraw],
        ),
    }
}

/// A key in the palette.
#[verifier::opaque]
pub open spec fn palette_key(s: Shell, event: KeyEvent, facts: Moment) -> Step {
    let rows = offered_rows(
        facts.registry.commands@,
        s.palette.query,
        facts.registry.enabled@,
    );
    let (palette, request) = palette_step(
        s.palette,
        event.key,
        opt_view(event.text),
        rows.len() as int,
    );
    let after = Shell { palette, ..s };
    match request {
        PaletteRequest::Close => (palette_closed(after, facts.shell.find_open), redraw()),
        PaletteRequest::Run => selection_run(after, facts.registry, facts.shell.find_open),
        PaletteRequest::Redraw => (after, redraw()),
        PaletteRequest::Ignore => (after, Seq::empty()),
    }
}

/// The terminal changed, and drawn anew.
pub open spec fn with_terminal(s: Shell, terminal: Panel) -> Step {
    (Shell { terminal, ..s }, redraw())
}

/// A key in the terminal.
#[verifier::opaque]
pub open spec fn terminal_key(s: Shell, event: KeyEvent, facts: Moment, now: Instant) -> Step {
    let p = s.terminal;
    match event.key {
        Key::Named(NamedKey::Escape) | Key::Named(NamedKey::F11) => terminal_toggled(
            s,
            facts.shell,
        ),
        Key::Named(NamedKey::Enter) => {
            let after = Shell { terminal: entered(p, facts.shell.shell), ..s };
            match facts.shell.shell {
                ShellState::NotStarted => (after, redraw()),
                ShellState::Exited => (
                    said(after, "The shell has exited"@, Severity::Warning, now),
                    seq![Action::DropTerminal, Action::Redraw],
                ),
                ShellState::Running => (
                    after,
                    seq![Action::SendLine(p.input), Action::Redraw],
                ),
            }
        },
        Key::Named(NamedKey::Backspace) => with_terminal(s, backspaced(p)),
        Key::Named(NamedKey::Delete) => with_terminal(s, deleted_forward(p)),
        Key::Named(NamedKey::ArrowUp) => with_terminal(s, recalled_older(p)),
        Key::Named(NamedKey::ArrowDown) => with_terminal(s, recalled_newer(p)),
        Key::Named(NamedKey::ArrowLeft) => with_terminal(s, moved_left(p)),
        Key::Named(NamedKey::ArrowRight) => with_terminal(s, moved_right(p)),
        Key::Named(NamedKey::Home) => with_terminal(s, moved(p, 0)),
        Key::Named(NamedKey::End) => with_terminal(s, moved(p, p.input.len() as int)),
        _ => if typed(event).len() > 0 {
            with_terminal(s, inserted(p, typed(event)))
        } else {
            (s, Seq::empty())
        },
    }
}

/// A key in the file tree, the search results or the git panel.
#[verifier::opaque]
pub open spec fn list_key(s: Shell, event: KeyEvent, facts: Moment) -> Step {
    let rows = shown_rows(s, facts.lists);
    match event.key {
        Key::Named(NamedKey::ArrowDown) => (selected_down(s, rows.len() as int), redraw()),
        Key::Named(NamedKey::ArrowUp) => (selected_up(s), redraw()),
        Key::Named(NamedKey::Enter) => activation(s, rows, facts.shell.find_open),
        Key::Named(NamedKey::Escape) => (list_closed(s, facts.shell.find_open), redraw()),
        _ => (s, Seq::empty()),
    }
}

/// The typed query one character shorter.
pub open spec fn query_erased(s: Shell) -> Shell {
    match s.query {
        Some(query) => if query.len() > 0 {
            Shell { query: Some(query.drop_last()), ..s }
        } else {
            s
        },
        None => s,
    }
}

/// The typed query with text added.
pub open spec fn query_extended(s: Shell, text: Seq<char>) -> Shell {
    match s.query {
        Some(query) => Shell { query: Some(query + text), ..s },
        None => s,
    }
}

/// A key in the search field. The arrows walk the results underneath it, and
/// Enter opens the highlighted one, or searches at once when there is none.
#[verifier::opaque]
pub open spec fn query_key(s: Shell, event: KeyEvent, facts: Moment, now: Instant) -> Step {
    let results = result_count(s, facts.lists);
    match event.key {
        Key::Named(NamedKey::Escape) => (
            refreshed(
                Shell {
                    at: Surface {
                        list: ListPanel { deadline: None, ..s.at.list },
                        ..s.at
                    },
                    query: None,
                    ..s
                },
                facts.shell.find_open,
            ),
            redraw(),
        ),
        Key::Named(NamedKey::Backspace) => (debounced(query_erased(s), now), redraw()),
        Key::Named(NamedKey::Enter) => if results == 0 {
            search_sent(s)
        } else {
            activation(s, shown_rows(s, facts.lists), facts.shell.find_open)
        },
        Key::Named(NamedKey::ArrowDown) => (selected_down(s, results), redraw()),
        Key::Named(NamedKey::ArrowUp) => (selected_up(s), redraw()),
        _ => if typed(event).len() > 0 {
            (debounced(query_extended(s, typed(event)), now), redraw())
        } else {
            (s, Seq::empty())
        },
    }
}

/// A key in the find bar.
pub open spec fn find_key(event: KeyEvent, query: Seq<char>) -> Seq<Action<Seq<char>>> {
    match find_action(event.key, event.modifiers.shift) {
        FindAction::Close => seq![Action::FindClose, Action::StateChanged],
        FindAction::Backspace => seq![
            Action::FindQuery(crate::settings::shortened(query)),
            Action::StateChanged,
        ],
        FindAction::Next => seq![Action::FindNext, Action::StateChanged],
        FindAction::Previous => seq![Action::FindPrevious, Action::StateChanged],
        FindAction::Unbound => if typed(event).len() > 0 {
            seq![Action::FindQuery(query + typed(event)), Action::StateChanged]
        } else {
            Seq::empty()
        },
    }
}

/// The warning before quitting taken back: something else was done.
pub open spec fn quit_forgotten(s: Shell) -> Shell {
    Shell { at: Surface { exit: Exit { confirm_pending: false, ..s.at.exit }, ..s.at }, ..s }
}

/// A key in the editor.
#[verifier::opaque]
pub open spec fn editor_key(s: Shell, event: KeyEvent, active: Option<u64>, now: Instant) -> Step {
    let awake = Shell {
        at: Surface {
            timing: Timing { caret: crate::clock::woken(now), ..s.at.timing },
            ..s.at
        },
        ..s
    };
    match binding(event.key, event.modifiers) {
        Binding::Command(id, args) => (
            if id@ == "app.quit"@ {
                awake
            } else {
                quit_forgotten(awake)
            },
            routed(id, args_view(args), active),
        ),
        Binding::InsertText => if typed(event).len() > 0 {
            (
                quit_forgotten(awake),
                routed("edit.insert_text", CommandArgs::Text(typed(event)), active),
            )
        } else {
            (awake, Seq::empty())
        },
        Binding::Unbound => (
            Shell {
                at: Surface {
                    timing: Timing { pending_input: None, ..awake.at.timing },
                    ..awake.at
                },
                ..awake
            },
            Seq::empty(),
        ),
    }
}

/// A key given to whichever surface has the keyboard.
#[verifier::opaque]
pub open spec fn focused_key(s: Shell, event: KeyEvent, facts: Moment, now: Instant) -> Step {
    match s.at.focus {
        InputFocus::CommandPalette => palette_key(s, event, facts),
        InputFocus::Terminal => terminal_key(s, event, facts, now),
        InputFocus::List => list_key(s, event, facts),
        InputFocus::SearchQuery => query_key(s, event, facts, now),
        InputFocus::Find => (s, find_key(event, facts.find_query@)),
        _ => editor_key(s, event, facts.registry.active, now),
    }
}

/// Input noted as waiting for a frame, from when the first of it came.
pub open spec fn input_noted(s: Shell, now: Instant) -> Shell {
    Shell {
        at: Surface {
            timing: Timing {
                pending_input: if s.at.timing.pending_input is Some {
                    s.at.timing.pending_input
                } else {
                    Some(now)
                },
                ..s.at.timing
            },
            ..s.at
        },
        ..s
    }
}

/// What a key does.
#[verifier::opaque]
pub open spec fn key_step(s: Shell, event: KeyEvent, facts: Moment, now: Instant) -> Step {
    let noted = input_noted(s, now);
    let find_open = facts.shell.find_open;
    let reply = settings_step(noted.settings, event.key, event.modifiers);
    if s.prompt is Some {
        match prompt_answer(event.key) {
            Some(answer) => prompt_step(noted, answer, find_open, now),
            None => (noted, Seq::empty()),
        }
    } else if opens_settings(noted, event) {
        (settings_toggled(noted, find_open), redraw())
    } else if noted.settings.open && reply.1 !is Passed {
        settings_answered(Shell { settings: reply.0, ..noted }, reply.1, find_open)
    } else if opens_palette(event.key, event.modifiers) {
        (palette_opened(noted, find_open), redraw())
    } else {
        focused_key(noted, event, facts, now)
    }
}

impl KeyEvent {
    /// What the key types, without control characters.
    fn printable(&self) -> (r: Vec<char>)
        ensures
            r@ == typed(*self),
    {
        match &self.text {
            Some(text) => printable_of(text.as_str()),
            None => {
                let none: Vec<char> = Vec::new();
                assert(none@ =~= Seq::<char>::empty());
                none
            },
        }
    }
}

impl LightSpeed {
    /// Builds the rows for whichever list is currently shown.
    pub fn list_rows(&self, lists: &ListFacts) -> (r: Vec<ListRow<String>>)
        ensures
            row_views(r@) == shown_rows(self@, *lists),
    {
        list_rows(
            self.at.list.active,
            lists,
            &self.expanded,
            &self.query,
            self.at.list.deadline.is_some(),
        )
    }

    /// Moves the selection one row down in a list of `rows`.
    fn select_down(&mut self, rows: usize)
        ensures
            final(self)@ == selected_down(old(self)@, rows as int),
    {
        if rows > 0 {
            let at = self.at.list.selected;
            let selected: usize = if at < rows - 1 { at + 1 } else { rows - 1 };
            self.at = Surface { list: ListPanel { selected, ..self.at.list }, ..self.at };
        }
    }

    /// Moves the selection one row up.
    fn select_up(&mut self)
        ensures
            final(self)@ == selected_up(old(self)@),
    {
        let at = self.at.list.selected;
        let selected: usize = if at > 0 { at - 1 } else { 0 };
        self.at = Surface { list: ListPanel { selected, ..self.at.list }, ..self.at };
    }

    /// Runs whatever the selected row means.
    pub fn activate_list_selection(&mut self, rows: &Vec<ListRow<String>>, find_open: bool) -> (r:
        Vec<Action<String>>)
        ensures
            (final(self)@, action_views(r@)) == activation(
                old(self)@,
                row_views(rows@),
                find_open,
            ),
            final(self)@.terminal == old(self)@.terminal,
    {
        reveal(activation);
        let selected = self.at.list.selected;
        if selected >= rows.len() {
            return no_action();
        }
        assert(row_views(rows@)[selected as int] == row_view(rows@[selected as int]));
        match &rows[selected].action {
            Some(ListAction::OpenFile(path)) => two_actions(
                Action::OpenPath(path.clone()),
                Action::Redraw,
            ),
            Some(ListAction::OpenFileAt(path, line)) => {
                self.pending_jump = Some((path.clone(), *line));
                two_actions(Action::OpenPath(path.clone()), Action::Redraw)
            },
            Some(ListAction::ActivateTab(id)) => two_actions(
                Action::ActivateTab(*id),
                Action::Redraw,
            ),
            Some(ListAction::ToggleDirectory(dir)) => {
                toggle_path(&mut self.expanded, dir.as_str());
                self.refresh_focus(find_open);
                two_actions(Action::RereadTree, Action::Redraw)
            },
            None => {
                self.refresh_focus(find_open);
                one_action(Action::Redraw)
            },
        }
    }

    /// Brings the selection into range after the rows have changed.
    pub fn clamp_selection(&mut self, rows: usize)
        ensures
            final(self)@ == (if rows > 0 {
                selecting(
                    old(self)@,
                    least(old(self)@.at.list.selected as int, rows - 1) as usize,
                )
            } else {
                old(self)@
            }),
    {
        if rows > 0 && self.at.list.selected >= rows {
            self.at = Surface {
                list: ListPanel { selected: rows - 1, ..self.at.list },
                ..self.at
            };
        }
    }

    /// Restarts the debounce window after the query changed.
    fn schedule_search_debounce(&mut self, now: Instant)
        ensures
            final(self)@ == debounced(old(self)@, now),
    {
        let deadline = Some(now.plus(Duration { nanos: SEARCH_DEBOUNCE * NANOS_PER_MILLI }));
        self.at = Surface {
            list: ListPanel { deadline, selected: 0, ..self.at.list },
            ..self.at
        };
    }

    /// Sends the typed query off now.
    pub fn run_pending_search(&mut self) -> (r: Vec<Action<String>>)
        ensures
            (final(self)@, action_views(r@)) == search_sent(old(self)@),
            final(self)@.terminal == old(self)@.terminal,
    {
        self.at = Surface { list: ListPanel { deadline: None, ..self.at.list }, ..self.at };
        match &self.query {
            Some(query) => if query.len() > 0 {
                two_actions(Action::RequestSearch(string_of(query)), Action::Redraw)
            } else {
                no_action()
            },
            None => no_action(),
        }
    }

    /// How many result rows the search panel shows for what is typed.
    pub fn search_result_rows(&self, lists: &ListFacts) -> (r: usize)
        ensures
            r == result_count(self@, *lists),
    {
        match self.at.list.active {
            Some(ListKind::SearchResults) => match matching_search_result(lists, &self.query) {
                Some(result) => result.hits.len(),
                None => 0,
            },
            _ => 0,
        }
    }

    /// Answers the open confirmation.
    pub fn resolve_prompt(&mut self, answer: PromptAnswer, find_open: bool, now: Instant) -> (r:
        Vec<Action<String>>)
        ensures
            (final(self)@, action_views(r@)) == prompt_step(old(self)@, answer, find_open, now),
            final(self)@.terminal == old(self)@.terminal,
    {
        reveal(prompt_step);
        match self.prompt.take() {
            None => no_action(),
            Some(Prompt::ConfirmClose { document, name, quitting }) => {
                self.refresh_focus(find_open);
                match answer {
                    PromptAnswer::Save => two_actions(
                        Action::SaveToClose { document, name, quitting },
                        Action::Redraw,
                    ),
                    PromptAnswer::Discard => {
                        let due = self.at.exit.due || quitting;
                        self.at = Surface { exit: Exit { due, ..self.at.exit }, ..self.at };
                        two_actions(Action::CloseDiscarding(document), Action::Redraw)
                    },
                    PromptAnswer::Cancel => {
                        self.set_status(owned("Close cancelled"), Severity::Warning, now);
                        one_action(Action::Redraw)
                    },
                }
            },
        }
    }

    fn is_settings_shortcut(&self, event: &KeyEvent) -> (r: bool)
        ensures
            r == opens_settings(self@, *event),
    {
        if self.settings.open || !event.modifiers.control || event.modifiers.shift {
            return false;
        }
        match &event.key {
            Key::Character(text) => equal(text.as_str(), ","),
            _ => false,
        }
    }

    fn settings_replied(&mut self, reply: SettingsReply<String>, find_open: bool) -> (r: Vec<
        Action<String>,
    >)
        ensures
            (final(self)@, action_views(r@)) == settings_answered(
                old(self)@,
                crate::settings::reply_view(reply),
                find_open,
            ),
            final(self)@.terminal == old(self)@.terminal,
    {
        reveal(settings_answered);
        match reply {
            SettingsReply::Passed => no_action(),
            SettingsReply::Taken => one_action(Action::Redraw),
            SettingsReply::Closed => {
                self.refresh_focus(find_open);
                one_action(Action::Redraw)
            },
            SettingsReply::Change(change) => two_actions(
                Action::ChangeSetting(change),
                Action::Redraw,
            ),
        }
    }

    fn key_in_palette(&mut self, event: &KeyEvent, facts: &Moment) -> (r: Vec<Action<String>>)
        ensures
            (final(self)@, action_views(r@)) == palette_key(old(self)@, *event, *facts),
            final(self)@.terminal == old(self)@.terminal,
    {
        reveal(palette_key);
        let rows = self.palette.rows(&facts.registry.commands, &facts.registry.enabled);
        let request = self.palette.key(&event.key, event.text.as_ref(), rows.len());
        match request {
            PaletteRequest::Close => {
                self.close_command_palette(facts.shell.find_open);
                one_action(Action::Redraw)
            },
            PaletteRequest::Run => self.run_palette_selection(
                &facts.registry,
                facts.shell.find_open,
            ),
            PaletteRequest::Redraw => one_action(Action::Redraw),
            PaletteRequest::Ignore => no_action(),
        }
    }

    fn key_in_terminal(&mut self, event: &KeyEvent, facts: &Moment, now: Instant) -> (r: Vec<
        Action<String>,
    >)
        requires
            sound(old(self)@.terminal),
        ensures
            (final(self)@, action_views(r@)) == terminal_key(old(self)@, *event, *facts, now),
            sound(final(self)@.terminal),
    {
        reveal(terminal_key);
        match &event.key {
            Key::Named(NamedKey::Escape) | Key::Named(NamedKey::F11) => {
                return self.toggle_terminal(&facts.shell);
            },
            Key::Named(NamedKey::Enter) => {
                let outcome = self.terminal.enter(facts.shell.shell);
                return match outcome {
                    LineOutcome::Dropped => one_action(Action::Redraw),
                    LineOutcome::ShellExited => {
                        self.set_status(owned("The shell has exited"), Severity::Warning, now);
                        two_actions(Action::DropTerminal, Action::Redraw)
                    },
                    LineOutcome::Send(line) => two_actions(Action::SendLine(line), Action::Redraw),
                };
            },
            Key::Named(NamedKey::Backspace) => self.terminal.backspace(),
            Key::Named(NamedKey::Delete) => self.terminal.delete_forward(),
            Key::Named(NamedKey::ArrowUp) => self.terminal.history_up(),
            Key::Named(NamedKey::ArrowDown) => self.terminal.history_down(),
            Key::Named(NamedKey::ArrowLeft) => self.terminal.move_left(),
            Key::Named(NamedKey::ArrowRight) => self.terminal.move_right(),
            Key::Named(NamedKey::Home) => self.terminal.move_home(),
            Key::Named(NamedKey::End) => self.terminal.move_end(),
            _ => {
                let text = event.printable();
                if text.len() == 0 {
                    return no_action();
                }
                self.terminal.insert(&text);
            },
        }
        one_action(Action::Redraw)
    }

    fn key_in_list(&mut self, event: &KeyEvent, facts: &Moment) -> (r: Vec<Action<String>>)
        ensures
            (final(self)@, action_views(r@)) == list_key(old(self)@, *event, *facts),
            final(self)@.terminal == old(self)@.terminal,
    {
        reveal(list_key);
        match &event.key {
            Key::Named(NamedKey::ArrowDown) => {
                let rows = self.list_rows(&facts.lists);
                self.select_down(rows.len());
                one_action(Action::Redraw)
            },
            Key::Named(NamedKey::ArrowUp) => {
                self.select_up();
                one_action(Action::Redraw)
            },
            Key::Named(NamedKey::Enter) => {
                let rows = self.list_rows(&facts.lists);
                self.activate_list_selection(&rows, facts.shell.find_open)
            },
            Key::Named(NamedKey::Escape) => {
                self.close_list(facts.shell.find_open);
                one_action(Action::Redraw)
            },
            _ => no_action(),
        }
    }

    fn key_in_query(&mut self, event: &KeyEvent, facts: &Moment, now: Instant) -> (r: Vec<
        Action<String>,
    >)
        ensures
            (final(self)@, action_views(r@)) == query_key(old(self)@, *event, *facts, now),
            final(self)@.terminal == old(self)@.terminal,
    {
        reveal(query_key);
        match &event.key {
            Key::Named(NamedKey::Escape) => {
                self.query = None;
                self.at = Surface { list: ListPanel { deadline: None, ..self.at.list }, ..self.at };
                self.refresh_focus(facts.shell.find_open);
                one_action(Action::Redraw)
            },
            Key::Named(NamedKey::Backspace) => {
                if let Some(mut query) = self.query.take() {
                    let ghost before = query@;
                    query.pop();
                    assert(before.len() > 0 ==> query@ =~= before.drop_last());
                    self.query = Some(query);
                }
                assert(self@ == query_erased(old(self)@));
                self.schedule_search_debounce(now);
                one_action(Action::Redraw)
            },
            Key::Named(NamedKey::Enter) => {
                if self.search_result_rows(&facts.lists) == 0 {
                    self.run_pending_search()
                } else {
                    let rows = self.list_rows(&facts.lists);
                    self.activate_list_selection(&rows, facts.shell.find_open)
                }
            },
            Key::Named(NamedKey::ArrowDown) => {
                let rows = self.search_result_rows(&facts.lists);
                self.select_down(rows);
                one_action(Action::Redraw)
            },
            Key::Named(NamedKey::ArrowUp) => {
                self.select_up();
                one_action(Action::Redraw)
            },
            _ => {
                let mut text = event.printable();
                if text.len() == 0 {
                    return no_action();
                }
                if let Some(mut query) = self.query.take() {
                    query.append(&mut text);
                    self.query = Some(query);
                }
                assert(self@ == query_extended(old(self)@, typed(*event)));
                self.schedule_search_debounce(now);
                one_action(Action::Redraw)
            },
        }
    }

    fn key_in_editor(&mut self, event: &KeyEvent, active: Option<u64>, now: Instant) -> (r: Vec<
        Action<String>,
    >)
        ensures
            (final(self)@, action_views(r@)) == editor_key(old(self)@, *event, active, now),
            final(self)@.terminal == old(self)@.terminal,
    {
        reveal(editor_key);
        self.at = Surface {
            timing: Timing { caret: Caret::new(now), ..self.at.timing },
            ..self.at
        };
        match resolve(&event.key, &event.modifiers) {
            Binding::Command(id, args) => {
                if !equal(id, "app.quit") {
                    self.at = Surface {
                        exit: Exit { confirm_pending: false, ..self.at.exit },
                        ..self.at
                    };
                }
                run_command(id, args, active)
            },
            Binding::InsertText => {
                let text = event.printable();
                if text.len() == 0 {
                    return no_action();
                }
                self.at = Surface {
                    exit: Exit { confirm_pending: false, ..self.at.exit },
                    ..self.at
                };
                run_command("edit.insert_text", CommandArgs::Text(string_of(&text)), active)
            },
            Binding::Unbound => {
                self.at = Surface {
                    timing: Timing { pending_input: None, ..self.at.timing },
                    ..self.at
                };
                no_action()
            },
        }
    }

    fn key_in_focus(&mut self, event: &KeyEvent, facts: &Moment, now: Instant) -> (r: Vec<
        Action<String>,
    >)
        requires
            sound(old(self)@.terminal),
        ensures
            (final(self)@, action_views(r@)) == focused_key(old(self)@, *event, *facts, now),
            sound(final(self)@.terminal),
    {
        reveal(focused_key);
        match self.at.focus {
            InputFocus::CommandPalette => self.key_in_palette(event, facts),
            InputFocus::Terminal => self.key_in_terminal(event, facts, now),
            InputFocus::List => self.key_in_list(event, facts),
            InputFocus::SearchQuery => self.key_in_query(event, facts, now),
            InputFocus::Find => key_in_find(event, facts.find_query.as_str()),
            _ => self.key_in_editor(event, facts.registry.active, now),
        }
    }

    /// Notes that input is waiting for a frame.
    pub fn note_input(&mut self, now: Instant)
        ensures
            final(self)@ == input_noted(old(self)@, now),
            final(self)@.terminal == old(self)@.terminal,
    {
        let pending_input = match self.at.timing.pending_input {
            Some(first) => Some(first),
            None => Some(now),
        };
        self.at = Surface { timing: Timing { pending_input, ..self.at.timing }, ..self.at };
    }

    /// Handles a key going down.
    pub fn key(&mut self, event: &KeyEvent, facts: &Moment, now: Instant) -> (r: Vec<
        Action<String>,
    >)
        requires
            sound(old(self)@.terminal),
        ensures
            (final(self)@, action_views(r@)) == key_step(old(self)@, *event, *facts, now),
            sound(final(self)@.terminal),
    {
        reveal(key_step);
        let find_open = facts.shell.find_open;
        self.note_input(now);
        if self.prompt.is_some() {
            return match resolve_prompt(&event.key) {
                Some(answer) => self.resolve_prompt(answer, find_open, now),
                None => no_action(),
            };
        }
        if self.is_settings_shortcut(event) {
            self.toggle_settings(find_open);
            return one_action(Action::Redraw);
        }
        if self.settings.open {
            let ghost before = self@;
            let reply = self.settings.key(&event.key, &event.modifiers);
            match reply {
                SettingsReply::Passed => {
                    assert(self@ == before);
                },
                _ => {
                    return self.settings_replied(reply, find_open);
                },
            }
        }
        if is_command_palette_shortcut(&event.key, &event.modifiers) {
            self.open_command_palette(find_open);
            return one_action(Action::Redraw);
        }
        self.key_in_focus(event, facts, now)
    }
}

fn key_in_find(event: &KeyEvent, query: &str) -> (r: Vec<Action<String>>)
    ensures
        action_views(r@) == find_key(*event, query@),
{
    match resolve_find(&event.key, event.modifiers.shift) {
        FindAction::Close => two_actions(Action::FindClose, Action::StateChanged),
        FindAction::Backspace => {
            let mut shorter = chars_of(query);
            shorter.pop();
            assert(shorter@ =~= crate::settings::shortened(query@));
            two_actions(Action::FindQuery(string_of(&shorter)), Action::StateChanged)
        },
        FindAction::Next => two_actions(Action::FindNext, Action::StateChanged),
        FindAction::Previous => two_actions(Action::FindPrevious, Action::StateChanged),
        FindAction::Unbound => {
            let mut text = event.printable();
            if text.len() == 0 {
                return no_action();
            }
            let mut longer = chars_of(query);
            longer.append(&mut text);
            two_actions(Action::FindQuery(string_of(&longer)), Action::StateChanged)
        },
    }
}

// --- laws --------------------------------------------------------------------

/// While a confirmation is up no key reaches anything else: the document, the
/// panels and what is typed into them stay as they are, and nothing runs that
/// is not one of the three answers.
pub proof fn a_confirmation_owns_the_keyboard(
    s: Shell,
    event: KeyEvent,
    facts: Moment,
    now: Instant,
)
    requires
        s.prompt is Some,
        prompt_answer(event.key) is None,
    ensures
        key_step(s, event, facts, now) == (
            input_noted(s, now),
            Seq::<Action<Seq<char>>>::empty(),
        ),
{
    reveal(key_step);
}

/// Only the answer that says so discards edits: saving and cancelling never
/// do.
pub proof fn only_discarding_discards(
    s: Shell,
    answer: PromptAnswer,
    find_open: bool,
    now: Instant,
    document: u64,
)
    requires
        prompt_step(s, answer, find_open, now).1.contains(Action::CloseDiscarding(document)),
    ensures
        answer == PromptAnswer::Discard,
{
    reveal(prompt_step);
    let actions = prompt_step(s, answer, find_open, now).1;
    let i = choose|i: int|
        0 <= i < actions.len() && actions[i] == Action::<Seq<char>>::CloseDiscarding(document);
    assert(actions[i] == Action::<Seq<char>>::CloseDiscarding(document));
}

/// Ctrl+Shift+P opens the palette whatever has the keyboard and whether or not
/// the settings are up, unless a confirmation is waiting.
pub proof fn the_palette_opens_from_anywhere(
    s: Shell,
    event: KeyEvent,
    facts: Moment,
    now: Instant,
)
    requires
        s.prompt is None,
        opens_palette(event.key, event.modifiers),
    ensures
        key_step(s, event, facts, now) == (
            palette_opened(input_noted(s, now), facts.shell.find_open),
            redraw(),
        ),
{
    reveal(key_step);
}

/// Typing into a search field, the palette or the terminal never touches the
/// document: no command runs while one of them has the keyboard and the key
/// only types.
pub proof fn typing_elsewhere_leaves_the_document_alone(
    s: Shell,
    event: KeyEvent,
    facts: Moment,
    now: Instant,
)
    requires
        s.at.focus == InputFocus::SearchQuery || s.at.focus == InputFocus::Terminal || s.at.focus
            == InputFocus::CommandPalette,
        event.key is Character,
    ensures
        focused_key(s, event, facts, now).1 == redraw() || focused_key(s, event, facts, now).1
            == Seq::<Action<Seq<char>>>::empty(),
{
    reveal(focused_key);
    reveal(query_key);
    reveal(terminal_key);
    reveal(palette_key);
}

/// Moving through a list never leaves it.
pub proof fn the_selection_stays_in_the_list(s: Shell, rows: int)
    requires
        rows > 0,
    ensures
        selected_down(s, rows).at.list.selected < rows,
        s.at.list.selected < rows ==> selected_up(s).at.list.selected < rows,
{
}

/// Anything but asking to quit again takes the warning back, so a stray press
/// long after it never ends the program.
pub proof fn other_commands_forget_the_quit_warning(
    s: Shell,
    event: KeyEvent,
    active: Option<u64>,
    now: Instant,
)
    requires
        match binding(event.key, event.modifiers) {
            Binding::Command(id, _) => id@ != "app.quit"@,
            Binding::InsertText => typed(event).len() > 0,
            Binding::Unbound => false,
        },
    ensures
        !editor_key(s, event, active, now).0.at.exit.confirm_pending,
{
    reveal(editor_key);
}

// --- typing and searching ----------------------------------------------------

/// Whether a key goes to the search field: the field has the keyboard, and
/// neither a confirmation nor the settings take the key before it.
pub open spec fn types_into_the_query(s: Shell, event: KeyEvent) -> bool {
    &&& s.prompt is None
    &&& !s.settings.open
    &&& s.at.focus == InputFocus::SearchQuery
    &&& s.query is Some
    &&& !event.modifiers.control
    &&& !event.modifiers.alt
}

/// What is typed goes behind what was typed before: the query keeps what it
/// holds as its beginning, and the rest of it is what the key types. The search
/// is put off until typing has paused for 150 milliseconds, and the first result
/// is selected.
pub proof fn what_is_typed_goes_behind_the_query(
    s: Shell,
    event: KeyEvent,
    facts: Moment,
    now: Instant,
)
    requires
        types_into_the_query(s, event),
        event.key is Character,
        typed(event).len() > 0,
    ensures
        ({
            let (after, actions) = key_step(s, event, facts, now);
            let old_query = s.query->0;
            &&& after.query matches Some(query) && query.len() == old_query.len() + typed(
                event,
            ).len() && query.take(old_query.len() as int) == old_query && query.skip(
                old_query.len() as int,
            ) == typed(event)
            &&& after.at.list.selected == 0
            &&& after.at.list.deadline matches Some(at) && at == later(now, 150_000_000)
            &&& after.at.focus == s.at.focus
            &&& after.terminal == s.terminal
            &&& actions == seq![Action::<Seq<char>>::Redraw]
        }),
{
    reveal(key_step);
    reveal(focused_key);
    reveal(query_key);
    let query = s.query->0 + typed(event);
    assert(query.take(s.query->0.len() as int) =~= s.query->0);
    assert(query.skip(s.query->0.len() as int) =~= typed(event));
}

/// A key that types one printable character types that character and nothing
/// else, and a control character is no text.
pub proof fn one_character_is_typed(event: KeyEvent, c: char)
    requires
        event.text matches Some(text) && text@ == seq![c],
    ensures
        (c as u32) >= 0x20 && !(0x7f <= (c as u32) < 0xa0) ==> typed(event) == seq![c],
        (c as u32) < 0x20 || (0x7f <= (c as u32) < 0xa0) ==> typed(event).len() == 0,
{
    assert(seq![c].drop_last() =~= Seq::<char>::empty());
    assert(printable(Seq::<char>::empty()) =~= Seq::<char>::empty());
    assert(Seq::<char>::empty().push(c) =~= seq![c]);
}

/// Backspace takes the last character off the query and nothing else, so that
/// right after a typed character it gives back what there was before it.
pub proof fn backspace_takes_back_what_was_typed(
    s: Shell,
    event: KeyEvent,
    erasing: KeyEvent,
    facts: Moment,
    now: Instant,
    then: Instant,
)
    requires
        types_into_the_query(s, event),
        event.key is Character,
        typed(event).len() == 1,
        types_into_the_query(s, erasing),
        erasing.key == Key::Named(NamedKey::Backspace),
    ensures
        key_step(key_step(s, event, facts, now).0, erasing, facts, then).0.query == s.query,
        s.query->0.len() > 0 ==> key_step(s, erasing, facts, now).0.query == Some(
            s.query->0.take(s.query->0.len() - 1),
        ),
        s.query->0.len() == 0 ==> key_step(s, erasing, facts, now).0.query == s.query,
{
    reveal(key_step);
    reveal(focused_key);
    reveal(query_key);
    let query = s.query->0;
    assert((query + typed(event)).drop_last() =~= query);
    if query.len() > 0 {
        assert(query.drop_last() =~= query.take(query.len() - 1));
    }
}

/// The search that is sent is for what stands in the field, and an empty field
/// searches for nothing; either way nothing waits any longer.
pub proof fn the_search_is_for_what_is_typed(s: Shell)
    ensures
        search_sent(s).0.at.list.deadline is None,
        search_sent(s).0.query == s.query,
        match s.query {
            Some(query) => if query.len() > 0 {
                search_sent(s).1 == seq![Action::RequestSearch(query), Action::Redraw]
            } else {
                search_sent(s).1.len() == 0
            },
            None => search_sent(s).1.len() == 0,
        },
{
}

/// Enter in the search field opens the highlighted result, and searches at once
/// when there is none; Escape leaves the field and forgets the query.
pub proof fn enter_opens_a_result_and_escape_leaves(
    s: Shell,
    event: KeyEvent,
    facts: Moment,
    now: Instant,
)
    requires
        types_into_the_query(s, event),
    ensures
        event.key == Key::Named(NamedKey::Enter) && result_count(s, facts.lists) == 0
            && s.query->0.len() > 0 ==> key_step(s, event, facts, now).1 == seq![
            Action::RequestSearch(s.query->0),
            Action::Redraw,
        ],
        event.key == Key::Named(NamedKey::Enter) && result_count(s, facts.lists) > 0
            ==> key_step(s, event, facts, now) == activation(
            input_noted(s, now),
            shown_rows(s, facts.lists),
            facts.shell.find_open,
        ),
        event.key == Key::Named(NamedKey::Escape) ==> key_step(s, event, facts, now).0.query is None
            && key_step(s, event, facts, now).0.at.list.deadline is None,
{
    reveal(key_step);
    reveal(focused_key);
    reveal(query_key);
    reveal(refreshed);
}

/// Choosing a row does what the row says: its file is opened, a hit at its line,
/// a tab is shown, a directory is opened or closed.
pub proof fn choosing_a_row_does_what_it_says(
    s: Shell,
    rows: Seq<ListRow<Seq<char>>>,
    find_open: bool,
)
    requires
        s.at.list.selected < rows.len(),
    ensures
        ({
            let (after, actions) = activation(s, rows, find_open);
            match rows[s.at.list.selected as int].action {
                Some(ListAction::OpenFile(path)) => actions == seq![
                    Action::OpenPath(path),
                    Action::Redraw,
                ] && after == s,
                Some(ListAction::OpenFileAt(path, line)) => actions == seq![
                    Action::OpenPath(path),
                    Action::Redraw,
                ] && after.pending_jump == Some((path, line)),
                Some(ListAction::ActivateTab(id)) => actions == seq![
                    Action::<Seq<char>>::ActivateTab(id),
                    Action::Redraw,
                ] && after == s,
                Some(ListAction::ToggleDirectory(dir)) => {
                    &&& actions == seq![Action::<Seq<char>>::RereadTree, Action::Redraw]
                    &&& after.expanded.contains(dir) <==> !s.expanded.contains(dir)
                    &&& forall|other: Seq<char>|
                        other != dir ==> (#[trigger] after.expanded.contains(other)
                            <==> s.expanded.contains(other))
                },
                None => actions == seq![Action::<Seq<char>>::Redraw],
            }
        }),
{
    reveal(activation);
    reveal(refreshed);
}

/// The arrows move the highlight by exactly one row, down to the last and up to
/// the first; Enter chooses the highlighted row.
pub proof fn the_arrows_move_by_one(s: Shell, rows: int)
    requires
        0 <= s.at.list.selected < rows <= usize::MAX,
    ensures
        s.at.list.selected + 1 < rows ==> selected_down(s, rows).at.list.selected
            == s.at.list.selected + 1,
        s.at.list.selected + 1 == rows ==> selected_down(s, rows).at.list.selected
            == s.at.list.selected,
        s.at.list.selected > 0 ==> selected_up(s).at.list.selected == s.at.list.selected - 1,
        s.at.list.selected == 0 ==> selected_up(s).at.list.selected == 0,
{
}

/// While a list has the keyboard the arrows walk it, Enter chooses, and no other
/// key but Escape does anything.
pub proof fn a_list_is_walked_with_the_arrows(
    s: Shell,
    event: KeyEvent,
    facts: Moment,
    now: Instant,
)
    requires
        s.prompt is None,
        !s.settings.open,
        s.at.focus == InputFocus::List,
        !event.modifiers.control,
        !event.modifiers.alt,
        shown_rows(s, facts.lists).len() <= usize::MAX,
    ensures
        ({
            let rows = shown_rows(s, facts.lists);
            let after = key_step(s, event, facts, now);
            &&& event.key == Key::Named(NamedKey::ArrowDown) && s.at.list.selected + 1 < rows.len()
                ==> after.0.at.list.selected == s.at.list.selected + 1
            &&& event.key == Key::Named(NamedKey::ArrowUp) && s.at.list.selected > 0
                ==> after.0.at.list.selected == s.at.list.selected - 1
            &&& event.key == Key::Named(NamedKey::Enter) ==> after == activation(
                input_noted(s, now),
                rows,
                facts.shell.find_open,
            )
            &&& event.key is Character ==> after.1.len() == 0 && after.0.at.list == s.at.list
        }),
{
    reveal(key_step);
    reveal(focused_key);
    reveal(list_key);
}

/// What is typed into the find bar goes behind what it holds, and Backspace takes
/// its last character off; Enter goes to the next match, with Shift to the one
/// before, and Escape closes the bar.
pub proof fn the_find_bar_is_a_field(event: KeyEvent, query: Seq<char>)
    ensures
        event.key is Character && typed(event).len() > 0 ==> find_key(event, query) == seq![
            Action::FindQuery(query + typed(event)),
            Action::StateChanged,
        ],
        event.key == Key::Named(NamedKey::Backspace) && query.len() > 0 ==> find_key(event, query)
            == seq![Action::FindQuery(query.take(query.len() - 1)), Action::StateChanged],
        event.key == Key::Named(NamedKey::Enter) && !event.modifiers.shift ==> find_key(
            event,
            query,
        ) == seq![Action::<Seq<char>>::FindNext, Action::StateChanged],
        event.key == Key::Named(NamedKey::Enter) && event.modifiers.shift ==> find_key(event, query)
            == seq![Action::<Seq<char>>::FindPrevious, Action::StateChanged],
        event.key == Key::Named(NamedKey::Escape) ==> find_key(event, query) == seq![
            Action::<Seq<char>>::FindClose,
            Action::StateChanged,
        ],
{
    if query.len() > 0 {
        assert(crate::settings::shortened(query) =~= query.take(query.len() - 1));
    }
}

/// An answer to a confirmation does what it says, to the document that was asked
/// about: Save saves it to be closed, Discard closes it without saving, Cancel
/// leaves it alone. The question is gone in every case.
pub proof fn an_answer_does_what_it_says(
    s: Shell,
    document: u64,
    name: Seq<char>,
    quitting: bool,
    find_open: bool,
    now: Instant,
)
    requires
        s.prompt == Some(Prompt::ConfirmClose { document, name, quitting }),
    ensures
        ({
            let (saved, save) = prompt_step(s, PromptAnswer::Save, find_open, now);
            let (discarded, discard) = prompt_step(s, PromptAnswer::Discard, find_open, now);
            let (kept, cancel) = prompt_step(s, PromptAnswer::Cancel, find_open, now);
            &&& save == seq![Action::SaveToClose { document, name, quitting }, Action::Redraw]
            &&& discard == seq![Action::<Seq<char>>::CloseDiscarding(document), Action::Redraw]
            &&& cancel == seq![Action::<Seq<char>>::Redraw]
            &&& saved.prompt is None && discarded.prompt is None && kept.prompt is None
            &&& discarded.at.exit.due <==> s.at.exit.due || quitting
            &&& saved.at.exit == s.at.exit && kept.at.exit == s.at.exit
        }),
{
    reveal(prompt_step);
    reveal(refreshed);
}

/// A key in the editor runs the command it is bound to, in the active document,
/// and what it types is inserted there as it was typed.
pub proof fn the_editor_gets_what_is_typed(
    s: Shell,
    event: KeyEvent,
    facts: Moment,
    now: Instant,
)
    requires
        s.prompt is None,
        !s.settings.open,
        s.at.focus == InputFocus::Editor,
        event.key is Character,
        !event.modifiers.control,
        !event.modifiers.alt,
        typed(event).len() > 0,
    ensures
        key_step(s, event, facts, now).1 == routed(
            "edit.insert_text",
            CommandArgs::Text(typed(event)),
            facts.registry.active,
        ),
{
    reveal(key_step);
    reveal(focused_key);
    reveal(editor_key);
}

/// Whether a key reaches the terminal: it has the keyboard, and nothing that
/// comes before it takes the key.
pub open spec fn reaches_the_terminal(s: Shell, event: KeyEvent) -> bool {
    &&& s.prompt is None
    &&& !s.settings.open
    &&& s.at.focus == InputFocus::Terminal
    &&& !event.modifiers.control
}

/// In the terminal what is typed goes into its line where the caret is, and
/// the keys that move and erase do so in that line. Nothing else on screen
/// changes.
pub proof fn the_terminals_line_is_edited(
    s: Shell,
    event: KeyEvent,
    facts: Moment,
    now: Instant,
)
    requires
        reaches_the_terminal(s, event),
    ensures
        ({
            let step = key_step(s, event, facts, now);
            let p = s.terminal;
            let q = step.0.terminal;
            let edits = event.key is Character && typed(event).len() > 0;
            &&& edits && p.cursor <= p.input.len() ==> q.input == p.input.take(p.cursor as int)
                + typed(event) + p.input.skip(p.cursor as int)
            &&& event.key == Key::Named(NamedKey::Home) ==> q.cursor == 0 && q.input == p.input
            &&& event.key == Key::Named(NamedKey::End) ==> q.cursor == p.input.len() && q.input
                == p.input
            &&& event.key == Key::Named(NamedKey::Backspace) ==> q == backspaced(p)
            &&& event.key == Key::Named(NamedKey::Delete) ==> q == deleted_forward(p)
            &&& event.key == Key::Named(NamedKey::ArrowLeft) ==> q == moved_left(p)
            &&& event.key == Key::Named(NamedKey::ArrowRight) ==> q == moved_right(p)
            &&& event.key == Key::Named(NamedKey::ArrowUp) ==> q == recalled_older(p)
            &&& event.key == Key::Named(NamedKey::ArrowDown) ==> q == recalled_newer(p)
            &&& edits ==> step.1 == seq![Action::<Seq<char>>::Redraw]
            &&& edits ==> step.0.at.list == s.at.list && step.0.query == s.query
                && step.0.at.focus == s.at.focus
        }),
{
    reveal(key_step);
    reveal(focused_key);
    reveal(terminal_key);
}

/// Enter sends the line that was typed, as it was typed, to a shell that runs.
/// One that has exited is dropped, and that is told; before there is one,
/// nothing is sent. Escape hides the terminal.
pub proof fn enter_sends_the_line(s: Shell, event: KeyEvent, facts: Moment, now: Instant)
    requires
        reaches_the_terminal(s, event),
    ensures
        ({
            let step = key_step(s, event, facts, now);
            let enter = event.key == Key::Named(NamedKey::Enter);
            &&& enter && facts.shell.shell == ShellState::Running ==> step.1 == seq![
                Action::SendLine(s.terminal.input),
                Action::Redraw,
            ]
            &&& enter && facts.shell.shell == ShellState::NotStarted ==> step.1
                == seq![Action::<Seq<char>>::Redraw]
            &&& enter && facts.shell.shell == ShellState::Exited ==> {
                &&& step.1 == seq![Action::<Seq<char>>::DropTerminal, Action::Redraw]
                &&& step.0.message is Some
                &&& step.0.message->0.text == "The shell has exited"@
                &&& step.0.message->0.severity == Severity::Warning
            }
            &&& enter ==> step.0.terminal == entered(s.terminal, facts.shell.shell)
            &&& (event.key == Key::Named(NamedKey::Escape) || event.key == Key::Named(
                NamedKey::F11,
            )) && s.terminal.visible ==> !step.0.terminal.visible && step.0.terminal.input
                == s.terminal.input
        }),
{
    reveal(key_step);
    reveal(focused_key);
    reveal(terminal_key);
    reveal(terminal_toggled);
    reveal(refreshed);
}

/// Control and the comma open the settings from anywhere but a confirmation;
/// while they are open, what they take goes no further.
pub proof fn the_settings_take_their_keys_first(
    s: Shell,
    event: KeyEvent,
    facts: Moment,
    now: Instant,
    text: String,
)
    requires
        s.prompt is None,
    ensures
        !s.settings.open && event.key == Key::Character(text) && text@ == ","@
            && event.modifiers.control && !event.modifiers.shift ==> key_step(
            s,
            event,
            facts,
            now,
        ).0.settings.open,
        s.settings.open ==> {
            let (settings, reply) = settings_step(s.settings, event.key, event.modifiers);
            let step = key_step(s, event, facts, now);
            &&& reply is Taken ==> step.0.settings == settings && step.1
                == seq![Action::<Seq<char>>::Redraw] && step.0.terminal == s.terminal
                && step.0.query == s.query
            &&& reply is Closed ==> step.0.settings == settings && step.1
                == seq![Action::<Seq<char>>::Redraw]
            &&& reply matches SettingsReply::Change(change) ==> step.0.settings == settings
                && step.1 == seq![Action::ChangeSetting(change), Action::Redraw]
        },
{
    reveal(key_step);
    reveal(settings_answered);
    reveal(settings_toggled);
    reveal(refreshed);
}

/// A key's input is noted from when the first of it came, and a second one
/// before the frame changes nothing.
pub proof fn the_first_input_is_noted(s: Shell, first: Instant, second: Instant)
    ensures
        s.at.timing.pending_input is None ==> input_noted(s, first).at.timing.pending_input
            == Some(first),
        input_noted(input_noted(s, first), second) == input_noted(s, first),
        s.at.timing.pending_input is Some ==> input_noted(s, first) == s,
        input_noted(s, first).at.focus == s.at.focus,
        input_noted(s, first).at.list == s.at.list,
{
}

/// In the editor a bound key runs its own command with its own arguments, and
/// an unbound one does nothing but wake the caret.
pub proof fn a_bound_key_runs_its_command(
    s: Shell,
    event: KeyEvent,
    active: Option<u64>,
    now: Instant,
    id: &'static str,
    index: usize,
)
    ensures
        binding(event.key, event.modifiers) == Binding::Command(id, CommandArgs::Nothing) && id@
            != "file.close_tab"@ ==> editor_key(s, event, active, now).1 == seq![
            Action::<Seq<char>>::Execute(id, CommandArgs::Nothing),
            Action::StateChanged,
        ],
        binding(event.key, event.modifiers) == Binding::Command(id, CommandArgs::Index(index))
            && id@ != "file.close_tab"@ ==> editor_key(s, event, active, now).1 == seq![
            Action::<Seq<char>>::Execute(id, CommandArgs::Index(index)),
            Action::StateChanged,
        ],
        binding(event.key, event.modifiers) == Binding::Unbound ==> editor_key(
            s,
            event,
            active,
            now,
        ).1.len() == 0 && editor_key(s, event, active, now).0.at.timing.pending_input is None,
        editor_key(s, event, active, now).0.at.timing.caret.visible,
        editor_key(s, event, active, now).0.at.list == s.at.list,
        editor_key(s, event, active, now).0.terminal == s.terminal,
{
    reveal(editor_key);
}

/// A key types the characters it brings, but for the control characters among
/// them, and nothing when it brings none.
pub proof fn a_key_types_what_it_brings(event: KeyEvent)
    ensures
        event.text is None ==> typed(event).len() == 0,
        event.text matches Some(text) ==> typed(event) == text@.filter(
            |c: char| (0x20 <= c as u32 && (c as u32) < 0x7f) || 0xa0 <= c as u32,
        ),
{
    if let Some(text) = event.text {
        crate::text::only_control_characters_are_dropped(text@);
    }
}

} // verus!
