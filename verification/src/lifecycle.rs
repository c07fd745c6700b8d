//! Documents coming and going, background work landing, and time passing.

use crate::clock::{
    earliest, later, should_show_loading_tab, shows_loading_tab, sooner, ticked, Caret, Duration,
    Instant, NANOS_PER_MILLI,
};
use crate::keys::search_sent;
use crate::lists::Tab;
use crate::requests::Step;
use crate::shell::{
    action_views, editor_focused, no_action, one_action, push_action, redraw, refreshed, said,
    two_actions, Action, Exit, Follow, LightSpeed, Panels, PendingClose, Shell, Surface, Timing,
    EXTERNAL_WATCH_INTERVAL,
};
use crate::status::{
    noticed, open_message, open_text, opt_view, ExternalState, OpenOutcome, Prompt, Severity,
};
use crate::terminal::{drained, sound};
use crate::text::{count, decimal, decimal_of, equal, owned};
use std::collections::HashMap;
use vstd::prelude::*;

verus! {

broadcast use vstd::std_specs::hash::group_hash_axioms;

/// What the engine says after its state may have changed.
#[derive(Clone, Debug)]
pub struct ChangeFacts {
    pub find_open: bool,
    pub active: Option<u64>,
    /// Whether the active document is still loading.
    pub loading: bool,
    /// The active document's path, once it is there: an untitled one has none.
    pub document: Option<Option<String>>,
}

/// The line a jump goes to, counted from 0.
pub open spec fn line_index(line: usize) -> usize {
    if line > 0 {
        (line - 1) as usize
    } else {
        0
    }
}

/// A jump that was waiting for its file: it waits on while anything is loading,
/// is made once its own file is there, and is given up in any other.
#[verifier::opaque]
pub open spec fn jump_step(s: Shell, facts: ChangeFacts) -> Step {
    if s.pending_jump is None || facts.active is None || facts.loading {
        (s, Seq::empty())
    } else {
        let (path, line) = s.pending_jump->0;
        let here = match facts.document {
            Some(Some(open)) => open@ == path,
            _ => false,
        };
        (
            Shell { pending_jump: None, ..s },
            if here {
                seq![Action::GoToLine(line_index(line))]
            } else {
                Seq::empty()
            },
        )
    }
}

/// The active document looked at: one that was not active before gets the
/// keyboard.
pub open spec fn followed(s: Shell, active: Option<u64>, now: Instant) -> Shell {
    if active == s.at.follow.last_active {
        s
    } else {
        let seen = Shell {
            at: Surface { follow: Follow { last_active: active, ..s.at.follow }, ..s.at },
            ..s
        };
        if active is Some {
            editor_focused(seen, now)
        } else {
            seen
        }
    }
}

/// The view following the caret.
pub open spec fn revealing(s: Shell) -> Shell {
    Shell { at: Surface { follow: Follow { reveal: true, ..s.at.follow }, ..s.at }, ..s }
}

/// What a change of the engine's state does to the shell.
#[verifier::opaque]
pub open spec fn change_step(s: Shell, facts: ChangeFacts, now: Instant) -> Step {
    let (jumped, actions) = jump_step(revealing(refreshed(s, facts.find_open)), facts);
    (
        followed(jumped, facts.active, now),
        actions + seq![
            Action::SyncServer,
            Action::TakeRequests,
            Action::TakeError,
            Action::Redraw,
        ],
    )
}

/// An error of the engine's reported, if there is one.
pub open spec fn error_step(s: Shell, error: Option<Seq<char>>, now: Instant) -> Shell {
    match error {
        Some(error) => said(s, error, Severity::Error, now),
        None => s,
    }
}

/// What asking for a document came to.
#[derive(Clone, Debug)]
pub enum Requested<T> {
    Document(u64, OpenOutcome),
    /// The path is a directory, which is no document.
    Directory,
    Refused(T),
}

/// An answer with its text as characters.
pub open spec fn requested_view(answer: Requested<String>) -> Requested<Seq<char>> {
    match answer {
        Requested::Document(id, outcome) => Requested::Document(id, outcome),
        Requested::Directory => Requested::Directory,
        Requested::Refused(error) => Requested::Refused(error@),
    }
}

/// A document asked for: its load is timed from the first request, and it gets
/// the keyboard if it is the active one. A directory is opened as the
/// workspace.
#[verifier::opaque]
pub open spec fn open_step(
    s: Shell,
    path: Seq<char>,
    answer: Requested<Seq<char>>,
    active: Option<u64>,
    now: Instant,
) -> Step {
    match answer {
        Requested::Refused(error) => (said(s, error, Severity::Error, now), redraw()),
        Requested::Directory => (s, seq![Action::OpenWorkspace(path)]),
        Requested::Document(id, outcome) => {
            let timed = Shell {
                loading: if s.loading.contains_key(id) {
                    s.loading
                } else {
                    s.loading.insert(id, now)
                },
                ..s
            };
            let adopted = if active == Some(id) {
                editor_focused(timed, now)
            } else {
                timed
            };
            (
                said(
                    Shell { diagnostics_path: Some(path), ..adopted },
                    open_text(outcome, path),
                    Severity::Success,
                    now,
                ),
                seq![Action::SaveRecent, Action::Redraw],
            )
        },
    }
}

/// What closing a document came to.
#[derive(Clone, Debug)]
pub enum CloseOutcome<T> {
    Closed,
    /// It has unsaved edits; this is its name.
    Unsaved(T),
    Failed(T),
}

/// An outcome with its text as characters.
pub open spec fn close_view(outcome: CloseOutcome<String>) -> CloseOutcome<Seq<char>> {
    match outcome {
        CloseOutcome::Closed => CloseOutcome::Closed,
        CloseOutcome::Unsaved(name) => CloseOutcome::Unsaved(name@),
        CloseOutcome::Failed(error) => CloseOutcome::Failed(error@),
    }
}

/// A tab closed: a clean document closes at once, a dirty one asks.
#[verifier::opaque]
pub open spec fn close_step(
    s: Shell,
    document: u64,
    outcome: CloseOutcome<Seq<char>>,
    find_open: bool,
    now: Instant,
) -> Step {
    match outcome {
        CloseOutcome::Closed => (
            Shell { external: s.external.remove(document), ..s },
            redraw(),
        ),
        CloseOutcome::Unsaved(name) => (
            refreshed(
                Shell {
                    prompt: Some(Prompt::ConfirmClose { document, name, quitting: false }),
                    ..s
                },
                find_open,
            ),
            redraw(),
        ),
        CloseOutcome::Failed(error) => (said(s, error, Severity::Error, now), Seq::empty()),
    }
}

/// A save under way whose document closes once it is done, or why not.
#[verifier::opaque]
pub open spec fn save_step(
    s: Shell,
    document: u64,
    name: Seq<char>,
    quitting: bool,
    error: Option<Seq<char>>,
    now: Instant,
) -> Shell {
    match error {
        None => said(
            Shell {
                at: Surface {
                    exit: Exit {
                        after_save: Some(PendingClose { document, quitting }),
                        ..s.at.exit
                    },
                    ..s.at
                },
                ..s
            },
            "Saving "@ + name + "..."@,
            Severity::Warning,
            now,
        ),
        Some(error) => said(s, error, Severity::Error, now),
    }
}

/// What landed from the workers.
#[derive(Clone, Debug)]
pub struct WorkFacts {
    /// How many completions were applied.
    pub applied: usize,
    /// Whether the document that closes after its save is still being saved, or
    /// waits to be.
    pub still_saving: bool,
    /// Whether a scan is complete.
    pub scan_ready: bool,
    /// The documents that are still loading.
    pub loading: Vec<u64>,
}

/// The loads in flight that are still running.
pub open spec fn still_loading(loads: Map<u64, Instant>, still: Seq<u64>) -> Map<u64, Instant> {
    loads.restrict(Set::new(|id: u64| still.contains(id)))
}

/// Background work applied. A close that waited for a save goes ahead, and a
/// scan that is complete is settled once.
#[verifier::opaque]
pub open spec fn work_step(s: Shell, facts: WorkFacts) -> Step {
    if facts.applied == 0 {
        (s, Seq::empty())
    } else {
        let closes = s.at.exit.after_save is Some && !facts.still_saving;
        let adopts = s.at.graph.view && !s.at.graph.settled && facts.scan_ready;
        (
            Shell {
                at: Surface {
                    exit: Exit {
                        after_save: if closes {
                            None
                        } else {
                            s.at.exit.after_save
                        },
                        ..s.at.exit
                    },
                    ..s.at
                },
                loading: still_loading(s.loading, facts.loading@),
                ..s
            },
            (if closes {
                seq![Action::CloseSaved(s.at.exit.after_save->0)]
            } else {
                Seq::empty()
            }) + (if adopts {
                seq![Action::AdoptScan]
            } else {
                Seq::empty()
            }) + seq![Action::StateChanged],
        )
    }
}

/// A document closed after its save, or still open because that failed.
pub open spec fn saved_close_step(s: Shell, quitting: bool, closed: bool, now: Instant) -> Shell {
    if closed {
        Shell {
            at: Surface { exit: Exit { due: s.at.exit.due || quitting, ..s.at.exit }, ..s.at },
            ..s
        }
    } else {
        said(
            s,
            "The save did not finish cleanly; the document is still open"@,
            Severity::Warning,
            now,
        )
    }
}

/// Whether a tab is drawn: one that loads only once it has for a while.
pub open spec fn tab_shown(tab: Tab, loads: Map<u64, Instant>, now: Instant) -> bool {
    !tab.loading || !loads.contains_key(tab.id) || shows_loading_tab(loads[tab.id], now)
}

/// The tabs that are drawn, in their order.
pub open spec fn tabs_shown(tabs: Seq<Tab>, loads: Map<u64, Instant>, now: Instant) -> Seq<Tab>
    decreases tabs.len(),
{
    if tabs.len() == 0 {
        Seq::empty()
    } else {
        let before = tabs_shown(tabs.drop_last(), loads, now);
        if tab_shown(tabs.last(), loads, now) {
            before.push(tabs.last())
        } else {
            before
        }
    }
}

/// When the loop wakes next: for the caret while one is shown, for the look at
/// the disk while anything is open, and for a search that waits.
pub open spec fn wakeup(s: Shell, active: bool, any_tabs: bool) -> Option<Instant> {
    sooner(
        sooner(
            if active && s.prompt is None {
                Some(s.at.timing.caret.deadline)
            } else {
                None
            },
            if any_tabs {
                Some(s.at.timing.next_watch)
            } else {
                None
            },
        ),
        s.at.list.deadline,
    )
}

/// The caret at `now`.
pub open spec fn caret_ticked(s: Shell, now: Instant) -> Step {
    (
        Shell {
            at: Surface {
                timing: Timing { caret: ticked(s.at.timing.caret, now), ..s.at.timing },
                ..s.at
            },
            ..s
        },
        if now.nanos >= s.at.timing.caret.deadline.nanos {
            redraw()
        } else {
            Seq::empty()
        },
    )
}

/// The waiting search at `now`.
pub open spec fn search_ticked(s: Shell, now: Instant) -> Step {
    if s.at.list.deadline is Some && now.nanos >= s.at.list.deadline->0.nanos {
        search_sent(s)
    } else {
        (s, Seq::empty())
    }
}

/// The look at the disk at `now`.
pub open spec fn watch_ticked(s: Shell, now: Instant) -> Step {
    if now.nanos < s.at.timing.next_watch.nanos {
        (s, Seq::empty())
    } else {
        (
            Shell {
                at: Surface {
                    timing: Timing {
                        next_watch: later(
                            now,
                            (EXTERNAL_WATCH_INTERVAL * NANOS_PER_MILLI) as int,
                        ),
                        ..s.at.timing
                    },
                    ..s.at
                },
                ..s
            },
            seq![Action::PollDisk, Action::Redraw],
        )
    }
}

/// What the passing of time does.
#[verifier::opaque]
pub open spec fn time_step(s: Shell, now: Instant) -> Step {
    let (a, first) = caret_ticked(s, now);
    let (b, second) = search_ticked(a, now);
    let (c, third) = watch_ticked(b, now);
    (c, first + second + third)
}

/// A tab activated, which gives its document the keyboard.
pub open spec fn activate_step(s: Shell, id: u64, active: Option<u64>, now: Instant) -> Step {
    if active == Some(id) {
        (editor_focused(s, now), redraw())
    } else {
        (s, seq![Action::SetActive(id)])
    }
}

/// A document made active, or why it was not.
pub open spec fn activated_step(s: Shell, error: Option<Seq<char>>, now: Instant) -> Step {
    match error {
        None => (editor_focused(s, now), seq![Action::Redraw, Action::StateChanged]),
        Some(error) => (said(s, error, Severity::Error, now), Seq::empty()),
    }
}

/// What the dependency pane shows while there is no graph to draw.
pub open spec fn placeholder(s: Shell, root_open: bool, pending: bool) -> Seq<char> {
    if !root_open {
        "  No folder is open.\n\n  File > Open Folder, then pick the dependency view again."@
    } else if pending {
        "  Scanning the workspace for dependencies..."@
    } else if s.at.graph.settled {
        "  Laying the graph out..."@
    } else {
        "  No files in a language this understands were found here."@
    }
}

fn same_document(a: Option<u64>, b: Option<u64>) -> (r: bool)
    ensures
        r == (a == b),
{
    match (a, b) {
        (Some(x), Some(y)) => x == y,
        (None, None) => true,
        _ => false,
    }
}

impl LightSpeed {
    /// Once a file a list row opened is there, moves the caret to the line the
    /// row named.
    fn apply_pending_jump(&mut self, facts: &ChangeFacts) -> (r: Vec<Action<String>>)
        ensures
            (final(self)@, action_views(r@)) == jump_step(old(self)@, *facts),
            final(self)@.terminal == old(self)@.terminal,
    {
        reveal(jump_step);
        if self.pending_jump.is_none() || facts.active.is_none() || facts.loading {
            return no_action();
        }
        match self.pending_jump.take() {
            Some((path, line)) => {
                let here = match &facts.document {
                    Some(Some(open)) => equal(open.as_str(), path.as_str()),
                    _ => false,
                };
                if here {
                    one_action(Action::GoToLine(if line > 0 { line - 1 } else { 0 }))
                } else {
                    no_action()
                }
            },
            None => no_action(),
        }
    }

    fn follow_active(&mut self, active: Option<u64>, now: Instant)
        ensures
            final(self)@ == followed(old(self)@, active, now),
            final(self)@.terminal == old(self)@.terminal,
    {
        if same_document(active, self.at.follow.last_active) {
            return;
        }
        self.at = Surface {
            follow: Follow { last_active: active, ..self.at.follow },
            ..self.at
        };
        if active.is_some() {
            self.focus_editor(now);
        }
    }

    /// Looks at the engine again after its state may have changed.
    pub fn after_state_change(&mut self, facts: &ChangeFacts, now: Instant) -> (r: Vec<
        Action<String>,
    >)
        ensures
            (final(self)@, action_views(r@)) == change_step(old(self)@, *facts, now),
            final(self)@.terminal == old(self)@.terminal,
    {
        reveal(change_step);
        self.refresh_focus(facts.find_open);
        self.at = Surface { follow: Follow { reveal: true, ..self.at.follow }, ..self.at };
        let mut actions = self.apply_pending_jump(facts);
        let ghost jump = action_views(actions@);
        self.follow_active(facts.active, now);
        push_action(&mut actions, Action::SyncServer);
        push_action(&mut actions, Action::TakeRequests);
        push_action(&mut actions, Action::TakeError);
        push_action(&mut actions, Action::Redraw);
        assert(action_views(actions@) =~= jump + seq![
            Action::SyncServer,
            Action::TakeRequests,
            Action::TakeError,
            Action::Redraw,
        ]);
        actions
    }

    /// Says why a command did not run.
    pub fn command_refused(&mut self, error: String, now: Instant)
        ensures
            final(self)@ == said(old(self)@, error@, Severity::Warning, now),
    {
        self.set_status(error, Severity::Warning, now);
    }

    /// Reports the engine's last error, if it has one.
    pub fn engine_error(&mut self, error: Option<String>, now: Instant)
        ensures
            final(self)@ == error_step(old(self)@, opt_view(error), now),
    {
        if let Some(error) = error {
            self.set_status(error, Severity::Error, now);
        }
    }

    /// Reports what asking for a document came to.
    pub fn document_requested(
        &mut self,
        path: String,
        answer: Requested<String>,
        active: Option<u64>,
        now: Instant,
    ) -> (r: Vec<Action<String>>)
        ensures
            (final(self)@, action_views(r@)) == open_step(
                old(self)@,
                path@,
                requested_view(answer),
                active,
                now,
            ),
            final(self)@.terminal == old(self)@.terminal,
    {
        reveal(open_step);
        match answer {
            Requested::Refused(error) => {
                self.set_status(error, Severity::Error, now);
                one_action(Action::Redraw)
            },
            Requested::Directory => one_action(Action::OpenWorkspace(path)),
            Requested::Document(id, outcome) => {
                if !self.loading.contains_key(&id) {
                    self.loading.insert(id, now);
                }
                if same_document(active, Some(id)) {
                    self.focus_editor(now);
                }
                let text = open_message(outcome, path.as_str());
                self.diagnostics_path = Some(path);
                self.set_status(text, Severity::Success, now);
                two_actions(Action::SaveRecent, Action::Redraw)
            },
        }
    }

    /// Reports what closing a document came to.
    pub fn document_closed(
        &mut self,
        document: u64,
        outcome: CloseOutcome<String>,
        find_open: bool,
        now: Instant,
    ) -> (r: Vec<Action<String>>)
        ensures
            (final(self)@, action_views(r@)) == close_step(
                old(self)@,
                document,
                close_view(outcome),
                find_open,
                now,
            ),
            final(self)@.terminal == old(self)@.terminal,
    {
        reveal(close_step);
        match outcome {
            CloseOutcome::Closed => {
                self.external.forget(document);
                one_action(Action::Redraw)
            },
            CloseOutcome::Unsaved(name) => {
                self.prompt = Some(Prompt::ConfirmClose { document, name, quitting: false });
                self.refresh_focus(find_open);
                one_action(Action::Redraw)
            },
            CloseOutcome::Failed(error) => {
                self.set_status(error, Severity::Error, now);
                no_action()
            },
        }
    }

    /// Waits for a save before closing its document, or says why it cannot.
    pub fn save_requested(
        &mut self,
        document: u64,
        name: &str,
        quitting: bool,
        error: Option<String>,
        now: Instant,
    )
        ensures
            final(self)@ == save_step(
                old(self)@,
                document,
                name@,
                quitting,
                opt_view(error),
                now,
            ),
            final(self)@.terminal == old(self)@.terminal,
    {
        reveal(save_step);
        match error {
            None => {
                self.at = Surface {
                    exit: Exit {
                        after_save: Some(PendingClose { document, quitting }),
                        ..self.at.exit
                    },
                    ..self.at
                };
                let mut text = owned("Saving ");
                text.push_str(name);
                text.push_str("...");
                self.set_status(text, Severity::Warning, now);
            },
            Some(error) => {
                self.set_status(error, Severity::Error, now);
            },
        }
    }

    fn keep_loading(&mut self, still: &Vec<u64>)
        ensures
            final(self)@ == (Shell {
                loading: still_loading(old(self)@.loading, still@),
                ..old(self)@
            }),
    {
        let mut kept: HashMap<u64, Instant> = HashMap::new();
        for i in 0..still.len()
            invariant
                self@ == old(self)@,
                kept@ =~= still_loading(self@.loading, still@.take(i as int)),
        {
            if let Some(started) = self.loading.get(&still[i]) {
                kept.insert(still[i], *started);
            }
            proof {
                let upto = still@.take(i as int);
                let more = still@.take(i + 1);
                assert(more =~= upto.push(still@[i as int]));
                assert forall|id: u64| more.contains(id) == (upto.contains(id) || id
                    == still@[i as int]) by {
                    if upto.contains(id) {
                        let k = choose|k: int| 0 <= k < upto.len() && upto[k] == id;
                        assert(more[k] == id);
                    }
                    if id == still@[i as int] {
                        assert(more[i as int] == id);
                    }
                }
            }
        }
        assert(still@.take(still.len() as int) =~= still@);
        self.loading = kept;
    }

    /// Applies finished background work.
    pub fn pump_background_work(&mut self, facts: &WorkFacts) -> (r: Vec<Action<String>>)
        ensures
            (final(self)@, action_views(r@)) == work_step(old(self)@, *facts),
            final(self)@.terminal == old(self)@.terminal,
    {
        reveal(work_step);
        let mut actions = no_action();
        if facts.applied == 0 {
            return actions;
        }
        if let Some(waiting) = self.at.exit.after_save {
            if !facts.still_saving {
                self.at = Surface { exit: Exit { after_save: None, ..self.at.exit }, ..self.at };
                push_action(&mut actions, Action::CloseSaved(waiting));
            }
        }
        if self.at.graph.view && !self.at.graph.settled && facts.scan_ready {
            push_action(&mut actions, Action::AdoptScan);
        }
        self.keep_loading(&facts.loading);
        push_action(&mut actions, Action::StateChanged);
        assert(action_views(actions@) =~= work_step(old(self)@, *facts).1);
        actions
    }

    /// Reports whether a document closed after its save.
    pub fn saved_document_closed(&mut self, quitting: bool, closed: bool, now: Instant)
        ensures
            final(self)@ == saved_close_step(old(self)@, quitting, closed, now),
            final(self)@.terminal == old(self)@.terminal,
    {
        if closed {
            let due = self.at.exit.due || quitting;
            self.at = Surface { exit: Exit { due, ..self.at.exit }, ..self.at };
        } else {
            self.set_status(
                owned("The save did not finish cleanly; the document is still open"),
                Severity::Warning,
                now,
            );
        }
    }

    /// The tabs to draw: one that is still loading stays hidden until it has
    /// for a while.
    pub fn visible_tabs(&self, tabs: &Vec<Tab>, now: Instant) -> (r: Vec<Tab>)
        ensures
            r@ == tabs_shown(tabs@, self@.loading, now),
    {
        let mut shown: Vec<Tab> = Vec::new();
        assert(tabs@.take(0) =~= Seq::<Tab>::empty());
        for i in 0..tabs.len()
            invariant
                shown@ == tabs_shown(tabs@.take(i as int), self@.loading, now),
        {
            assert(tabs@.take(i + 1).drop_last() =~= tabs@.take(i as int));
            let tab = &tabs[i];
            let visible = if tab.loading {
                match self.loading.get(&tab.id) {
                    Some(started) => should_show_loading_tab(*started, now),
                    None => true,
                }
            } else {
                true
            };
            if visible {
                shown.push(
                    Tab {
                        id: tab.id,
                        title: tab.title.clone(),
                        active: tab.active,
                        dirty: tab.dirty,
                        loading: tab.loading,
                    },
                );
            }
        }
        assert(tabs@.take(tabs.len() as int) =~= tabs@);
        shown
    }

    /// When the loop should wake next, if anything is on a timer.
    pub fn next_wakeup(&self, active: bool, any_tabs: bool) -> (r: Option<Instant>)
        ensures
            r == wakeup(self@, active, any_tabs),
    {
        let caret = if active && self.prompt.is_none() {
            Some(self.at.timing.caret.deadline)
        } else {
            None
        };
        let watch = if any_tabs {
            Some(self.at.timing.next_watch)
        } else {
            None
        };
        earliest(earliest(caret, watch), self.at.list.deadline)
    }

    /// Ticks everything that runs on a timer.
    pub fn tick(&mut self, now: Instant) -> (r: Vec<Action<String>>)
        ensures
            (final(self)@, action_views(r@)) == time_step(old(self)@, now),
            final(self)@.terminal == old(self)@.terminal,
    {
        reveal(time_step);
        let mut actions = no_action();
        let mut caret = self.at.timing.caret;
        if caret.tick(now) {
            push_action(&mut actions, Action::Redraw);
        }
        self.at = Surface { timing: Timing { caret, ..self.at.timing }, ..self.at };
        assert((self@, action_views(actions@)) == caret_ticked(old(self)@, now));
        let ghost first = action_views(actions@);
        let ghost a = self@;
        if let Some(deadline) = self.at.list.deadline {
            if now.nanos >= deadline.nanos {
                let mut search = self.run_pending_search();
                let ghost second = action_views(search@);
                actions.append(&mut search);
                assert(action_views(actions@) =~= first + second);
            }
        }
        assert(self@ == search_ticked(a, now).0);
        assert(action_views(actions@) =~= first + search_ticked(a, now).1);
        let ghost b = self@;
        let ghost before = action_views(actions@);
        if now.nanos >= self.at.timing.next_watch.nanos {
            let next_watch = now.plus(
                Duration { nanos: EXTERNAL_WATCH_INTERVAL * NANOS_PER_MILLI },
            );
            self.at = Surface { timing: Timing { next_watch, ..self.at.timing }, ..self.at };
            push_action(&mut actions, Action::PollDisk);
            push_action(&mut actions, Action::Redraw);
        }
        assert(self@ == watch_ticked(b, now).0);
        assert(action_views(actions@) =~= before + watch_ticked(b, now).1);
        actions
    }

    /// Reports what a look at a document's file found, when that is news.
    pub fn file_found(&mut self, document: u64, name: &str, state: ExternalState, now: Instant)
        ensures
            final(self)@ == ({
                let kept = Shell {
                    external: old(self)@.external.insert(document, state),
                    ..old(self)@
                };
                match noticed(old(self)@.external, document, name@, state) {
                    Some(text) => said(kept, text, Severity::Warning, now),
                    None => kept,
                }
            }),
            final(self)@.terminal == old(self)@.terminal,
    {
        match self.external.notice(document, name, state) {
            Some(text) => self.set_status(text, Severity::Warning, now),
            None => {},
        }
    }

    /// Activates a tab and moves editing focus to it.
    pub fn activate_tab(&mut self, id: u64, active: Option<u64>, now: Instant) -> (r: Vec<
        Action<String>,
    >)
        ensures
            (final(self)@, action_views(r@)) == activate_step(old(self)@, id, active, now),
            final(self)@.terminal == old(self)@.terminal,
    {
        if same_document(active, Some(id)) {
            self.focus_editor(now);
            return one_action(Action::Redraw);
        }
        one_action(Action::SetActive(id))
    }

    /// Reports whether a document became the active one.
    pub fn tab_activated(&mut self, error: Option<String>, now: Instant) -> (r: Vec<
        Action<String>,
    >)
        ensures
            (final(self)@, action_views(r@)) == activated_step(old(self)@, opt_view(error), now),
            final(self)@.terminal == old(self)@.terminal,
    {
        match error {
            None => {
                self.focus_editor(now);
                two_actions(Action::Redraw, Action::StateChanged)
            },
            Some(error) => {
                self.set_status(error, Severity::Error, now);
                no_action()
            },
        }
    }

    /// Gives the document that is there at the start the keyboard: nothing has
    /// to be clicked to wake it up.
    pub fn started(&mut self, active: Option<u64>, now: Instant)
        ensures
            final(self)@ == (match active {
                Some(id) => editor_focused(
                    Shell {
                        at: Surface {
                            follow: Follow { last_active: Some(id), ..old(self)@.at.follow },
                            ..old(self)@.at
                        },
                        ..old(self)@
                    },
                    now,
                ),
                None => old(self)@,
            }),
            final(self)@.terminal == old(self)@.terminal,
    {
        if active.is_some() {
            self.at = Surface {
                follow: Follow { last_active: active, ..self.at.follow },
                ..self.at
            };
            self.focus_editor(now);
        }
    }

    /// Takes output of the terminal's shell. `visible` is how many lines the
    /// panel shows, once it has been laid out.
    pub fn drain_terminal_output(&mut self, text: &str, visible: Option<usize>) -> (r: Vec<
        Action<String>,
    >)
        requires
            sound(old(self)@.terminal),
        ensures
            (final(self)@, action_views(r@)) == (if text@.len() == 0 {
                (old(self)@, Seq::<Action<Seq<char>>>::empty())
            } else {
                (
                    Shell {
                        terminal: drained(old(self)@.terminal, text@, visible),
                        ..old(self)@
                    },
                    if old(self)@.terminal.visible {
                        redraw()
                    } else {
                        Seq::empty()
                    },
                )
            }),
            sound(final(self)@.terminal),
    {
        if count(text) == 0 {
            return no_action();
        }
        self.terminal.drain_output(text, visible);
        if self.terminal.is_visible() {
            one_action(Action::Redraw)
        } else {
            no_action()
        }
    }

    /// Says that the graph was put back on screen as a whole.
    pub fn graph_fitted(&mut self, now: Instant)
        ensures
            final(self)@ == said(
                old(self)@,
                "Dependency view: fitted to the window"@,
                Severity::Success,
                now,
            ),
            final(self)@.terminal == old(self)@.terminal,
    {
        self.set_status(
            owned("Dependency view: fitted to the window"),
            Severity::Success,
            now,
        );
    }

    /// Applies the settings that change the shell itself. A caret that does
    /// not blink is a solid one.
    pub fn settings_applied(&mut self, overlay: bool, caret_blinks: bool)
        ensures
            final(self)@ == (Shell {
                at: Surface {
                    panels: Panels { overlay, ..old(self)@.at.panels },
                    timing: Timing {
                        caret: Caret {
                            visible: old(self)@.at.timing.caret.visible || !caret_blinks,
                            ..old(self)@.at.timing.caret
                        },
                        ..old(self)@.at.timing
                    },
                    ..old(self)@.at
                },
                ..old(self)@
            }),
            final(self)@.terminal == old(self)@.terminal,
    {
        let visible = self.at.timing.caret.visible || !caret_blinks;
        self.at = Surface {
            panels: Panels { overlay, ..self.at.panels },
            timing: Timing {
                caret: Caret { visible, ..self.at.timing.caret },
                ..self.at.timing
            },
            ..self.at
        };
    }

    /// Whether the docked sidebar is shown: a list is, or a query is typed.
    pub fn sidebar_visible(&self) -> (r: bool)
        ensures
            r == (self@.at.list.active is Some || self@.query is Some),
    {
        self.at.list.active.is_some() || self.query.is_some()
    }

    /// Whether the docked bottom panel is shown.
    pub fn bottom_panel_visible(&self) -> (r: bool)
        ensures
            r == self@.terminal.visible,
    {
        self.terminal.is_visible()
    }

    /// The palette row that is highlighted, while there is one.
    pub fn palette_selected(&self, rows: usize) -> (r: Option<usize>)
        ensures
            r == (if self@.palette.open && rows > 0 {
                Some(self@.palette.selected)
            } else {
                None
            }),
    {
        if self.palette.open && rows > 0 {
            Some(self.palette.selected)
        } else {
            None
        }
    }

    /// When the input that this frame answers arrived; it waits no longer.
    pub fn frame_drawn(&mut self) -> (r: Option<Instant>)
        ensures
            final(self)@ == (Shell {
                at: Surface {
                    timing: Timing { pending_input: None, ..old(self)@.at.timing },
                    ..old(self)@.at
                },
                ..old(self)@
            }),
            r == old(self)@.at.timing.pending_input,
    {
        let waiting = self.at.timing.pending_input;
        self.at = Surface { timing: Timing { pending_input: None, ..self.at.timing }, ..self.at };
        waiting
    }

    /// Whether the view is to follow the caret, which it then has.
    pub fn take_reveal(&mut self) -> (r: bool)
        ensures
            final(self)@ == (Shell {
                at: Surface {
                    follow: Follow { reveal: false, ..old(self)@.at.follow },
                    ..old(self)@.at
                },
                ..old(self)@
            }),
            r == old(self)@.at.follow.reveal,
    {
        let reveal_now = self.at.follow.reveal;
        self.at = Surface { follow: Follow { reveal: false, ..self.at.follow }, ..self.at };
        reveal_now
    }

    /// What the dependency pane shows when there is no graph to draw yet.
    pub fn dependency_placeholder(&self, root_open: bool, pending: bool) -> (r: &'static str)
        ensures
            r@ == placeholder(self@, root_open, pending),
    {
        if !root_open {
            "  No folder is open.\n\n  File > Open Folder, then pick the dependency view again."
        } else if pending {
            "  Scanning the workspace for dependencies..."
        } else if self.at.graph.settled {
            "  Laying the graph out..."
        } else {
            "  No files in a language this understands were found here."
        }
    }
}

/// How many digits the line numbers of a document take.
pub fn line_number_digits(total_lines: usize) -> (r: usize)
    ensures
        r == decimal(total_lines as nat).len(),
{
    count(decimal_of(total_lines as u64).as_str())
}

// --- laws --------------------------------------------------------------------

/// Scrolling with the wheel never pulls the view back to the caret: only a
/// change of the engine's state or a document getting the keyboard does.
pub proof fn time_alone_never_moves_the_view(s: Shell, now: Instant)
    ensures
        time_step(s, now).0.at.follow == s.at.follow,
{
    reveal(time_step);
}

/// An unrelated change of state leaves the keyboard where it is: as long as the
/// active document and the surfaces stay the same, so does a focus that was
/// settled.
pub proof fn an_unrelated_change_keeps_the_focus(s: Shell, facts: ChangeFacts, now: Instant)
    requires
        facts.active == s.at.follow.last_active,
        refreshed(s, facts.find_open).at.focus == s.at.focus,
    ensures
        change_step(s, facts, now).0.at.focus == s.at.focus,
{
    reveal(change_step);
    reveal(jump_step);
    reveal(refreshed);
}

/// A document that becomes active gets the keyboard at once, without a click.
pub proof fn a_new_active_document_gets_the_keyboard(s: Shell, facts: ChangeFacts, now: Instant)
    requires
        facts.active is Some,
        facts.active != s.at.follow.last_active,
    ensures
        change_step(s, facts, now).0.at.focus == crate::focus::InputFocus::Editor,
        change_step(s, facts, now).0.at.follow.reveal,
{
    reveal(change_step);
    reveal(jump_step);
    reveal(refreshed);
}

/// A dirty document is never closed without asking: closing one only puts up
/// the question, and answering it with Cancel leaves it open.
pub proof fn a_dirty_document_is_asked_about(
    s: Shell,
    document: u64,
    name: Seq<char>,
    find_open: bool,
    now: Instant,
)
    ensures
        ({
            let asked = close_step(s, document, CloseOutcome::Unsaved(name), find_open, now);
            let cancelled = crate::keys::prompt_step(
                asked.0,
                crate::shell::PromptAnswer::Cancel,
                find_open,
                now,
            );
            &&& asked.0.prompt == Some(Prompt::ConfirmClose { document, name, quitting: false })
            &&& asked.1 == redraw()
            &&& cancelled.0.prompt is None
            &&& cancelled.1 == redraw()
        }),
{
    reveal(close_step);
    reveal(refreshed);
    reveal(crate::keys::prompt_step);
}

/// A document that is to close after its save stays open until the save is
/// done.
pub proof fn a_close_waits_for_its_save(s: Shell, facts: WorkFacts)
    requires
        facts.still_saving,
    ensures
        work_step(s, facts).0.at.exit.after_save == s.at.exit.after_save,
        forall|i: int|
            0 <= i < work_step(s, facts).1.len() ==> !(#[trigger] work_step(s, facts).1[i]
                is CloseSaved),
{
    reveal(work_step);
}

/// With no document, nothing open and no search waiting, the loop sleeps
/// without a timer.
pub proof fn an_idle_window_sleeps(s: Shell)
    requires
        s.at.list.deadline is None,
    ensures
        wakeup(s, false, false) is None,
{
}

/// A finished load never leaves a flash behind: a tab is hidden only while it
/// loads.
pub proof fn only_loading_tabs_are_hidden(tab: Tab, loads: Map<u64, Instant>, now: Instant)
    requires
        !tab_shown(tab, loads, now),
    ensures
        tab.loading,
{
}

/// A jump is made in its own file or not at all.
pub proof fn a_jump_never_lands_in_another_file(s: Shell, facts: ChangeFacts, line: usize)
    requires
        jump_step(s, facts).1.contains(Action::GoToLine(line)),
    ensures
        s.pending_jump matches Some((path, _)) && facts.document matches Some(Some(open)) && open@
            == path,
{
    reveal(jump_step);
    let actions = jump_step(s, facts).1;
    let i = choose|i: int|
        0 <= i < actions.len() && actions[i] == Action::<Seq<char>>::GoToLine(line);
    assert(actions[i] == Action::<Seq<char>>::GoToLine(line));
}

/// A jump that waits is made as soon as its own file is there, to the line it
/// names counted from one. While anything is loading it waits on, and in
/// another file it is given up.
pub proof fn a_jump_is_made_when_its_file_is_there(
    s: Shell,
    facts: ChangeFacts,
    path: Seq<char>,
    line: usize,
)
    requires
        s.pending_jump == Some((path, line)),
        facts.active is Some,
    ensures
        facts.loading ==> jump_step(s, facts) == (s, Seq::<Action<Seq<char>>>::empty()),
        !facts.loading ==> jump_step(s, facts).0 == (Shell { pending_jump: None, ..s }),
        ({
            let here = facts.document is Some && facts.document->0 is Some && facts.document->0->0@
                == path;
            &&& !facts.loading && here && line >= 1 ==> jump_step(s, facts).1
                == seq![Action::<Seq<char>>::GoToLine((line - 1) as usize)]
            &&& !facts.loading && here && line == 0 ==> jump_step(s, facts).1
                == seq![Action::<Seq<char>>::GoToLine(0)]
            &&& !facts.loading && !here ==> jump_step(s, facts).1.len() == 0
        }),
{
    reveal(jump_step);
}

/// After any change of the engine's state the language server is told of it,
/// what commands asked for and what went wrong is taken up, and a frame is
/// drawn, in this order and each once. The view follows the caret.
pub proof fn a_change_is_taken_up(s: Shell, facts: ChangeFacts, now: Instant)
    requires
        s.pending_jump is None,
    ensures
        change_step(s, facts, now).1 == seq![
            Action::<Seq<char>>::SyncServer,
            Action::TakeRequests,
            Action::TakeError,
            Action::Redraw,
        ],
        change_step(s, facts, now).0.at.follow.reveal,
        change_step(s, facts, now).0.at.follow.last_active == facts.active,
        change_step(s, facts, now).0.at.list == s.at.list,
        change_step(s, facts, now).0.terminal == s.terminal,
        change_step(s, facts, now).0.query == s.query,
        change_step(s, facts, now).0.message == s.message,
{
    reveal(change_step);
    reveal(jump_step);
    reveal(refreshed);
    assert(change_step(s, facts, now).1 =~= seq![
        Action::<Seq<char>>::SyncServer,
        Action::TakeRequests,
        Action::TakeError,
        Action::Redraw,
    ]);
}

/// An error is told as it is, and without one nothing is said.
pub proof fn an_error_is_told_as_it_is(s: Shell, error: Seq<char>, now: Instant)
    ensures
        error_step(s, None, now) == s,
        error_step(s, Some(error), now).message is Some,
        error_step(s, Some(error), now).message->0.text == error,
        error_step(s, Some(error), now).message->0.severity == Severity::Error,
        (Shell { message: s.message, ..error_step(s, Some(error), now) }) == s,
{
}

/// A document that was asked for is timed from the first request on, whoever
/// asks again, and every other load keeps its start. It becomes the file that
/// the diagnostics speak of, is remembered among the recent ones, and gets the
/// keyboard when it is the active one.
pub proof fn a_load_is_timed_from_its_first_request(
    s: Shell,
    path: Seq<char>,
    id: u64,
    outcome: OpenOutcome,
    active: Option<u64>,
    now: Instant,
)
    ensures
        ({
            let step = open_step(s, path, Requested::Document(id, outcome), active, now);
            &&& step.0.loading.contains_key(id)
            &&& s.loading.contains_key(id) ==> step.0.loading[id] == s.loading[id]
            &&& !s.loading.contains_key(id) ==> step.0.loading[id] == now
            &&& forall|other: u64|
                other != id ==> (#[trigger] step.0.loading.contains_key(other)
                    == s.loading.contains_key(other))
            &&& forall|other: u64|
                other != id && s.loading.contains_key(other) ==> #[trigger] step.0.loading[other]
                    == s.loading[other]
            &&& step.0.diagnostics_path == Some(path)
            &&& step.1 == seq![Action::<Seq<char>>::SaveRecent, Action::Redraw]
            &&& active == Some(id) ==> step.0.at.focus == crate::focus::InputFocus::Editor
            &&& active != Some(id) ==> step.0.at == s.at
            &&& step.0.message is Some
            &&& step.0.message->0.severity == Severity::Success
            &&& outcome == OpenOutcome::Started ==> step.0.message->0.text == "Loading "@ + path
                + "..."@
            &&& outcome == OpenOutcome::AlreadyOpen ==> step.0.message->0.text == path
                + " is already open"@
            &&& outcome == OpenOutcome::Joined ==> step.0.message->0.text
                == "Joined the load already running for "@ + path
        }),
{
    reveal(open_step);
}

/// A directory that was asked for is opened as the workspace, and nothing else
/// happens. What is refused is told, and no load is timed for it.
pub proof fn a_directory_is_a_workspace(
    s: Shell,
    path: Seq<char>,
    error: Seq<char>,
    active: Option<u64>,
    now: Instant,
)
    ensures
        open_step(s, path, Requested::Directory, active, now) == (
            s,
            seq![Action::OpenWorkspace(path)],
        ),
        ({
            let step = open_step(s, path, Requested::Refused(error), active, now);
            &&& step.0.message is Some
            &&& step.0.message->0.text == error
            &&& step.0.message->0.severity == Severity::Error
            &&& Shell { message: s.message, ..step.0 } == s
        }),
{
    reveal(open_step);
}

/// A document that closed is no longer watched, and every other one still is.
/// One that could not be closed is told of.
pub proof fn a_closed_document_is_no_longer_watched(
    s: Shell,
    document: u64,
    error: Seq<char>,
    find_open: bool,
    now: Instant,
)
    ensures
        ({
            let closed = close_step(s, document, CloseOutcome::Closed, find_open, now);
            &&& !closed.0.external.contains_key(document)
            &&& forall|other: u64|
                other != document ==> (#[trigger] closed.0.external.contains_key(other)
                    == s.external.contains_key(other))
            &&& forall|other: u64|
                other != document && s.external.contains_key(other) ==> #[trigger]
                    closed.0.external[other] == s.external[other]
            &&& closed.0.prompt == s.prompt
            &&& closed.0.at == s.at
            &&& closed.1 == seq![Action::<Seq<char>>::Redraw]
        }),
        ({
            let failed = close_step(s, document, CloseOutcome::Failed(error), find_open, now);
            &&& failed.0.message is Some
            &&& failed.0.message->0.text == error
            &&& failed.0.message->0.severity == Severity::Error
            &&& Shell { message: s.message, ..failed.0 } == s
        }),
{
    reveal(close_step);
}

/// A save that was started closes its own document afterwards, and ends the
/// program only if that was asked for. One that could not be started closes
/// nothing.
pub proof fn a_save_closes_its_own_document(
    s: Shell,
    document: u64,
    name: Seq<char>,
    quitting: bool,
    error: Seq<char>,
    now: Instant,
)
    ensures
        ({
            let saving = save_step(s, document, name, quitting, None, now);
            &&& saving.at.exit.after_save is Some
            &&& saving.at.exit.after_save->0.document == document
            &&& saving.at.exit.after_save->0.quitting == quitting
            &&& saving.at.exit.due == s.at.exit.due
            &&& saving.message is Some
            &&& saving.message->0.text == "Saving "@ + name + "..."@
            &&& saving.message->0.severity == Severity::Warning
        }),
        ({
            let failed = save_step(s, document, name, quitting, Some(error), now);
            &&& failed.at.exit == s.at.exit
            &&& failed.message is Some
            &&& failed.message->0.text == error
            &&& failed.message->0.severity == Severity::Error
        }),
        saved_close_step(s, quitting, true, now).at.exit.due == (s.at.exit.due || quitting),
        saved_close_step(s, quitting, true, now).message == s.message,
        saved_close_step(s, quitting, false, now).at == s.at,
        saved_close_step(s, quitting, false, now).message is Some,
        saved_close_step(s, quitting, false, now).message->0.text
            == "The save did not finish cleanly; the document is still open"@,
        saved_close_step(s, quitting, false, now).message->0.severity == Severity::Warning,
{
    reveal(save_step);
}

/// Where nothing landed, nothing changes. Otherwise a load is in flight
/// afterwards if and only if it was before and is still running, with its
/// start; a close whose save is done goes ahead, once; and a scan that is
/// complete is taken up while the view waits for it.
pub proof fn landed_work_is_taken_up(s: Shell, facts: WorkFacts)
    ensures
        facts.applied == 0 ==> work_step(s, facts) == (s, Seq::<Action<Seq<char>>>::empty()),
        facts.applied > 0 ==> {
            let step = work_step(s, facts);
            let saved = s.at.exit.after_save is Some && !facts.still_saving;
            let scanned = s.at.graph.view && !s.at.graph.settled && facts.scan_ready;
            &&& forall|id: u64|
                #[trigger] step.0.loading.contains_key(id) <==> s.loading.contains_key(id)
                    && facts.loading@.contains(id)
            &&& forall|id: u64|
                step.0.loading.contains_key(id) ==> #[trigger] step.0.loading[id] == s.loading[id]
            &&& saved ==> step.0.at.exit.after_save is None
            &&& !saved ==> step.0.at.exit.after_save == s.at.exit.after_save
            &&& saved && scanned ==> step.1 == seq![
                Action::<Seq<char>>::CloseSaved(s.at.exit.after_save->0),
                Action::AdoptScan,
                Action::StateChanged,
            ]
            &&& saved && !scanned ==> step.1 == seq![
                Action::<Seq<char>>::CloseSaved(s.at.exit.after_save->0),
                Action::StateChanged,
            ]
            &&& !saved && scanned ==> step.1 == seq![
                Action::<Seq<char>>::AdoptScan,
                Action::StateChanged,
            ]
            &&& !saved && !scanned ==> step.1 == seq![Action::<Seq<char>>::StateChanged]
            &&& step.0.at.exit.due == s.at.exit.due
            &&& step.0.message == s.message
        },
{
    reveal(work_step);
    if facts.applied > 0 {
        let step = work_step(s, facts);
        let saved = s.at.exit.after_save is Some && !facts.still_saving;
        let scanned = s.at.graph.view && !s.at.graph.settled && facts.scan_ready;
        if saved && scanned {
            assert(step.1 =~= seq![
                Action::<Seq<char>>::CloseSaved(s.at.exit.after_save->0),
                Action::AdoptScan,
                Action::StateChanged,
            ]);
        } else if saved {
            assert(step.1 =~= seq![
                Action::<Seq<char>>::CloseSaved(s.at.exit.after_save->0),
                Action::StateChanged,
            ]);
        } else if scanned {
            assert(step.1 =~= seq![Action::<Seq<char>>::AdoptScan, Action::StateChanged]);
        } else {
            assert(step.1 =~= seq![Action::<Seq<char>>::StateChanged]);
        }
    }
}

/// The tabs are drawn in their order, each that is not loading, and each that
/// has been loading for at least 120 milliseconds.
pub proof fn tabs_are_drawn_in_their_order(tabs: Seq<Tab>, loads: Map<u64, Instant>, now: Instant)
    ensures
        tabs_shown(tabs, loads, now) == tabs.filter(
            |tab: Tab|
                !tab.loading || !loads.contains_key(tab.id) || now.nanos - loads[tab.id].nanos
                    >= 120_000_000,
        ),
    decreases tabs.len(),
{
    reveal(Seq::filter);
    if tabs.len() > 0 {
        tabs_are_drawn_in_their_order(tabs.drop_last(), loads, now);
    }
}

/// The loop never sleeps past anything that is due: not past the caret while a
/// document has one and nothing is asked, nor the look at the disk while
/// anything is open, nor a search that waits. What it wakes for is one of
/// them.
pub proof fn the_loop_wakes_for_what_is_due(s: Shell, active: bool, any_tabs: bool)
    ensures
        ({
            let wakes = wakeup(s, active, any_tabs);
            let blinks = active && s.prompt is None;
            &&& blinks ==> wakes is Some && wakes->0.nanos <= s.at.timing.caret.deadline.nanos
            &&& any_tabs ==> wakes is Some && wakes->0.nanos <= s.at.timing.next_watch.nanos
            &&& s.at.list.deadline is Some ==> wakes is Some && wakes->0.nanos
                <= s.at.list.deadline->0.nanos
            &&& wakes is Some ==> {
                ||| blinks && wakes->0 == s.at.timing.caret.deadline
                ||| any_tabs && wakes->0 == s.at.timing.next_watch
                ||| s.at.list.deadline == wakes
            }
        }),
{
}

/// When its time has come the caret turns, a search that waits is sent for
/// what is typed, and the disk is looked at; before its time each is left
/// alone. Looking at the disk is due again a second and a half later.
pub proof fn everything_happens_when_it_is_due(s: Shell, now: Instant)
    requires
        now.nanos + 1_500_000_000 <= u64::MAX,
    ensures
        ({
            let step = time_step(s, now);
            let blink = now.nanos >= s.at.timing.caret.deadline.nanos;
            let search = s.at.list.deadline is Some && now.nanos >= s.at.list.deadline->0.nanos;
            let look = now.nanos >= s.at.timing.next_watch.nanos;
            &&& step.0.at.timing.caret.visible == (s.at.timing.caret.visible != blink)
            &&& blink ==> step.0.at.timing.caret.deadline.nanos == now.nanos + 500_000_000
            &&& !blink ==> step.0.at.timing.caret == s.at.timing.caret
            &&& search ==> step.0.at.list.deadline is None
            &&& !search ==> step.0.at.list.deadline == s.at.list.deadline
            &&& search && s.query is Some && s.query->0.len() > 0 ==> step.1.contains(
                Action::RequestSearch(s.query->0),
            )
            &&& look ==> step.0.at.timing.next_watch.nanos == now.nanos + 1_500_000_000
            &&& look ==> step.1.contains(Action::<Seq<char>>::PollDisk)
            &&& !look ==> step.0.at.timing.next_watch == s.at.timing.next_watch
            &&& !blink && !search && !look ==> step.1.len() == 0
            &&& step.0.query == s.query
            &&& step.0.at.list.active == s.at.list.active
            &&& step.0.at.focus == s.at.focus
        }),
{
    reveal(time_step);
    let step = time_step(s, now);
    let (a, first) = caret_ticked(s, now);
    let (b, second) = search_ticked(a, now);
    let (c, third) = watch_ticked(b, now);
    assert(step.1 == first + second + third);
    let search = s.at.list.deadline is Some && now.nanos >= s.at.list.deadline->0.nanos;
    if search && s.query is Some && s.query->0.len() > 0 {
        assert(second[0] == Action::RequestSearch(s.query->0));
        assert(step.1[first.len() as int] == Action::RequestSearch(s.query->0));
    }
    if now.nanos >= s.at.timing.next_watch.nanos {
        assert(third[0] == Action::<Seq<char>>::PollDisk);
        assert(step.1[(first.len() + second.len()) as int] == Action::<Seq<char>>::PollDisk);
    }
}

/// A tab that is activated makes its own document active and gives it the
/// keyboard; the one that is already active only gets the keyboard.
pub proof fn a_tab_activates_its_own_document(
    s: Shell,
    id: u64,
    active: Option<u64>,
    error: Seq<char>,
    now: Instant,
)
    ensures
        active == Some(id) ==> activate_step(s, id, active, now).0.at.focus
            == crate::focus::InputFocus::Editor && activate_step(s, id, active, now).1
            == seq![Action::<Seq<char>>::Redraw],
        active != Some(id) ==> activate_step(s, id, active, now) == (
            s,
            seq![Action::<Seq<char>>::SetActive(id)],
        ),
        activated_step(s, None, now).0.at.focus == crate::focus::InputFocus::Editor,
        activated_step(s, None, now).1 == seq![
            Action::<Seq<char>>::Redraw,
            Action::StateChanged,
        ],
        activated_step(s, Some(error), now).0.message is Some,
        activated_step(s, Some(error), now).0.message->0.text == error,
        activated_step(s, Some(error), now).0.at == s.at,
{
}

/// An empty dependency pane says why it is empty: that no folder is open
/// before anything else, then that a scan runs, then that there is a graph to
/// lay out, and last that there is none.
pub proof fn an_empty_pane_says_why(s: Shell, pending: bool)
    ensures
        placeholder(s, false, pending)
            == "  No folder is open.\n\n  File > Open Folder, then pick the dependency view again."@,
        placeholder(s, true, true) == "  Scanning the workspace for dependencies..."@,
        s.at.graph.settled ==> placeholder(s, true, false) == "  Laying the graph out..."@,
        !s.at.graph.settled ==> placeholder(s, true, false)
            == "  No files in a language this understands were found here."@,
{
}

/// What asking for a document and closing one came to is read as it stands.
pub proof fn an_outcome_is_read_as_it_stands(text: String, id: u64, outcome: OpenOutcome)
    ensures
        requested_view(Requested::Document(id, outcome)) == Requested::<Seq<char>>::Document(
            id,
            outcome,
        ),
        requested_view(Requested::Directory) == Requested::<Seq<char>>::Directory,
        requested_view(Requested::Refused(text)) == Requested::Refused(text@),
        close_view(CloseOutcome::Closed) == CloseOutcome::<Seq<char>>::Closed,
        close_view(CloseOutcome::Unsaved(text)) == CloseOutcome::Unsaved(text@),
        close_view(CloseOutcome::Failed(text)) == CloseOutcome::Failed(text@),
{
}

} // verus!
