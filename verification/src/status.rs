//! What the shell says in words: the status bar, the banner, the window title,
//! and the messages that come and go.

use crate::clock::{span, Instant, NANOS_PER_MILLI};
use crate::icons::Icon;
use crate::keymap::HINTS;
use crate::lists::GitStatus;
use crate::lsp::{language_name, Diagnostic, DiagnosticSeverity, Language, PersistenceState};
use crate::rich::{colored, icon, plain, RichText, Role, Run};
use crate::settings::SaveOutcome;
use crate::text::{count, decimal, decimal_of, least, owned};
use std::collections::HashMap;
use vstd::prelude::*;

verus! {

broadcast use vstd::std_specs::hash::group_hash_axioms;

/// How prominently a status message should read.
#[derive(Copy, Clone, Debug, PartialEq, Eq, Structural)]
pub enum Severity {
    Success,
    Warning,
    Error,
}

/// A message, when it was set, and how prominent it is.
#[derive(Clone, Debug, PartialEq, Eq)]
pub struct StatusMessage<T> {
    pub text: T,
    pub at: Instant,
    pub severity: Severity,
}

/// A message with its text as characters.
pub open spec fn message_view(message: Option<StatusMessage<String>>) -> Option<
    StatusMessage<Seq<char>>,
> {
    match message {
        Some(m) => Some(StatusMessage { text: m.text@, at: m.at, severity: m.severity }),
        None => None,
    }
}

/// How long a transient status message stays on screen, in milliseconds.
pub const STATUS_MESSAGE_TIME: u64 = 6000;

/// Whether the message is still to be shown at `now`.
pub open spec fn live(message: Option<StatusMessage<Seq<char>>>, now: Instant) -> bool {
    message is Some && span(message->0.at, now) < STATUS_MESSAGE_TIME * NANOS_PER_MILLI
}

/// The prominence of the message on screen, if there is one.
pub open spec fn severity_shown(
    message: Option<StatusMessage<Seq<char>>>,
    now: Instant,
) -> Option<Severity> {
    if live(message, now) {
        Some(message->0.severity)
    } else {
        None
    }
}

/// The prominence of the message that is still on screen.
pub fn live_status_severity(message: &Option<StatusMessage<String>>, now: Instant) -> (r: Option<
    Severity,
>)
    ensures
        r == severity_shown(message_view(*message), now),
{
    match message {
        Some(m) => if now.since(m.at).nanos < STATUS_MESSAGE_TIME * NANOS_PER_MILLI {
            Some(m.severity)
        } else {
            None
        },
        None => None,
    }
}

/// The colour the status line is drawn in, so a failure does not read like a
/// hint.
pub open spec fn severity_role(severity: Option<Severity>) -> Role {
    match severity {
        Some(Severity::Error) => Role::Error,
        Some(Severity::Warning) => Role::Warning,
        Some(Severity::Success) => Role::Success,
        None => Role::StatusText,
    }
}

/// The colour the status line is drawn in.
pub fn status_color(severity: Option<Severity>) -> (r: Role)
    ensures
        r == severity_role(severity),
{
    match severity {
        Some(Severity::Error) => Role::Error,
        Some(Severity::Warning) => Role::Warning,
        Some(Severity::Success) => Role::Success,
        None => Role::StatusText,
    }
}

// --- the active document -----------------------------------------------------

/// Whether a document holds edits that are not in its file.
#[derive(Copy, Clone, Debug, PartialEq, Eq, Structural)]
pub enum ContentState {
    Clean,
    Dirty,
}

/// The active document as the status bar sees it.
#[derive(Copy, Clone, Debug, PartialEq, Eq)]
pub struct DocumentState {
    pub loading: bool,
    pub saving: bool,
    /// How it is kept, once it is there.
    pub kept: Option<(PersistenceState, ContentState)>,
}

/// The state word for a document.
pub open spec fn state_label(active: Option<DocumentState>) -> Seq<char> {
    match active {
        None => ""@,
        Some(state) => if state.loading {
            "Loading"@
        } else if state.saving {
            "Saving..."@
        } else {
            match state.kept {
                None => ""@,
                Some((PersistenceState::SaveFailed, _)) => "Save failed"@,
                Some((PersistenceState::SaveSucceeded, ContentState::Clean)) => "Saved"@,
                Some((_, ContentState::Dirty)) => "Dirty"@,
                Some((_, ContentState::Clean)) => "Clean"@,
            }
        },
    }
}

/// The document's state word for the status bar.
pub fn document_state_label(active: Option<DocumentState>) -> (r: &'static str)
    ensures
        r@ == state_label(active),
{
    match active {
        None => "",
        Some(state) => if state.loading {
            "Loading"
        } else if state.saving {
            "Saving..."
        } else {
            match state.kept {
                None => "",
                Some((PersistenceState::SaveFailed, _)) => "Save failed",
                Some((PersistenceState::SaveSucceeded, ContentState::Clean)) => "Saved",
                Some((_, ContentState::Dirty)) => "Dirty",
                Some((_, ContentState::Clean)) => "Clean",
            }
        },
    }
}

/// How many problems of a severity there are.
pub open spec fn count_of(
    problems: Seq<Diagnostic<String>>,
    severity: DiagnosticSeverity,
) -> int
    decreases problems.len(),
{
    if problems.len() == 0 {
        0
    } else {
        count_of(problems.drop_last(), severity) + (if problems.last().severity == severity {
            1int
        } else {
            0int
        })
    }
}

/// How many problems of a severity there are over all documents.
pub open spec fn count_over(
    documents: Seq<Vec<Diagnostic<String>>>,
    severity: DiagnosticSeverity,
) -> int
    decreases documents.len(),
{
    if documents.len() == 0 {
        0
    } else {
        count_over(documents.drop_last(), severity) + count_of(documents.last()@, severity)
    }
}

/// One more, as far as there are numbers.
fn one_more(n: usize) -> (r: usize)
    ensures
        r == least(n + 1, usize::MAX as int),
{
    if n < usize::MAX {
        n + 1
    } else {
        n
    }
}

/// Error and warning counts across every open document.
pub fn diagnostic_counts(documents: &Vec<Vec<Diagnostic<String>>>) -> (r: (usize, usize))
    ensures
        r.0 == least(
            count_over(documents@, DiagnosticSeverity::Error),
            usize::MAX as int,
        ),
        r.1 == least(
            count_over(documents@, DiagnosticSeverity::Warning),
            usize::MAX as int,
        ),
{
    let mut errors: usize = 0;
    let mut warnings: usize = 0;
    assert(documents@.take(0) =~= Seq::<Vec<Diagnostic<String>>>::empty());
    for i in 0..documents.len()
        invariant
            errors == least(
                count_over(documents@.take(i as int), DiagnosticSeverity::Error),
                usize::MAX as int,
            ),
            warnings == least(
                count_over(documents@.take(i as int), DiagnosticSeverity::Warning),
                usize::MAX as int,
            ),
    {
        let problems = &documents[i];
        let ghost upto = documents@.take(i as int);
        assert(documents@.take(i + 1).drop_last() =~= upto);
        assert(problems@.take(0) =~= Seq::<Diagnostic<String>>::empty());
        for j in 0..problems.len()
            invariant
                errors == least(
                    count_over(upto, DiagnosticSeverity::Error) + count_of(
                        problems@.take(j as int),
                        DiagnosticSeverity::Error,
                    ),
                    usize::MAX as int,
                ),
                warnings == least(
                    count_over(upto, DiagnosticSeverity::Warning) + count_of(
                        problems@.take(j as int),
                        DiagnosticSeverity::Warning,
                    ),
                    usize::MAX as int,
                ),
        {
            assert(problems@.take(j + 1).drop_last() =~= problems@.take(j as int));
            match problems[j].severity {
                DiagnosticSeverity::Error => {
                    errors = one_more(errors);
                },
                DiagnosticSeverity::Warning => {
                    warnings = one_more(warnings);
                },
                _ => {},
            }
        }
        assert(problems@.take(problems.len() as int) =~= problems@);
    }
    assert(documents@.take(documents.len() as int) =~= documents@);
    (errors, warnings)
}

// --- the status bar ----------------------------------------------------------

/// The branch, marked with an asterisk while the working tree is dirty.
pub open spec fn branch_runs(git: Option<GitStatus>) -> Seq<Run<Seq<char>>> {
    match git {
        Some(status) => match status.branch {
            Some(branch) => seq![
                icon(Icon::GitBranch, Role::StatusText),
                plain(" "@),
                colored(
                    if status.clean {
                        branch@ + ""@
                    } else {
                        branch@ + "*"@
                    },
                    Role::StatusText,
                ),
                plain("   "@),
            ],
            None => Seq::empty(),
        },
        None => Seq::empty(),
    }
}

/// The two problem counts.
pub open spec fn count_runs(errors: usize, warnings: usize) -> Seq<Run<Seq<char>>> {
    seq![
        icon(Icon::Error, Role::StatusText),
        colored(" "@ + decimal(errors as nat) + "  "@, Role::StatusText),
        icon(Icon::Warning, Role::StatusText),
        colored(" "@ + decimal(warnings as nat), Role::StatusText),
    ]
}

/// What the left half ends with: the message while it is live, else what is
/// loading, else the document's state.
pub open spec fn tail_runs(
    message: Option<StatusMessage<Seq<char>>>,
    now: Instant,
    summary: Option<Seq<char>>,
    state: Seq<char>,
) -> Seq<Run<Seq<char>>> {
    if live(message, now) {
        seq![
            plain("   "@),
            colored(message->0.text, severity_role(severity_shown(message, now))),
        ]
    } else if summary is Some {
        seq![plain("   "@), colored(summary->0, Role::StatusText)]
    } else if state.len() > 0 {
        seq![plain("   "@), colored(state, Role::DimText)]
    } else {
        Seq::empty()
    }
}

/// A text that may be there, as characters.
pub open spec fn opt_view(text: Option<String>) -> Option<Seq<char>> {
    match text {
        Some(text) => Some(text@),
        None => None,
    }
}

/// Left half of the status bar: the branch, the problem counts, then whatever
/// the shell most recently had to say.
pub fn status_left(
    git: &Option<GitStatus>,
    counts: (usize, usize),
    message: &Option<StatusMessage<String>>,
    now: Instant,
    summary: &Option<String>,
    state: &str,
) -> (r: RichText)
    ensures
        r@ == branch_runs(*git) + count_runs(counts.0, counts.1) + tail_runs(
            message_view(*message),
            now,
            opt_view(*summary),
            state@,
        ),
{
    let mut rich = RichText::new();
    if let Some(status) = git {
        if let Some(branch) = &status.branch {
            rich.icon(Icon::GitBranch, Role::StatusText);
            rich.plain(" ");
            let mut name = branch.clone();
            name.push_str(
                if status.clean {
                    ""
                } else {
                    "*"
                },
            );
            rich.colored(name.as_str(), Role::StatusText);
            rich.plain("   ");
        }
    }
    assert(rich@ =~= branch_runs(*git));
    let mut errors = owned(" ");
    errors.push_str(decimal_of(counts.0 as u64).as_str());
    errors.push_str("  ");
    let mut warnings = owned(" ");
    warnings.push_str(decimal_of(counts.1 as u64).as_str());
    rich.icon(Icon::Error, Role::StatusText);
    rich.colored(errors.as_str(), Role::StatusText);
    rich.icon(Icon::Warning, Role::StatusText);
    rich.colored(warnings.as_str(), Role::StatusText);
    assert(rich@ =~= branch_runs(*git) + count_runs(counts.0, counts.1));
    let ghost before = rich@;
    let severity = live_status_severity(message, now);
    let mut said = false;
    if severity.is_some() {
        if let Some(m) = message {
            rich.plain("   ");
            rich.colored(m.text.as_str(), status_color(severity));
            said = true;
        }
    }
    if !said {
        match summary {
            Some(text) => {
                rich.plain("   ");
                rich.colored(text.as_str(), Role::StatusText);
            },
            None => {
                if count(state) > 0 {
                    rich.plain("   ");
                    rich.colored(state, Role::DimText);
                }
            },
        }
    }
    assert(rich@ =~= before + tail_runs(message_view(*message), now, opt_view(*summary), state@));
    rich
}

/// The active document's place and format, as the status bar shows them.
#[derive(Clone, Debug, PartialEq, Eq)]
pub struct DocumentPlace {
    /// Caret line and display column, counted from 0.
    pub line: usize,
    pub column: usize,
    pub encoding: String,
    pub line_ending: String,
    /// Whether the document mixes line endings.
    pub mixed: bool,
    pub language: Language,
}

/// A line or column as people count it.
pub open spec fn counted(n: usize) -> Seq<char> {
    decimal(least(n + 1, usize::MAX as int) as nat)
}

/// The caret's place, the encoding, the line ending and the language.
pub open spec fn place_text(place: DocumentPlace) -> Seq<char> {
    "Ln "@ + counted(place.line) + ", Col "@ + counted(place.column) + "   "@ + place.encoding@
        + "   "@ + (if place.mixed {
        place.line_ending@ + " (mixed)"@
    } else {
        place.line_ending@
    }) + "   "@ + language_name(place.language)
}

/// Right half of the status bar: the panel toggles, then the document's place
/// and format, or the keys to start with.
pub open spec fn right_runs(place: Option<DocumentPlace>) -> Seq<Run<Seq<char>>> {
    seq![
        icon(Icon::LayoutSidebarLeft, Role::DimText),
        plain("  "@),
        icon(Icon::LayoutPanel, Role::DimText),
        plain("   "@),
        match place {
            Some(place) => colored(place_text(place), Role::StatusText),
            None => colored(HINTS@, Role::DimText),
        },
    ]
}

/// Right half of the status bar.
pub fn status_right(place: &Option<DocumentPlace>) -> (r: RichText)
    ensures
        r@ == right_runs(*place),
{
    let mut rich = RichText::new();
    rich.icon(Icon::LayoutSidebarLeft, Role::DimText);
    rich.plain("  ");
    rich.icon(Icon::LayoutPanel, Role::DimText);
    rich.plain("   ");
    match place {
        Some(at) => {
            let mut ending = at.line_ending.clone();
            if at.mixed {
                ending.push_str(" (mixed)");
            }
            let mut text = owned("Ln ");
            text.push_str(decimal_of(one_more(at.line) as u64).as_str());
            text.push_str(", Col ");
            text.push_str(decimal_of(one_more(at.column) as u64).as_str());
            text.push_str("   ");
            text.push_str(at.encoding.as_str());
            text.push_str("   ");
            text.push_str(ending.as_str());
            text.push_str("   ");
            text.push_str(at.language.name());
            rich.colored(text.as_str(), Role::StatusText);
        },
        None => {
            rich.colored(HINTS, Role::DimText);
        },
    }
    assert(rich@ =~= right_runs(*place));
    rich
}

// --- the banner and the title ------------------------------------------------

/// What the editor is waiting for the user to decide. `T` is how the name is
/// held.
#[derive(Clone, Debug, PartialEq, Eq)]
pub enum Prompt<T> {
    /// A dirty document is being closed: Save / Don't Save / Cancel.
    ConfirmClose { document: u64, name: T, quitting: bool },
}

/// A confirmation with its name as characters.
pub open spec fn prompt_view(prompt: Option<Prompt<String>>) -> Option<Prompt<Seq<char>>> {
    match prompt {
        Some(Prompt::ConfirmClose { document, name, quitting }) => Some(
            Prompt::ConfirmClose { document, name: name@, quitting },
        ),
        None => None,
    }
}

/// The confirmation strip's text.
pub open spec fn prompt_line(prompt: Option<Prompt<Seq<char>>>) -> Option<Seq<char>> {
    match prompt {
        Some(Prompt::ConfirmClose { name, .. }) => Some(
            name + " has unsaved changes.    [S] Save     [D] Don't Save     [Esc] Cancel"@,
        ),
        None => None,
    }
}

/// The confirmation strip's text, phrased so all three answers are visible
/// without a modal dialog.
pub fn prompt_text(prompt: &Option<Prompt<String>>) -> (r: Option<String>)
    ensures
        opt_view(r) == prompt_line(prompt_view(*prompt)),
{
    match prompt {
        Some(Prompt::ConfirmClose { name, .. }) => {
            let mut text = name.clone();
            text.push_str(
                " has unsaved changes.    [S] Save     [D] Don't Save     [Esc] Cancel",
            );
            Some(text)
        },
        None => None,
    }
}

/// The find bar's state, while it is open.
#[derive(Clone, Debug, PartialEq, Eq)]
pub struct FindFacts {
    pub query: String,
    /// Which match is current, and how many there are.
    pub position: Option<(usize, usize)>,
}

/// How many matches there are and which is current.
pub open spec fn position_text(find: FindFacts) -> Seq<char> {
    match find.position {
        Some((current, total)) => decimal(current as nat) + " of "@ + decimal(total as nat),
        None => if find.query@.len() == 0 {
            ""@
        } else {
            "No results"@
        },
    }
}

/// The find bar's text.
pub open spec fn find_line(find: Option<FindFacts>) -> Option<Seq<char>> {
    match find {
        Some(find) => Some(
            "Find: "@ + find.query@ + "    "@ + position_text(find)
                + "    [Enter] Next  [Shift+Enter] Prev  [Esc] Close"@,
        ),
        None => None,
    }
}

/// The find bar's text, when it is open: the query and a running count.
pub fn find_bar_text(find: &Option<FindFacts>) -> (r: Option<String>)
    ensures
        opt_view(r) == find_line(*find),
{
    match find {
        Some(find) => {
            let position = match find.position {
                Some((current, total)) => {
                    let mut text = decimal_of(current as u64);
                    text.push_str(" of ");
                    text.push_str(decimal_of(total as u64).as_str());
                    text
                },
                None => if count(find.query.as_str()) == 0 {
                    owned("")
                } else {
                    owned("No results")
                },
            };
            let mut text = owned("Find: ");
            text.push_str(find.query.as_str());
            text.push_str("    ");
            text.push_str(position.as_str());
            text.push_str("    [Enter] Next  [Shift+Enter] Prev  [Esc] Close");
            Some(text)
        },
        None => None,
    }
}

/// The banner: a confirmation goes before the find bar.
pub open spec fn banner(prompt: Option<Prompt<Seq<char>>>, find: Option<FindFacts>) -> Option<
    Seq<char>,
> {
    if prompt is Some {
        prompt_line(prompt)
    } else {
        find_line(find)
    }
}

/// The banner strip's text: a close confirmation, else the find bar.
pub fn banner_text(prompt: &Option<Prompt<String>>, find: &Option<FindFacts>) -> (r: Option<String>)
    ensures
        opt_view(r) == banner(prompt_view(*prompt), *find),
{
    match prompt_text(prompt) {
        Some(text) => Some(text),
        None => find_bar_text(find),
    }
}

/// The active document as the window title names it.
#[derive(Clone, Debug, PartialEq, Eq)]
pub enum TitleFacts<T> {
    /// No document is active.
    Nothing,
    /// It is loading, from a file of this name when that is known.
    Loading(Option<T>),
    /// It is open under this name.
    Open { name: T, dirty: bool },
}

/// The window title.
pub open spec fn title(facts: TitleFacts<String>) -> Seq<char> {
    match facts {
        TitleFacts::Nothing => "LightSpeed IDE"@,
        TitleFacts::Loading(name) => "LightSpeed IDE - "@ + (match name {
            Some(name) => name@,
            None => "Loading"@,
        }) + " (loading)"@,
        TitleFacts::Open { name, dirty } => "LightSpeed IDE - "@ + name@ + (if dirty {
            " *"@
        } else {
            ""@
        }),
    }
}

/// Window title, from authoritative document state.
pub fn compute_title(facts: &TitleFacts<String>) -> (r: String)
    ensures
        r@ == title(*facts),
{
    match facts {
        TitleFacts::Nothing => owned("LightSpeed IDE"),
        TitleFacts::Loading(name) => {
            let mut text = owned("LightSpeed IDE - ");
            match name {
                Some(name) => text.push_str(name.as_str()),
                None => text.push_str("Loading"),
            }
            text.push_str(" (loading)");
            text
        },
        TitleFacts::Open { name, dirty } => {
            let mut text = owned("LightSpeed IDE - ");
            text.push_str(name.as_str());
            text.push_str(
                if *dirty {
                    " *"
                } else {
                    ""
                },
            );
            text
        },
    }
}

// --- messages ----------------------------------------------------------------

/// What asking for a document came to.
#[derive(Copy, Clone, Debug, PartialEq, Eq, Structural)]
pub enum OpenOutcome {
    AlreadyOpen,
    /// A load of it was running, and is now shared.
    Joined,
    Started,
}

/// What is said when a document was asked for.
pub open spec fn open_text(outcome: OpenOutcome, path: Seq<char>) -> Seq<char> {
    match outcome {
        OpenOutcome::AlreadyOpen => path + " is already open"@,
        OpenOutcome::Joined => "Joined the load already running for "@ + path,
        OpenOutcome::Started => "Loading "@ + path + "..."@,
    }
}

/// What is said when a document was asked for.
pub fn open_message(outcome: OpenOutcome, path: &str) -> (r: String)
    ensures
        r@ == open_text(outcome, path@),
{
    match outcome {
        OpenOutcome::AlreadyOpen => {
            let mut text = owned(path);
            text.push_str(" is already open");
            text
        },
        OpenOutcome::Joined => {
            let mut text = owned("Joined the load already running for ");
            text.push_str(path);
            text
        },
        OpenOutcome::Started => {
            let mut text = owned("Loading ");
            text.push_str(path);
            text.push_str("...");
            text
        },
    }
}

/// What is said when quitting would lose edits.
pub open spec fn quit_text(dirty: usize) -> Seq<char> {
    decimal(dirty as nat)
        + " unsaved document(s). Press Ctrl+Q again to quit without saving."@
}

/// What is said when quitting would lose edits.
pub fn quit_message(dirty: usize) -> (r: String)
    ensures
        r@ == quit_text(dirty),
{
    let mut text = decimal_of(dirty as u64);
    text.push_str(" unsaved document(s). Press Ctrl+Q again to quit without saving.");
    text
}

/// What is said after several requests for one path.
pub fn storm_message(joined: usize) -> (r: String)
    ensures
        r@ == "Issued 5 requests for one path; "@ + decimal(joined as nat)
            + " joined the same task"@,
{
    let mut text = owned("Issued 5 requests for one path; ");
    text.push_str(decimal_of(joined as u64).as_str());
    text.push_str(" joined the same task");
    text
}

/// What is said when the settings file could or could not be kept.
pub open spec fn save_text(outcome: SaveOutcome<String>) -> Option<(Seq<char>, Severity)> {
    match outcome {
        SaveOutcome::Nowhere => Some(
            ("Open a folder to keep settings with the project"@, Severity::Warning),
        ),
        SaveOutcome::Written => None,
        SaveOutcome::Failed(path) => Some(("Could not write "@ + path@, Severity::Error)),
    }
}

/// What is said when the settings file could or could not be kept.
pub fn save_message(outcome: &SaveOutcome<String>) -> (r: Option<(String, Severity)>)
    ensures
        match r {
            Some((text, severity)) => save_text(*outcome) == Some((text@, severity)),
            None => save_text(*outcome) is None,
        },
{
    match outcome {
        SaveOutcome::Nowhere => Some(
            (owned("Open a folder to keep settings with the project"), Severity::Warning),
        ),
        SaveOutcome::Written => None,
        SaveOutcome::Failed(path) => {
            let mut text = owned("Could not write ");
            text.push_str(path.as_str());
            Some((text, Severity::Error))
        },
    }
}

// --- files that change behind the editor -------------------------------------

/// How a document's file compares with the document.
#[derive(Copy, Clone, Debug, PartialEq, Eq, Structural)]
pub enum ExternalState {
    Unchanged,
    ExternallyChanged,
    Missing,
    Conflict,
}

/// What is said of a file in that state.
pub open spec fn external_text(name: Seq<char>, state: ExternalState) -> Option<Seq<char>> {
    match state {
        ExternalState::Unchanged => None,
        ExternalState::ExternallyChanged => Some(name + " changed on disk"@),
        ExternalState::Missing => Some(name + " was deleted or moved"@),
        ExternalState::Conflict => Some(
            name + " changed on disk and has unsaved edits here"@,
        ),
    }
}

fn external_message(name: &str, state: ExternalState) -> (r: Option<String>)
    ensures
        opt_view(r) == external_text(name@, state),
{
    let mut text = owned(name);
    match state {
        ExternalState::Unchanged => {
            return None;
        },
        ExternalState::ExternallyChanged => text.push_str(" changed on disk"),
        ExternalState::Missing => text.push_str(" was deleted or moved"),
        ExternalState::Conflict => text.push_str(" changed on disk and has unsaved edits here"),
    }
    Some(text)
}

/// The state of each open document's file as of the last look.
#[derive(Clone, Debug)]
pub struct ExternalWatch {
    states: HashMap<u64, ExternalState>,
}

impl View for ExternalWatch {
    type V = Map<u64, ExternalState>;

    closed spec fn view(&self) -> Map<u64, ExternalState> {
        self.states@
    }
}

/// What is said when a look finds `state`: only a change of state says
/// anything.
pub open spec fn noticed(
    states: Map<u64, ExternalState>,
    document: u64,
    name: Seq<char>,
    state: ExternalState,
) -> Option<Seq<char>> {
    if states.contains_key(document) && states[document] == state {
        None
    } else {
        external_text(name, state)
    }
}

impl ExternalWatch {
    /// Nothing has been looked at.
    pub fn new() -> (r: Self)
        ensures
            r@ == Map::<u64, ExternalState>::empty(),
    {
        ExternalWatch { states: HashMap::new() }
    }

    /// Records what a look at a document's file found, and gives the message
    /// for it when that is news.
    pub fn notice(&mut self, document: u64, name: &str, state: ExternalState) -> (r: Option<String>)
        ensures
            final(self)@ == old(self)@.insert(document, state),
            opt_view(r) == noticed(old(self)@, document, name@, state),
    {
        let known = match self.states.get(&document) {
            Some(previous) => *previous == state,
            None => false,
        };
        self.states.insert(document, state);
        if known {
            None
        } else {
            external_message(name, state)
        }
    }

    /// Forgets a document that was closed.
    pub fn forget(&mut self, document: u64)
        ensures
            final(self)@ == old(self)@.remove(document),
    {
        self.states.remove(&document);
    }
}

/// A file that stays changed is reported once: looking again says nothing.
pub proof fn a_change_is_reported_once(
    states: Map<u64, ExternalState>,
    document: u64,
    name: Seq<char>,
    state: ExternalState,
)
    ensures
        noticed(states.insert(document, state), document, name, state) is None,
{
}

/// A message never outlives its time: once that is over, nothing brings it
/// back.
pub proof fn a_message_stays_gone(
    message: Option<StatusMessage<Seq<char>>>,
    first: Instant,
    second: Instant,
)
    requires
        !live(message, first),
        first.nanos <= second.nanos,
    ensures
        !live(message, second),
{
}

/// While a confirmation is up the find bar is not shown over it.
pub proof fn a_confirmation_hides_the_find_bar(
    prompt: Option<Prompt<Seq<char>>>,
    find: Option<FindFacts>,
    other: Option<FindFacts>,
)
    requires
        prompt is Some,
    ensures
        banner(prompt, find) == banner(prompt, other),
{
}

/// The counts are of the problems there are: every error and every warning of
/// every document is counted once, under its own severity.
pub proof fn every_problem_is_counted(
    documents: Seq<Vec<Diagnostic<String>>>,
    problems: Vec<Diagnostic<String>>,
    severity: DiagnosticSeverity,
)
    ensures
        count_over(Seq::empty(), severity) == 0,
        count_over(documents.push(problems), severity) == count_over(documents, severity)
            + problems@.filter(|d: Diagnostic<String>| d.severity == severity).len(),
{
    assert(documents.push(problems).drop_last() =~= documents);
    problems_are_counted(problems@, severity);
}

proof fn problems_are_counted(problems: Seq<Diagnostic<String>>, severity: DiagnosticSeverity)
    ensures
        count_of(problems, severity) == problems.filter(
            |d: Diagnostic<String>| d.severity == severity,
        ).len(),
    decreases problems.len(),
{
    reveal(Seq::filter);
    if problems.len() > 0 {
        problems_are_counted(problems.drop_last(), severity);
    }
}

/// A message is shown for six seconds from when it was said, in the colour of
/// its severity, and in that time before anything else.
pub proof fn a_message_is_shown_for_six_seconds(
    message: StatusMessage<Seq<char>>,
    now: Instant,
    summary: Option<Seq<char>>,
    state: Seq<char>,
)
    requires
        message.at.nanos <= now.nanos,
    ensures
        ({
            let runs = tail_runs(Some(message), now, summary, state);
            let shown = now.nanos - message.at.nanos < 6_000_000_000;
            &&& shown ==> runs.len() == 2 && runs[1] == colored(
                message.text,
                match message.severity {
                    Severity::Error => Role::Error,
                    Severity::Warning => Role::Warning,
                    Severity::Success => Role::Success,
                },
            )
            &&& !shown && summary is Some ==> runs.len() == 2 && runs[1].text == summary->0
            &&& !shown && summary is None && state.len() > 0 ==> runs.len() == 2 && runs[1].text
                == state
            &&& !shown && summary is None && state.len() == 0 ==> runs.len() == 0
        }),
{
}

/// The branch is named, with an asterisk exactly while the tree is not clean.
pub proof fn the_branch_is_marked_while_dirty(status: GitStatus, branch: String)
    requires
        status.branch == Some(branch),
    ensures
        branch_runs(Some(status)).len() == 4,
        status.clean ==> branch_runs(Some(status))[2].text == branch@,
        !status.clean ==> branch_runs(Some(status))[2].text == branch@ + seq!['*'],
        branch_runs(None).len() == 0,
{
    reveal_strlit("");
    reveal_strlit("*");
    assert(branch@ + ""@ =~= branch@);
    assert(branch@ + "*"@ =~= branch@ + seq!['*']);
}

/// The two counts stand behind their icons, the errors first.
pub proof fn the_errors_are_counted_before_the_warnings(errors: usize, warnings: usize)
    ensures
        ({
            let runs = count_runs(errors, warnings);
            &&& runs.len() == 4
            &&& runs[0] == icon(Icon::Error, Role::StatusText)
            &&& runs[1].text == seq![' '] + decimal(errors as nat) + seq![' ', ' ']
            &&& runs[2] == icon(Icon::Warning, Role::StatusText)
            &&& runs[3].text == seq![' '] + decimal(warnings as nat)
        }),
{
    reveal_strlit(" ");
    reveal_strlit("  ");
    assert(" "@ =~= seq![' ']);
    assert("  "@ =~= seq![' ', ' ']);
}

/// The caret's place is counted from 1, the line before the column, and comes
/// before the encoding, the line ending and the language.
pub proof fn the_place_is_counted_from_one(place: DocumentPlace)
    requires
        place.line < usize::MAX,
        place.column < usize::MAX,
    ensures
        ({
            let text = place_text(place);
            let line = decimal((place.line + 1) as nat);
            let column = decimal((place.column + 1) as nat);
            let head = "Ln "@ + line + ", Col "@ + column + "   "@ + place.encoding@ + "   "@;
            &&& text.len() >= head.len()
            &&& text.take(head.len() as int) == head
            &&& !place.mixed ==> text == head + place.line_ending@ + "   "@ + language_name(
                place.language,
            )
            &&& place.mixed ==> text == head + (place.line_ending@ + " (mixed)"@) + "   "@
                + language_name(place.language)
        }),
{
    let text = place_text(place);
    let line = decimal((place.line + 1) as nat);
    let column = decimal((place.column + 1) as nat);
    let head = "Ln "@ + line + ", Col "@ + column + "   "@ + place.encoding@ + "   "@;
    assert(text.take(head.len() as int) =~= head);
}

/// The state word says the most pressing thing: loading before saving, saving
/// before how the last save went, and that before whether there are edits.
pub proof fn the_state_word_says_the_most_pressing_thing(state: DocumentState)
    ensures
        state.loading ==> state_label(Some(state)) == "Loading"@,
        !state.loading && state.saving ==> state_label(Some(state)) == "Saving..."@,
        !state.loading && !state.saving ==> (state.kept matches Some((kept, content)) ==> {
            &&& kept == PersistenceState::SaveFailed ==> state_label(Some(state))
                == "Save failed"@
            &&& kept == PersistenceState::SaveSucceeded && content == ContentState::Clean
                ==> state_label(Some(state)) == "Saved"@
            &&& kept != PersistenceState::SaveFailed && content == ContentState::Dirty
                ==> state_label(Some(state)) == "Dirty"@
        }),
        state_label(None).len() == 0,
{
    reveal_strlit("");
}

/// The title names the active document, with an asterisk while it has edits
/// that are not saved, and the program alone while there is none.
pub proof fn the_title_names_the_document(name: String, dirty: bool)
    ensures
        ({
            let program = "LightSpeed IDE"@;
            let text = title(TitleFacts::Open { name, dirty });
            let lead = program + seq![' ', '-', ' '];
            &&& title(TitleFacts::Nothing) == program
            &&& dirty ==> text == lead + name@ + seq![' ', '*']
            &&& !dirty ==> text == lead + name@
            &&& title(TitleFacts::Loading(Some(name))) == lead + name@ + " (loading)"@
        }),
{
    reveal_strlit("LightSpeed IDE");
    reveal_strlit("LightSpeed IDE - ");
    reveal_strlit(" *");
    reveal_strlit("");
    let lead = "LightSpeed IDE"@ + seq![' ', '-', ' '];
    assert("LightSpeed IDE - "@ =~= lead);
    assert(" *"@ =~= seq![' ', '*']);
    assert(lead + name@ + ""@ =~= lead + name@);
}

/// A change of a file is told once, with its name and what became of it, and
/// told again when it becomes something else; a file that is as it was is not
/// told of.
pub proof fn a_change_is_told_by_name(
    states: Map<u64, ExternalState>,
    document: u64,
    name: Seq<char>,
    state: ExternalState,
)
    ensures
        ({
            let known = states.contains_key(document) && states[document] == state;
            let said = noticed(states, document, name, state);
            &&& known || state == ExternalState::Unchanged ==> said is None
            &&& !known && state != ExternalState::Unchanged ==> said is Some && said->0.take(
                name.len() as int,
            ) == name
            &&& !known && state == ExternalState::Missing ==> said == Some(
                name + " was deleted or moved"@,
            )
            &&& !known && state == ExternalState::ExternallyChanged ==> said == Some(
                name + " changed on disk"@,
            )
            &&& !known && state == ExternalState::Conflict ==> said == Some(
                name + " changed on disk and has unsaved edits here"@,
            )
        }),
{
    if let Some(text) = noticed(states, document, name, state) {
        assert(text.take(name.len() as int) =~= name);
    }
}

/// The banner asks about the document by its name; without a question it shows
/// the find bar with its query and which of the matches is current.
pub proof fn the_banner_asks_before_it_finds(
    name: Seq<char>,
    document: u64,
    quitting: bool,
    find: FindFacts,
)
    ensures
        ({
            let asked = banner(
                Some(Prompt::ConfirmClose { document, name, quitting }),
                Some(find),
            );
            let found = banner(None, Some(find));
            &&& asked is Some && asked->0.take(name.len() as int) == name
            &&& found is Some
            &&& found->0.take(("Find: "@ + find.query@).len() as int) == "Find: "@ + find.query@
            &&& find.position matches Some((current, total)) ==> found == Some(
                "Find: "@ + find.query@ + "    "@ + (decimal(current as nat) + " of "@ + decimal(
                    total as nat,
                )) + "    [Enter] Next  [Shift+Enter] Prev  [Esc] Close"@,
            )
            &&& banner(None, None) is None
        }),
{
    let asked = banner(Some(Prompt::ConfirmClose { document, name, quitting }), Some(find));
    let found = banner(None, Some(find));
    assert(asked->0.take(name.len() as int) =~= name);
    assert(found->0.take(("Find: "@ + find.query@).len() as int) =~= "Find: "@ + find.query@);
}

/// Settings that could not be kept are told of, with where or why; settings
/// that were kept are not.
pub proof fn only_what_went_wrong_with_the_settings_is_told(path: String)
    ensures
        save_text(SaveOutcome::Written) is None,
        save_text(SaveOutcome::Failed(path)) == Some(
            ("Could not write "@ + path@, Severity::Error),
        ),
        save_text(SaveOutcome::Nowhere) == Some(
            ("Open a folder to keep settings with the project"@, Severity::Warning),
        ),
{
}

/// A message, a confirmation and a text are read as they stand.
pub proof fn a_message_is_read_as_it_stands(
    text: String,
    at: Instant,
    severity: Severity,
    document: u64,
    quitting: bool,
)
    ensures
        message_view(Some(StatusMessage { text, at, severity })) == Some(
            StatusMessage { text: text@, at, severity },
        ),
        message_view(None) is None,
        prompt_view(Some(Prompt::ConfirmClose { document, name: text, quitting })) == Some(
            Prompt::ConfirmClose { document, name: text@, quitting },
        ),
        prompt_view(None) is None,
        opt_view(Some(text)) == Some(text@),
        opt_view(None) is None,
{
}

/// The right half of the status bar shows the two panel toggles and, behind
/// them, where the caret is and how the document is kept, or the keys to start
/// with where there is no document.
pub proof fn the_right_half_shows_the_place(place: DocumentPlace)
    ensures
        right_runs(Some(place)).len() == 5,
        right_runs(Some(place))[4] == colored(place_text(place), Role::StatusText),
        right_runs(Some(place))[0] == icon(Icon::LayoutSidebarLeft, Role::DimText),
        right_runs(Some(place))[2] == icon(Icon::LayoutPanel, Role::DimText),
        right_runs(None)[4].text
            == "Ctrl+O open  Ctrl+S save  Ctrl+Z undo  F9 loading  F12 metrics"@,
        right_runs(None).len() == 5,
        !place.mixed ==> place_text(place) == "Ln "@ + counted(place.line) + ", Col "@ + counted(
            place.column,
        ) + "   "@ + place.encoding@ + "   "@ + place.line_ending@ + "   "@ + language_name(
            place.language,
        ),
        place.mixed ==> place_text(place) == "Ln "@ + counted(place.line) + ", Col "@ + counted(
            place.column,
        ) + "   "@ + place.encoding@ + "   "@ + (place.line_ending@ + " (mixed)"@) + "   "@
            + language_name(place.language),
{
}

/// Each weight has its own colour, and without a message the line has the
/// bar's.
pub proof fn each_weight_has_its_colour()
    ensures
        severity_role(Some(Severity::Error)) == Role::Error,
        severity_role(Some(Severity::Warning)) == Role::Warning,
        severity_role(Some(Severity::Success)) == Role::Success,
        severity_role(None) == Role::StatusText,
{
}

/// What is told stands behind three blanks, the message before what is loading
/// and that before the document's state; where there is nothing to tell,
/// nothing stands there.
pub proof fn what_is_told_stands_apart(
    message: Option<StatusMessage<Seq<char>>>,
    now: Instant,
    summary: Option<Seq<char>>,
    state: Seq<char>,
)
    ensures
        ({
            let runs = tail_runs(message, now, summary, state);
            let lively = live(message, now);
            &&& lively ==> runs == seq![
                plain("   "@),
                colored(message->0.text, severity_role(Some(message->0.severity))),
            ]
            &&& !lively && summary is Some ==> runs == seq![
                plain("   "@),
                colored(summary->0, Role::StatusText),
            ]
            &&& !lively && summary is None && state.len() > 0 ==> runs == seq![
                plain("   "@),
                colored(state, Role::DimText),
            ]
            &&& !lively && summary is None && state.len() == 0 ==> runs.len() == 0
        }),
{
}

/// The find bar counts the match it is at among all of them, says that there
/// is none for a query that has none, and nothing before there is a query.
pub proof fn the_find_bar_counts_its_matches(find: FindFacts)
    ensures
        find_line(Some(find)) == Some(
            "Find: "@ + find.query@ + "    "@ + position_text(find)
                + "    [Enter] Next  [Shift+Enter] Prev  [Esc] Close"@,
        ),
        find.position matches Some((current, total)) ==> position_text(find) == decimal(
            current as nat,
        ) + " of "@ + decimal(total as nat),
        find.position is None && find.query@.len() > 0 ==> position_text(find) == "No results"@,
        find.position is None && find.query@.len() == 0 ==> position_text(find) == ""@,
        find_line(None) is None,
{
}

/// There are no fewer than no problems.
pub proof fn counts_are_not_negative(
    documents: Seq<Vec<Diagnostic<String>>>,
    severity: DiagnosticSeverity,
)
    ensures
        count_over(documents, severity) >= 0,
    decreases documents.len(),
{
    if documents.len() > 0 {
        counts_are_not_negative(documents.drop_last(), severity);
        a_count_is_not_negative(documents.last()@, severity);
    }
}

proof fn a_count_is_not_negative(
    problems: Seq<Diagnostic<String>>,
    severity: DiagnosticSeverity,
)
    ensures
        count_of(problems, severity) >= 0,
    decreases problems.len(),
{
    if problems.len() > 0 {
        a_count_is_not_negative(problems.drop_last(), severity);
    }
}

} // verus!
