//! What every region of text says in one frame.

use crate::frame::{editor_text, gutter_upto, lines_text, spans_upto, EditorText, Snapshot};
use crate::menu::{items_of, menu_entries, MenuItem, RecentRow, FILE_MENU_INDEX};
use crate::redraw::Frame;
use crate::regions::{
    breaks, dropdown_columns, dropdown_text, dropdown_texts, line_count, scope_runs, section_runs,
    settings_categories_rich, settings_list_rich, settings_list_runs, settings_search_rich,
    settings_search_runs, tab_row_rich, tab_row_runs, SettingsRow, TabLabel,
};
use crate::rich::{flat, RichText};
use crate::shell::{LightSpeed, Shell};
use crate::status::opt_view;
use crate::text::{join, joined, least, owned, texts};
use vstd::prelude::*;

verus! {

/// What the editor area says while no document is open.
pub const PLACEHOLDER: &'static str =
    "  LightSpeed IDE\n\n  Ctrl+O  open a file\n  Ctrl+N  new file\n  F12     performance overlay";

/// What is known when the text of a frame is put together.
#[derive(Clone, Debug)]
pub struct TextFacts {
    /// The part of the active document that is on screen.
    pub snapshot: Option<Snapshot>,
    pub line_numbers: bool,
    pub tabs: Vec<TabLabel>,
    pub recent: Vec<RecentRow>,
    /// How many characters wide the open menu is.
    pub menu_columns: usize,
    /// The labels of the dependency graph, once it is drawn.
    pub labels: Option<String>,
    pub sections: Vec<&'static str>,
    pub settings: Vec<SettingsRow>,
}

/// The three regions of the settings screen.
#[derive(Clone, Debug)]
pub struct SettingsText {
    pub search: RichText,
    pub categories: RichText,
    pub list: RichText,
}

/// What every region of text says.
#[derive(Debug)]
pub struct Wording {
    pub editor: EditorText,
    pub tabs: RichText,
    /// The rows of the open menu that can be chosen, and those that cannot.
    pub dropdown: (String, String),
    pub prompt: String,
    pub panel: String,
    pub bottom_panel: String,
    /// How many lines the sidebar takes.
    pub sidebar_lines: usize,
    pub dependency: Option<String>,
    pub settings: Option<SettingsText>,
}

/// The items of the menu that is open.
pub open spec fn open_items(s: Shell) -> Seq<MenuItem> {
    match s.at.menu.open {
        Some(open) => menu_entries(open as int),
        None => Seq::empty(),
    }
}

/// The recent files that the open menu offers.
pub open spec fn open_recent(s: Shell, recent: Seq<RecentRow>) -> Seq<RecentRow> {
    if s.at.menu.open == Some(FILE_MENU_INDEX) {
        recent
    } else {
        Seq::empty()
    }
}

/// The editor's lines, the numbers beside them and the tokens in them, or what
/// is said without a document.
pub open spec fn editor_says(
    text: EditorText,
    snapshot: Option<Snapshot>,
    line_numbers: bool,
) -> bool {
    match snapshot {
        Some(s) => {
            let n = s.lines@.len() as int;
            &&& text.editor@ == lines_text(s.lines@, n)
            &&& text.gutter@ == gutter_upto(s.lines@, n, line_numbers)
            &&& text.spans@ == spans_upto(s.lines@, n, s.decorations@)
        },
        None => text.editor@ == PLACEHOLDER@ && text.gutter@.len() == 0 && text.spans@.len() == 0,
    }
}

/// Lines that may be missing, one below the other.
pub open spec fn stacked_lines(lines: Option<Vec<String>>) -> Seq<char> {
    match lines {
        Some(lines) => joined(texts(lines@), "\n"@),
        None => Seq::empty(),
    }
}

/// Whether the settings screen says what it holds.
pub open spec fn settings_say(text: SettingsText, s: Shell, facts: TextFacts) -> bool {
    &&& text.search@ == settings_search_runs(s.settings.query, s.settings.search_focused)
    &&& text.categories@ == scope_runs(s.settings.scope) + section_runs(
        facts.sections@,
        s.settings.section,
        facts.sections@.len() as int,
    )
    &&& text.list@ == settings_list_runs(
        facts.settings@,
        s.settings.scroll as int,
        facts.settings@.len() as int,
    )
}

/// Whether the regions say what the frame shows.
pub open spec fn says(text: Wording, s: Shell, shown: Frame, facts: TextFacts) -> bool {
    let items = open_items(s);
    let recent = open_recent(s, facts.recent@);
    let enabled = shown.chrome.menu_enabled@;
    let columns = dropdown_columns(facts.menu_columns);
    let rows = (items.len() + recent.len()) as int;
    &&& editor_says(text.editor, facts.snapshot, facts.line_numbers)
    &&& text.tabs@ == tab_row_runs(facts.tabs@, facts.tabs@.len() as int)
    &&& text.dropdown.0@ == dropdown_text(items, recent, enabled, columns, true, rows)
    &&& text.dropdown.1@ == dropdown_text(items, recent, enabled, columns, false, rows)
    &&& text.prompt@ == (match opt_view(shown.prompt) {
        Some(prompt) => prompt,
        None => Seq::empty(),
    })
    &&& text.panel@ == stacked_lines(shown.panel)
    &&& text.bottom_panel@ == stacked_lines(shown.bottom_panel)
    &&& text.sidebar_lines == (match shown.sidebar {
        Some(sidebar) => least(breaks(flat(sidebar@)) + 1, usize::MAX as int),
        None => 1,
    })
    &&& opt_view(text.dependency) == (match (shown.dependency, facts.labels) {
        (None, _) => None,
        (Some(_), Some(labels)) => Some(labels@),
        (Some(placeholder), None) => Some(placeholder@),
    })
    &&& text.settings is Some <==> s.settings.open
    &&& text.settings matches Some(settings) ==> settings_say(settings, s, facts)
}

/// The lines one below the other, as far as there are any.
fn stack_lines(lines: &Option<Vec<String>>) -> (r: String)
    ensures
        r@ == stacked_lines(*lines),
{
    match lines {
        Some(lines) => join(lines, "\n"),
        None => String::new(),
    }
}

impl LightSpeed {
    /// Puts together what every region of text says in a frame.
    pub fn build_text(&self, shown: &Frame, facts: &TextFacts) -> (r: Wording)
        ensures
            says(r, self@, *shown, *facts),
    {
        let snapshot = match &facts.snapshot {
            Some(snapshot) => Some(snapshot),
            None => None,
        };
        let editor = editor_text(snapshot, PLACEHOLDER, facts.line_numbers);
        let none: Vec<RecentRow> = Vec::new();
        let (items, offers) = match self.at.menu.open {
            Some(open) => (items_of(open), open == FILE_MENU_INDEX),
            None => (Vec::new(), false),
        };
        let enabled = &shown.chrome.menu_enabled;
        let dropdown = if offers {
            dropdown_texts(&items, &facts.recent, enabled, facts.menu_columns)
        } else {
            dropdown_texts(&items, &none, enabled, facts.menu_columns)
        };
        let dependency = match shown.dependency {
            Some(placeholder) => match &facts.labels {
                Some(labels) => Some(labels.clone()),
                None => Some(owned(placeholder)),
            },
            None => None,
        };
        let settings = if self.settings.open {
            Some(
                SettingsText {
                    search: settings_search_rich(
                        &self.settings.query,
                        self.settings.search_focused,
                    ),
                    categories: settings_categories_rich(
                        self.settings.scope,
                        &facts.sections,
                        self.settings.section,
                    ),
                    list: settings_list_rich(&facts.settings, self.settings.scroll),
                },
            )
        } else {
            None
        };
        Wording {
            editor,
            tabs: tab_row_rich(&facts.tabs),
            dropdown,
            prompt: match &shown.prompt {
                Some(prompt) => prompt.clone(),
                None => String::new(),
            },
            panel: stack_lines(&shown.panel),
            bottom_panel: stack_lines(&shown.bottom_panel),
            sidebar_lines: match &shown.sidebar {
                Some(sidebar) => line_count(sidebar),
                None => 1,
            },
            dependency,
            settings,
        }
    }
}

// --- laws --------------------------------------------------------------------

/// While no menu is open the dropdown says nothing.
pub proof fn a_closed_menu_says_nothing(text: Wording, s: Shell, shown: Frame, facts: TextFacts)
    requires
        says(text, s, shown, facts),
        s.at.menu.open is None,
    ensures
        text.dropdown.0@.len() == 0,
        text.dropdown.1@.len() == 0,
{
}

/// What a region of text says is what the frame shows: the confirmation, the
/// panels line by line, the labels of the graph or what stands in for it.
pub proof fn the_regions_say_what_is_shown(
    text: Wording,
    s: Shell,
    shown: Frame,
    facts: TextFacts,
)
    requires
        says(text, s, shown, facts),
    ensures
        shown.prompt matches Some(prompt) ==> text.prompt@ == prompt@,
        shown.prompt is None ==> text.prompt@.len() == 0,
        shown.panel matches Some(lines) ==> text.panel@ == joined(texts(lines@), "\n"@),
        shown.panel is None ==> text.panel@.len() == 0,
        shown.bottom_panel matches Some(lines) ==> text.bottom_panel@ == joined(
            texts(lines@),
            "\n"@,
        ),
        shown.bottom_panel is None ==> text.bottom_panel@.len() == 0,
        shown.sidebar is None ==> text.sidebar_lines == 1,
        shown.dependency is None ==> text.dependency is None,
        shown.dependency is Some ==> text.dependency is Some,
        shown.dependency is Some && facts.labels is Some ==> text.dependency->0@
            == facts.labels->0@,
        shown.dependency is Some && facts.labels is None ==> text.dependency->0@
            == shown.dependency->0@,
        text.settings is Some == s.settings.open,
        facts.snapshot is None ==> text.editor.editor@ == PLACEHOLDER@
            && text.editor.gutter@.len() == 0 && text.editor.spans@.len() == 0,
{
}

/// Recent files are offered below the first menu and below no other.
pub proof fn recent_files_are_in_the_first_menu(s: Shell, recent: Seq<RecentRow>)
    ensures
        s.at.menu.open == Some(0usize) ==> open_recent(s, recent) == recent,
        s.at.menu.open != Some(0usize) ==> open_recent(s, recent).len() == 0,
        s.at.menu.open is None ==> open_items(s).len() == 0,
        s.at.menu.open matches Some(open) ==> open_items(s) == menu_entries(open as int),
{
}

} // verus!
