//! The settings screen: what is typed into it, which part of it has the
//! keyboard, and what it asks to have written.
//!
//! A field is edited as a draft, so a half-typed number never reaches the rest
//! of the program; it is written when the field is left.  The settings
//! themselves, and the files they are kept in, belong to the program.

use crate::keymap::{Key, Modifiers, NamedKey};
use crate::text::{chars_of, equal, owned, string_of};
use vstd::prelude::*;

verus! {

/// Which settings file the screen is editing.
#[derive(Copy, Clone, Debug, PartialEq, Eq, Structural)]
pub enum SettingsScope {
    /// This person's own settings, which follow them between projects.
    User,
    /// This project's settings, committed with its code.
    Workspace,
}

/// The other of the two files.
pub open spec fn other_scope(scope: SettingsScope) -> SettingsScope {
    match scope {
        SettingsScope::User => SettingsScope::Workspace,
        SettingsScope::Workspace => SettingsScope::User,
    }
}

/// A setting as the screen lists it.
#[derive(Copy, Clone, Debug, PartialEq, Eq)]
pub struct SettingDescriptor {
    pub key: &'static str,
    pub section: &'static str,
}

/// What a click on the screen landed on. `T` is how text is held.
#[derive(Clone, Debug, PartialEq, Eq)]
pub enum SettingsHit<T> {
    Search,
    /// A section on the left.
    Category(usize),
    /// The control of the setting with this key.
    Control(T),
    /// One of the choices of the setting with this key.
    Choice(T, T),
    /// The control that puts this setting back to its default.
    Reset(T),
    Nothing,
}

/// What the control that was hit edits.
#[derive(Clone, Debug, PartialEq, Eq)]
pub enum ControlKind<T> {
    /// No setting has that key.
    Unknown,
    /// A switch, and whether it is on.
    Switch(bool),
    /// A field, and the text in it.
    Field(T),
}

/// A change the screen asks for, in the file being edited.
#[derive(Clone, Debug, PartialEq, Eq)]
pub enum SettingChange<T> {
    Write(T, T),
    Reset(T),
}

/// What a click asks for: a draft to write first, then a change of its own.
#[derive(Clone, Debug, PartialEq, Eq)]
pub struct SettingsPress<T> {
    pub commit: Option<SettingChange<T>>,
    pub change: Option<SettingChange<T>>,
}

/// What a key asks for.
#[derive(Clone, Debug, PartialEq, Eq)]
pub enum SettingsReply<T> {
    /// The key means nothing here; whatever is behind the screen gets it.
    Passed,
    /// The screen took it.
    Taken,
    /// The screen took it and closed.
    Closed,
    /// The screen took it and asks for a change.
    Change(SettingChange<T>),
}

/// A change with its texts as characters.
pub open spec fn change_view(change: SettingChange<String>) -> SettingChange<Seq<char>> {
    match change {
        SettingChange::Write(key, value) => SettingChange::Write(key@, value@),
        SettingChange::Reset(key) => SettingChange::Reset(key@),
    }
}

/// A change that may be there, with its texts as characters.
pub open spec fn opt_change(change: Option<SettingChange<String>>) -> Option<
    SettingChange<Seq<char>>,
> {
    match change {
        Some(change) => Some(change_view(change)),
        None => None,
    }
}

/// What a click asks for, with its texts as characters.
pub open spec fn press_view(press: SettingsPress<String>) -> SettingsPress<Seq<char>> {
    SettingsPress { commit: opt_change(press.commit), change: opt_change(press.change) }
}

/// What a key asks for, with its texts as characters.
pub open spec fn reply_view(reply: SettingsReply<String>) -> SettingsReply<Seq<char>> {
    match reply {
        SettingsReply::Passed => SettingsReply::Passed,
        SettingsReply::Taken => SettingsReply::Taken,
        SettingsReply::Closed => SettingsReply::Closed,
        SettingsReply::Change(change) => SettingsReply::Change(change_view(change)),
    }
}

/// A hit with its texts as characters.
pub open spec fn settings_hit_view(hit: SettingsHit<String>) -> SettingsHit<Seq<char>> {
    match hit {
        SettingsHit::Search => SettingsHit::Search,
        SettingsHit::Category(at) => SettingsHit::Category(at),
        SettingsHit::Control(key) => SettingsHit::Control(key@),
        SettingsHit::Choice(key, choice) => SettingsHit::Choice(key@, choice@),
        SettingsHit::Reset(key) => SettingsHit::Reset(key@),
        SettingsHit::Nothing => SettingsHit::Nothing,
    }
}

/// A control with its text as characters.
pub open spec fn control_view(control: ControlKind<String>) -> ControlKind<Seq<char>> {
    match control {
        ControlKind::Unknown => ControlKind::Unknown,
        ControlKind::Switch(on) => ControlKind::Switch(on),
        ControlKind::Field(text) => ControlKind::Field(text@),
    }
}

/// The settings screen.
#[derive(Clone, Debug)]
pub struct SettingsScreen {
    pub open: bool,
    pub scope: SettingsScope,
    /// What has been typed into the search box.
    pub query: Vec<char>,
    /// The section picked on the left, or `None` for all of them.
    pub section: Option<usize>,
    /// How far the list is scrolled, in rows.
    pub scroll: usize,
    /// The field being typed into, and what has been typed so far.
    pub editing: Option<(String, Vec<char>)>,
    /// Whether the search box has the keyboard.
    pub search_focused: bool,
}

/// The screen in contracts.
#[verifier::ext_equal]
pub struct Settings {
    pub open: bool,
    pub scope: SettingsScope,
    pub query: Seq<char>,
    pub section: Option<usize>,
    pub scroll: usize,
    pub editing: Option<(Seq<char>, Seq<char>)>,
    pub search_focused: bool,
}

/// The field being edited, in contracts.
pub open spec fn editing_view(editing: Option<(String, Vec<char>)>) -> Option<
    (Seq<char>, Seq<char>),
> {
    match editing {
        Some((key, draft)) => Some((key@, draft@)),
        None => None,
    }
}

impl View for SettingsScreen {
    type V = Settings;

    open spec fn view(&self) -> Settings {
        Settings {
            open: self.open,
            scope: self.scope,
            query: self.query@,
            section: self.section,
            scroll: self.scroll,
            editing: editing_view(self.editing),
            search_focused: self.search_focused,
        }
    }
}

/// A screen that was never opened.
pub open spec fn unopened_settings() -> Settings {
    Settings {
        open: false,
        scope: SettingsScope::User,
        query: Seq::empty(),
        section: None,
        scroll: 0,
        editing: None,
        search_focused: false,
    }
}

/// The screen opened or closed. Opening it starts in the search box.
pub open spec fn toggled_settings(s: Settings) -> Settings {
    if s.open {
        Settings { open: false, ..s }
    } else {
        Settings { open: true, editing: None, search_focused: true, ..s }
    }
}

/// `text` typed into whichever of a field or the search box has the keyboard.
pub open spec fn typed_into(s: Settings, text: Seq<char>) -> Settings {
    match s.editing {
        Some((key, draft)) => Settings { editing: Some((key, draft + text)), ..s },
        None => if s.search_focused {
            Settings { query: s.query + text, scroll: 0, ..s }
        } else {
            s
        },
    }
}

/// All but the last character.
pub open spec fn shortened(s: Seq<char>) -> Seq<char> {
    if s.len() > 0 {
        s.drop_last()
    } else {
        s
    }
}

/// The last character taken back from whichever of the two has the keyboard.
pub open spec fn erased(s: Settings) -> Settings {
    match s.editing {
        Some((key, draft)) => Settings { editing: Some((key, shortened(draft))), ..s },
        None => if s.search_focused {
            Settings { query: shortened(s.query), scroll: 0, ..s }
        } else {
            s
        },
    }
}

/// Whether a field or the search box has the keyboard.
pub open spec fn takes_text(s: Settings) -> bool {
    s.editing is Some || s.search_focused
}

/// What a key does on the open screen. Escape always means something: it takes
/// the keyboard back from a field, empties the search box, or closes the
/// screen. Everything else only applies while something is being typed into,
/// but for Tab, which changes the file being edited.
pub open spec fn settings_step(s: Settings, key: Key, modifiers: Modifiers) -> (
    Settings,
    SettingsReply<Seq<char>>,
) {
    match key {
        Key::Named(NamedKey::Escape) => if s.editing is Some {
            (Settings { editing: None, ..s }, SettingsReply::Taken)
        } else if s.search_focused && s.query.len() > 0 {
            (Settings { query: Seq::empty(), scroll: 0, ..s }, SettingsReply::Taken)
        } else {
            (Settings { open: false, ..s }, SettingsReply::Closed)
        },
        Key::Named(NamedKey::Enter) => match s.editing {
            Some((key, draft)) => (
                Settings { editing: None, ..s },
                SettingsReply::Change(SettingChange::Write(key, draft)),
            ),
            None => (s, SettingsReply::Passed),
        },
        Key::Named(NamedKey::Backspace) => if takes_text(s) {
            (erased(s), SettingsReply::Taken)
        } else {
            (s, SettingsReply::Passed)
        },
        Key::Named(NamedKey::Tab) => if s.editing is None {
            (Settings { scope: other_scope(s.scope), ..s }, SettingsReply::Taken)
        } else {
            (s, SettingsReply::Passed)
        },
        Key::Character(text) => if !modifiers.control && !modifiers.alt && takes_text(s) {
            (typed_into(s, text@), SettingsReply::Taken)
        } else {
            (s, SettingsReply::Passed)
        },
        Key::Named(NamedKey::Space) => if takes_text(s) {
            (typed_into(s, " "@), SettingsReply::Taken)
        } else {
            (s, SettingsReply::Passed)
        },
        _ => (s, SettingsReply::Passed),
    }
}

/// Whether a hit goes on with the field that is being edited.
pub open spec fn stays_in_field(s: Settings, hit: SettingsHit<Seq<char>>) -> bool {
    match (hit, s.editing) {
        (SettingsHit::Control(key), Some((editing, _))) => key == editing,
        _ => false,
    }
}

/// The draft that a click makes the screen write: a value is never left
/// half-entered behind a click elsewhere.
pub open spec fn committed(s: Settings, hit: SettingsHit<Seq<char>>) -> Option<
    SettingChange<Seq<char>>,
> {
    match s.editing {
        Some((key, draft)) => if stays_in_field(s, hit) {
            None
        } else {
            Some(SettingChange::Write(key, draft))
        },
        None => None,
    }
}

/// What a click does on the open screen.
pub open spec fn settings_press(
    s: Settings,
    hit: SettingsHit<Seq<char>>,
    control: ControlKind<Seq<char>>,
) -> (Settings, SettingsPress<Seq<char>>) {
    let commit = committed(s, hit);
    let after = if stays_in_field(s, hit) {
        s
    } else {
        Settings { editing: None, ..s }
    };
    match hit {
        SettingsHit::Search => (
            Settings { search_focused: true, editing: None, ..after },
            SettingsPress { commit, change: None },
        ),
        SettingsHit::Category(at) => (
            Settings {
                section: if after.section == Some(at) {
                    None
                } else {
                    Some(at)
                },
                scroll: 0,
                search_focused: false,
                ..after
            },
            SettingsPress { commit, change: None },
        ),
        SettingsHit::Control(key) => match control {
            ControlKind::Unknown => (
                Settings { search_focused: false, ..after },
                SettingsPress { commit, change: None },
            ),
            ControlKind::Switch(on) => (
                Settings { search_focused: false, ..after },
                SettingsPress {
                    commit,
                    change: Some(
                        SettingChange::Write(
                            key,
                            if on {
                                "false"@
                            } else {
                                "true"@
                            },
                        ),
                    ),
                },
            ),
            ControlKind::Field(text) => (
                Settings { search_focused: false, editing: Some((key, text)), ..after },
                SettingsPress { commit, change: None },
            ),
        },
        SettingsHit::Choice(key, choice) => (
            Settings { search_focused: false, ..after },
            SettingsPress { commit, change: Some(SettingChange::Write(key, choice)) },
        ),
        SettingsHit::Reset(key) => (
            Settings { search_focused: false, ..after },
            SettingsPress { commit, change: Some(SettingChange::Reset(key)) },
        ),
        SettingsHit::Nothing => (
            Settings { search_focused: false, ..after },
            SettingsPress { commit, change: None },
        ),
    }
}

/// `target` brought into the range that shows something.
pub open spec fn scroll_within(target: int, furthest: int) -> int {
    if target < 0 {
        0
    } else if target > furthest {
        furthest
    } else {
        target
    }
}

impl SettingsScreen {
    /// A screen that was never opened.
    pub fn new() -> (r: Self)
        ensures
            r@ == unopened_settings(),
    {
        let r = SettingsScreen {
            open: false,
            scope: SettingsScope::User,
            query: Vec::new(),
            section: None,
            scroll: 0,
            editing: None,
            search_focused: false,
        };
        assert(r@ =~= unopened_settings());
        r
    }

    /// Opens or closes the screen.
    pub fn toggle(&mut self)
        ensures
            final(self)@ == toggled_settings(old(self)@),
    {
        self.open = !self.open;
        if self.open {
            self.editing = None;
            self.search_focused = true;
        }
    }

    /// Types into whichever of a field or the search box has the keyboard.
    fn type_text(&mut self, text: &str)
        ensures
            final(self)@ == typed_into(old(self)@, text@),
    {
        let mut typed = chars_of(text);
        match self.editing.take() {
            Some((key, mut draft)) => {
                draft.append(&mut typed);
                self.editing = Some((key, draft));
            },
            None => {
                if self.search_focused {
                    self.query.append(&mut typed);
                    self.scroll = 0;
                }
            },
        }
        assert(self@ =~= typed_into(old(self)@, text@));
    }

    /// Takes the last character back from whichever of the two has the
    /// keyboard.
    fn erase(&mut self)
        ensures
            final(self)@ == erased(old(self)@),
    {
        match self.editing.take() {
            Some((key, mut draft)) => {
                let ghost before = draft@;
                draft.pop();
                assert(draft@ =~= shortened(before));
                self.editing = Some((key, draft));
            },
            None => {
                if self.search_focused {
                    self.query.pop();
                    assert(self.query@ =~= shortened(old(self)@.query));
                    self.scroll = 0;
                }
            },
        }
        assert(self@ =~= erased(old(self)@));
    }

    /// Handles a key while the screen is up.
    pub fn key(&mut self, key: &Key, modifiers: &Modifiers) -> (r: SettingsReply<String>)
        ensures
            (final(self)@, reply_view(r)) == settings_step(old(self)@, *key, *modifiers),
    {
        match key {
            Key::Named(NamedKey::Escape) => {
                if self.editing.is_some() {
                    self.editing = None;
                    SettingsReply::Taken
                } else if self.search_focused && self.query.len() > 0 {
                    self.query = Vec::new();
                    self.scroll = 0;
                    assert(self@ =~= settings_step(old(self)@, *key, *modifiers).0);
                    SettingsReply::Taken
                } else {
                    self.open = false;
                    SettingsReply::Closed
                }
            },
            Key::Named(NamedKey::Enter) => match self.editing.take() {
                Some((field, draft)) => SettingsReply::Change(
                    SettingChange::Write(field, string_of(&draft)),
                ),
                None => SettingsReply::Passed,
            },
            Key::Named(NamedKey::Backspace) => {
                if self.editing.is_some() || self.search_focused {
                    self.erase();
                    return SettingsReply::Taken;
                }
                SettingsReply::Passed
            },
            Key::Named(NamedKey::Tab) => {
                if self.editing.is_none() {
                    self.scope = match self.scope {
                        SettingsScope::User => SettingsScope::Workspace,
                        SettingsScope::Workspace => SettingsScope::User,
                    };
                    return SettingsReply::Taken;
                }
                SettingsReply::Passed
            },
            Key::Character(text) => {
                if modifiers.control || modifiers.alt {
                    return SettingsReply::Passed;
                }
                if self.editing.is_some() || self.search_focused {
                    self.type_text(text.as_str());
                    return SettingsReply::Taken;
                }
                SettingsReply::Passed
            },
            Key::Named(NamedKey::Space) => {
                if self.editing.is_some() || self.search_focused {
                    self.type_text(" ");
                    return SettingsReply::Taken;
                }
                SettingsReply::Passed
            },
            _ => SettingsReply::Passed,
        }
    }

    /// Whether the hit goes on with the field being edited.
    fn goes_on(&self, hit: &SettingsHit<String>) -> (r: bool)
        ensures
            r == stays_in_field(self@, settings_hit_view(*hit)),
    {
        match (hit, &self.editing) {
            (SettingsHit::Control(key), Some((editing, _))) => equal(
                key.as_str(),
                editing.as_str(),
            ),
            _ => false,
        }
    }

    /// Handles a click on the open screen. `control` tells what the control
    /// that was hit, if one was, edits.
    pub fn press(&mut self, hit: &SettingsHit<String>, control: &ControlKind<String>) -> (r:
        SettingsPress<String>)
        ensures
            (final(self)@, press_view(r)) == settings_press(
                old(self)@,
                settings_hit_view(*hit),
                control_view(*control),
            ),
    {
        let mut commit: Option<SettingChange<String>> = None;
        if !self.goes_on(hit) {
            match self.editing.take() {
                Some((key, draft)) => {
                    commit = Some(SettingChange::Write(key, string_of(&draft)));
                },
                None => {},
            }
        }
        let mut change: Option<SettingChange<String>> = None;
        match hit {
            SettingsHit::Search => {
                self.search_focused = true;
                self.editing = None;
            },
            SettingsHit::Category(at) => {
                self.section = match self.section {
                    Some(shown) => if shown == *at {
                        None
                    } else {
                        Some(*at)
                    },
                    None => Some(*at),
                };
                self.scroll = 0;
                self.search_focused = false;
            },
            SettingsHit::Control(key) => {
                self.search_focused = false;
                match control {
                    ControlKind::Unknown => {},
                    ControlKind::Switch(on) => {
                        change = Some(
                            SettingChange::Write(
                                key.clone(),
                                owned(
                                    if *on {
                                        "false"
                                    } else {
                                        "true"
                                    },
                                ),
                            ),
                        );
                    },
                    ControlKind::Field(text) => {
                        self.editing = Some((key.clone(), chars_of(text.as_str())));
                    },
                }
            },
            SettingsHit::Choice(key, choice) => {
                self.search_focused = false;
                change = Some(SettingChange::Write(key.clone(), choice.clone()));
            },
            SettingsHit::Reset(key) => {
                self.search_focused = false;
                change = Some(SettingChange::Reset(key.clone()));
            },
            SettingsHit::Nothing => {
                self.search_focused = false;
            },
        }
        SettingsPress { commit, change }
    }

    /// Scrolls the list to `target`, clamped so it always shows something, and
    /// says whether it moved.
    pub fn scroll_to(&mut self, target: i64, furthest: usize) -> (moved: bool)
        ensures
            final(self)@ == (Settings {
                scroll: scroll_within(target as int, furthest as int) as usize,
                ..old(self)@
            }),
            moved == (final(self)@.scroll != old(self)@.scroll),
    {
        let next: usize = if target < 0 {
            0
        } else if target as u64 > furthest as u64 {
            furthest
        } else {
            target as usize
        };
        if next == self.scroll {
            return false;
        }
        self.scroll = next;
        true
    }

    /// The settings the screen shows: those of the section picked on the left
    /// among the ones that the search box found.
    pub fn visible_settings(
        &self,
        found: &Vec<SettingDescriptor>,
        sections: &Vec<&'static str>,
    ) -> (r: Vec<SettingDescriptor>)
        ensures
            r@ == shown_settings(found@, picked_section(self@, sections@)),
    {
        let mut out: Vec<SettingDescriptor> = Vec::new();
        let picked = match self.section {
            Some(at) => if at < sections.len() {
                Some(sections[at])
            } else {
                None
            },
            None => None,
        };
        assert(found@.take(0) =~= Seq::<SettingDescriptor>::empty());
        for i in 0..found.len()
            invariant
                match picked {
                    Some(name) => picked_section(self@, sections@) == Some(name@),
                    None => picked_section(self@, sections@) is None,
                },
                out@ == shown_settings(
                    found@.take(i as int),
                    picked_section(self@, sections@),
                ),
        {
            assert(found@.take(i + 1).drop_last() =~= found@.take(i as int));
            let shown = match picked {
                Some(name) => equal(found[i].section, name),
                None => true,
            };
            if shown {
                out.push(found[i]);
            }
        }
        assert(found@.take(found.len() as int) =~= found@);
        out
    }
}

/// The name of the section picked on the left.
pub open spec fn picked_section(s: Settings, sections: Seq<&'static str>) -> Option<Seq<char>> {
    match s.section {
        Some(at) => if at < sections.len() {
            Some(sections[at as int]@)
        } else {
            None
        },
        None => None,
    }
}

/// The settings of a section, in the order they were found; all of them while
/// no section is picked.
pub open spec fn shown_settings(found: Seq<SettingDescriptor>, section: Option<Seq<char>>) -> Seq<
    SettingDescriptor,
>
    decreases found.len(),
{
    if found.len() == 0 {
        Seq::empty()
    } else {
        let before = shown_settings(found.drop_last(), section);
        let last = found.last();
        if section is None || last.section@ == section->0 {
            before.push(last)
        } else {
            before
        }
    }
}

/// How wide a tab is: what the setting says, and at least one column.
pub open spec fn tab_columns(value: int) -> int {
    if value < 1 {
        1
    } else if value > usize::MAX {
        usize::MAX as int
    } else {
        value
    }
}

/// How wide a tab is: what the setting says, and at least one column.
pub fn tab_width(value: i64) -> (r: usize)
    ensures
        r == tab_columns(value as int),
{
    if value < 1 {
        1
    } else if value as u64 > usize::MAX as u64 {
        usize::MAX
    } else {
        value as usize
    }
}

/// What came of writing the file being edited.
#[derive(Clone, Debug, PartialEq, Eq)]
pub enum SaveOutcome<T> {
    /// There is nowhere to keep it.
    Nowhere,
    Written,
    /// The file at this path could not be written.
    Failed(T),
}

/// Escape never writes a draft: it is forgotten, and nothing is asked for.
pub proof fn escape_abandons_the_draft(s: Settings, modifiers: Modifiers)
    requires
        s.editing is Some,
    ensures
        settings_step(s, Key::Named(NamedKey::Escape), modifiers) == (
            Settings { editing: None, ..s },
            SettingsReply::<Seq<char>>::Taken,
        ),
{
}

/// Nothing but Enter writes a value, so one that is half typed never reaches
/// the rest of the program.
pub proof fn typing_writes_nothing(s: Settings, key: Key, modifiers: Modifiers)
    requires
        key != Key::Named(NamedKey::Enter),
    ensures
        settings_step(s, key, modifiers).1 !is Change,
{
}

/// Three presses of Escape always close the screen: one forgets the draft, one
/// empties the search box, one closes.
pub proof fn escape_closes_in_three(s: Settings, modifiers: Modifiers)
    ensures
        ({
            let escape = Key::Named(NamedKey::Escape);
            let once = settings_step(s, escape, modifiers).0;
            let twice = settings_step(once, escape, modifiers).0;
            !settings_step(twice, escape, modifiers).0.open
        }),
{
}

/// No click loses a draft: either it is written, or the click went on with the
/// same field.
pub proof fn a_click_elsewhere_writes_the_draft(
    s: Settings,
    key: Seq<char>,
    draft: Seq<char>,
    hit: SettingsHit<Seq<char>>,
    control: ControlKind<Seq<char>>,
)
    requires
        s.editing == Some((key, draft)),
        hit != SettingsHit::Control(key),
    ensures
        settings_press(s, hit, control).1.commit == Some(SettingChange::Write(key, draft)),
{
}

/// Backspace takes back what was just typed.
pub proof fn backspace_takes_back_a_character(s: Settings, c: char)
    requires
        takes_text(s),
    ensures
        erased(typed_into(s, seq![c])).query == s.query,
        erased(typed_into(s, seq![c])).editing == s.editing,
{
    match s.editing {
        Some((_, draft)) => {
            assert(shortened(draft + seq![c]) =~= draft);
        },
        None => {
            assert(shortened(s.query + seq![c]) =~= s.query);
        },
    }
}

/// Picking the same section twice shows all sections again.
pub proof fn picking_a_section_twice_widens(
    s: Settings,
    at: usize,
    control: ControlKind<Seq<char>>,
)
    requires
        s.section != Some(at),
    ensures
        ({
            let hit = SettingsHit::<Seq<char>>::Category(at);
            let once = settings_press(s, hit, control).0;
            once.section == Some(at) && settings_press(once, hit, control).0.section is None
        }),
{
}

/// What is typed goes behind what the field holds, or the search box when no
/// field is open, and touches nothing else; Backspace takes the last character
/// off the same.
pub proof fn typing_goes_behind_the_draft(s: Settings, key: Key, modifiers: Modifiers)
    requires
        takes_text(s),
        key is Character,
        !modifiers.control,
        !modifiers.alt,
    ensures
        ({
            let text = key->Character_0@;
            let (after, reply) = settings_step(s, key, modifiers);
            let back = settings_step(s, Key::Named(NamedKey::Backspace), modifiers).0;
            &&& reply == SettingsReply::<Seq<char>>::Taken
            &&& after.open == s.open && after.scope == s.scope && after.section == s.section
            &&& match s.editing {
                Some((field, draft)) => {
                    &&& after.editing == Some((field, draft + text))
                    &&& after.query == s.query
                    &&& draft.len() > 0 ==> back.editing == Some(
                        (field, draft.take(draft.len() - 1)),
                    )
                    &&& back.query == s.query
                },
                None => {
                    &&& after.query == s.query + text
                    &&& after.editing is None
                    &&& s.query.len() > 0 ==> back.query == s.query.take(s.query.len() - 1)
                    &&& back.editing is None
                },
            }
        }),
{
    match s.editing {
        Some((_, draft)) => {
            if draft.len() > 0 {
                assert(draft.drop_last() =~= draft.take(draft.len() - 1));
            }
        },
        None => {
            if s.query.len() > 0 {
                assert(s.query.drop_last() =~= s.query.take(s.query.len() - 1));
            }
        },
    }
}

/// Enter writes the draft under the key of its field and leaves the field; Tab
/// changes which of the two files is edited.
pub proof fn enter_writes_the_draft(
    s: Settings,
    field: Seq<char>,
    draft: Seq<char>,
    modifiers: Modifiers,
)
    ensures
        s.editing == Some((field, draft)) ==> settings_step(
            s,
            Key::Named(NamedKey::Enter),
            modifiers,
        ).1 == SettingsReply::Change(SettingChange::Write(field, draft)) && settings_step(
            s,
            Key::Named(NamedKey::Enter),
            modifiers,
        ).0.editing is None,
        s.editing is None ==> settings_step(
            s,
            Key::Named(NamedKey::Tab),
            modifiers,
        ).0.scope != s.scope,
{
}

/// A click does what it landed on: a switch is written the other way round, a
/// choice as it reads, a field is opened with what it holds, a reset resets its
/// own setting, and nothing else changes a setting.
pub proof fn a_click_changes_its_own_setting(
    s: Settings,
    key: Seq<char>,
    choice: Seq<char>,
    text: Seq<char>,
    on: bool,
    control: ControlKind<Seq<char>>,
)
    requires
        s.editing is None,
    ensures
        settings_press(s, SettingsHit::Control(key), ControlKind::Switch(on)).1.change == Some(
            SettingChange::Write(
                key,
                if on {
                    "false"@
                } else {
                    "true"@
                },
            ),
        ),
        settings_press(s, SettingsHit::Control(key), ControlKind::Field(text)).0.editing == Some(
            (key, text),
        ),
        settings_press(s, SettingsHit::Control(key), ControlKind::Field(text)).1.change is None,
        settings_press(s, SettingsHit::Choice(key, choice), control).1.change == Some(
            SettingChange::Write(key, choice),
        ),
        settings_press(s, SettingsHit::Reset(key), control).1.change == Some(
            SettingChange::Reset(key),
        ),
        settings_press(s, SettingsHit::Search, control).0.search_focused,
        settings_press(s, SettingsHit::Search, control).1.change is None,
        settings_press(s, SettingsHit::Nothing, control).1.change is None,
{
}

/// The list shows exactly the settings of the picked section among those that
/// were found, in the order they were found, and all of them while no section
/// is picked.
pub proof fn the_picked_section_is_shown(
    found: Seq<SettingDescriptor>,
    section: Option<Seq<char>>,
)
    ensures
        shown_settings(found, section) == found.filter(
            |d: SettingDescriptor| section is None || d.section@ == section->0,
        ),
    decreases found.len(),
{
    reveal(Seq::filter);
    if found.len() > 0 {
        the_picked_section_is_shown(found.drop_last(), section);
    }
    assert(shown_settings(found, section) =~= found.filter(
        |d: SettingDescriptor| section is None || d.section@ == section->0,
    ));
}

/// The list scrolls to where it is asked to, but never past its first or its
/// last screenful.
pub proof fn scrolling_stays_in_the_list(target: int, furthest: int)
    requires
        furthest >= 0,
    ensures
        0 <= scroll_within(target, furthest) <= furthest,
        0 <= target <= furthest ==> scroll_within(target, furthest) == target,
        target > furthest ==> scroll_within(target, furthest) == furthest,
        target < 0 ==> scroll_within(target, furthest) == 0,
{
}

/// The screen opens in its search box with nothing being edited, and what was
/// searched for, the section and the file edited stay. Closing it changes
/// nothing else.
pub proof fn the_screen_opens_in_its_search_box(s: Settings)
    ensures
        ({
            let after = toggled_settings(s);
            &&& after.open == !s.open
            &&& after.query == s.query
            &&& after.section == s.section
            &&& after.scope == s.scope
            &&& after.scroll == s.scroll
            &&& !s.open ==> after.search_focused && after.editing is None
            &&& s.open ==> after.search_focused == s.search_focused && after.editing == s.editing
        }),
        !unopened_settings().open,
        unopened_settings().query.len() == 0,
        unopened_settings().section is None,
        unopened_settings().scroll == 0,
        unopened_settings().editing is None,
        unopened_settings().scope == SettingsScope::User,
{
}

/// The section that is picked is the one at its place in the list, and none is
/// past its end.
pub proof fn the_picked_section_is_the_one_at_its_place(
    s: Settings,
    sections: Seq<&'static str>,
    at: usize,
)
    ensures
        s.section == Some(at) && at < sections.len() ==> picked_section(s, sections) == Some(
            sections[at as int]@,
        ),
        s.section == Some(at) && at >= sections.len() ==> picked_section(s, sections) is None,
        s.section is None ==> picked_section(s, sections) is None,
{
}

/// A tab is as wide as the setting says, and at least one column.
pub proof fn a_tab_is_at_least_one_column(value: int)
    ensures
        1 <= value <= usize::MAX ==> tab_columns(value) == value,
        value < 1 ==> tab_columns(value) == 1,
        value > usize::MAX ==> tab_columns(value) == usize::MAX,
{
}

/// Tab changes which of the two files is edited, and a second one changes it
/// back.
pub proof fn tab_changes_the_file(scope: SettingsScope)
    ensures
        other_scope(scope) != scope,
        other_scope(other_scope(scope)) == scope,
{
}

/// A click while a value is being edited goes on with it only in its own
/// field; anywhere else the value is written and its field left.
pub proof fn a_value_is_never_left_half_entered(
    s: Settings,
    key: Seq<char>,
    draft: Seq<char>,
    hit: SettingsHit<Seq<char>>,
    control: ControlKind<Seq<char>>,
)
    requires
        s.editing == Some((key, draft)),
    ensures
        ({
            let (after, press) = settings_press(s, hit, control);
            let own = hit == SettingsHit::Control(key);
            &&& own ==> press.commit is None
            &&& !own ==> press.commit == Some(SettingChange::Write(key, draft))
            &&& !own && !(hit is Control) ==> after.editing is None
            &&& after.query == s.query
            &&& after.scope == s.scope
        }),
{
}

/// Changes, replies and hits are read as they stand.
pub proof fn a_change_is_read_as_it_stands(key: String, value: String, at: usize, on: bool)
    ensures
        change_view(SettingChange::Write(key, value)) == SettingChange::Write(key@, value@),
        change_view(SettingChange::Reset(key)) == SettingChange::Reset(key@),
        opt_change(Some(SettingChange::Write(key, value))) == Some(
            SettingChange::Write(key@, value@),
        ),
        opt_change(None) is None,
        press_view(
            SettingsPress {
                commit: None,
                change: Some(SettingChange::Write(key, value)),
            },
        ) == (SettingsPress {
            commit: None,
            change: Some(SettingChange::Write(key@, value@)),
        }),
        reply_view(SettingsReply::Change(SettingChange::Write(key, value)))
            == SettingsReply::Change(SettingChange::Write(key@, value@)),
        reply_view(SettingsReply::Passed) == SettingsReply::<Seq<char>>::Passed,
        reply_view(SettingsReply::Taken) == SettingsReply::<Seq<char>>::Taken,
        reply_view(SettingsReply::Closed) == SettingsReply::<Seq<char>>::Closed,
        settings_hit_view(SettingsHit::Control(key)) == SettingsHit::Control(key@),
        settings_hit_view(SettingsHit::Choice(key, value)) == SettingsHit::Choice(key@, value@),
        settings_hit_view(SettingsHit::Reset(key)) == SettingsHit::Reset(key@),
        settings_hit_view(SettingsHit::Category(at)) == SettingsHit::<Seq<char>>::Category(at),
        settings_hit_view(SettingsHit::Search) == SettingsHit::<Seq<char>>::Search,
        settings_hit_view(SettingsHit::Nothing) == SettingsHit::<Seq<char>>::Nothing,
        control_view(ControlKind::Field(value)) == ControlKind::Field(value@),
        control_view(ControlKind::Switch(on)) == ControlKind::<Seq<char>>::Switch(on),
        control_view(ControlKind::Unknown) == ControlKind::<Seq<char>>::Unknown,
{
}

/// What is being edited is read as it stands, and so is the rest of the
/// screen.
pub proof fn the_screen_is_read_as_it_stands(screen: SettingsScreen)
    ensures
        screen@.open == screen.open,
        screen@.scope == screen.scope,
        screen@.query == screen.query@,
        screen@.section == screen.section,
        screen@.scroll == screen.scroll,
        screen@.search_focused == screen.search_focused,
        screen.editing matches Some(editing) ==> screen@.editing == Some(
            (editing.0@, editing.1@),
        ),
        screen.editing is None ==> screen@.editing is None,
{
}

/// A key is taken where there is something to type into, be it a field or the
/// search box, and passed on where there is nothing; with control or alt held
/// it is passed on too.
pub proof fn a_key_is_taken_where_there_is_something_to_type_into(
    s: Settings,
    text: String,
    modifiers: Modifiers,
)
    ensures
        ({
            let open = s.editing is Some || s.search_focused;
            let (typed, reply) = settings_step(s, Key::Character(text), modifiers);
            let (erased, back) = settings_step(s, Key::Named(NamedKey::Backspace), modifiers);
            let (spaced, space) = settings_step(s, Key::Named(NamedKey::Space), modifiers);
            let (switched, tab) = settings_step(s, Key::Named(NamedKey::Tab), modifiers);
            &&& (reply is Taken) == (open && !modifiers.control && !modifiers.alt)
            &&& !(reply is Taken) ==> reply is Passed && typed == s
            &&& (back is Taken) == open
            &&& !open ==> back is Passed && erased == s
            &&& (space is Taken) == open
            &&& !open ==> space is Passed && spaced == s
            &&& (tab is Taken) == (s.editing is None)
            &&& s.editing is None ==> switched.scope != s.scope && switched.query == s.query
            &&& s.editing is Some ==> tab is Passed && switched == s
        }),
{
}

} // verus!
