//! Key bindings.
//!
//! A binding resolves to a command id and nothing else: the shell never
//! implements an editor action itself.  That makes the whole keymap a function
//! of the key and the modifiers held with it.

use crate::shell::PromptAnswer;
use crate::text::{chars_of, digit, digit_value, is_digit, letter, letter_of};
use vstd::prelude::*;

verus! {

/// A key with a name rather than a character.
#[derive(Copy, Clone, Debug, PartialEq, Eq, Structural)]
pub enum NamedKey {
    ArrowLeft,
    ArrowRight,
    ArrowUp,
    ArrowDown,
    Home,
    End,
    PageUp,
    PageDown,
    Backspace,
    Delete,
    Enter,
    Tab,
    Space,
    Escape,
    F3,
    F5,
    F6,
    F7,
    F9,
    F10,
    F11,
    F12,
    /// Any other named key; nothing is bound to it.
    Unbound,
}

/// A key as the platform reports it.
#[derive(Clone, Debug, PartialEq, Eq)]
pub enum Key {
    Named(NamedKey),
    /// The text the key produces under the layout in effect.
    Character(String),
    /// A key that is neither, such as a dead key.
    Unidentified,
}

/// The modifiers held down.
#[derive(Copy, Clone, Debug, PartialEq, Eq, Structural)]
pub struct Modifiers {
    pub control: bool,
    pub shift: bool,
    pub alt: bool,
}

/// What a command is run with. `T` is how text is held.
#[derive(Clone, Debug, PartialEq, Eq)]
pub enum CommandArgs<T> {
    Nothing,
    Text(T),
    Index(usize),
}

/// What a key press resolves to.
#[derive(Clone, Debug, PartialEq, Eq)]
pub enum Binding {
    /// Run this command.
    Command(&'static str, CommandArgs<String>),
    /// Insert the text the platform produced for this key.
    InsertText,
    /// No binding; ignore the key.
    Unbound,
}

impl Binding {
    fn command(id: &'static str) -> (r: Binding)
        ensures
            r == run(id),
    {
        Binding::Command(id, CommandArgs::Nothing)
    }

    fn movement(base: &'static str, select: &'static str, shift: bool) -> (r: Binding)
        ensures
            r == movement(base, select, shift),
    {
        Binding::command(if shift {
            select
        } else {
            base
        })
    }
}

/// Runs a command without arguments.
pub open spec fn run(id: &'static str) -> Binding {
    Binding::Command(id, CommandArgs::Nothing)
}

/// A caret movement, which shift turns into a selection.
pub open spec fn movement(base: &'static str, select: &'static str, shift: bool) -> Binding {
    run(if shift {
        select
    } else {
        base
    })
}

/// What a named key is bound to.
pub open spec fn named_binding(key: NamedKey, control: bool, shift: bool) -> Binding {
    match key {
        NamedKey::ArrowLeft => if control {
            movement("cursor.word_left", "cursor.word_left.select", shift)
        } else {
            movement("cursor.left", "cursor.left.select", shift)
        },
        NamedKey::ArrowRight => if control {
            movement("cursor.word_right", "cursor.word_right.select", shift)
        } else {
            movement("cursor.right", "cursor.right.select", shift)
        },
        NamedKey::ArrowUp => movement("cursor.up", "cursor.up.select", shift),
        NamedKey::ArrowDown => movement("cursor.down", "cursor.down.select", shift),
        NamedKey::Home => if control {
            movement("cursor.document_start", "cursor.document_start.select", shift)
        } else {
            movement("cursor.line_start", "cursor.line_start.select", shift)
        },
        NamedKey::End => if control {
            movement("cursor.document_end", "cursor.document_end.select", shift)
        } else {
            movement("cursor.line_end", "cursor.line_end.select", shift)
        },
        NamedKey::PageUp => if control {
            run("view.previous_tab")
        } else {
            movement("cursor.page_up", "cursor.page_up.select", shift)
        },
        NamedKey::PageDown => if control {
            run("view.next_tab")
        } else {
            movement("cursor.page_down", "cursor.page_down.select", shift)
        },
        NamedKey::Backspace => run(if control {
            "edit.delete_word_backward"
        } else {
            "edit.delete_backward"
        }),
        NamedKey::Delete => run(if control {
            "edit.delete_word_forward"
        } else {
            "edit.delete_forward"
        }),
        NamedKey::Enter => run("edit.insert_newline"),
        NamedKey::Tab => run(if control && shift {
            "view.previous_tab"
        } else if control {
            "view.next_tab"
        } else if shift {
            "edit.dedent"
        } else {
            "edit.insert_tab"
        }),
        NamedKey::Space => Binding::InsertText,
        NamedKey::F12 => run("view.toggle_performance_overlay"),
        NamedKey::F9 => run("view.toggle_dev_panel"),
        NamedKey::F10 => run("view.toggle_resource_center"),
        NamedKey::F11 => run("view.toggle_terminal"),
        NamedKey::F3 => run(if shift {
            "edit.find_previous"
        } else {
            "edit.find_next"
        }),
        NamedKey::F5 => run("diagnostics.duplicate_storm"),
        NamedKey::F6 => run("diagnostics.slow_load"),
        NamedKey::F7 => run("diagnostics.failing_load"),
        NamedKey::Escape => run("document.cancel_load"),
        NamedKey::Unbound => Binding::Unbound,
    }
}

/// What a letter typed with control held is bound to.
pub open spec fn control_letter(text: Seq<char>, shift: bool) -> Binding {
    match letter(text) {
        Some('n') => run("file.new"),
        Some('o') => run("file.open"),
        Some('s') => run(if shift {
            "file.save_as"
        } else {
            "file.save"
        }),
        Some('w') => run(if shift {
            "file.close_all_clean_tabs"
        } else {
            "file.close_tab"
        }),
        Some('q') => run("app.quit"),
        Some('z') => run(if shift {
            "edit.redo"
        } else {
            "edit.undo"
        }),
        Some('y') => run("edit.redo"),
        Some('c') => run("edit.copy"),
        Some('x') => run("edit.cut"),
        Some('v') => run("edit.paste"),
        Some('a') => run("edit.select_all"),
        Some('f') => run(if shift {
            "view.workspace_search"
        } else {
            "edit.find"
        }),
        Some('e') => if shift {
            run("view.toggle_file_tree")
        } else {
            Binding::Unbound
        },
        Some('g') => if shift {
            run("view.toggle_git_status")
        } else {
            Binding::Unbound
        },
        Some('d') => if shift {
            run("view.toggle_dependencies")
        } else {
            Binding::Unbound
        },
        Some('r') => if shift {
            run("view.refresh_dependencies")
        } else {
            Binding::Unbound
        },
        _ => Binding::Unbound,
    }
}

/// What text typed with control held is bound to: a digit from 1 up jumps to
/// that tab, and a letter runs its command.
pub open spec fn control_binding(text: Seq<char>, shift: bool) -> Binding {
    if text.len() > 0 && digit(text[0]) && text[0] != '0' && !shift {
        Binding::Command("view.go_to_tab", CommandArgs::Index(digit_value(text[0]) as usize))
    } else {
        control_letter(text, shift)
    }
}

/// What a key press is bound to.
pub open spec fn binding(key: Key, modifiers: Modifiers) -> Binding {
    if modifiers.alt {
        Binding::Unbound
    } else {
        match key {
            Key::Named(named) => named_binding(named, modifiers.control, modifiers.shift),
            Key::Character(text) => if modifiers.control {
                control_binding(text@, modifiers.shift)
            } else {
                Binding::InsertText
            },
            Key::Unidentified => Binding::Unbound,
        }
    }
}

/// Resolves a key press against the modifiers in effect.
///
/// Alt is bound to nothing, which leaves the platform's own menu accelerators
/// working.
pub fn resolve(key: &Key, modifiers: &Modifiers) -> (r: Binding)
    ensures
        r == binding(*key, *modifiers),
{
    if modifiers.alt {
        return Binding::Unbound;
    }
    match key {
        Key::Named(named) => resolve_named(*named, modifiers.control, modifiers.shift),
        Key::Character(text) => if modifiers.control {
            resolve_control_character(text.as_str(), modifiers.shift)
        } else {
            Binding::InsertText
        },
        Key::Unidentified => Binding::Unbound,
    }
}

/// What a named key is bound to.
pub fn resolve_named(key: NamedKey, control: bool, shift: bool) -> (r: Binding)
    ensures
        r == named_binding(key, control, shift),
{
    match key {
        NamedKey::ArrowLeft => if control {
            Binding::movement("cursor.word_left", "cursor.word_left.select", shift)
        } else {
            Binding::movement("cursor.left", "cursor.left.select", shift)
        },
        NamedKey::ArrowRight => if control {
            Binding::movement("cursor.word_right", "cursor.word_right.select", shift)
        } else {
            Binding::movement("cursor.right", "cursor.right.select", shift)
        },
        NamedKey::ArrowUp => Binding::movement("cursor.up", "cursor.up.select", shift),
        NamedKey::ArrowDown => Binding::movement("cursor.down", "cursor.down.select", shift),
        NamedKey::Home => if control {
            Binding::movement("cursor.document_start", "cursor.document_start.select", shift)
        } else {
            Binding::movement("cursor.line_start", "cursor.line_start.select", shift)
        },
        NamedKey::End => if control {
            Binding::movement("cursor.document_end", "cursor.document_end.select", shift)
        } else {
            Binding::movement("cursor.line_end", "cursor.line_end.select", shift)
        },
        NamedKey::PageUp => if control {
            Binding::command("view.previous_tab")
        } else {
            Binding::movement("cursor.page_up", "cursor.page_up.select", shift)
        },
        NamedKey::PageDown => if control {
            Binding::command("view.next_tab")
        } else {
            Binding::movement("cursor.page_down", "cursor.page_down.select", shift)
        },
        NamedKey::Backspace => if control {
            Binding::command("edit.delete_word_backward")
        } else {
            Binding::command("edit.delete_backward")
        },
        NamedKey::Delete => if control {
            Binding::command("edit.delete_word_forward")
        } else {
            Binding::command("edit.delete_forward")
        },
        NamedKey::Enter => Binding::command("edit.insert_newline"),
        NamedKey::Tab => if control && shift {
            Binding::command("view.previous_tab")
        } else if control {
            Binding::command("view.next_tab")
        } else if shift {
            Binding::command("edit.dedent")
        } else {
            Binding::command("edit.insert_tab")
        },
        NamedKey::Space => Binding::InsertText,
        NamedKey::F12 => Binding::command("view.toggle_performance_overlay"),
        NamedKey::F9 => Binding::command("view.toggle_dev_panel"),
        NamedKey::F10 => Binding::command("view.toggle_resource_center"),
        NamedKey::F11 => Binding::command("view.toggle_terminal"),
        NamedKey::F3 => if shift {
            Binding::command("edit.find_previous")
        } else {
            Binding::command("edit.find_next")
        },
        NamedKey::F5 => Binding::command("diagnostics.duplicate_storm"),
        NamedKey::F6 => Binding::command("diagnostics.slow_load"),
        NamedKey::F7 => Binding::command("diagnostics.failing_load"),
        NamedKey::Escape => Binding::command("document.cancel_load"),
        NamedKey::Unbound => Binding::Unbound,
    }
}

fn resolve_control_character(text: &str, shift: bool) -> (r: Binding)
    ensures
        r == control_binding(text@, shift),
{
    let chars = chars_of(text);
    if chars.len() > 0 && is_digit(chars[0]) {
        let first = chars[0];
        if !shift && first != '0' {
            let number: usize = (first as u32 - 48) as usize;
            return Binding::Command("view.go_to_tab", CommandArgs::Index(number));
        }
    }
    match letter_of(text) {
        Some('n') => Binding::command("file.new"),
        Some('o') => Binding::command("file.open"),
        Some('s') => if shift {
            Binding::command("file.save_as")
        } else {
            Binding::command("file.save")
        },
        Some('w') => if shift {
            Binding::command("file.close_all_clean_tabs")
        } else {
            Binding::command("file.close_tab")
        },
        Some('q') => Binding::command("app.quit"),
        Some('z') => if shift {
            Binding::command("edit.redo")
        } else {
            Binding::command("edit.undo")
        },
        Some('y') => Binding::command("edit.redo"),
        Some('c') => Binding::command("edit.copy"),
        Some('x') => Binding::command("edit.cut"),
        Some('v') => Binding::command("edit.paste"),
        Some('a') => Binding::command("edit.select_all"),
        Some('f') => if shift {
            Binding::command("view.workspace_search")
        } else {
            Binding::command("edit.find")
        },
        Some('e') => if shift {
            Binding::command("view.toggle_file_tree")
        } else {
            Binding::Unbound
        },
        Some('g') => if shift {
            Binding::command("view.toggle_git_status")
        } else {
            Binding::Unbound
        },
        Some('d') => if shift {
            Binding::command("view.toggle_dependencies")
        } else {
            Binding::Unbound
        },
        Some('r') => if shift {
            Binding::command("view.refresh_dependencies")
        } else {
            Binding::Unbound
        },
        _ => Binding::Unbound,
    }
}

/// What a keystroke does while the find bar owns the keyboard.
#[derive(Clone, Copy, Debug, PartialEq, Eq, Structural)]
pub enum FindAction {
    Backspace,
    /// Enter, or Shift+Enter for the opposite direction.
    Next,
    Previous,
    Close,
    /// Nothing the bar does itself; the key may still type into the query.
    Unbound,
}

/// What a key does to the find bar.
pub open spec fn find_action(key: Key, shift: bool) -> FindAction {
    match key {
        Key::Named(NamedKey::Escape) => FindAction::Close,
        Key::Named(NamedKey::Backspace) => FindAction::Backspace,
        Key::Named(NamedKey::Enter) | Key::Named(NamedKey::F3) => if shift {
            FindAction::Previous
        } else {
            FindAction::Next
        },
        _ => FindAction::Unbound,
    }
}

/// Resolves a key press while the find bar owns the keyboard.
pub fn resolve_find(key: &Key, shift: bool) -> (r: FindAction)
    ensures
        r == find_action(*key, shift),
{
    match key {
        Key::Named(NamedKey::Escape) => FindAction::Close,
        Key::Named(NamedKey::Backspace) => FindAction::Backspace,
        Key::Named(NamedKey::Enter) | Key::Named(NamedKey::F3) => if shift {
            FindAction::Previous
        } else {
            FindAction::Next
        },
        _ => FindAction::Unbound,
    }
}

/// How a key answers a confirmation, if it does.
pub open spec fn prompt_answer(key: Key) -> Option<PromptAnswer> {
    match key {
        Key::Named(NamedKey::Escape) => Some(PromptAnswer::Cancel),
        Key::Named(NamedKey::Enter) => Some(PromptAnswer::Save),
        Key::Character(text) => match letter(text@) {
            Some('s') => Some(PromptAnswer::Save),
            Some('d') => Some(PromptAnswer::Discard),
            Some('c') => Some(PromptAnswer::Cancel),
            _ => None,
        },
        _ => None,
    }
}

/// Resolves a key press while a confirmation is on screen.
pub fn resolve_prompt(key: &Key) -> (r: Option<PromptAnswer>)
    ensures
        r == prompt_answer(*key),
{
    match key {
        Key::Named(NamedKey::Escape) => Some(PromptAnswer::Cancel),
        Key::Named(NamedKey::Enter) => Some(PromptAnswer::Save),
        Key::Character(text) => match letter_of(text.as_str()) {
            Some('s') => Some(PromptAnswer::Save),
            Some('d') => Some(PromptAnswer::Discard),
            Some('c') => Some(PromptAnswer::Cancel),
            _ => None,
        },
        _ => None,
    }
}

/// Whether a key press is Ctrl+Shift+P, in either case.
pub open spec fn opens_palette(key: Key, modifiers: Modifiers) -> bool {
    modifiers.control && modifiers.shift && (key matches Key::Character(text) && letter(text@)
        == Some('p'))
}

/// Whether this key press should open the command palette.
pub fn is_command_palette_shortcut(key: &Key, modifiers: &Modifiers) -> (r: bool)
    ensures
        r == opens_palette(*key, *modifiers),
{
    if !modifiers.control || !modifiers.shift {
        return false;
    }
    match key {
        Key::Character(text) => match letter_of(text.as_str()) {
            Some(c) => c == 'p',
            None => false,
        },
        _ => false,
    }
}

/// Bindings shown in the status bar hint.
pub const HINTS: &'static str = "Ctrl+O open  Ctrl+S save  Ctrl+Z undo  F9 loading  F12 metrics";

/// Every combination with Alt is left to the platform.
pub proof fn alt_is_left_to_the_platform(key: Key, modifiers: Modifiers)
    requires
        modifiers.alt,
    ensures
        binding(key, modifiers) == Binding::Unbound,
{
}

/// Text typed without Ctrl or Alt is inserted, whatever the text.
pub proof fn plain_text_is_inserted(text: String, modifiers: Modifiers)
    requires
        !modifiers.alt,
        !modifiers.control,
    ensures
        binding(Key::Character(text), modifiers) == Binding::InsertText,
{
}

/// A key that opens the command palette does nothing else.
pub proof fn the_palette_shortcut_is_otherwise_unbound(key: Key, modifiers: Modifiers)
    requires
        opens_palette(key, modifiers),
    ensures
        binding(key, modifiers) == Binding::Unbound,
{
    assert(!digit('p') && !digit('P'));
    match key {
        Key::Character(text) => {
            assert(text@.len() == 1);
            assert(!digit(text@[0]));
        },
        _ => {},
    }
}

/// Whether a named key moves the caret.
pub open spec fn moves_the_caret(key: NamedKey, control: bool) -> bool {
    match key {
        NamedKey::ArrowLeft | NamedKey::ArrowRight | NamedKey::ArrowUp | NamedKey::ArrowDown => true,
        NamedKey::Home | NamedKey::End => true,
        NamedKey::PageUp | NamedKey::PageDown => !control,
        _ => false,
    }
}

/// Shift always extends the same movement: the arrow keys, Home and End with or
/// without Ctrl, and the page keys without it, run a command, and with Shift
/// held the command that selects while it moves in the same way.
pub proof fn shift_extends_the_same_movement(key: NamedKey, control: bool)
    requires
        moves_the_caret(key, control),
    ensures
        named_binding(key, control, false) matches Binding::Command(id, CommandArgs::Nothing)
            && named_binding(key, control, true) matches Binding::Command(
            select,
            CommandArgs::Nothing,
        ) && select@ == id@ + ".select"@,
        binding(Key::Named(key), Modifiers { control, shift: false, alt: false })
            == named_binding(key, control, false),
        binding(Key::Named(key), Modifiers { control, shift: true, alt: false })
            == named_binding(key, control, true),
{
    reveal_strlit(".select");
    reveal_strlit("cursor.left");
    reveal_strlit("cursor.left.select");
    reveal_strlit("cursor.right");
    reveal_strlit("cursor.right.select");
    reveal_strlit("cursor.word_left");
    reveal_strlit("cursor.word_left.select");
    reveal_strlit("cursor.word_right");
    reveal_strlit("cursor.word_right.select");
    reveal_strlit("cursor.up");
    reveal_strlit("cursor.up.select");
    reveal_strlit("cursor.down");
    reveal_strlit("cursor.down.select");
    reveal_strlit("cursor.line_start");
    reveal_strlit("cursor.line_start.select");
    reveal_strlit("cursor.line_end");
    reveal_strlit("cursor.line_end.select");
    reveal_strlit("cursor.document_start");
    reveal_strlit("cursor.document_start.select");
    reveal_strlit("cursor.document_end");
    reveal_strlit("cursor.document_end.select");
    reveal_strlit("cursor.page_up");
    reveal_strlit("cursor.page_up.select");
    reveal_strlit("cursor.page_down");
    reveal_strlit("cursor.page_down.select");
    assert("cursor.left.select"@ =~= "cursor.left"@ + ".select"@);
    assert("cursor.right.select"@ =~= "cursor.right"@ + ".select"@);
    assert("cursor.word_left.select"@ =~= "cursor.word_left"@ + ".select"@);
    assert("cursor.word_right.select"@ =~= "cursor.word_right"@ + ".select"@);
    assert("cursor.up.select"@ =~= "cursor.up"@ + ".select"@);
    assert("cursor.down.select"@ =~= "cursor.down"@ + ".select"@);
    assert("cursor.line_start.select"@ =~= "cursor.line_start"@ + ".select"@);
    assert("cursor.line_end.select"@ =~= "cursor.line_end"@ + ".select"@);
    assert("cursor.document_start.select"@ =~= "cursor.document_start"@ + ".select"@);
    assert("cursor.document_end.select"@ =~= "cursor.document_end"@ + ".select"@);
    assert("cursor.page_up.select"@ =~= "cursor.page_up"@ + ".select"@);
    assert("cursor.page_down.select"@ =~= "cursor.page_down"@ + ".select"@);
}

/// A digit with control held goes to the tab of that number.
pub proof fn a_digit_goes_to_its_tab(text: String, modifiers: Modifiers, n: usize)
    requires
        1 <= n <= 9,
        text@.len() >= 1,
        text@[0] == (48 + n) as char,
        modifiers.control,
        !modifiers.shift,
        !modifiers.alt,
    ensures
        binding(Key::Character(text), modifiers) == Binding::Command(
            "view.go_to_tab",
            CommandArgs::Index(n),
        ),
{
}

/// A shortcut does not depend on whether its letter is a capital, and a key
/// that produces more than one character is none.
pub proof fn the_case_of_a_shortcut_makes_no_difference(a: Seq<char>, b: Seq<char>, shift: bool)
    requires
        a.len() == 1,
        b.len() == 1,
        crate::text::lower(a[0]) == crate::text::lower(b[0]),
        !digit(a[0]),
        !digit(b[0]),
    ensures
        control_binding(a, shift) == control_binding(b, shift),
        forall|more: Seq<char>|
            more.len() != 1 ==> #[trigger] control_letter(more, shift) == Binding::Unbound,
{
}

/// Escape answers a confirmation with Cancel, Enter with Save, and each letter
/// with the answer it begins, in either case. Nothing else answers it.
pub proof fn a_confirmation_is_answered_by_its_letters(text: String)
    ensures
        prompt_answer(Key::Named(NamedKey::Escape)) == Some(PromptAnswer::Cancel),
        prompt_answer(Key::Named(NamedKey::Enter)) == Some(PromptAnswer::Save),
        ({
            let c = text@[0];
            let one = text@.len() == 1;
            let answer = prompt_answer(Key::Character(text));
            &&& answer == Some(PromptAnswer::Save) <==> one && (c == 's' || c == 'S')
            &&& answer == Some(PromptAnswer::Discard) <==> one && (c == 'd' || c == 'D')
            &&& answer == Some(PromptAnswer::Cancel) <==> one && (c == 'c' || c == 'C')
        }),
        prompt_answer(Key::Unidentified) is None,
{
}

/// In the find bar Enter goes on to the next match, with shift back to the
/// one before; Escape closes it and Backspace takes a character.
pub proof fn the_find_bar_goes_both_ways(shift: bool)
    ensures
        find_action(Key::Named(NamedKey::Enter), false) == FindAction::Next,
        find_action(Key::Named(NamedKey::Enter), true) == FindAction::Previous,
        find_action(Key::Named(NamedKey::F3), shift) == find_action(
            Key::Named(NamedKey::Enter),
            shift,
        ),
        find_action(Key::Named(NamedKey::Escape), shift) == FindAction::Close,
        find_action(Key::Named(NamedKey::Backspace), shift) == FindAction::Backspace,
{
}

/// What is done with a letter is undone and done again with its neighbours,
/// and each of the clipboard's three keys is its own command.
pub proof fn the_common_shortcuts_are_where_they_are_expected(text: String, shift: bool)
    requires
        text@.len() == 1,
    ensures
        ({
            let c = text@[0];
            let bound = binding(
                Key::Character(text),
                Modifiers { control: true, shift, alt: false },
            );
            let runs = |id: &'static str| Binding::Command(id, CommandArgs::Nothing);
            &&& c == 'c' || c == 'C' ==> bound == runs("edit.copy")
            &&& c == 'x' || c == 'X' ==> bound == runs("edit.cut")
            &&& c == 'v' || c == 'V' ==> bound == runs("edit.paste")
            &&& c == 'a' || c == 'A' ==> bound == runs("edit.select_all")
            &&& (c == 'z' || c == 'Z') && !shift ==> bound == runs("edit.undo")
            &&& (c == 'z' || c == 'Z') && shift ==> bound == runs("edit.redo")
            &&& c == 'y' || c == 'Y' ==> bound == runs("edit.redo")
            &&& c == 'n' || c == 'N' ==> bound == runs("file.new")
            &&& c == 'o' || c == 'O' ==> bound == runs("file.open")
            &&& (c == 's' || c == 'S') && !shift ==> bound == runs("file.save")
            &&& (c == 's' || c == 'S') && shift ==> bound == runs("file.save_as")
            &&& (c == 'w' || c == 'W') && !shift ==> bound == runs("file.close_tab")
            &&& (c == 'w' || c == 'W') && shift ==> bound == runs("file.close_all_clean_tabs")
            &&& c == 'q' || c == 'Q' ==> bound == runs("app.quit")
            &&& (c == 'f' || c == 'F') && !shift ==> bound == runs("edit.find")
            &&& (c == 'f' || c == 'F') && shift ==> bound == runs("view.workspace_search")
            &&& (c == 'e' || c == 'E') && shift ==> bound == runs("view.toggle_file_tree")
            &&& (c == 'g' || c == 'G') && shift ==> bound == runs("view.toggle_git_status")
            &&& (c == 'd' || c == 'D') && shift ==> bound == runs("view.toggle_dependencies")
            &&& (c == 'r' || c == 'R') && shift ==> bound == runs("view.refresh_dependencies")
        }),
{
}

} // verus!
