//! Input focus: who consumes keys and the wheel.
//!
//! Four things that a window easily conflates are kept apart here: the window
//! having the platform's focus, the part of it that input is addressed to, the
//! document that is active, and whatever is under the pointer.

use vstd::prelude::*;

verus! {

/// Which part of the window input is currently addressed to.
#[derive(Copy, Clone, Debug, PartialEq, Eq, Structural)]
pub enum InputFocus {
    /// Keys and the wheel go to the active document.
    Editor,
    /// A dropdown is open and owns input until it closes.
    Menu,
    /// A confirmation is up and owns input until it is answered.
    Prompt,
    /// The find bar owns keys; the wheel still scrolls the editor underneath.
    Find,
    /// Typing a workspace-search query.
    SearchQuery,
    /// A navigable list owns the keyboard: the file tree, search results, or
    /// git status.
    List,
    /// The command-runner panel owns the keyboard.
    Terminal,
    /// The command palette owns the keyboard until it runs a command or is
    /// dismissed.
    CommandPalette,
}

impl Default for InputFocus {
    fn default() -> (r: Self)
        ensures
            r == InputFocus::Editor,
    {
        InputFocus::Editor
    }
}

/// Where a wheel event should go.
#[derive(Copy, Clone, Debug, PartialEq, Eq, Structural)]
pub enum WheelTarget {
    /// Scroll the active document.
    Editor,
    /// Scroll the sidebar's row list.
    Sidebar,
    /// Scroll back through the terminal's output.
    BottomPanel,
    /// The tab bar, the menu bar, or the status bar: no editor scrolling.
    Chrome,
    /// A modal-ish surface owns input; nothing scrolls.
    Blocked,
}

/// Which surfaces the pointer is over.
#[derive(Copy, Clone, Debug, PartialEq, Eq, Structural)]
pub struct PointerOver {
    /// The sidebar, which has no extent while it is hidden.
    pub sidebar: bool,
    /// The bottom panel, while it is shown.
    pub bottom_panel: bool,
    /// The text, the gutter or the scrollbar.
    pub editor: bool,
}

/// Which surfaces the pointer is over, from what it lies in: the text, the
/// gutter and the scrollbar are all the editor's.
pub fn over(sidebar: bool, bottom_panel: bool, text: bool, gutter: bool, scrollbar: bool) -> (r:
    PointerOver)
    ensures
        r == (PointerOver { sidebar, bottom_panel, editor: text || gutter || scrollbar }),
{
    PointerOver { sidebar, bottom_panel, editor: text || gutter || scrollbar }
}

/// Where a wheel event goes: the sidebar and the bottom panel take it whoever
/// has the keyboard, a modal surface swallows it, and the editor takes it over
/// its own area.
pub open spec fn wheel_goes(over: PointerOver, focus: InputFocus) -> WheelTarget {
    if over.sidebar {
        WheelTarget::Sidebar
    } else if over.bottom_panel {
        WheelTarget::BottomPanel
    } else {
        match focus {
            InputFocus::Menu
            | InputFocus::Prompt
            | InputFocus::SearchQuery
            | InputFocus::Terminal
            | InputFocus::CommandPalette => WheelTarget::Blocked,
            InputFocus::List => WheelTarget::Chrome,
            InputFocus::Editor | InputFocus::Find => if over.editor {
                WheelTarget::Editor
            } else {
                WheelTarget::Chrome
            },
        }
    }
}

/// Routes a wheel event from what the pointer is over and the current focus.
pub fn wheel_target(over: PointerOver, focus: InputFocus) -> (r: WheelTarget)
    ensures
        r == wheel_goes(over, focus),
{
    if over.sidebar {
        return WheelTarget::Sidebar;
    }
    if over.bottom_panel {
        return WheelTarget::BottomPanel;
    }
    match focus {
        InputFocus::Menu
        | InputFocus::Prompt
        | InputFocus::SearchQuery
        | InputFocus::Terminal
        | InputFocus::CommandPalette => WheelTarget::Blocked,
        InputFocus::List => WheelTarget::Chrome,
        InputFocus::Editor | InputFocus::Find => if over.editor {
            WheelTarget::Editor
        } else {
            WheelTarget::Chrome
        },
    }
}

/// The focus that the surfaces on screen leave, given the current one.
///
/// A confirmation, the palette, a dropdown and the find bar are exclusive and
/// win in that order. The others rest: one of them stays while its own surface
/// does, and falls back to the editor once that is gone.
pub open spec fn derived_focus(
    current: InputFocus,
    prompt_open: bool,
    menu_open: bool,
    search_query_open: bool,
    find_open: bool,
    list_open: bool,
    terminal_visible: bool,
    command_palette_open: bool,
) -> InputFocus {
    if prompt_open {
        InputFocus::Prompt
    } else if command_palette_open {
        InputFocus::CommandPalette
    } else if menu_open {
        InputFocus::Menu
    } else if find_open {
        InputFocus::Find
    } else if current == InputFocus::SearchQuery && search_query_open {
        InputFocus::SearchQuery
    } else if current == InputFocus::List && list_open {
        InputFocus::List
    } else if current == InputFocus::Terminal && terminal_visible {
        InputFocus::Terminal
    } else {
        InputFocus::Editor
    }
}

/// Derives the next input focus from what is currently focused and which
/// surfaces are up.
pub fn derive_focus(
    current: InputFocus,
    prompt_open: bool,
    menu_open: bool,
    search_query_open: bool,
    find_open: bool,
    list_open: bool,
    terminal_visible: bool,
    command_palette_open: bool,
) -> (r: InputFocus)
    ensures
        r == derived_focus(
            current,
            prompt_open,
            menu_open,
            search_query_open,
            find_open,
            list_open,
            terminal_visible,
            command_palette_open,
        ),
{
    if prompt_open {
        InputFocus::Prompt
    } else if command_palette_open {
        InputFocus::CommandPalette
    } else if menu_open {
        InputFocus::Menu
    } else if find_open {
        InputFocus::Find
    } else if current == InputFocus::SearchQuery && search_query_open {
        InputFocus::SearchQuery
    } else if current == InputFocus::List && list_open {
        InputFocus::List
    } else if current == InputFocus::Terminal && terminal_visible {
        InputFocus::Terminal
    } else {
        InputFocus::Editor
    }
}

/// A panel being open is never enough to give it the keyboard: a resting focus
/// that comes out went in.
pub proof fn a_resting_focus_is_never_entered_by_deriving(
    current: InputFocus,
    prompt_open: bool,
    menu_open: bool,
    search_query_open: bool,
    find_open: bool,
    list_open: bool,
    terminal_visible: bool,
    command_palette_open: bool,
)
    ensures
        ({
            let next = derived_focus(
                current,
                prompt_open,
                menu_open,
                search_query_open,
                find_open,
                list_open,
                terminal_visible,
                command_palette_open,
            );
            next == InputFocus::SearchQuery || next == InputFocus::List || next
                == InputFocus::Terminal ==> next == current
        }),
{
}

/// An exclusive surface always wins over a resting focus.
pub proof fn exclusive_surfaces_win(
    current: InputFocus,
    prompt_open: bool,
    menu_open: bool,
    search_query_open: bool,
    find_open: bool,
    list_open: bool,
    terminal_visible: bool,
    command_palette_open: bool,
)
    requires
        prompt_open || menu_open || find_open || command_palette_open,
    ensures
        ({
            let next = derived_focus(
                current,
                prompt_open,
                menu_open,
                search_query_open,
                find_open,
                list_open,
                terminal_visible,
                command_palette_open,
            );
            &&& next != InputFocus::Editor
            &&& next != InputFocus::SearchQuery
            &&& next != InputFocus::List
            &&& next != InputFocus::Terminal
        }),
{
}

/// Deriving twice from the same surfaces changes nothing the second time: an
/// unrelated refresh cannot move the keyboard.
pub proof fn deriving_again_changes_nothing(
    current: InputFocus,
    prompt_open: bool,
    menu_open: bool,
    search_query_open: bool,
    find_open: bool,
    list_open: bool,
    terminal_visible: bool,
    command_palette_open: bool,
)
    ensures
        ({
            let once = derived_focus(
                current,
                prompt_open,
                menu_open,
                search_query_open,
                find_open,
                list_open,
                terminal_visible,
                command_palette_open,
            );
            derived_focus(
                once,
                prompt_open,
                menu_open,
                search_query_open,
                find_open,
                list_open,
                terminal_visible,
                command_palette_open,
            ) == once
        }),
{
}

/// Whatever has the keyboard, the wheel over the sidebar scrolls the sidebar,
/// and over the bottom panel the terminal.
pub proof fn docked_panels_scroll_under_any_focus(over: PointerOver, a: InputFocus, b: InputFocus)
    requires
        over.sidebar || over.bottom_panel,
    ensures
        wheel_goes(over, a) == wheel_goes(over, b),
{
}

/// The keyboard goes to the most pressing surface: to a confirmation before
/// the palette, to the palette before a dropdown, to a dropdown before the
/// find bar. With none of them up it stays in the field, the list or the
/// terminal it is in as long as that is shown, and is the editor's otherwise.
pub proof fn the_most_pressing_surface_has_the_keyboard(
    current: InputFocus,
    prompt: bool,
    menu: bool,
    query: bool,
    find: bool,
    list: bool,
    terminal: bool,
    palette: bool,
)
    ensures
        ({
            let next = derived_focus(current, prompt, menu, query, find, list, terminal, palette);
            let exclusive = prompt || palette || menu || find;
            &&& prompt ==> next == InputFocus::Prompt
            &&& palette && !prompt ==> next == InputFocus::CommandPalette
            &&& menu && !palette && !prompt ==> next == InputFocus::Menu
            &&& find && !menu && !palette && !prompt ==> next == InputFocus::Find
            &&& !exclusive && current == InputFocus::SearchQuery && query ==> next == current
            &&& !exclusive && current == InputFocus::List && list ==> next == current
            &&& !exclusive && current == InputFocus::Terminal && terminal ==> next == current
            &&& !exclusive && current == InputFocus::Editor ==> next == current
            &&& !exclusive && next != current ==> next == InputFocus::Editor
            &&& next == InputFocus::SearchQuery ==> query
            &&& next == InputFocus::List ==> list
            &&& next == InputFocus::Terminal ==> terminal
            &&& next == InputFocus::Prompt ==> prompt
            &&& next == InputFocus::CommandPalette ==> palette
            &&& next == InputFocus::Menu ==> menu
            &&& next == InputFocus::Find ==> find
        }),
{
}

} // verus!
