//! Menu bar.
//!
//! Every item is a command id and nothing else: the menu is a second way to
//! reach the command registry, never a second implementation of an action.
//! Where its rectangles lie is the window's business; what a click on one of
//! them means is decided here.

use crate::text::{count, least, left, listed, lists, owned, pad_left, repeat, repeated};
use vstd::prelude::*;

verus! {

/// One entry in a dropdown.
#[derive(Clone, Debug, PartialEq, Eq)]
pub struct MenuItem {
    pub label: &'static str,
    /// The registry command this runs. `None` marks a separator.
    pub command: Option<&'static str>,
    /// Shortcut text, shown right-aligned.
    pub shortcut: &'static str,
}

/// An entry that runs a command.
pub open spec fn entry(
    label: &'static str,
    command: &'static str,
    shortcut: &'static str,
) -> MenuItem {
    MenuItem { label, command: Some(command), shortcut }
}

impl MenuItem {
    /// An entry that runs a command.
    pub fn item(label: &'static str, command: &'static str, shortcut: &'static str) -> (r: Self)
        ensures
            r == entry(label, command, shortcut),
    {
        MenuItem { label, command: Some(command), shortcut }
    }

    /// Whether this entry is a line between others.
    pub fn is_separator(&self) -> (r: bool)
        ensures
            r == (self.command is None),
    {
        self.command.is_none()
    }
}

/// One top-level menu.
#[derive(Clone, Debug)]
pub struct Menu {
    pub title: &'static str,
    pub items: Vec<MenuItem>,
}

/// The File menu's entries.
pub open spec fn file_entries() -> Seq<MenuItem> {
    seq![
        entry("New", "file.new", "Ctrl+N"),
        entry("Open...", "file.open", "Ctrl+O"),
        entry("Open Folder", "file.open_folder", ""),
        entry("Save", "file.save", "Ctrl+S"),
        entry("Save As...", "file.save_as", "Ctrl+Shift+S"),
        entry("Exit", "app.quit", "Ctrl+Q"),
    ]
}

/// The Edit menu's entries.
pub open spec fn edit_entries() -> Seq<MenuItem> {
    seq![
        entry("Undo", "edit.undo", "Ctrl+Z"),
        entry("Redo", "edit.redo", "Ctrl+Y"),
        entry("Cut", "edit.cut", "Ctrl+X"),
        entry("Copy", "edit.copy", "Ctrl+C"),
        entry("Paste", "edit.paste", "Ctrl+V"),
        entry("Select All", "edit.select_all", "Ctrl+A"),
        entry("Delete", "edit.delete_forward", "Del"),
        entry("Find...", "edit.find", "Ctrl+F"),
        entry("Find Next", "edit.find_next", "F3"),
        entry("Find Previous", "edit.find_previous", "Shift+F3"),
    ]
}

/// The View menu's entries.
pub open spec fn view_entries() -> Seq<MenuItem> {
    seq![
        entry("Toggle Status Bar", "view.toggle_status_bar", ""),
        entry("Toggle Performance Overlay", "view.toggle_performance_overlay", "F12"),
        entry("Toggle Loading Panel", "view.toggle_dev_panel", "F9"),
        entry("Toggle Resource Center", "view.toggle_resource_center", "F10"),
        entry("Toggle File Tree", "view.toggle_file_tree", "Ctrl+Shift+E"),
        entry("Search in Files...", "view.workspace_search", "Ctrl+Shift+F"),
        entry("Toggle Git Status", "view.toggle_git_status", "Ctrl+Shift+G"),
        entry("Toggle Terminal", "view.toggle_terminal", "F11"),
    ]
}

/// The entries of a top-level menu, counted from the left.
pub open spec fn menu_entries(index: int) -> Seq<MenuItem> {
    if index == 0 {
        file_entries()
    } else if index == 1 {
        edit_entries()
    } else if index == 2 {
        view_entries()
    } else {
        Seq::empty()
    }
}

/// The title of a top-level menu, counted from the left.
pub open spec fn menu_title(index: int) -> Seq<char> {
    if index == 0 {
        "File"@
    } else if index == 1 {
        "Edit"@
    } else {
        "View"@
    }
}

/// How many top-level menus there are.
pub const MENU_COUNT: usize = 3;

/// Index of the File menu in [`menus`], named so the recent-files tail is
/// never appended to the wrong dropdown by a stray literal.
pub const FILE_MENU_INDEX: usize = 0;

/// The File menu's entries.
pub fn file_items() -> (r: Vec<MenuItem>)
    ensures
        r@ == file_entries(),
{
    vec![
        MenuItem::item("New", "file.new", "Ctrl+N"),
        MenuItem::item("Open...", "file.open", "Ctrl+O"),
        MenuItem::item("Open Folder", "file.open_folder", ""),
        MenuItem::item("Save", "file.save", "Ctrl+S"),
        MenuItem::item("Save As...", "file.save_as", "Ctrl+Shift+S"),
        MenuItem::item("Exit", "app.quit", "Ctrl+Q"),
    ]
}

/// The Edit menu's entries.
pub fn edit_items() -> (r: Vec<MenuItem>)
    ensures
        r@ == edit_entries(),
{
    vec![
        MenuItem::item("Undo", "edit.undo", "Ctrl+Z"),
        MenuItem::item("Redo", "edit.redo", "Ctrl+Y"),
        MenuItem::item("Cut", "edit.cut", "Ctrl+X"),
        MenuItem::item("Copy", "edit.copy", "Ctrl+C"),
        MenuItem::item("Paste", "edit.paste", "Ctrl+V"),
        MenuItem::item("Select All", "edit.select_all", "Ctrl+A"),
        MenuItem::item("Delete", "edit.delete_forward", "Del"),
        MenuItem::item("Find...", "edit.find", "Ctrl+F"),
        MenuItem::item("Find Next", "edit.find_next", "F3"),
        MenuItem::item("Find Previous", "edit.find_previous", "Shift+F3"),
    ]
}

/// The View menu's entries.
pub fn view_items() -> (r: Vec<MenuItem>)
    ensures
        r@ == view_entries(),
{
    vec![
        MenuItem::item("Toggle Status Bar", "view.toggle_status_bar", ""),
        MenuItem::item("Toggle Performance Overlay", "view.toggle_performance_overlay", "F12"),
        MenuItem::item("Toggle Loading Panel", "view.toggle_dev_panel", "F9"),
        MenuItem::item("Toggle Resource Center", "view.toggle_resource_center", "F10"),
        MenuItem::item("Toggle File Tree", "view.toggle_file_tree", "Ctrl+Shift+E"),
        MenuItem::item("Search in Files...", "view.workspace_search", "Ctrl+Shift+F"),
        MenuItem::item("Toggle Git Status", "view.toggle_git_status", "Ctrl+Shift+G"),
        MenuItem::item("Toggle Terminal", "view.toggle_terminal", "F11"),
    ]
}

/// The top-level menus, left to right.
pub fn menus() -> (r: Vec<Menu>)
    ensures
        r@.len() == MENU_COUNT,
        forall|i: int|
            0 <= i < r@.len() ==> (#[trigger] r@[i]).title@ == menu_title(i) && r@[i].items@
                == menu_entries(i),
{
    vec![
        Menu { title: "File", items: file_items() },
        Menu { title: "Edit", items: edit_items() },
        Menu { title: "View", items: view_items() },
    ]
}

/// The entries of one top-level menu, none past the last.
pub fn items_of(index: usize) -> (r: Vec<MenuItem>)
    ensures
        r@ == menu_entries(index as int),
{
    if index == 0 {
        file_items()
    } else if index == 1 {
        edit_items()
    } else if index == 2 {
        view_items()
    } else {
        Vec::new()
    }
}

/// One recently opened file, appended below File's own entries.
#[derive(Clone, Debug, PartialEq, Eq)]
pub struct RecentRow {
    pub label: String,
    pub path: String,
}

/// The label drawn for one recent-file row, padded to the column width like
/// every other dropdown row.
pub fn recent_item_text(row: &RecentRow, columns: usize) -> (r: String)
    ensures
        r@ == left(row.label@, columns as int),
{
    pad_left(row.label.as_str(), columns)
}

/// Which menu is open, if any.
#[derive(Copy, Clone, Debug, PartialEq, Eq)]
pub struct MenuState {
    pub open: Option<usize>,
    pub hovered_item: Option<usize>,
}

/// No menu open.
pub open spec fn closed_menu() -> MenuState {
    MenuState { open: None, hovered_item: None }
}

/// The state after a click on a title: that menu open, or closed if it was.
pub open spec fn toggled(state: MenuState, index: usize) -> MenuState {
    if state.open == Some(index) {
        closed_menu()
    } else {
        MenuState { open: Some(index), hovered_item: None }
    }
}

impl Default for MenuState {
    fn default() -> (r: Self)
        ensures
            r == closed_menu(),
    {
        MenuState { open: None, hovered_item: None }
    }
}

impl MenuState {
    /// Whether a dropdown is on screen.
    pub fn is_open(&self) -> (r: bool)
        ensures
            r == (self.open is Some),
    {
        self.open.is_some()
    }

    /// Closes whatever is open.
    pub fn close(&mut self)
        ensures
            *final(self) == closed_menu(),
    {
        self.open = None;
        self.hovered_item = None;
    }

    /// Clicking a title opens it, or closes it if it was already open.
    pub fn toggle(&mut self, index: usize)
        ensures
            *final(self) == toggled(*old(self), index),
    {
        match self.open {
            Some(open) if open == index => self.close(),
            _ => {
                self.open = Some(index);
                self.hovered_item = None;
            },
        }
    }
}

/// Padding around a title, in characters: a title is one cell of a monospace
/// row, and its rectangle is measured in the same characters as its label.
pub const TITLE_LEAD: usize = 2;

/// Padding after a title.
pub const TITLE_TRAIL: usize = 2;

/// The label drawn for a title.
pub open spec fn padded_title(title: Seq<char>) -> Seq<char> {
    repeat(' ', TITLE_LEAD as int) + title + repeat(' ', TITLE_TRAIL as int)
}

/// The label drawn for one title, padded so its width is a whole number of
/// character cells.
pub fn title_label(menu: &Menu) -> (r: String)
    ensures
        r@ == padded_title(menu.title@),
{
    let mut text = repeated(' ', TITLE_LEAD);
    text.push_str(menu.title);
    text.push_str(repeated(' ', TITLE_TRAIL).as_str());
    text
}

/// Characters in one title's cell, including its padding.
pub fn title_cell_chars(menu: &Menu) -> (n: usize)
    ensures
        n == padded_title(menu.title@).len(),
{
    count(title_label(menu).as_str())
}

/// What a click landed on. `T` is how a path is held.
#[derive(Clone, Debug, PartialEq, Eq)]
pub enum MenuHit<T> {
    /// A top-level title: open or close that menu.
    Title(usize),
    /// An item: run this command and close the menu.
    Command(&'static str),
    /// A recent-files row: open this path.
    OpenRecent(T),
    /// Inside the open dropdown but not on a command (a separator or padding).
    Swallowed,
    /// Nothing menu-related; the click belongs to whatever is underneath.
    Elsewhere,
}

/// A hit with its path as characters.
pub open spec fn hit_view(hit: MenuHit<String>) -> MenuHit<Seq<char>> {
    match hit {
        MenuHit::Title(index) => MenuHit::Title(index),
        MenuHit::Command(id) => MenuHit::Command(id),
        MenuHit::OpenRecent(path) => MenuHit::OpenRecent(path@),
        MenuHit::Swallowed => MenuHit::Swallowed,
        MenuHit::Elsewhere => MenuHit::Elsewhere,
    }
}

/// Which of the menu's rectangles a point lies in.
#[derive(Copy, Clone, Debug, PartialEq, Eq)]
pub struct MenuPoint {
    /// The title under the point.
    pub title: Option<usize>,
    /// Whether the point is inside the dropdown that is on screen.
    pub in_dropdown: bool,
    /// The dropdown row under the point.
    pub row: Option<usize>,
}

/// The recent files that follow a menu's own entries: only File has any.
pub open spec fn tail_of(index: int, recent: Seq<RecentRow>) -> Seq<RecentRow> {
    if index == FILE_MENU_INDEX {
        recent
    } else {
        Seq::empty()
    }
}

/// What a point on row `row` of an open dropdown means.
pub open spec fn row_hit(open: int, row: int, recent: Seq<RecentRow>) -> MenuHit<Seq<char>> {
    let items = menu_entries(open);
    let tail = tail_of(open, recent);
    if row < items.len() {
        match items[row].command {
            Some(command) => MenuHit::Command(command),
            None => MenuHit::Swallowed,
        }
    } else if row - items.len() < tail.len() {
        MenuHit::OpenRecent(tail[row - items.len()].path@)
    } else {
        MenuHit::Swallowed
    }
}

/// What a click means: a title always wins, then the dropdown's rows, and
/// anything else inside the dropdown is swallowed.
pub open spec fn menu_hit(
    at: MenuPoint,
    state: MenuState,
    recent: Seq<RecentRow>,
) -> MenuHit<Seq<char>> {
    match at.title {
        Some(index) => MenuHit::Title(index),
        None => if !at.in_dropdown {
            MenuHit::Elsewhere
        } else {
            match (state.open, at.row) {
                (Some(open), Some(row)) => row_hit(open as int, row as int, recent),
                _ => MenuHit::Swallowed,
            }
        },
    }
}

/// Resolves a click against the bar and any open dropdown.
pub fn hit(at: MenuPoint, state: MenuState, recent: &Vec<RecentRow>) -> (r: MenuHit<String>)
    ensures
        hit_view(r) == menu_hit(at, state, recent@),
{
    if let Some(index) = at.title {
        return MenuHit::Title(index);
    }
    if !at.in_dropdown {
        return MenuHit::Elsewhere;
    }
    match (state.open, at.row) {
        (Some(open), Some(row)) => {
            let items = items_of(open);
            if row < items.len() {
                match items[row].command {
                    Some(command) => MenuHit::Command(command),
                    None => MenuHit::Swallowed,
                }
            } else if open == FILE_MENU_INDEX && row - items.len() < recent.len() {
                MenuHit::OpenRecent(recent[row - items.len()].path.clone())
            } else {
                MenuHit::Swallowed
            }
        },
        _ => MenuHit::Swallowed,
    }
}

/// How many rows an open dropdown has.
pub fn row_count(open: usize, recent: &Vec<RecentRow>) -> (n: usize)
    ensures
        n == least(
            (menu_entries(open as int).len() + tail_of(open as int, recent@).len()) as int,
            usize::MAX as int,
        ),
{
    let own = items_of(open).len();
    if open == FILE_MENU_INDEX {
        if own <= usize::MAX - recent.len() {
            own + recent.len()
        } else {
            usize::MAX
        }
    } else {
        own
    }
}

/// One dropdown row: the label, then at least two spaces, then the shortcut
/// against the right edge.
pub open spec fn entry_text(item: MenuItem, columns: int) -> Seq<char> {
    if item.command is None {
        repeat('-', if columns < 40 { columns } else { 40 })
    } else {
        let gap = columns - item.label@.len() - item.shortcut@.len();
        item.label@ + repeat(' ', if gap < 2 { 2 } else { gap }) + item.shortcut@
    }
}

/// Renders one dropdown row, padded so shortcuts line up.
pub fn item_text(item: &MenuItem, columns: usize) -> (r: String)
    ensures
        r@ == entry_text(*item, columns as int),
{
    if item.is_separator() {
        return repeated('-', if columns < 40 { columns } else { 40 });
    }
    let label = count(item.label);
    let shortcut = count(item.shortcut);
    let room: usize = if columns > label { columns - label } else { 0 };
    let gap: usize = if room > shortcut && room - shortcut > 2 { room - shortcut } else { 2 };
    let mut out = owned(item.label);
    out.push_str(repeated(' ', gap).as_str());
    out.push_str(item.shortcut);
    out
}

/// An entry can run when the registry allows its command; a separator never.
pub open spec fn entry_enabled(enabled: Seq<String>, item: MenuItem) -> bool {
    item.command matches Some(command) && listed(enabled, command@)
}

/// Whether the registry currently allows this item, given the ids of the
/// commands that it allows.
pub fn is_enabled(enabled: &Vec<String>, item: &MenuItem) -> (r: bool)
    ensures
        r == entry_enabled(enabled@, *item),
{
    match item.command {
        Some(command) => lists(enabled, command),
        None => false,
    }
}

/// Clicking a title twice leaves every menu closed.
pub proof fn toggling_twice_closes(state: MenuState, index: usize)
    requires
        state.open != Some(index),
    ensures
        toggled(toggled(state, index), index) == closed_menu(),
{
}

/// A click never does anything outside the menu while it lies in the dropdown.
pub proof fn the_dropdown_keeps_its_clicks(at: MenuPoint, state: MenuState, recent: Seq<RecentRow>)
    requires
        at.in_dropdown,
    ensures
        menu_hit(at, state, recent) != MenuHit::<Seq<char>>::Elsewhere,
{
}

/// A row is exactly as wide as the dropdown wherever its two texts leave room
/// for the gap.
pub proof fn a_row_fills_its_columns(item: MenuItem, columns: int)
    requires
        item.command is Some,
        item.label@.len() + item.shortcut@.len() + 2 <= columns,
    ensures
        entry_text(item, columns).len() == columns,
{
}

/// A title opens its own menu, whichever was open, and closes it when it was the
/// one; a menu that was just opened has no row under the pointer.
pub proof fn a_title_opens_its_own_menu(state: MenuState, index: usize)
    ensures
        state.open != Some(index) ==> toggled(state, index).open == Some(index),
        state.open == Some(index) ==> toggled(state, index).open is None,
        toggled(state, index).hovered_item is None,
{
}

/// A click on a row runs the command of that row of the open menu; below the
/// rows of the File menu come the recent files, each opening itself, and below
/// those of the other menus nothing.
pub proof fn a_row_runs_its_own_command(
    open: usize,
    row: usize,
    hovered: Option<usize>,
    recent: Seq<RecentRow>,
)
    ensures
        ({
            let at = MenuPoint { title: None, in_dropdown: true, row: Some(row) };
            let state = MenuState { open: Some(open), hovered_item: hovered };
            let items = menu_entries(open as int);
            let hit = menu_hit(at, state, recent);
            &&& row < items.len() && items[row as int].command is Some ==> hit
                == MenuHit::<Seq<char>>::Command(items[row as int].command->0)
            &&& open == 0 && items.len() <= row < items.len() + recent.len() ==> hit
                == MenuHit::OpenRecent(recent[row - items.len()].path@)
            &&& open != 0 && row >= items.len() ==> hit == MenuHit::<Seq<char>>::Swallowed
            &&& row >= items.len() + recent.len() ==> hit == MenuHit::<Seq<char>>::Swallowed
        }),
{
}

/// A title takes its click whatever lies under it, and a click away from the
/// menus is none of theirs.
pub proof fn a_title_takes_its_click(
    at: MenuPoint,
    state: MenuState,
    recent: Seq<RecentRow>,
)
    ensures
        at.title matches Some(index) ==> menu_hit(at, state, recent) == MenuHit::<Seq<char>>::Title(
            index,
        ),
        at.title is None && !at.in_dropdown ==> menu_hit(at, state, recent) == MenuHit::<
            Seq<char>,
        >::Elsewhere,
        at.title is None && at.in_dropdown && at.row is None ==> menu_hit(at, state, recent)
            == MenuHit::<Seq<char>>::Swallowed,
{
}

/// A row shows its label on the left and its shortcut on the right, with at
/// least two spaces and nothing else between them; a separator is a line.
pub proof fn a_row_shows_its_label_and_its_shortcut(item: MenuItem, columns: int)
    requires
        columns >= 0,
    ensures
        ({
            let text = entry_text(item, columns);
            let from = item.label@.len() as int;
            let to = text.len() - item.shortcut@.len();
            &&& item.command is Some ==> {
                &&& text.take(from) == item.label@
                &&& text.skip(to) == item.shortcut@
                &&& to - from >= 2
                &&& forall|k: int| from <= k < to ==> #[trigger] text[k] == ' '
            }
            &&& item.command is None ==> forall|k: int|
                0 <= k < text.len() ==> #[trigger] text[k] == '-'
        }),
{
    let text = entry_text(item, columns);
    if item.command is Some {
        assert(text.take(item.label@.len() as int) =~= item.label@);
        assert(text.skip(text.len() - item.shortcut@.len()) =~= item.shortcut@);
    }
}

/// An entry can be chosen exactly when the registry allows its own command.
pub proof fn an_entry_is_enabled_by_its_command(enabled: Seq<String>, item: MenuItem)
    ensures
        entry_enabled(enabled, item) <==> exists|j: int|
            0 <= j < enabled.len() && item.command is Some && (#[trigger] enabled[j])@
                == item.command->0@,
{
}

/// Every entry of the menus has a label and runs a command.
pub proof fn every_entry_runs_a_command(menu: int, i: int)
    requires
        0 <= menu < 3,
        0 <= i < menu_entries(menu).len(),
    ensures
        menu_entries(menu)[i].command is Some,
        menu_entries(menu)[i].label@.len() > 0,
        menu_entries(0).len() == 6,
        menu_entries(1).len() == 10,
        menu_entries(2).len() == 8,
{
    reveal_strlit("New");
    reveal_strlit("Open...");
    reveal_strlit("Open Folder");
    reveal_strlit("Save");
    reveal_strlit("Save As...");
    reveal_strlit("Exit");
    reveal_strlit("Undo");
    reveal_strlit("Redo");
    reveal_strlit("Cut");
    reveal_strlit("Copy");
    reveal_strlit("Paste");
    reveal_strlit("Select All");
    reveal_strlit("Delete");
    reveal_strlit("Find...");
    reveal_strlit("Find Next");
    reveal_strlit("Find Previous");
    reveal_strlit("Toggle Status Bar");
    reveal_strlit("Toggle Performance Overlay");
    reveal_strlit("Toggle Loading Panel");
    reveal_strlit("Toggle Resource Center");
    reveal_strlit("Toggle File Tree");
    reveal_strlit("Search in Files...");
    reveal_strlit("Toggle Git Status");
    reveal_strlit("Toggle Terminal");
}

/// The menus stand in their order, each title with two blanks on either side.
pub proof fn the_titles_stand_in_their_order(title: Seq<char>)
    ensures
        menu_title(0) == "File"@,
        menu_title(1) == "Edit"@,
        menu_title(2) == "View"@,
        padded_title(title).len() == title.len() + 4,
        padded_title(title).subrange(2, 2 + title.len() as int) == title,
        padded_title(title)[0] == ' ',
        padded_title(title)[1] == ' ',
        padded_title(title)[title.len() as int + 2] == ' ',
        padded_title(title)[title.len() as int + 3] == ' ',
{
    assert(padded_title(title).subrange(2, 2 + title.len() as int) =~= title);
}

/// What a press hit is read as it stands.
pub proof fn a_hit_is_read_as_it_stands(index: usize, id: &'static str, path: String)
    ensures
        hit_view(MenuHit::Title(index)) == MenuHit::<Seq<char>>::Title(index),
        hit_view(MenuHit::Command(id)) == MenuHit::<Seq<char>>::Command(id),
        hit_view(MenuHit::OpenRecent(path)) == MenuHit::OpenRecent(path@),
        hit_view(MenuHit::Swallowed) == MenuHit::<Seq<char>>::Swallowed,
        hit_view(MenuHit::Elsewhere) == MenuHit::<Seq<char>>::Elsewhere,
{
}

} // verus!
