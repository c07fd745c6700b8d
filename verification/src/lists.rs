//! The docked sidebar: the file tree, workspace search, and git status.
//!
//! All three are a list of rows to pick from, so they share one mechanism and
//! differ only in how their rows are produced.  Rows are built afresh from
//! what is known each time; reading directories, running git and searching
//! files is the program's business.

use crate::icons::{
    chrome_glyph, file_glyph, file_icon, file_icon_color, icon_for_file, Glyph, Icon,
};
use crate::rich::{icon, Color};
use crate::text::{
    chars_of, decimal, decimal_of, equal, listed, lists, owned, string_of, trim, trimmed,
};
use vstd::prelude::*;

verus! {

/// Which navigable list is on screen.
#[derive(Copy, Clone, Debug, PartialEq, Eq, Structural)]
pub enum ListKind {
    FileTree,
    SearchResults,
    GitStatus,
}

/// What kind of thing a sidebar row shows; it is coloured by this.
#[derive(Copy, Clone, Debug, PartialEq, Eq, Structural)]
pub enum SidebarRowKind {
    Header,
    Directory,
    File,
    Info,
}

/// What a row in a navigable list does when chosen. `T` is how paths are held.
#[derive(Clone, Debug, PartialEq, Eq)]
pub enum ListAction<T> {
    OpenFile(T),
    /// Opens the file and moves the caret to this line, counted from 1.
    OpenFileAt(T, usize),
    /// Switches to a document that is already open.
    ActivateTab(u64),
    /// Expands this directory if it was collapsed, or collapses it.
    ToggleDirectory(T),
}

/// One row of a navigable list. A row without an action only informs. `T` is
/// how text is held.
#[derive(Clone, Debug, PartialEq, Eq)]
pub struct ListRow<T> {
    pub label: T,
    pub action: Option<ListAction<T>>,
    /// Nesting depth, in tree levels.
    pub depth: usize,
    /// The expand/collapse chevron, for rows that have children.
    pub chevron: Option<Icon>,
    pub icon: Option<Glyph>,
    /// A colour the icon brings along, in place of the row kind's.
    pub icon_color: Option<Color>,
    pub kind: SidebarRowKind,
}

/// An action with its path as characters.
pub open spec fn action_view(action: ListAction<String>) -> ListAction<Seq<char>> {
    match action {
        ListAction::OpenFile(path) => ListAction::OpenFile(path@),
        ListAction::OpenFileAt(path, line) => ListAction::OpenFileAt(path@, line),
        ListAction::ActivateTab(id) => ListAction::ActivateTab(id),
        ListAction::ToggleDirectory(path) => ListAction::ToggleDirectory(path@),
    }
}

/// A row with its texts as characters.
pub open spec fn row_view(row: ListRow<String>) -> ListRow<Seq<char>> {
    ListRow {
        label: row.label@,
        action: match row.action {
            Some(action) => Some(action_view(action)),
            None => None,
        },
        depth: row.depth,
        chevron: row.chevron,
        icon: row.icon,
        icon_color: row.icon_color,
        kind: row.kind,
    }
}

/// Rows with their texts as characters.
pub open spec fn row_views(rows: Seq<ListRow<String>>) -> Seq<ListRow<Seq<char>>> {
    Seq::new(rows.len(), |i: int| row_view(rows[i]))
}

/// A row with no icons and no action.
pub open spec fn message_row(label: Seq<char>) -> ListRow<Seq<char>> {
    ListRow {
        label,
        action: None,
        depth: 0,
        chevron: None,
        icon: None,
        icon_color: None,
        kind: SidebarRowKind::Info,
    }
}

/// A section's title row.
pub open spec fn section_row(label: Seq<char>) -> ListRow<Seq<char>> {
    ListRow {
        icon: Some(chrome_glyph(Icon::ChevronDown)),
        kind: SidebarRowKind::Header,
        ..message_row(label)
    }
}

/// A row for a file, with the icon and colour that `named` gets.
pub open spec fn file_row(
    label: Seq<char>,
    named: Seq<char>,
    action: Option<ListAction<Seq<char>>>,
    depth: usize,
    kind: SidebarRowKind,
) -> ListRow<Seq<char>> {
    ListRow {
        label,
        action,
        depth,
        chevron: None,
        icon: Some(file_glyph(file_icon(named))),
        icon_color: Some(file_icon_color(file_icon(named))),
        kind,
    }
}

impl ListRow<String> {
    /// A row with no icons and no action: a message.
    pub fn message(label: &str) -> (r: Self)
        ensures
            row_view(r) == message_row(label@),
    {
        ListRow {
            label: owned(label),
            action: None,
            depth: 0,
            chevron: None,
            icon: None,
            icon_color: None,
            kind: SidebarRowKind::Info,
        }
    }

    /// A section's title row.
    pub fn section(label: &str) -> (r: Self)
        ensures
            row_view(r) == section_row(label@),
    {
        ListRow {
            label: owned(label),
            action: None,
            depth: 0,
            chevron: None,
            icon: Some(Glyph::from(Icon::ChevronDown)),
            icon_color: None,
            kind: SidebarRowKind::Header,
        }
    }

    /// A row for a file, with the icon and colour that `named` gets.
    fn file(
        label: String,
        named: &str,
        action: Option<ListAction<String>>,
        depth: usize,
        kind: SidebarRowKind,
    ) -> (r: Self)
        ensures
            row_view(r) == file_row(
                label@,
                named@,
                match action {
                    Some(action) => Some(action_view(action)),
                    None => None,
                },
                depth,
                kind,
            ),
    {
        let icon = icon_for_file(named);
        ListRow {
            label,
            action,
            depth,
            chevron: None,
            icon: Some(Glyph::from(icon)),
            icon_color: Some(icon.color()),
            kind,
        }
    }
}

/// Appends a row.
fn push_row(rows: &mut Vec<ListRow<String>>, row: ListRow<String>)
    ensures
        row_views(final(rows)@) == row_views(old(rows)@).push(row_view(row)),
{
    rows.push(row);
    assert(row_views(rows@) =~= row_views(old(rows)@).push(row_view(row)));
}

// --- the file tree -----------------------------------------------------------

/// What is known of a directory's contents.
#[derive(Debug)]
pub enum Listing {
    /// It was not read: only expanded directories are.
    Unread,
    /// It could not be read, and why.
    Failed(String),
    /// Its entries, in the order they are shown.
    Entries(Vec<Entry>),
}

/// One entry of a directory.
#[derive(Debug)]
pub struct Entry {
    pub name: String,
    pub path: String,
    pub directory: bool,
    /// What a directory holds.
    pub children: Listing,
}

/// The paths of a list, as a set.
pub open spec fn path_set(paths: Seq<String>) -> Set<Seq<char>> {
    Set::new(|path: Seq<char>| listed(paths, path))
}

/// A directory expanded if it was collapsed, and collapsed if it was open.
pub open spec fn toggled_path(expanded: Set<Seq<char>>, path: Seq<char>) -> Set<Seq<char>> {
    if expanded.contains(path) {
        expanded.remove(path)
    } else {
        expanded.insert(path)
    }
}

/// Expands a directory if it was collapsed, or collapses it.
pub fn toggle_path(expanded: &mut Vec<String>, path: &str)
    ensures
        path_set(final(expanded)@) == toggled_path(path_set(old(expanded)@), path@),
{
    let ghost before = expanded@;
    if lists(expanded, path) {
        let mut kept: Vec<String> = Vec::new();
        for i in 0..expanded.len()
            invariant
                expanded@ == before,
                forall|k: int|
                    0 <= k < kept@.len() ==> (#[trigger] kept@[k])@ != path@ && listed(
                        before,
                        kept@[k]@,
                    ),
                forall|j: int|
                    0 <= j < i && (#[trigger] before[j])@ != path@ ==> listed(kept@, before[j]@),
        {
            let ghost was = kept@;
            if !equal(expanded[i].as_str(), path) {
                kept.push(expanded[i].clone());
                assert(kept@[kept@.len() - 1]@ == before[i as int]@);
                assert forall|j: int| 0 <= j < i && (#[trigger] before[j])@ != path@ implies listed(
                    kept@,
                    before[j]@,
                ) by {
                    let k = choose|k: int| 0 <= k < was.len() && (#[trigger] was[k])@ == before[j]@;
                    assert(kept@[k] == was[k]);
                }
            }
        }
        *expanded = kept;
        assert(path_set(expanded@) =~= path_set(before).remove(path@));
    } else {
        expanded.push(owned(path));
        assert(expanded@[before.len() as int]@ == path@);
        assert forall|p: Seq<char>| listed(before, p) implies listed(expanded@, p) by {
            let k = choose|k: int| 0 <= k < before.len() && (#[trigger] before[k])@ == p;
            assert(expanded@[k] == before[k]);
        }
        assert(path_set(expanded@) =~= path_set(before).insert(path@));
    }
}

/// Expanding and collapsing a directory undo each other.
pub proof fn toggling_a_directory_twice_changes_nothing(expanded: Set<Seq<char>>, path: Seq<char>)
    ensures
        toggled_path(toggled_path(expanded, path), path) == expanded,
{
    assert(toggled_path(toggled_path(expanded, path), path) =~= expanded);
}

/// One level further down.
pub open spec fn deeper(depth: usize) -> usize {
    if depth < usize::MAX {
        (depth + 1) as usize
    } else {
        depth
    }
}

/// The row of a directory.
pub open spec fn directory_row(
    name: Seq<char>,
    path: Seq<char>,
    expanded: bool,
    depth: usize,
) -> ListRow<Seq<char>> {
    ListRow {
        label: name,
        action: Some(ListAction::ToggleDirectory(path)),
        depth,
        chevron: Some(
            if expanded {
                Icon::ChevronDown
            } else {
                Icon::ChevronRight
            },
        ),
        icon: Some(
            chrome_glyph(
                if expanded {
                    Icon::FolderOpened
                } else {
                    Icon::Folder
                },
            ),
        ),
        icon_color: None,
        kind: SidebarRowKind::Directory,
    }
}

/// The rows of a directory's contents, and of the directories in it that are
/// expanded.
pub open spec fn tree_rows(listing: Listing, expanded: Set<Seq<char>>, depth: usize) -> Seq<
    ListRow<Seq<char>>,
>
    decreases listing, 0int,
{
    match listing {
        Listing::Unread => Seq::empty(),
        Listing::Failed(error) => seq![ListRow { depth, ..message_row(error@) }],
        Listing::Entries(entries) => entries_rows(
            entries@,
            entries@.len() as int,
            expanded,
            depth,
        ),
    }
}

/// The rows of the first `n` entries of a directory.
pub open spec fn entries_rows(
    entries: Seq<Entry>,
    n: int,
    expanded: Set<Seq<char>>,
    depth: usize,
) -> Seq<ListRow<Seq<char>>>
    decreases entries, n,
{
    if n <= 0 || n > entries.len() {
        Seq::empty()
    } else {
        let entry = entries[n - 1];
        let before = entries_rows(entries, n - 1, expanded, depth);
        if entry.directory {
            let open = expanded.contains(entry.path@);
            let row = directory_row(entry.name@, entry.path@, open, depth);
            if open {
                before.push(row) + tree_rows(entry.children, expanded, deeper(depth))
            } else {
                before.push(row)
            }
        } else {
            before.push(
                file_row(
                    entry.name@,
                    entry.name@,
                    Some(ListAction::OpenFile(entry.path@)),
                    depth,
                    SidebarRowKind::File,
                ),
            )
        }
    }
}

/// Appends one directory's visible rows to a file tree, descending into
/// whichever children are in `expanded`.
pub fn append_tree_level(
    listing: &Listing,
    expanded: &Vec<String>,
    depth: usize,
    rows: &mut Vec<ListRow<String>>,
)
    ensures
        row_views(final(rows)@) == row_views(old(rows)@) + tree_rows(*listing, path_set(expanded@), depth),
    decreases listing,
{
    match listing {
        Listing::Unread => {
            assert(row_views(rows@) =~= row_views(old(rows)@) + tree_rows(
                *listing,
                path_set(expanded@),
                depth,
            ));
        },
        Listing::Failed(error) => {
            let mut row = ListRow::message(error.as_str());
            row.depth = depth;
            push_row(rows, row);
            assert(row_views(rows@) =~= row_views(old(rows)@) + tree_rows(
                *listing,
                path_set(expanded@),
                depth,
            ));
        },
        Listing::Entries(entries) => {
            assert(row_views(rows@) =~= row_views(old(rows)@) + entries_rows(
                entries@,
                0,
                path_set(expanded@),
                depth,
            ));
            for i in 0..entries.len()
                invariant
                    listing matches Listing::Entries(inner) && inner == entries,
                    row_views(rows@) == row_views(old(rows)@) + entries_rows(
                        entries@,
                        i as int,
                        path_set(expanded@),
                        depth,
                    ),
            {
                let entry = &entries[i];
                let ghost before = row_views(rows@);
                if entry.directory {
                    let open = lists(expanded, entry.path.as_str());
                    push_row(
                        rows,
                        ListRow {
                            label: entry.name.clone(),
                            action: Some(ListAction::ToggleDirectory(entry.path.clone())),
                            depth,
                            chevron: Some(
                                if open {
                                    Icon::ChevronDown
                                } else {
                                    Icon::ChevronRight
                                },
                            ),
                            icon: Some(
                                Glyph::from(
                                    if open {
                                        Icon::FolderOpened
                                    } else {
                                        Icon::Folder
                                    },
                                ),
                            ),
                            icon_color: None,
                            kind: SidebarRowKind::Directory,
                        },
                    );
                    if open {
                        let below: usize = if depth < usize::MAX { depth + 1 } else { depth };
                        append_tree_level(&entry.children, expanded, below, rows);
                    }
                } else {
                    push_row(
                        rows,
                        ListRow::file(
                            entry.name.clone(),
                            entry.name.as_str(),
                            Some(ListAction::OpenFile(entry.path.clone())),
                            depth,
                            SidebarRowKind::File,
                        ),
                    );
                }
                assert(row_views(rows@) =~= row_views(old(rows)@) + entries_rows(
                    entries@,
                    i + 1,
                    path_set(expanded@),
                    depth,
                ));
            }
        },
    }
}

/// A collapsed directory is one row, whatever it holds: what is inside it is
/// never looked at.
pub proof fn a_collapsed_directory_is_one_row(
    name: String,
    path: String,
    inside: Listing,
    expanded: Set<Seq<char>>,
    depth: usize,
)
    requires
        !expanded.contains(path@),
    ensures
        entries_rows(
            seq![Entry { name, path, directory: true, children: inside }],
            1,
            expanded,
            depth,
        ) == seq![directory_row(name@, path@, false, depth)],
{
    let entries = seq![Entry { name, path, directory: true, children: inside }];
    assert(entries_rows(entries, 0, expanded, depth) =~= Seq::empty());
    assert(entries_rows(entries, 1, expanded, depth) =~= seq![
        directory_row(name@, path@, false, depth),
    ]);
}

/// An expanded directory is followed by its contents, one level deeper.
pub proof fn an_expanded_directory_is_followed_by_its_contents(
    name: String,
    path: String,
    inside: Listing,
    expanded: Set<Seq<char>>,
    depth: usize,
)
    requires
        expanded.contains(path@),
    ensures
        entries_rows(
            seq![Entry { name, path, directory: true, children: inside }],
            1,
            expanded,
            depth,
        ) == seq![directory_row(name@, path@, true, depth)] + tree_rows(
            inside,
            expanded,
            deeper(depth),
        ),
{
    let entries = seq![Entry { name, path, directory: true, children: inside }];
    assert(entries_rows(entries, 0, expanded, depth) =~= Seq::empty());
    assert(entries[0].children == inside);
    assert(entries_rows(entries, 1, expanded, depth) =~= seq![
        directory_row(name@, path@, true, depth),
    ] + tree_rows(inside, expanded, deeper(depth)));
}

// --- what the lists are made from --------------------------------------------

/// An open document, as its tab shows it.
#[derive(Clone, Debug, PartialEq, Eq)]
pub struct Tab {
    pub id: u64,
    pub title: String,
    pub active: bool,
    pub dirty: bool,
    pub loading: bool,
}

/// A file that git reports as changed.
#[derive(Clone, Debug, PartialEq, Eq)]
pub struct GitFile {
    /// Path relative to the workspace, as it is shown.
    pub path: String,
    /// The path to open, when a workspace is open.
    pub full_path: Option<String>,
    pub staged: bool,
}

/// What git says of the workspace.
#[derive(Clone, Debug, PartialEq, Eq)]
pub struct GitStatus {
    pub branch: Option<String>,
    pub clean: bool,
    pub files: Vec<GitFile>,
}

/// One place where a search found its query.
#[derive(Clone, Debug, PartialEq, Eq)]
pub struct SearchHit {
    /// The file's own name.
    pub name: String,
    pub path: String,
    /// Line, counted from 1.
    pub line_number: usize,
    /// The line itself.
    pub preview: String,
}

/// A search that completed.
#[derive(Clone, Debug, PartialEq, Eq)]
pub struct SearchResult {
    pub query: String,
    pub hits: Vec<SearchHit>,
    /// Whether there were more hits than are held.
    pub truncated: bool,
}

/// Everything the lists are made from.
#[derive(Debug)]
pub struct ListFacts {
    pub tabs: Vec<Tab>,
    /// The root directory of the tree, once a folder is open.
    pub tree: Option<Listing>,
    pub git: Option<GitStatus>,
    pub git_pending: bool,
    pub search: Option<SearchResult>,
    pub search_pending: bool,
}

/// Whether a result is for what is typed: anything is, once the field is gone.
pub open spec fn is_current(result_query: Seq<char>, typed: Option<Seq<char>>) -> bool {
    match typed {
        Some(query) => result_query == query,
        None => true,
    }
}

/// Whether a workspace-search result that has landed is for the query in the
/// search field right now.
pub fn search_result_is_current(result_query: &str, typed: Option<&str>) -> (r: bool)
    ensures
        r == is_current(
            result_query@,
            match typed {
                Some(query) => Some(query@),
                None => None,
            },
        ),
{
    match typed {
        Some(query) => equal(result_query, query),
        None => true,
    }
}

/// The completed search, when it is for what is typed.
pub open spec fn matching_result(facts: ListFacts, typed: Option<Seq<char>>) -> Option<
    SearchResult,
> {
    match facts.search {
        Some(result) => if is_current(result.query@, typed) {
            Some(result)
        } else {
            None
        },
        None => None,
    }
}

/// What is typed, as characters.
pub open spec fn typed_view(typed: Option<Vec<char>>) -> Option<Seq<char>> {
    match typed {
        Some(query) => Some(query@),
        None => None,
    }
}

/// The completed search, but only if it is for the query in the field.
pub fn matching_search_result<'a>(facts: &'a ListFacts, typed: &Option<Vec<char>>) -> (r: Option<
    &'a SearchResult,
>)
    ensures
        match r {
            Some(result) => matching_result(*facts, typed_view(*typed)) == Some(*result),
            None => matching_result(*facts, typed_view(*typed)) is None,
        },
{
    match &facts.search {
        Some(result) => {
            let current = match typed {
                Some(query) => search_result_is_current(
                    result.query.as_str(),
                    Some(string_of(query).as_str()),
                ),
                None => search_result_is_current(result.query.as_str(), None),
            };
            if current {
                Some(result)
            } else {
                None
            }
        },
        None => None,
    }
}

// --- the rows of each list ---------------------------------------------------

/// The row of an open document.
pub open spec fn tab_row(tab: Tab) -> ListRow<Seq<char>> {
    file_row(
        tab.title@,
        tab.title@,
        Some(ListAction::ActivateTab(tab.id)),
        1,
        if tab.active {
            SidebarRowKind::Directory
        } else {
            SidebarRowKind::File
        },
    )
}

/// The explorer: the documents that are open, then the workspace tree.
pub open spec fn explorer_rows(facts: ListFacts, expanded: Set<Seq<char>>) -> Seq<
    ListRow<Seq<char>>,
> {
    let open = seq![section_row("OPEN EDITORS"@)] + Seq::new(
        facts.tabs@.len(),
        |i: int| tab_row(facts.tabs@[i]),
    ).push(section_row("FILE EXPLORER"@));
    match facts.tree {
        Some(listing) => {
            let tree = tree_rows(listing, expanded, 0);
            if tree.len() == 0 {
                open.push(message_row("(empty)"@))
            } else {
                open + tree
            }
        },
        None => open.push(message_row("No folder opened"@)),
    }
}

/// The row of a changed file.
pub open spec fn git_row(file: GitFile) -> ListRow<Seq<char>> {
    file_row(
        if file.staged {
            file.path@ + "  (staged)"@
        } else {
            file.path@
        },
        file.path@,
        match file.full_path {
            Some(path) => Some(ListAction::OpenFile(path@)),
            None => None,
        },
        0,
        SidebarRowKind::File,
    )
}

/// What git says, as rows.
pub open spec fn git_rows(facts: ListFacts) -> Seq<ListRow<Seq<char>>> {
    match facts.git {
        Some(status) => if status.clean {
            seq![message_row("Working tree clean"@)]
        } else {
            Seq::new(status.files@.len(), |i: int| git_row(status.files@[i]))
        },
        None => if facts.git_pending {
            seq![message_row("Checking git status..."@)]
        } else {
            seq![message_row("Not a git repository, or git is not installed"@)]
        },
    }
}

/// The row of a search hit.
pub open spec fn hit_row(hit: SearchHit) -> ListRow<Seq<char>> {
    file_row(
        hit.name@ + ":"@ + decimal(hit.line_number as nat) + "  "@ + trim(hit.preview@),
        hit.name@,
        Some(ListAction::OpenFileAt(hit.path@, hit.line_number)),
        0,
        SidebarRowKind::File,
    )
}

/// The search results for what is typed, as rows. `waiting` says whether the
/// search waits for typing to pause.
pub open spec fn search_rows(facts: ListFacts, typed: Option<Seq<char>>, waiting: bool) -> Seq<
    ListRow<Seq<char>>,
> {
    if typed is Some && trim(typed->0).len() == 0 {
        Seq::empty()
    } else {
        match matching_result(facts, typed) {
            Some(result) => if result.hits@.len() == 0 {
                seq![message_row("No matches for \""@ + result.query@ + "\""@)]
            } else {
                let hits = Seq::new(result.hits@.len(), |i: int| hit_row(result.hits@[i]));
                if result.truncated {
                    hits.push(message_row("... more results exist; narrow the query"@))
                } else {
                    hits
                }
            },
            None => if facts.search_pending || waiting {
                seq![message_row("Searching..."@)]
            } else {
                Seq::empty()
            },
        }
    }
}

/// The rows of whichever list is shown.
pub open spec fn rows_of(
    active: Option<ListKind>,
    facts: ListFacts,
    expanded: Set<Seq<char>>,
    typed: Option<Seq<char>>,
    waiting: bool,
) -> Seq<ListRow<Seq<char>>> {
    match active {
        None => Seq::empty(),
        Some(ListKind::FileTree) => explorer_rows(facts, expanded),
        Some(ListKind::GitStatus) => git_rows(facts),
        Some(ListKind::SearchResults) => search_rows(facts, typed, waiting),
    }
}

fn build_explorer(facts: &ListFacts, expanded: &Vec<String>) -> (r: Vec<ListRow<String>>)
    ensures
        row_views(r@) == explorer_rows(*facts, path_set(expanded@)),
{
    let mut rows: Vec<ListRow<String>> = Vec::new();
    assert(row_views(rows@) =~= Seq::empty());
    push_row(&mut rows, ListRow::section("OPEN EDITORS"));
    let ghost title = seq![section_row("OPEN EDITORS"@)];
    let ghost tabs = Seq::new(facts.tabs@.len(), |i: int| tab_row(facts.tabs@[i]));
    assert(row_views(rows@) =~= title + tabs.take(0));
    for i in 0..facts.tabs.len()
        invariant
            tabs == Seq::new(facts.tabs@.len(), |k: int| tab_row(facts.tabs@[k])),
            row_views(rows@) == title + tabs.take(i as int),
    {
        let tab = &facts.tabs[i];
        let ghost before = row_views(rows@);
        push_row(
            &mut rows,
            ListRow::file(
                tab.title.clone(),
                tab.title.as_str(),
                Some(ListAction::ActivateTab(tab.id)),
                1,
                if tab.active {
                    SidebarRowKind::Directory
                } else {
                    SidebarRowKind::File
                },
            ),
        );
        assert(row_views(rows@) =~= title + tabs.take(i + 1));
    }
    assert(tabs.take(facts.tabs.len() as int) =~= tabs);
    push_row(&mut rows, ListRow::section("FILE EXPLORER"));
    let ghost open = title + tabs.push(section_row("FILE EXPLORER"@));
    assert(row_views(rows@) =~= open);
    match &facts.tree {
        Some(listing) => {
            let before = rows.len();
            append_tree_level(listing, expanded, 0, &mut rows);
            assert(row_views(rows@).len() == rows@.len());
            assert(open.len() == before);
            if rows.len() == before {
                assert(tree_rows(*listing, path_set(expanded@), 0).len() == 0);
                assert(row_views(rows@) =~= open);
                push_row(&mut rows, ListRow::message("(empty)"));
            }
        },
        None => {
            push_row(&mut rows, ListRow::message("No folder opened"));
        },
    }
    rows
}

fn build_git(facts: &ListFacts) -> (r: Vec<ListRow<String>>)
    ensures
        row_views(r@) == git_rows(*facts),
{
    let mut rows: Vec<ListRow<String>> = Vec::new();
    assert(row_views(rows@) =~= Seq::empty());
    match &facts.git {
        Some(status) => {
            if status.clean {
                push_row(&mut rows, ListRow::message("Working tree clean"));
                assert(row_views(rows@) =~= git_rows(*facts));
            } else {
                let ghost all = Seq::new(
                    status.files@.len(),
                    |i: int| git_row(status.files@[i]),
                );
                assert(row_views(rows@) =~= all.take(0));
                for i in 0..status.files.len()
                    invariant
                        all == Seq::new(
                            status.files@.len(),
                            |k: int| git_row(status.files@[k]),
                        ),
                        row_views(rows@) == all.take(i as int),
                {
                    let file = &status.files[i];
                    let mut label = file.path.clone();
                    if file.staged {
                        label.push_str("  (staged)");
                    }
                    let action = match &file.full_path {
                        Some(path) => Some(ListAction::OpenFile(path.clone())),
                        None => None,
                    };
                    push_row(
                        &mut rows,
                        ListRow::file(label, file.path.as_str(), action, 0, SidebarRowKind::File),
                    );
                    assert(all[i as int] == git_row(*file));
                    assert(row_views(rows@) =~= all.take(i + 1));
                }
                assert(all.take(status.files.len() as int) =~= all);
            }
        },
        None => {
            if facts.git_pending {
                push_row(&mut rows, ListRow::message("Checking git status..."));
            } else {
                push_row(
                    &mut rows,
                    ListRow::message("Not a git repository, or git is not installed"),
                );
            }
            assert(row_views(rows@) =~= git_rows(*facts));
        },
    }
    rows
}

fn build_search(facts: &ListFacts, typed: &Option<Vec<char>>, waiting: bool) -> (r: Vec<
    ListRow<String>,
>)
    ensures
        row_views(r@) == search_rows(*facts, typed_view(*typed), waiting),
{
    let mut rows: Vec<ListRow<String>> = Vec::new();
    assert(row_views(rows@) =~= Seq::empty());
    if let Some(query) = typed {
        if trimmed(query).len() == 0 {
            return rows;
        }
    }
    match matching_search_result(facts, typed) {
        Some(result) => {
            if result.hits.len() == 0 {
                let mut text = owned("No matches for \"");
                text.push_str(result.query.as_str());
                text.push_str("\"");
                push_row(&mut rows, ListRow::message(text.as_str()));
                assert(row_views(rows@) =~= search_rows(*facts, typed_view(*typed), waiting));
                return rows;
            }
            let ghost all = Seq::new(result.hits@.len(), |i: int| hit_row(result.hits@[i]));
            assert(row_views(rows@) =~= all.take(0));
            for i in 0..result.hits.len()
                invariant
                    all == Seq::new(result.hits@.len(), |k: int| hit_row(result.hits@[k])),
                    row_views(rows@) == all.take(i as int),
            {
                let hit = &result.hits[i];
                let mut label = hit.name.clone();
                label.push_str(":");
                label.push_str(decimal_of(hit.line_number as u64).as_str());
                label.push_str("  ");
                label.push_str(string_of(&trimmed(&chars_of(hit.preview.as_str()))).as_str());
                push_row(
                    &mut rows,
                    ListRow::file(
                        label,
                        hit.name.as_str(),
                        Some(ListAction::OpenFileAt(hit.path.clone(), hit.line_number)),
                        0,
                        SidebarRowKind::File,
                    ),
                );
                assert(all[i as int] == hit_row(*hit));
                assert(row_views(rows@) =~= all.take(i + 1));
            }
            assert(all.take(result.hits.len() as int) =~= all);
            if result.truncated {
                push_row(
                    &mut rows,
                    ListRow::message("... more results exist; narrow the query"),
                );
            }
            rows
        },
        None => {
            if facts.search_pending || waiting {
                push_row(&mut rows, ListRow::message("Searching..."));
                assert(row_views(rows@) =~= search_rows(*facts, typed_view(*typed), waiting));
            }
            rows
        },
    }
}

/// Builds the rows for whichever list is currently shown, fresh every call.
/// `waiting` says whether a search waits for typing to pause.
pub fn list_rows(
    active: Option<ListKind>,
    facts: &ListFacts,
    expanded: &Vec<String>,
    typed: &Option<Vec<char>>,
    waiting: bool,
) -> (r: Vec<ListRow<String>>)
    ensures
        row_views(r@) == rows_of(
            active,
            *facts,
            path_set(expanded@),
            typed_view(*typed),
            waiting,
        ),
{
    match active {
        None => {
            let rows: Vec<ListRow<String>> = Vec::new();
            assert(row_views(rows@) =~= Seq::empty());
            rows
        },
        Some(ListKind::FileTree) => build_explorer(facts, expanded),
        Some(ListKind::GitStatus) => build_git(facts),
        Some(ListKind::SearchResults) => build_search(facts, typed, waiting),
    }
}

/// Results are never shown for a query that has since been typed past: no row
/// comes from a search for anything but what is in the field.
pub proof fn stale_results_are_not_shown(facts: ListFacts, typed: Seq<char>, waiting: bool)
    requires
        facts.search matches Some(result) && result.query@ != typed,
    ensures
        search_rows(facts, Some(typed), waiting) == (if trim(typed).len() > 0 && (
        facts.search_pending || waiting) {
            seq![message_row("Searching..."@)]
        } else {
            Seq::empty()
        }),
{
}

// --- what the rows say -------------------------------------------------------

/// Every hit of a search has its row, in the order it was found: the row names
/// the file and the line, shows the line without the white space around it, and
/// opens that file at that line. When there were more hits than are held, one
/// more row says so.
pub proof fn every_hit_has_its_row(
    facts: ListFacts,
    result: SearchResult,
    expanded: Set<Seq<char>>,
    typed: Option<Seq<char>>,
    waiting: bool,
    rows: Seq<ListRow<String>>,
)
    requires
        facts.search == Some(result),
        typed matches Some(query) ==> trim(query).len() > 0 && query == result.query@,
        row_views(rows) == rows_of(
            Some(ListKind::SearchResults),
            facts,
            expanded,
            typed,
            waiting,
        ),
    ensures
        result.hits@.len() > 0 ==> rows.len() == result.hits@.len() + (if result.truncated {
            1int
        } else {
            0
        }),
        forall|i: int|
            0 <= i < result.hits@.len() ==> {
                let row = #[trigger] rows[i];
                let hit = result.hits@[i];
                &&& row.action matches Some(ListAction::OpenFileAt(path, line)) && path@
                    == hit.path@ && line == hit.line_number
                &&& row.label@ == hit.name@ + ":"@ + decimal(hit.line_number as nat) + "  "@
                    + trim(hit.preview@)
                &&& row.kind == SidebarRowKind::File
            },
        result.hits@.len() > 0 && result.truncated ==> rows.last().action is None
            && rows.last().label@ == "... more results exist; narrow the query"@,
        result.hits@.len() == 0 ==> rows.len() == 1 && rows[0].action is None && rows[0].label@
            == "No matches for \""@ + result.query@ + "\""@,
{
    let views = row_views(rows);
    assert(views.len() == rows.len());
    assert forall|i: int| 0 <= i < result.hits@.len() implies {
        let row = #[trigger] rows[i];
        let hit = result.hits@[i];
        &&& row.action matches Some(ListAction::OpenFileAt(path, line)) && path@ == hit.path@
            && line == hit.line_number
        &&& row.label@ == hit.name@ + ":"@ + decimal(hit.line_number as nat) + "  "@ + trim(
            hit.preview@,
        )
        &&& row.kind == SidebarRowKind::File
    } by {
        assert(views[i] == row_view(rows[i]));
        assert(views[i] == hit_row(result.hits@[i]));
    }
    if result.hits@.len() > 0 && result.truncated {
        assert(views[rows.len() - 1] == row_view(rows.last()));
    }
    if result.hits@.len() == 0 {
        assert(views[0] == row_view(rows[0]));
    }
}

/// A query of nothing but white space finds nothing, whatever was found before.
pub proof fn an_empty_query_shows_nothing(facts: ListFacts, typed: Seq<char>, waiting: bool)
    requires
        trim(typed).len() == 0,
    ensures
        search_rows(facts, Some(typed), waiting).len() == 0,
{
}

/// Every file that git reports has its row, in git's order, and the row opens
/// it; a clean tree says so.
pub proof fn every_changed_file_has_its_row(
    facts: ListFacts,
    status: GitStatus,
    expanded: Set<Seq<char>>,
    typed: Option<Seq<char>>,
    waiting: bool,
    rows: Seq<ListRow<String>>,
)
    requires
        facts.git == Some(status),
        row_views(rows) == rows_of(Some(ListKind::GitStatus), facts, expanded, typed, waiting),
    ensures
        !status.clean ==> rows.len() == status.files@.len(),
        !status.clean ==> forall|i: int|
            0 <= i < status.files@.len() ==> {
                let row = #[trigger] rows[i];
                let file = status.files@[i];
                &&& row.label@ == (if file.staged {
                    file.path@ + "  (staged)"@
                } else {
                    file.path@
                })
                &&& match file.full_path {
                    Some(full) => row.action matches Some(ListAction::OpenFile(path)) && path@
                        == full@,
                    None => row.action is None,
                }
            },
        status.clean ==> rows.len() == 1 && rows[0].label@ == "Working tree clean"@
            && rows[0].action is None,
{
    let views = row_views(rows);
    assert(views.len() == rows.len());
    assert forall|i: int| !status.clean && 0 <= i < status.files@.len() implies {
        let row = #[trigger] rows[i];
        let file = status.files@[i];
        &&& row.label@ == (if file.staged {
            file.path@ + "  (staged)"@
        } else {
            file.path@
        })
        &&& match file.full_path {
            Some(full) => row.action matches Some(ListAction::OpenFile(path)) && path@ == full@,
            None => row.action is None,
        }
    } by {
        assert(views[i] == row_view(rows[i]));
        assert(views[i] == git_row(status.files@[i]));
    }
    if status.clean {
        assert(views[0] == row_view(rows[0]));
    }
}

/// The explorer lists every open document under its heading, in the order of
/// the tabs, each row showing its document when chosen; below them, under a
/// heading of its own, comes the tree.
pub proof fn the_explorer_lists_documents_and_files(
    facts: ListFacts,
    expanded: Set<Seq<char>>,
    typed: Option<Seq<char>>,
    waiting: bool,
    rows: Seq<ListRow<String>>,
)
    requires
        row_views(rows) == rows_of(Some(ListKind::FileTree), facts, expanded, typed, waiting),
    ensures
        ({
            let n = facts.tabs@.len() as int;
            &&& rows.len() > n + 2
            &&& rows[0].label@ == "OPEN EDITORS"@ && rows[0].action is None
            &&& rows[n + 1].label@ == "FILE EXPLORER"@ && rows[n + 1].action is None
            &&& forall|i: int|
                1 <= i <= n ==> {
                    let row = #[trigger] rows[i];
                    let tab = facts.tabs@[i - 1];
                    &&& row.action matches Some(ListAction::ActivateTab(id)) && id == tab.id
                    &&& row.label@ == tab.title@
                    &&& row.depth == 1
                    &&& row.kind == SidebarRowKind::Directory <==> tab.active
                }
            &&& match facts.tree {
                Some(listing) => {
                    let tree = tree_rows(listing, expanded, 0);
                    if tree.len() == 0 {
                        rows.len() == n + 3 && rows[n + 2].label@ == "(empty)"@
                    } else {
                        row_views(rows).skip(n + 2) == tree
                    }
                },
                None => rows.len() == n + 3 && rows[n + 2].label@ == "No folder opened"@,
            }
        }),
{
    let views = row_views(rows);
    let n = facts.tabs@.len() as int;
    assert(views.len() == rows.len());
    assert(views[0] == row_view(rows[0]));
    assert(views[n + 1] == row_view(rows[n + 1]));
    assert forall|i: int| 1 <= i <= n implies {
        let row = #[trigger] rows[i];
        let tab = facts.tabs@[i - 1];
        &&& row.action matches Some(ListAction::ActivateTab(id)) && id == tab.id
        &&& row.label@ == tab.title@
        &&& row.depth == 1
        &&& row.kind == SidebarRowKind::Directory <==> tab.active
    } by {
        assert(views[i] == row_view(rows[i]));
        assert(views[i] == tab_row(facts.tabs@[i - 1]));
    }
    match facts.tree {
        Some(listing) => {
            let tree = tree_rows(listing, expanded, 0);
            if tree.len() == 0 {
                assert(views[n + 2] == row_view(rows[n + 2]));
            } else {
                assert(views.skip(n + 2) =~= tree);
            }
        },
        None => {
            assert(views[n + 2] == row_view(rows[n + 2]));
        },
    }
}

/// A directory's entries are listed in their order, and each stands for itself:
/// a file opens itself, a directory opens or closes itself, and right behind an
/// open directory comes what it holds, one level further in.
pub proof fn an_entry_stands_for_itself(
    entries: Seq<Entry>,
    n: int,
    expanded: Set<Seq<char>>,
    depth: usize,
)
    requires
        0 <= n < entries.len(),
        depth < usize::MAX,
    ensures
        ({
            let before = entries_rows(entries, n, expanded, depth);
            let all = entries_rows(entries, n + 1, expanded, depth);
            let entry = entries[n];
            &&& entries_rows(entries, 0, expanded, depth).len() == 0
            &&& all.len() > before.len()
            &&& all.take(before.len() as int) == before
            &&& all[before.len() as int].label == entry.name@
            &&& all[before.len() as int].depth == depth
            &&& if entry.directory {
                let row = all[before.len() as int];
                let open = expanded.contains(entry.path@);
                &&& row.action == Some(ListAction::ToggleDirectory(entry.path@))
                &&& row.chevron == Some(
                    if open {
                        Icon::ChevronDown
                    } else {
                        Icon::ChevronRight
                    },
                )
                &&& row.kind == SidebarRowKind::Directory
                &&& open ==> all.skip(before.len() as int + 1) == tree_rows(
                    entry.children,
                    expanded,
                    (depth + 1) as usize,
                )
                &&& !open ==> all.len() == before.len() + 1
            } else {
                &&& all.len() == before.len() + 1
                &&& all[before.len() as int].action == Some(ListAction::OpenFile(entry.path@))
                &&& all[before.len() as int].chevron is None
                &&& all[before.len() as int].kind == SidebarRowKind::File
            }
        }),
{
    let before = entries_rows(entries, n, expanded, depth);
    let all = entries_rows(entries, n + 1, expanded, depth);
    assert(all.take(before.len() as int) =~= before);
    if entries[n].directory && expanded.contains(entries[n].path@) {
        assert(all.skip(before.len() as int + 1) =~= tree_rows(
            entries[n].children,
            expanded,
            (depth + 1) as usize,
        ));
    }
}

/// What is listed of a directory: its entries, or why it could not be read.
pub proof fn a_listing_is_its_entries_or_its_error(
    listing: Listing,
    expanded: Set<Seq<char>>,
    depth: usize,
)
    ensures
        match listing {
            Listing::Entries(entries) => tree_rows(listing, expanded, depth) == entries_rows(
                entries@,
                entries@.len() as int,
                expanded,
                depth,
            ),
            Listing::Failed(error) => tree_rows(listing, expanded, depth).len() == 1 && tree_rows(
                listing,
                expanded,
                depth,
            )[0].label == error@ && tree_rows(listing, expanded, depth)[0].action is None
                && tree_rows(listing, expanded, depth)[0].depth == depth,
            Listing::Unread => tree_rows(listing, expanded, depth).len() == 0,
        },
{
}

/// The set of expanded directories holds exactly the paths that are listed.
pub proof fn a_path_is_expanded_when_it_is_listed(paths: Seq<String>, path: Seq<char>)
    ensures
        path_set(paths).contains(path) <==> exists|i: int|
            0 <= i < paths.len() && (#[trigger] paths[i])@ == path,
{
}

/// A row is read as it stands, with its label and what it does.
pub proof fn a_row_is_read_as_it_stands(rows: Seq<ListRow<String>>, i: int, path: String, line: usize, id: u64)
    requires
        0 <= i < rows.len(),
    ensures
        row_views(rows).len() == rows.len(),
        row_views(rows)[i].label == rows[i].label@,
        row_views(rows)[i].depth == rows[i].depth,
        row_views(rows)[i].chevron == rows[i].chevron,
        row_views(rows)[i].icon == rows[i].icon,
        row_views(rows)[i].kind == rows[i].kind,
        rows[i].action is None ==> row_views(rows)[i].action is None,
        rows[i].action == Some(ListAction::OpenFile(path)) ==> row_views(rows)[i].action == Some(
            ListAction::OpenFile(path@),
        ),
        rows[i].action == Some(ListAction::OpenFileAt(path, line)) ==> row_views(rows)[i].action
            == Some(ListAction::OpenFileAt(path@, line)),
        rows[i].action == Some(ListAction::<String>::ActivateTab(id)) ==> row_views(rows)[i].action
            == Some(ListAction::<Seq<char>>::ActivateTab(id)),
        rows[i].action == Some(ListAction::ToggleDirectory(path)) ==> row_views(rows)[i].action
            == Some(ListAction::ToggleDirectory(path@)),
{
}

/// What is typed is read as it stands.
pub proof fn the_typed_query_is_read_as_it_stands(query: Vec<char>)
    ensures
        typed_view(Some(query)) == Some(query@),
        typed_view(None) is None,
{
}

/// What is not known yet says that it is being found out, and what cannot be
/// known says so; a panel that is not shown has no rows.
pub proof fn what_is_not_known_yet_says_so(
    facts: ListFacts,
    expanded: Set<Seq<char>>,
    typed: Option<Seq<char>>,
    waiting: bool,
)
    ensures
        rows_of(None, facts, expanded, typed, waiting).len() == 0,
        facts.git is None ==> {
            let rows = rows_of(Some(ListKind::GitStatus), facts, expanded, typed, waiting);
            &&& rows.len() == 1
            &&& rows[0].action is None
            &&& facts.git_pending ==> rows[0].label == "Checking git status..."@
            &&& !facts.git_pending ==> rows[0].label
                == "Not a git repository, or git is not installed"@
        },
        (typed is None || trim(typed->0).len() > 0) && matching_result(facts, typed) is None ==> {
            let rows = rows_of(Some(ListKind::SearchResults), facts, expanded, typed, waiting);
            let busy = facts.search_pending || waiting;
            &&& busy ==> rows.len() == 1 && rows[0].label == "Searching..."@ && rows[0].action
                is None
            &&& !busy ==> rows.len() == 0
        },
{
}

/// What lies in a directory is one level deeper than it.
pub proof fn a_level_is_one_deeper(depth: usize)
    ensures
        depth < usize::MAX ==> deeper(depth) == depth + 1,
        depth == usize::MAX ==> deeper(depth) == depth,
{
}

/// Choosing a directory opens it where it was closed and closes it where it
/// was open, touches no other one, and chosen twice leaves it as it was.
pub proof fn a_chosen_directory_opens_or_closes(
    expanded: Set<Seq<char>>,
    path: Seq<char>,
    other: Seq<char>,
)
    ensures
        toggled_path(expanded, path).contains(path) != expanded.contains(path),
        other != path ==> toggled_path(expanded, path).contains(other) == expanded.contains(other),
        toggled_path(toggled_path(expanded, path), path) == expanded,
{
    assert(toggled_path(toggled_path(expanded, path), path) =~= expanded);
}

} // verus!
