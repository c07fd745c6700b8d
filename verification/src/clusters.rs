//! The window's small furniture: the icon rails, the header clusters, and the
//! breadcrumb trail.

use crate::icons::Icon;
use crate::lists::ListKind;
use crate::rich::{colored, icon, line_break, plain, RichText, Role, Run};
use crate::text::{equal, texts};
use vstd::prelude::*;

verus! {

/// Rows of the activity bar.
pub const ACTIVITY_COUNT: usize = 6;

/// The explorer's row of the activity bar.
pub const ACTIVITY_EXPLORER: usize = 0;

/// The search panel's row of the activity bar.
pub const ACTIVITY_SEARCH: usize = 1;

/// The git panel's row of the activity bar.
pub const ACTIVITY_SOURCE_CONTROL: usize = 2;

/// The dependency view's row of the activity bar.
pub const ACTIVITY_DEPENDENCIES: usize = 5;

/// The activity bar's icons, top to bottom. Extensions and Debug have nothing
/// behind them; they are there for the shape of the bar.
pub open spec fn activity_icons() -> Seq<Icon> {
    seq![
        Icon::Files,
        Icon::Search,
        Icon::SourceControl,
        Icon::Extensions,
        Icon::Debug,
        Icon::TypeHierarchy,
    ]
}

/// Which row of the activity bar belongs to what is shown.
pub open spec fn activity_shown(
    dependency_view: bool,
    typing: bool,
    active: Option<ListKind>,
) -> Option<usize> {
    if dependency_view {
        Some(ACTIVITY_DEPENDENCIES)
    } else if typing {
        Some(ACTIVITY_SEARCH)
    } else {
        match active {
            Some(ListKind::FileTree) => Some(ACTIVITY_EXPLORER),
            Some(ListKind::SearchResults) => Some(ACTIVITY_SEARCH),
            Some(ListKind::GitStatus) => Some(ACTIVITY_SOURCE_CONTROL),
            None => None,
        }
    }
}

/// Which activity-bar row corresponds to what is shown, if any. Typing a search
/// query counts as Search even before any request has gone out.
pub fn activity_active_index(dependency_view: bool, typing: bool, active: Option<ListKind>) -> (r:
    Option<usize>)
    ensures
        r == activity_shown(dependency_view, typing, active),
{
    if dependency_view {
        return Some(ACTIVITY_DEPENDENCIES);
    }
    if typing {
        return Some(ACTIVITY_SEARCH);
    }
    match active {
        Some(ListKind::FileTree) => Some(ACTIVITY_EXPLORER),
        Some(ListKind::SearchResults) => Some(ACTIVITY_SEARCH),
        Some(ListKind::GitStatus) => Some(ACTIVITY_SOURCE_CONTROL),
        None => None,
    }
}

/// The colour of an activity-bar icon.
pub open spec fn activity_role(active: Option<usize>, index: int) -> Role {
    if active is Some && active->0 == index {
        Role::ActivityIconActive
    } else {
        Role::ActivityIconInactive
    }
}

/// The first `n` icons of the activity bar, one to a line.
pub open spec fn activity_runs(active: Option<usize>, n: int) -> Seq<Run<Seq<char>>>
    decreases n,
{
    if n <= 0 {
        Seq::empty()
    } else {
        let before = activity_runs(active, n - 1);
        let broken = if n > 1 {
            before.push(line_break())
        } else {
            before
        };
        broken.push(icon(activity_icons()[n - 1], activity_role(active, n - 1)))
    }
}

/// The activity bar's icon column: one glyph a line, the active one bright and
/// the rest dim.
pub fn activity_rich(active: Option<usize>) -> (r: RichText)
    ensures
        r@ == activity_runs(active, ACTIVITY_COUNT as int),
{
    let icons: Vec<Icon> = vec![
        Icon::Files,
        Icon::Search,
        Icon::SourceControl,
        Icon::Extensions,
        Icon::Debug,
        Icon::TypeHierarchy,
    ];
    let mut rich = RichText::new();
    assert(icons@ =~= activity_icons());
    for i in 0..ACTIVITY_COUNT
        invariant
            icons@ == activity_icons(),
            rich@ == activity_runs(active, i as int),
    {
        if i > 0 {
            rich.newline();
        }
        let role = match active {
            Some(index) => if index == i {
                Role::ActivityIconActive
            } else {
                Role::ActivityIconInactive
            },
            None => Role::ActivityIconInactive,
        };
        rich.icon(icons[i], role);
    }
    rich
}

/// The bottom panel's icon rail. Only the terminal lives there.
pub fn bottom_panel_rail_rich(visible: bool) -> (r: RichText)
    ensures
        r@ == (if visible {
            seq![icon(Icon::Terminal, Role::ActivityIconActive)]
        } else {
            Seq::empty()
        }),
{
    let mut rich = RichText::new();
    if visible {
        rich.icon(Icon::Terminal, Role::ActivityIconActive);
        assert(rich@ =~= seq![icon(Icon::Terminal, Role::ActivityIconActive)]);
    }
    rich
}

/// The header's left cluster: the menu button.
pub fn title_left_rich() -> (r: RichText)
    ensures
        r@ == seq![icon(Icon::Menu, Role::ActivityIconActive)],
{
    let mut rich = RichText::new();
    rich.icon(Icon::Menu, Role::ActivityIconActive);
    assert(rich@ =~= seq![icon(Icon::Menu, Role::ActivityIconActive)]);
    rich
}

/// The header's centered command field.
pub open spec fn center_runs(workspace: Option<String>) -> Seq<Run<Seq<char>>> {
    seq![
        icon(Icon::Search, Role::DimText),
        plain(" "@),
        match workspace {
            Some(name) => colored(name@, Role::Text),
            None => colored("Open Folder"@, Role::Text),
        },
    ]
}

/// The header's centered command field: a magnifier and the workspace's name.
pub fn title_center_rich(workspace: &Option<String>) -> (r: RichText)
    ensures
        r@ == center_runs(*workspace),
{
    let mut rich = RichText::new();
    rich.icon(Icon::Search, Role::DimText);
    rich.plain(" ");
    match workspace {
        Some(name) => rich.colored(name.as_str(), Role::Text),
        None => rich.colored("Open Folder", Role::Text),
    }
    assert(rich@ =~= center_runs(*workspace));
    rich
}

/// Two icons with a space between them.
pub open spec fn pair_runs(first: Icon, second: Icon, role: Role) -> Seq<Run<Seq<char>>> {
    seq![icon(first, role), plain(" "@), icon(second, role)]
}

fn pair(first: Icon, second: Icon, role: Role) -> (r: RichText)
    ensures
        r@ == pair_runs(first, second, role),
{
    let mut rich = RichText::new();
    rich.icon(first, role);
    rich.plain(" ");
    rich.icon(second, role);
    assert(rich@ =~= pair_runs(first, second, role));
    rich
}

/// The tab row's leading navigation cluster.
pub fn tab_nav_rich() -> (r: RichText)
    ensures
        r@ == pair_runs(Icon::ArrowLeft, Icon::ArrowRight, Role::ActivityIconInactive),
{
    pair(Icon::ArrowLeft, Icon::ArrowRight, Role::ActivityIconInactive)
}

/// The tab row's trailing split/close cluster.
pub fn tab_actions_rich() -> (r: RichText)
    ensures
        r@ == pair_runs(Icon::SplitHorizontal, Icon::Close, Role::ActivityIconInactive),
{
    pair(Icon::SplitHorizontal, Icon::Close, Role::ActivityIconInactive)
}

/// The header's right cluster: run and settings.
pub fn title_right_rich() -> (r: RichText)
    ensures
        r@ == pair_runs(Icon::Play, Icon::SettingsGear, Role::ActivityIconActive),
{
    pair(Icon::Play, Icon::SettingsGear, Role::ActivityIconActive)
}

/// What the breadcrumb trail is made from.
#[derive(Clone, Debug, PartialEq, Eq)]
pub enum Trail {
    /// No document is active.
    Nothing,
    /// A document without a file, under this name.
    Untitled(String),
    /// A document's path, one component at a time, and the workspace root's.
    Path { components: Vec<String>, root: Option<Vec<String>> },
}

/// Whether `root` is the beginning of `path`.
pub open spec fn lies_under(path: Seq<Seq<char>>, root: Seq<Seq<char>>) -> bool {
    root.len() <= path.len() && path.take(root.len() as int) == root
}

/// The path from the workspace root down, or all of it when it lies elsewhere.
pub open spec fn segments(path: Seq<Seq<char>>, root: Option<Seq<Seq<char>>>) -> Seq<Seq<char>> {
    if root is Some && lies_under(path, root->0) {
        path.skip(root->0.len() as int)
    } else {
        path
    }
}

/// The first `n` segments, each two parted by a chevron.
pub open spec fn segment_runs(segments: Seq<Seq<char>>, n: int) -> Seq<Run<Seq<char>>>
    decreases n,
{
    if n <= 0 {
        Seq::empty()
    } else {
        let before = segment_runs(segments, n - 1);
        let parted = if n > 1 {
            before.push(plain(" "@)).push(icon(Icon::ChevronRight, Role::DimText)).push(
                plain(" "@),
            )
        } else {
            before
        };
        parted.push(colored(segments[n - 1], Role::DimText))
    }
}

/// A root that may be there, as characters.
pub open spec fn root_view(root: Option<Vec<String>>) -> Option<Seq<Seq<char>>> {
    match root {
        Some(root) => Some(texts(root@)),
        None => None,
    }
}

/// The trail's content.
pub open spec fn trail_runs(trail: Trail) -> Seq<Run<Seq<char>>> {
    match trail {
        Trail::Nothing => Seq::empty(),
        Trail::Untitled(name) => seq![colored(name@, Role::DimText)],
        Trail::Path { components, root } => {
            let shown = segments(texts(components@), root_view(root));
            segment_runs(shown, shown.len() as int)
        },
    }
}

fn starts_with(path: &Vec<String>, root: &Vec<String>) -> (r: bool)
    ensures
        r == lies_under(texts(path@), texts(root@)),
{
    if root.len() > path.len() {
        return false;
    }
    let ghost head = texts(path@).take(root@.len() as int);
    for i in 0..root.len()
        invariant
            root.len() <= path.len(),
            head == texts(path@).take(root@.len() as int),
            forall|j: int| 0 <= j < i ==> head[j] == #[trigger] texts(root@)[j],
    {
        if !equal(path[i].as_str(), root[i].as_str()) {
            assert(head[i as int] != texts(root@)[i as int]);
            return false;
        }
        assert(head[i as int] == texts(root@)[i as int]);
    }
    assert(head =~= texts(root@));
    true
}

/// The breadcrumb trail under the tab bar: the active document's path, one
/// segment at a time, from the workspace root down when it lies under it.
pub fn breadcrumb_rich(trail: &Trail) -> (r: RichText)
    ensures
        r@ == trail_runs(*trail),
{
    let mut rich = RichText::new();
    match trail {
        Trail::Nothing => {},
        Trail::Untitled(name) => {
            rich.colored(name.as_str(), Role::DimText);
            assert(rich@ =~= trail_runs(*trail));
        },
        Trail::Path { components, root } => {
            let from: usize = match root {
                Some(root) => if starts_with(components, root) {
                    root.len()
                } else {
                    0
                },
                None => 0,
            };
            let ghost shown = segments(texts(components@), root_view(*root));
            assert(shown =~= texts(components@).skip(from as int));
            for i in from..components.len()
                invariant
                    from <= components.len(),
                    shown == texts(components@).skip(from as int),
                    rich@ == segment_runs(shown, i - from),
            {
                if i > from {
                    rich.plain(" ");
                    rich.icon(Icon::ChevronRight, Role::DimText);
                    rich.plain(" ");
                }
                rich.colored(components[i].as_str(), Role::DimText);
                assert(shown[i - from] == components@[i as int]@);
            }
        },
    }
    rich
}

/// The trail of a file in the workspace does not depend on where the workspace
/// lies.
pub proof fn the_trail_starts_at_the_root(root: Seq<Seq<char>>, inside: Seq<Seq<char>>)
    ensures
        segments(root + inside, Some(root)) == inside,
{
    assert((root + inside).take(root.len() as int) =~= root);
    assert((root + inside).skip(root.len() as int) =~= inside);
}

/// At most one icon of the activity bar is bright.
pub proof fn one_activity_is_bright(active: Option<usize>, i: int, j: int)
    requires
        activity_role(active, i) == Role::ActivityIconActive,
        activity_role(active, j) == Role::ActivityIconActive,
    ensures
        i == j,
{
}

/// The activity bar has its six icons, one to a line, and the one whose
/// activity is shown is bright.
pub proof fn every_activity_has_its_icon(active: Option<usize>, at: int)
    requires
        0 <= at < 6,
    ensures
        ({
            let runs = activity_runs(active, 6);
            let drawn = seq![
                Icon::Files,
                Icon::Search,
                Icon::SourceControl,
                Icon::Extensions,
                Icon::Debug,
                Icon::TypeHierarchy,
            ];
            &&& runs.len() == 11
            &&& active is Some && active->0 == at ==> runs[2 * at] == icon(
                drawn[at],
                Role::ActivityIconActive,
            )
            &&& !(active is Some && active->0 == at) ==> runs[2 * at] == icon(
                drawn[at],
                Role::ActivityIconInactive,
            )
            &&& at < 5 ==> runs[2 * at + 1].text == seq!['\n']
        }),
{
    reveal_with_fuel(activity_runs, 7);
}

/// The row of the activity bar that is lit is the one of what is shown: the
/// graph before a search that is being typed, and that before the list.
pub proof fn the_lit_activity_is_the_one_shown(typing: bool, active: Option<ListKind>)
    ensures
        activity_shown(true, typing, active) == Some(5usize),
        activity_shown(false, true, active) == Some(1usize),
        activity_shown(false, false, Some(ListKind::FileTree)) == Some(0usize),
        activity_shown(false, false, Some(ListKind::SearchResults)) == Some(1usize),
        activity_shown(false, false, Some(ListKind::GitStatus)) == Some(2usize),
        activity_shown(false, false, None) is None,
{
}

/// The trail shows every segment by its name, in its order, with a chevron
/// between each two.
pub proof fn every_segment_is_in_the_trail(segments: Seq<Seq<char>>, n: int, at: int)
    requires
        0 <= at < n <= segments.len(),
    ensures
        ({
            let runs = segment_runs(segments, n);
            &&& runs.len() == 4 * n - 3
            &&& runs[4 * at].text == segments[at]
            &&& at > 0 ==> runs[4 * at - 2] == icon(Icon::ChevronRight, Role::DimText)
        }),
    decreases n,
{
    four_runs_a_segment(segments, n);
    if n > 1 {
        four_runs_a_segment(segments, n - 1);
        if at < n - 1 {
            every_segment_is_in_the_trail(segments, n - 1, at);
        }
    }
}

proof fn four_runs_a_segment(segments: Seq<Seq<char>>, n: int)
    requires
        1 <= n,
    ensures
        segment_runs(segments, n).len() == 4 * n - 3,
    decreases n,
{
    reveal_with_fuel(segment_runs, 2);
    if n > 1 {
        four_runs_a_segment(segments, n - 1);
    }
}

/// A file outside the workspace is shown by its whole path, and a document
/// without a file by its name alone.
pub proof fn a_file_elsewhere_is_shown_in_full(
    path: Seq<Seq<char>>,
    root: Seq<Seq<char>>,
    name: String,
)
    ensures
        segments(path, None) == path,
        (root.len() > path.len() || path.take(root.len() as int) != root) ==> segments(
            path,
            Some(root),
        ) == path,
        trail_runs(Trail::Untitled(name)).len() == 1,
        trail_runs(Trail::Untitled(name))[0].text == name@,
        trail_runs(Trail::Nothing).len() == 0,
{
}

/// The field in the middle of the title bar names the workspace, or offers to
/// open one.
pub proof fn the_title_names_the_workspace(name: String)
    ensures
        center_runs(Some(name)).len() == 3,
        center_runs(Some(name))[2].text == name@,
        center_runs(None)[2].text == "Open Folder"@,
{
}

} // verus!
