//! The docked sidebar on screen: its header, its rows with their icons, and
//! what a click on one of its lines means.

use crate::icons::Icon;
use crate::lists::{row_view, row_views, ListFacts, ListKind, ListRow, SidebarRowKind};
use crate::rich::{
    colored, glyph_run, icon, icon_gap, line_break, plain, Paint, RichText, Role, Run,
};
use crate::text::{cut_to, cut_with, least, owned, repeat, repeated, string_of};
use vstd::prelude::*;

verus! {

/// What a click on a sidebar row acts on.
#[derive(Copy, Clone, Debug, PartialEq, Eq, Structural)]
pub enum SidebarClick {
    /// The Search panel's own header, which is a text field rather than a
    /// caption: the click belongs to the field, not to the list.
    SearchField,
    /// List entry `0`-based `index`, below the header.
    Row(usize),
    /// An ordinary panel's title line. Nothing to act on.
    Header,
}

/// What a click on line `row` of the sidebar means.
pub open spec fn click_on(row: usize, header_lines: usize, is_search_panel: bool) -> SidebarClick {
    if row >= header_lines {
        SidebarClick::Row((row - header_lines) as usize)
    } else if is_search_panel {
        SidebarClick::SearchField
    } else {
        SidebarClick::Header
    }
}

/// Resolves a sidebar click by row, given how many header lines the panel has
/// and whether it is the Search panel.
pub fn sidebar_click(row: usize, header_lines: usize, is_search_panel: bool) -> (r: SidebarClick)
    ensures
        r == click_on(row, header_lines, is_search_panel),
{
    if row >= header_lines {
        return SidebarClick::Row(row - header_lines);
    }
    if is_search_panel {
        SidebarClick::SearchField
    } else {
        SidebarClick::Header
    }
}

/// Whether the sidebar shows the Search panel: a query is being typed, or its
/// results are on screen.
pub open spec fn search_shown(active: Option<ListKind>, typing: bool) -> bool {
    typing || active == Some(ListKind::SearchResults)
}

/// Whether the sidebar is showing the Search panel.
pub fn showing_search_panel(active: Option<ListKind>, typing: bool) -> (r: bool)
    ensures
        r == search_shown(active, typing),
{
    typing || matches!(active, Some(ListKind::SearchResults))
}

/// How many lines the header takes: the Search panel has a title, a field and
/// a replace field; any other panel has a title.
pub open spec fn header_lines(active: Option<ListKind>, typing: bool) -> usize {
    if search_shown(active, typing) {
        3
    } else {
        1
    }
}

/// How many lines at the top of the sidebar are its own header rather than a
/// list entry.
pub fn sidebar_header_lines(active: Option<ListKind>, typing: bool) -> (r: usize)
    ensures
        r == header_lines(active, typing),
{
    if showing_search_panel(active, typing) {
        3
    } else {
        1
    }
}

/// The line of the sidebar that is highlighted as selected, when a list shows.
pub open spec fn selected_line(
    active: Option<ListKind>,
    typing: bool,
    selected: usize,
) -> Option<usize> {
    match active {
        Some(_) => Some(
            least(selected + header_lines(active, typing), usize::MAX as int) as usize,
        ),
        None => None,
    }
}

/// Which sidebar line is selected, counted from the top of the panel.
pub fn sidebar_selected_row(active: Option<ListKind>, typing: bool, selected: usize) -> (r: Option<
    usize,
>)
    ensures
        r == selected_line(active, typing, selected),
{
    match active {
        Some(_) => {
            let header = sidebar_header_lines(active, typing);
            Some(if selected <= usize::MAX - header { selected + header } else { usize::MAX })
        },
        None => None,
    }
}

/// The line under the pointer, when it is a list entry: below the header and
/// not past the last row.
pub open spec fn hovered_line(row: usize, header: usize, rows: int) -> Option<usize> {
    if row >= header && row - header < rows {
        Some(row)
    } else {
        None
    }
}

/// Which sidebar line is highlighted under the pointer.
pub fn sidebar_hovered_row(row: usize, header: usize, rows: usize) -> (r: Option<usize>)
    ensures
        r == hovered_line(row, header, rows as int),
{
    if row >= header && row - header < rows {
        Some(row)
    } else {
        None
    }
}

/// The colour of a row's label.
pub open spec fn label_role(kind: SidebarRowKind) -> Role {
    match kind {
        SidebarRowKind::Header => Role::SidebarHeader,
        SidebarRowKind::Directory => Role::SidebarDirectory,
        SidebarRowKind::File => Role::SidebarFile,
        SidebarRowKind::Info => Role::SidebarInfo,
    }
}

/// The colour of a row's label.
pub fn sidebar_row_color(kind: SidebarRowKind) -> (r: Role)
    ensures
        r == label_role(kind),
{
    match kind {
        SidebarRowKind::Header => Role::SidebarHeader,
        SidebarRowKind::Directory => Role::SidebarDirectory,
        SidebarRowKind::File => Role::SidebarFile,
        SidebarRowKind::Info => Role::SidebarInfo,
    }
}

/// The colour of a row's icon: its own if it brings one.
pub open spec fn icon_paint(row: ListRow<Seq<char>>) -> Paint {
    match row.icon_color {
        Some(color) => Paint::Own(color),
        None => if row.kind == SidebarRowKind::Directory {
            Paint::Theme(Role::SidebarFolder)
        } else {
            Paint::Theme(Role::DimText)
        },
    }
}

/// What stands in the expand column of a row: its chevron, a gap of the same
/// width, or nothing at all in a section title.
pub open spec fn chevron_runs(row: ListRow<Seq<char>>) -> Seq<Run<Seq<char>>> {
    match row.chevron {
        Some(chevron) => seq![icon(chevron, Role::DimText)],
        None => if row.kind == SidebarRowKind::Header {
            Seq::empty()
        } else {
            seq![icon_gap()]
        },
    }
}

/// A row's icon and the space after it.
pub open spec fn icon_runs(row: ListRow<Seq<char>>) -> Seq<Run<Seq<char>>> {
    match row.icon {
        Some(glyph) => seq![glyph_run(glyph, icon_paint(row)), plain(" "@)],
        None => Seq::empty(),
    }
}

/// One row of the list, on a line of its own: two columns of indentation a
/// level, the chevron, the icon, and the label cut to `max_chars`.
pub open spec fn row_runs(row: ListRow<Seq<char>>, max_chars: usize) -> Seq<Run<Seq<char>>> {
    seq![line_break(), plain(repeat(' ', 2 * row.depth))] + chevron_runs(row) + icon_runs(row)
        + seq![colored(cut_to(row.label, max_chars as int, '\u{2026}'), label_role(row.kind))]
}

/// The first `n` rows of the list.
pub open spec fn rows_runs(rows: Seq<ListRow<Seq<char>>>, n: int, max_chars: usize) -> Seq<
    Run<Seq<char>>,
>
    decreases n,
{
    if n <= 0 {
        Seq::empty()
    } else {
        rows_runs(rows, n - 1, max_chars) + row_runs(rows[n - 1], max_chars)
    }
}

/// How many spaces push each line's trailing icons of the Search header to the
/// right edge.
#[derive(Copy, Clone, Debug, PartialEq, Eq, Structural)]
pub struct SearchPads {
    pub title: usize,
    pub query: usize,
    pub replace: usize,
}

/// What the search field shows: what is typed, or else the last query that
/// was searched for.
pub open spec fn field_query(typed: Option<Seq<char>>, submitted: Option<Seq<char>>) -> Seq<char> {
    match typed {
        Some(query) => query,
        None => match submitted {
            Some(query) => query,
            None => Seq::empty(),
        },
    }
}

/// The query of the last completed search.
pub open spec fn submitted_query(facts: ListFacts) -> Option<Seq<char>> {
    match facts.search {
        Some(result) => Some(result.query@),
        None => None,
    }
}

/// The Search panel's header.
pub open spec fn search_header(
    typed: Option<Seq<char>>,
    submitted: Option<Seq<char>>,
    max_chars: usize,
    pads: SearchPads,
) -> Seq<Run<Seq<char>>> {
    let dim = Role::DimText;
    let query = field_query(typed, submitted);
    seq![
        colored("SEARCH"@, dim),
        plain(repeat(' ', pads.title as int)),
        icon(Icon::Refresh, dim),
        icon(Icon::ClearAll, dim),
        icon(Icon::NewFile, dim),
        icon(Icon::CollapseAll, dim),
        line_break(),
        icon(Icon::Search, Role::ActivityIconActive),
        plain(" "@),
        if query.len() == 0 && typed is None {
            colored("Search"@, dim)
        } else {
            colored(cut_to(query, max_chars as int, '\u{2026}'), Role::Text)
        },
    ] + (if typed is Some {
        seq![colored("\u{2588}"@, Role::Cursor)]
    } else {
        Seq::empty()
    }) + seq![
        plain(repeat(' ', pads.query as int)),
        icon(Icon::CaseSensitive, dim),
        icon(Icon::WholeWord, dim),
        icon(Icon::Regex, dim),
        line_break(),
        icon(Icon::Replace, dim),
        plain(" "@),
        colored("Replace"@, dim),
        plain(repeat(' ', pads.replace as int)),
        icon(Icon::Ellipsis, dim),
    ]
}

/// The sidebar's header.
pub open spec fn header_runs(
    active: Option<ListKind>,
    typed: Option<Seq<char>>,
    submitted: Option<Seq<char>>,
    max_chars: usize,
    pads: SearchPads,
) -> Seq<Run<Seq<char>>> {
    if search_shown(active, typed is Some) {
        search_header(typed, submitted, max_chars, pads)
    } else {
        match active {
            Some(ListKind::FileTree) => seq![colored("EXPLORER"@, Role::DimText)],
            Some(ListKind::GitStatus) => seq![colored("SOURCE CONTROL"@, Role::DimText)],
            _ => Seq::empty(),
        }
    }
}

/// The whole sidebar: nothing while it is closed, else its header and its rows.
pub open spec fn sidebar_runs(
    active: Option<ListKind>,
    typed: Option<Seq<char>>,
    submitted: Option<Seq<char>>,
    rows: Seq<ListRow<Seq<char>>>,
    max_chars: usize,
    pads: SearchPads,
) -> Seq<Run<Seq<char>>> {
    if active is None && typed is None {
        Seq::empty()
    } else {
        header_runs(active, typed, submitted, max_chars, pads) + rows_runs(
            rows,
            rows.len() as int,
            max_chars,
        )
    }
}

/// The query the search field shows.
fn shown_query(typed: &Option<Vec<char>>, facts: &ListFacts) -> (r: String)
    ensures
        r@ == field_query(crate::lists::typed_view(*typed), submitted_query(*facts)),
{
    match typed {
        Some(query) => string_of(query),
        None => match &facts.search {
            Some(result) => result.query.clone(),
            None => String::new(),
        },
    }
}

/// The query as the search field shows it, cut to what fits: its length is what
/// the padding of the field's line depends on.
pub fn query_shown(typed: &Option<Vec<char>>, facts: &ListFacts, max_chars: usize) -> (r: String)
    ensures
        r@ == cut_to(
            field_query(crate::lists::typed_view(*typed), submitted_query(*facts)),
            max_chars as int,
            '\u{2026}',
        ),
{
    cut_with(shown_query(typed, facts).as_str(), max_chars, '\u{2026}')
}

fn push_search_header(
    rich: &mut RichText,
    typed: &Option<Vec<char>>,
    facts: &ListFacts,
    max_chars: usize,
    pads: SearchPads,
)
    requires
        old(rich)@.len() == 0,
    ensures
        final(rich)@ == search_header(
            crate::lists::typed_view(*typed),
            submitted_query(*facts),
            max_chars,
            pads,
        ),
{
    let dim = Role::DimText;
    let query = shown_query(typed, facts);
    let typing = typed.is_some();
    rich.colored("SEARCH", dim);
    rich.plain(repeated(' ', pads.title).as_str());
    rich.icon(Icon::Refresh, dim);
    rich.icon(Icon::ClearAll, dim);
    rich.icon(Icon::NewFile, dim);
    rich.icon(Icon::CollapseAll, dim);
    rich.newline();
    rich.icon(Icon::Search, Role::ActivityIconActive);
    rich.plain(" ");
    if crate::text::count(query.as_str()) == 0 && !typing {
        rich.colored("Search", dim);
    } else {
        rich.colored(cut_with(query.as_str(), max_chars, '\u{2026}').as_str(), Role::Text);
    }
    if typing {
        rich.colored("\u{2588}", Role::Cursor);
    }
    rich.plain(repeated(' ', pads.query).as_str());
    rich.icon(Icon::CaseSensitive, dim);
    rich.icon(Icon::WholeWord, dim);
    rich.icon(Icon::Regex, dim);
    rich.newline();
    rich.icon(Icon::Replace, dim);
    rich.plain(" ");
    rich.colored("Replace", dim);
    rich.plain(repeated(' ', pads.replace).as_str());
    rich.icon(Icon::Ellipsis, dim);
    assert(rich@ =~= search_header(
        crate::lists::typed_view(*typed),
        submitted_query(*facts),
        max_chars,
        pads,
    ));
}

/// Two columns a level.
fn indentation(depth: usize) -> (r: String)
    ensures
        r@ == repeat(' ', 2 * depth),
{
    let half = repeated(' ', depth);
    let mut whole = owned(half.as_str());
    whole.push_str(half.as_str());
    assert(whole@ =~= repeat(' ', 2 * depth));
    whole
}

fn push_sidebar_row(rich: &mut RichText, row: &ListRow<String>, max_chars: usize)
    ensures
        final(rich)@ == old(rich)@ + row_runs(row_view(*row), max_chars),
{
    rich.newline();
    rich.plain(indentation(row.depth).as_str());
    match row.chevron {
        Some(chevron) => rich.icon(chevron, Role::DimText),
        None => if row.kind != SidebarRowKind::Header {
            rich.icon_space();
        },
    }
    if let Some(glyph) = row.icon {
        let paint = match row.icon_color {
            Some(color) => Paint::Own(color),
            None => if row.kind == SidebarRowKind::Directory {
                Paint::Theme(Role::SidebarFolder)
            } else {
                Paint::Theme(Role::DimText)
            },
        };
        rich.glyph(glyph, paint);
        rich.plain(" ");
    }
    rich.colored(
        cut_with(row.label.as_str(), max_chars, '\u{2026}').as_str(),
        sidebar_row_color(row.kind),
    );
    assert(rich@ =~= old(rich)@ + row_runs(row_view(*row), max_chars));
}

/// Everything the sidebar shows, header first, with labels cut to `max_chars`
/// characters. Empty while the sidebar is closed.
pub fn sidebar_rows(
    active: Option<ListKind>,
    typed: &Option<Vec<char>>,
    facts: &ListFacts,
    rows: &Vec<ListRow<String>>,
    max_chars: usize,
    pads: SearchPads,
) -> (r: RichText)
    ensures
        r@ == sidebar_runs(
            active,
            crate::lists::typed_view(*typed),
            submitted_query(*facts),
            row_views(rows@),
            max_chars,
            pads,
        ),
{
    let mut rich = RichText::new();
    if showing_search_panel(active, typed.is_some()) {
        push_search_header(&mut rich, typed, facts, max_chars, pads);
    } else {
        match active {
            Some(ListKind::FileTree) => rich.colored("EXPLORER", Role::DimText),
            Some(ListKind::GitStatus) => rich.colored("SOURCE CONTROL", Role::DimText),
            _ => {
                return rich;
            },
        }
    }
    let ghost header = header_runs(
        active,
        crate::lists::typed_view(*typed),
        submitted_query(*facts),
        max_chars,
        pads,
    );
    assert(rich@ =~= header + rows_runs(row_views(rows@), 0, max_chars));
    for i in 0..rows.len()
        invariant
            rich@ == header + rows_runs(row_views(rows@), i as int, max_chars),
    {
        push_sidebar_row(&mut rich, &rows[i], max_chars);
        assert(rich@ =~= header + rows_runs(row_views(rows@), i + 1, max_chars));
    }
    rich
}

/// Clicking below the header always reaches the list, and the row it reaches
/// is the one drawn on that line.
pub proof fn a_click_below_the_header_hits_the_row_drawn_there(
    active: Option<ListKind>,
    typing: bool,
    index: usize,
)
    requires
        active is Some,
        index <= usize::MAX - 3,
    ensures
        ({
            let line = selected_line(active, typing, index)->0;
            click_on(line, header_lines(active, typing), search_shown(active, typing))
                == SidebarClick::Row(index)
        }),
{
}

/// The lines of the header that are drawn are as many as hit testing leaves
/// out: the Search header breaks the line twice, and a title never.
pub proof fn the_header_is_as_tall_as_it_is_hit(
    typed: Option<Seq<char>>,
    submitted: Option<Seq<char>>,
    max_chars: usize,
    pads: SearchPads,
)
    ensures
        ({
            let header = search_header(typed, submitted, max_chars, pads);
            let caret: int = if typed is Some { 1 } else { 0 };
            &&& header.len() == 20 + caret
            &&& header[6] == line_break()
            &&& header[14 + caret] == line_break()
            &&& header_lines(Some(ListKind::SearchResults), typed is Some) == 3
        }),
{
}

/// What one row draws: a line of its own, indented by two columns a level, with
/// its label at the end, whole where it fits and cut with an ellipsis where it
/// does not, in the colour of its kind. Every row is drawn, in the order of the
/// list.
pub proof fn every_row_is_drawn_on_its_own_line(
    rows: Seq<ListRow<Seq<char>>>,
    n: int,
    max_chars: usize,
)
    requires
        0 < n <= rows.len(),
        max_chars > 0,
    ensures
        ({
            let before = rows_runs(rows, n - 1, max_chars);
            let all = rows_runs(rows, n, max_chars);
            let row = rows[n - 1];
            let at = before.len() as int;
            let label = if row.label.len() <= max_chars {
                row.label
            } else {
                row.label.take(max_chars - 1) + seq!['\u{2026}']
            };
            &&& rows_runs(rows, 0, max_chars).len() == 0
            &&& all.take(at) == before
            &&& all.len() >= at + 3
            &&& all[at].text == seq!['\n']
            &&& all[at + 1].text.len() == 2 * row.depth
            &&& all.last().text == label
            &&& all.last() == colored(
                label,
                match row.kind {
                    SidebarRowKind::Header => Role::SidebarHeader,
                    SidebarRowKind::Directory => Role::SidebarDirectory,
                    SidebarRowKind::File => Role::SidebarFile,
                    SidebarRowKind::Info => Role::SidebarInfo,
                },
            )
            &&& row.chevron matches Some(chevron) ==> all[at + 2] == icon(chevron, Role::DimText)
            &&& row.icon matches Some(glyph) ==> all[all.len() - 3].text == seq![glyph.ch]
        }),
{
    let before = rows_runs(rows, n - 1, max_chars);
    let all = rows_runs(rows, n, max_chars);
    let row = rows[n - 1];
    let at = before.len() as int;
    let own = row_runs(row, max_chars);
    assert(all.take(at) =~= before);
    assert(all[at] == own[0]);
    assert(all[at + 1] == own[1]);
    assert(all.last() == own.last());
    if row.label.len() > max_chars {
        assert(row.label.take(max_chars - 1).push('\u{2026}') =~= row.label.take(max_chars - 1)
            + seq!['\u{2026}']);
    }
    if row.chevron is Some {
        assert(all[at + 2] == own[2]);
    }
    if row.icon is Some {
        assert(all[all.len() - 3] == own[own.len() - 3]);
    }
}

/// The panel says which it is, and the search field shows what is typed into it,
/// or what was last searched for.
pub proof fn the_header_says_which_panel_it_is(
    active: Option<ListKind>,
    typed: Option<Seq<char>>,
    submitted: Option<Seq<char>>,
    rows: Seq<ListRow<Seq<char>>>,
    max_chars: usize,
    pads: SearchPads,
)
    ensures
        ({
            let runs = sidebar_runs(active, typed, submitted, rows, max_chars, pads);
            &&& active is None && typed is None ==> runs.len() == 0
            &&& active == Some(ListKind::FileTree) && typed is None ==> runs[0].text
                == "EXPLORER"@
            &&& active == Some(ListKind::GitStatus) && typed is None ==> runs[0].text
                == "SOURCE CONTROL"@
            &&& active == Some(ListKind::SearchResults) || typed is Some ==> runs[0].text
                == "SEARCH"@
            &&& typed matches Some(query) ==> (query.len() <= max_chars ==> runs[9].text == query)
            &&& typed is None && active == Some(ListKind::SearchResults) ==> (
            submitted matches Some(query) ==> (0 < query.len() <= max_chars ==> runs[9].text
                == query))
        }),
{
}

/// The row under a line of the panel is counted from below the header, which is
/// three lines for the search panel and one for any other; a click on the
/// search panel's header is a click into its field.
pub proof fn a_line_is_a_row_or_the_header(line: usize, active: Option<ListKind>, typing: bool)
    ensures
        ({
            let search = typing || active == Some(ListKind::SearchResults);
            let header: int = if search { 3 } else { 1 };
            let click = click_on(line, header_lines(active, typing), search_shown(active, typing));
            &&& line >= header ==> click == SidebarClick::Row((line - header) as usize)
            &&& line < header && search ==> click == SidebarClick::SearchField
            &&& line < header && !search ==> click == SidebarClick::Header
        }),
{
}

/// The highlight is on the line of the selected row, and the pointer highlights
/// the line it is on, but only a line with a row.
pub proof fn the_highlight_is_on_its_row(
    active: Option<ListKind>,
    typing: bool,
    selected: usize,
    line: usize,
    rows: int,
)
    requires
        active is Some,
        selected <= usize::MAX - 3,
    ensures
        selected_line(active, typing, selected) == Some(
            (selected + (if typing || active == Some(ListKind::SearchResults) {
                3int
            } else {
                1
            })) as usize,
        ),
        hovered_line(line, header_lines(active, typing), rows) is Some <==> header_lines(
            active,
            typing,
        ) <= line < header_lines(active, typing) + rows,
        hovered_line(line, header_lines(active, typing), rows) matches Some(at) ==> at == line,
{
}

/// Labels line up: a row without a chevron has a gap of the same width in its
/// place, but for a section's title. An icon is drawn in its own colour if it
/// brings one, a folder's in the folders' and any other dim.
pub proof fn labels_line_up(rows: Seq<ListRow<Seq<char>>>, n: int, max_chars: usize)
    requires
        0 < n <= rows.len(),
    ensures
        ({
            let at = rows_runs(rows, n - 1, max_chars).len() as int;
            let all = rows_runs(rows, n, max_chars);
            let row = rows[n - 1];
            let lead: int = if row.chevron is None && row.kind == SidebarRowKind::Header {
                0
            } else {
                1
            };
            let icons: int = if row.icon is Some {
                2
            } else {
                0
            };
            &&& all.len() == at + 3 + lead + icons
            &&& row.chevron is None && row.kind != SidebarRowKind::Header ==> all[at + 2]
                == icon_gap()
            &&& row.icon is Some ==> all[at + 2 + lead + 1].text == " "@
            &&& row.icon is Some && row.icon_color is Some ==> all[at + 2 + lead].look
                == crate::rich::Look::Icon(row.icon->0, Paint::Own(row.icon_color->0))
            &&& row.icon is Some && row.icon_color is None && row.kind
                == SidebarRowKind::Directory ==> all[at + 2 + lead].look
                == crate::rich::Look::Icon(row.icon->0, Paint::Theme(Role::SidebarFolder))
            &&& row.icon is Some && row.icon_color is None && row.kind
                != SidebarRowKind::Directory ==> all[at + 2 + lead].look
                == crate::rich::Look::Icon(row.icon->0, Paint::Theme(Role::DimText))
        }),
{
    let before = rows_runs(rows, n - 1, max_chars);
    let all = rows_runs(rows, n, max_chars);
    let row = rows[n - 1];
    let own = row_runs(row, max_chars);
    let at = before.len() as int;
    let lead: int = if row.chevron is None && row.kind == SidebarRowKind::Header {
        0
    } else {
        1
    };
    assert(chevron_runs(row).len() == lead);
    assert(lead == 1 ==> own[2] == chevron_runs(row)[0]);
    assert(lead == 1 ==> all[at + 2] == own[2]);
    if row.icon is Some {
        assert(own[2 + lead] == icon_runs(row)[0]);
        assert(own[3 + lead] == icon_runs(row)[1]);
        assert(all[at + 2 + lead] == own[2 + lead]);
        assert(all[at + 3 + lead] == own[3 + lead]);
    }
}

/// The search field has a caret behind what is typed while it is typed into,
/// and says what it is for while it is empty. Below it stands the field for
/// the replacement.
pub proof fn the_search_field_has_a_caret(
    typed: Option<Seq<char>>,
    submitted: Option<Seq<char>>,
    max_chars: usize,
    pads: SearchPads,
)
    ensures
        ({
            let runs = search_header(typed, submitted, max_chars, pads);
            let c: int = if typed is Some {
                1
            } else {
                0
            };
            &&& runs.len() == 20 + c
            &&& typed is Some ==> runs[10].text == "\u{2588}"@
            &&& typed is None && (submitted is None || submitted->0.len() == 0) ==> runs[9].text
                == "Search"@
            &&& runs[1].text.len() == pads.title
            &&& runs[10 + c].text.len() == pads.query
            &&& runs[17 + c].text == "Replace"@
            &&& runs[18 + c].text.len() == pads.replace
            &&& runs[6].text == seq!['\n']
            &&& runs[14 + c].text == seq!['\n']
        }),
{
}

/// Below the header stand the rows, all of them.
pub proof fn the_rows_stand_below_the_header(
    active: Option<ListKind>,
    rows: Seq<ListRow<Seq<char>>>,
    submitted: Option<Seq<char>>,
    max_chars: usize,
    pads: SearchPads,
)
    requires
        active is Some,
        active != Some(ListKind::SearchResults),
    ensures
        ({
            let runs = sidebar_runs(active, None, submitted, rows, max_chars, pads);
            &&& runs.len() >= 1
            &&& runs.skip(1) == rows_runs(rows, rows.len() as int, max_chars)
        }),
{
    let runs = sidebar_runs(active, None, submitted, rows, max_chars, pads);
    assert(runs.skip(1) =~= rows_runs(rows, rows.len() as int, max_chars));
}

} // verus!
