//! The texts of the chrome's own regions: the tab row, the dropdown, the
//! settings screen.

use crate::icons::{Glyph, Icon};
use crate::menu::{entry_text, item_text, recent_item_text, MenuItem, RecentRow};
use crate::rich::{
    colored, flat, glyph_run, icon, line_break, plain, Color, Paint, RichText, Role, Run,
};
use crate::settings::SettingsScope;
use crate::text::{
    byte_len, byte_len_adds, byte_len_steps, chars_of, count, least, left, string_of, texts,
    width_of,
};
use vstd::prelude::*;

verus! {

// --- tabs --------------------------------------------------------------------

/// A tab's icon and label, the label already as wide as its rectangle.
#[derive(Clone, Debug, PartialEq, Eq)]
pub struct TabLabel {
    pub icon: Glyph,
    pub icon_color: Color,
    pub label: String,
    pub active: bool,
}

/// One tab: a space, its icon, its label.
pub open spec fn tab_runs(tab: TabLabel) -> Seq<Run<Seq<char>>> {
    seq![
        plain(" "@),
        glyph_run(tab.icon, Paint::Own(tab.icon_color)),
        colored(
            tab.label@,
            if tab.active {
                Role::Text
            } else {
                Role::DimText
            },
        ),
    ]
}

/// The first `n` tabs.
pub open spec fn tab_row_runs(tabs: Seq<TabLabel>, n: int) -> Seq<Run<Seq<char>>>
    decreases n,
{
    if n <= 0 {
        Seq::empty()
    } else {
        tab_row_runs(tabs, n - 1) + tab_runs(tabs[n - 1])
    }
}

/// The tab row: each tab is a file-type icon followed by its label.
pub fn tab_row_rich(tabs: &Vec<TabLabel>) -> (r: RichText)
    ensures
        r@ == tab_row_runs(tabs@, tabs@.len() as int),
{
    let mut rich = RichText::new();
    for i in 0..tabs.len()
        invariant
            rich@ == tab_row_runs(tabs@, i as int),
    {
        let tab = &tabs[i];
        let ghost before = rich@;
        rich.plain(" ");
        rich.glyph(tab.icon, Paint::Own(tab.icon_color));
        rich.colored(
            tab.label.as_str(),
            if tab.active {
                Role::Text
            } else {
                Role::DimText
            },
        );
        assert(rich@ =~= before + tab_runs(*tab));
    }
    rich
}

// --- the dropdown ------------------------------------------------------------

/// The narrowest a dropdown's rows are drawn, in columns.
pub const LEAST_COLUMNS: usize = 8;

/// One row of the dropdown: an entry, or below the entries a recent file.
pub open spec fn dropdown_row(
    items: Seq<MenuItem>,
    recent: Seq<RecentRow>,
    row: int,
    columns: int,
) -> Seq<char> {
    if row < items.len() {
        entry_text(items[row], columns)
    } else {
        left(recent[row - items.len()].label@, columns)
    }
}

/// Whether a row can run: one the registry says nothing of always can.
pub open spec fn row_enabled(enabled: Seq<bool>, row: int) -> bool {
    row >= enabled.len() || enabled[row]
}

/// The first `n` rows as far as `wanted` says they can run or cannot; the other
/// rows are left empty, so the two texts line up.
pub open spec fn dropdown_text(
    items: Seq<MenuItem>,
    recent: Seq<RecentRow>,
    enabled: Seq<bool>,
    columns: int,
    wanted: bool,
    n: int,
) -> Seq<char>
    decreases n,
{
    if n <= 0 {
        Seq::empty()
    } else {
        let above = dropdown_text(items, recent, enabled, columns, wanted, n - 1);
        (if n > 1 {
            above.push('\n')
        } else {
            above
        }) + (if row_enabled(enabled, n - 1) == wanted {
            dropdown_row(items, recent, n - 1, columns)
        } else {
            Seq::empty()
        })
    }
}

/// How many columns a dropdown's rows are drawn with.
pub open spec fn dropdown_columns(columns: usize) -> int {
    if columns > LEAST_COLUMNS {
        columns as int
    } else {
        LEAST_COLUMNS as int
    }
}

/// The two texts of an open dropdown: the rows that can run, and the rows that
/// cannot and are drawn dim, each on the line it belongs to.
pub fn dropdown_texts(
    items: &Vec<MenuItem>,
    recent: &Vec<RecentRow>,
    enabled: &Vec<bool>,
    columns: usize,
) -> (r: (String, String))
    ensures
        r.0@ == dropdown_text(
            items@,
            recent@,
            enabled@,
            dropdown_columns(columns),
            true,
            (items@.len() + recent@.len()) as int,
        ),
        r.1@ == dropdown_text(
            items@,
            recent@,
            enabled@,
            dropdown_columns(columns),
            false,
            (items@.len() + recent@.len()) as int,
        ),
{
    let wide: usize = if columns > LEAST_COLUMNS { columns } else { LEAST_COLUMNS };
    let mut runs = String::new();
    let mut dim = String::new();
    for i in 0..items.len()
        invariant
            wide == dropdown_columns(columns),
            runs@ == dropdown_text(items@, recent@, enabled@, wide as int, true, i as int),
            dim@ == dropdown_text(items@, recent@, enabled@, wide as int, false, i as int),
    {
        let shown = if i < enabled.len() {
            enabled[i]
        } else {
            true
        };
        if i > 0 {
            runs.push('\n');
            dim.push('\n');
        }
        let row = item_text(&items[i], wide);
        if shown {
            runs.push_str(row.as_str());
            assert(dim@ =~= dim@ + Seq::<char>::empty());
        } else {
            dim.push_str(row.as_str());
            assert(runs@ =~= runs@ + Seq::<char>::empty());
        }
    }
    for i in 0..recent.len()
        invariant
            wide == dropdown_columns(columns),
            runs@ == dropdown_text(
                items@,
                recent@,
                enabled@,
                wide as int,
                true,
                items@.len() + i,
            ),
            dim@ == dropdown_text(
                items@,
                recent@,
                enabled@,
                wide as int,
                false,
                items@.len() + i,
            ),
    {
        let shown = if enabled.len() > items.len() && i < enabled.len() - items.len() {
            enabled[items.len() + i]
        } else {
            true
        };
        if items.len() > 0 || i > 0 {
            runs.push('\n');
            dim.push('\n');
        }
        let row = recent_item_text(&recent[i], wide);
        if shown {
            runs.push_str(row.as_str());
            assert(dim@ =~= dim@ + Seq::<char>::empty());
        } else {
            dim.push_str(row.as_str());
            assert(runs@ =~= runs@ + Seq::<char>::empty());
        }
    }
    (runs, dim)
}

/// Per-row enablement of the open dropdown: what the registry says of each
/// entry, and every recent file.
pub open spec fn enablement(entries: Seq<bool>, recent: nat) -> Seq<bool> {
    entries + Seq::new(recent, |i: int| true)
}

/// Per-row enablement of the open dropdown. Opening a recent file is always
/// allowed; only the registry's own entries are ever refused.
pub fn menu_enabled(items: &Vec<MenuItem>, recent: usize, enabled: &Vec<String>) -> (r: Vec<bool>)
    ensures
        r@ == enablement(
            Seq::new(items@.len(), |i: int| crate::menu::entry_enabled(enabled@, items@[i])),
            recent as nat,
        ),
{
    let mut rows: Vec<bool> = Vec::new();
    let ghost entries = Seq::new(
        items@.len(),
        |i: int| crate::menu::entry_enabled(enabled@, items@[i]),
    );
    assert(rows@ =~= entries.take(0));
    for i in 0..items.len()
        invariant
            entries == Seq::new(
                items@.len(),
                |k: int| crate::menu::entry_enabled(enabled@, items@[k]),
            ),
            rows@ == entries.take(i as int),
    {
        rows.push(crate::menu::is_enabled(enabled, &items[i]));
        assert(rows@ =~= entries.take(i + 1));
    }
    assert(rows@ =~= enablement(entries, 0));
    for i in 0..recent
        invariant
            rows@ == enablement(entries, i as nat),
    {
        rows.push(true);
        assert(rows@ =~= enablement(entries, (i + 1) as nat));
    }
    rows
}

// --- the settings screen -----------------------------------------------------

/// The search box of the settings screen.
pub open spec fn settings_search_runs(query: Seq<char>, focused: bool) -> Seq<Run<Seq<char>>> {
    seq![
        icon(Icon::Search, Role::DimText),
        plain(" "@),
        if query.len() == 0 {
            colored("Search settings"@, Role::DimText)
        } else {
            colored(query, Role::Text)
        },
    ] + (if focused {
        seq![colored("\u{2588}"@, Role::Cursor)]
    } else {
        Seq::empty()
    })
}

/// The search box of the settings screen: what is typed, and a caret while it
/// has the keyboard.
pub fn settings_search_rich(query: &Vec<char>, focused: bool) -> (r: RichText)
    ensures
        r@ == settings_search_runs(query@, focused),
{
    let mut rich = RichText::new();
    rich.icon(Icon::Search, Role::DimText);
    rich.plain(" ");
    if query.len() == 0 {
        rich.colored("Search settings", Role::DimText);
    } else {
        rich.colored(string_of(query).as_str(), Role::Text);
    }
    if focused {
        rich.colored("\u{2588}", Role::Cursor);
    }
    assert(rich@ =~= settings_search_runs(query@, focused));
    rich
}

/// What is picked is bright, and the rest dim.
pub open spec fn picked_role(picked: bool) -> Role {
    if picked {
        Role::Text
    } else {
        Role::DimText
    }
}

fn role_of_picked(picked: bool) -> (r: Role)
    ensures
        r == picked_role(picked),
{
    if picked {
        Role::Text
    } else {
        Role::DimText
    }
}

/// The two scopes.
pub open spec fn scope_runs(scope: SettingsScope) -> Seq<Run<Seq<char>>> {
    seq![
        colored("User"@, picked_role(scope == SettingsScope::User)),
        plain("  "@),
        colored("Workspace"@, picked_role(scope == SettingsScope::Workspace)),
        line_break(),
        line_break(),
    ]
}

/// The first `n` sections, each on a line of its own.
pub open spec fn section_runs(sections: Seq<&'static str>, section: Option<usize>, n: int) -> Seq<
    Run<Seq<char>>,
>
    decreases n,
{
    if n <= 0 {
        Seq::empty()
    } else {
        section_runs(sections, section, n - 1).push(
            colored(
                sections[n - 1]@,
                picked_role(section is Some && section->0 == n - 1),
            ),
        ).push(line_break())
    }
}

/// The section list, with the two scopes above it.
pub fn settings_categories_rich(
    scope: SettingsScope,
    sections: &Vec<&'static str>,
    section: Option<usize>,
) -> (r: RichText)
    ensures
        r@ == scope_runs(scope) + section_runs(sections@, section, sections@.len() as int),
{
    let mut rich = RichText::new();
    rich.colored("User", role_of_picked(scope == SettingsScope::User));
    rich.plain("  ");
    rich.colored("Workspace", role_of_picked(scope == SettingsScope::Workspace));
    rich.newline();
    rich.newline();
    assert(rich@ =~= scope_runs(scope) + section_runs(sections@, section, 0));
    for i in 0..sections.len()
        invariant
            rich@ == scope_runs(scope) + section_runs(sections@, section, i as int),
    {
        let picked = match section {
            Some(at) => at == i,
            None => false,
        };
        rich.colored(sections[i], role_of_picked(picked));
        rich.newline();
        assert(rich@ =~= scope_runs(scope) + section_runs(sections@, section, i + 1));
    }
    rich
}

/// One line of the settings list.
#[derive(Clone, Debug, PartialEq, Eq)]
pub enum SettingsRow {
    Blank,
    Heading(String),
    Title(String),
    Description(String),
    Value(String),
}

/// One line of the settings list, coloured by what it is. A value is indented
/// past the control drawn over the start of its line.
pub open spec fn settings_row_runs(row: SettingsRow) -> Seq<Run<Seq<char>>> {
    (match row {
        SettingsRow::Blank => Seq::empty(),
        SettingsRow::Heading(text) => seq![colored(text@, Role::SidebarFolder)],
        SettingsRow::Title(text) => seq![colored(text@, Role::Text)],
        SettingsRow::Description(text) => seq![plain("  "@), colored(text@, Role::DimText)],
        SettingsRow::Value(text) => seq![plain("     "@), colored(text@, Role::Text)],
    }).push(line_break())
}

/// The lines of the settings list from `from` up to `n`.
pub open spec fn settings_list_runs(rows: Seq<SettingsRow>, from: int, n: int) -> Seq<
    Run<Seq<char>>,
>
    decreases n - from,
{
    if n <= from {
        Seq::empty()
    } else {
        settings_list_runs(rows, from, n - 1) + settings_row_runs(rows[n - 1])
    }
}

fn push_settings_row(rich: &mut RichText, row: &SettingsRow)
    ensures
        final(rich)@ == old(rich)@ + settings_row_runs(*row),
{
    match row {
        SettingsRow::Blank => {},
        SettingsRow::Heading(text) => rich.colored(text.as_str(), Role::SidebarFolder),
        SettingsRow::Title(text) => rich.colored(text.as_str(), Role::Text),
        SettingsRow::Description(text) => {
            rich.plain("  ");
            rich.colored(text.as_str(), Role::DimText);
        },
        SettingsRow::Value(text) => {
            rich.plain("     ");
            rich.colored(text.as_str(), Role::Text);
        },
    }
    rich.newline();
    assert(rich@ =~= old(rich)@ + settings_row_runs(*row));
}

/// The settings list, from the row the scroll starts at.
pub fn settings_list_rich(rows: &Vec<SettingsRow>, scroll: usize) -> (r: RichText)
    ensures
        r@ == settings_list_runs(rows@, scroll as int, rows@.len() as int),
{
    let mut rich = RichText::new();
    if scroll >= rows.len() {
        return rich;
    }
    for i in scroll..rows.len()
        invariant
            scroll <= rows.len(),
            rich@ == settings_list_runs(rows@, scroll as int, i as int),
    {
        push_settings_row(&mut rich, &rows[i]);
    }
    rich
}

// --- measures ----------------------------------------------------------------

/// The most characters any of the first `n` lines has.
pub open spec fn widest_upto(lines: Seq<Seq<char>>, n: int) -> int
    decreases n,
{
    if n <= 0 {
        0
    } else {
        let above = widest_upto(lines, n - 1);
        if lines[n - 1].len() > above {
            lines[n - 1].len() as int
        } else {
            above
        }
    }
}

/// How many columns the widest line takes.
pub fn widest(lines: &Vec<String>) -> (r: usize)
    ensures
        r == widest_upto(texts(lines@), lines@.len() as int),
{
    let mut most: usize = 0;
    for i in 0..lines.len()
        invariant
            most == widest_upto(texts(lines@), i as int),
    {
        let n = count(lines[i].as_str());
        if n > most {
            most = n;
        }
        assert(texts(lines@)[i as int] == lines@[i as int]@);
    }
    most
}

/// How many line breaks there are.
pub open spec fn breaks(s: Seq<char>) -> int
    decreases s.len(),
{
    if s.len() == 0 {
        0
    } else {
        breaks(s.drop_last()) + (if s.last() == '\n' {
            1int
        } else {
            0int
        })
    }
}

/// How many lines a text takes: one more than it has line breaks.
pub fn line_count(rich: &RichText) -> (r: usize)
    ensures
        r == least(breaks(flat(rich@)) + 1, usize::MAX as int),
{
    let text = chars_of(rich.text().as_str());
    let mut n: usize = 0;
    assert(text@.take(0) =~= Seq::<char>::empty());
    for i in 0..text.len()
        invariant
            n == breaks(text@.take(i as int)),
            n <= i,
    {
        assert(text@.take(i + 1).drop_last() =~= text@.take(i as int));
        if text[i] == '\n' {
            n = n + 1;
        }
    }
    assert(text@.take(text.len() as int) =~= text@);
    if n < usize::MAX {
        n + 1
    } else {
        n
    }
}

/// Whether `n` characters of a line are all of it that its first `byte` bytes
/// hold in full.
pub open spec fn column_at(line: Seq<char>, byte: usize, n: int) -> bool {
    &&& 0 <= n <= line.len()
    &&& byte_len(line.take(n)) <= byte
    &&& n < line.len() ==> byte_len(line.take(n + 1)) > byte
}

/// How many characters of a line lie before a byte of it.
pub fn chars_before(line: &str, byte: usize) -> (n: usize)
    ensures
        column_at(line@, byte, n as int),
{
    let chars = chars_of(line);
    let mut left_over: usize = byte;
    assert(chars@.take(0) =~= Seq::<char>::empty());
    for i in 0..chars.len()
        invariant
            chars@ == line@,
            left_over <= byte,
            byte_len(chars@.take(i as int)) + left_over == byte,
    {
        proof {
            let head = chars@.take(i as int);
            let one = seq![chars@[i as int]];
            assert(head + one =~= chars@.take(i + 1));
            byte_len_adds(head, one);
            byte_len_steps(one);
            assert(one.drop_first() =~= Seq::<char>::empty());
        }
        let size = width_of(chars[i]);
        if size > left_over {
            return i;
        }
        left_over = left_over - size;
    }
    assert(chars@.take(chars.len() as int) =~= chars@);
    chars.len()
}

/// The last of `n` things, or 0 when there is none.
pub open spec fn last_of(n: usize) -> int {
    if n > 0 {
        n - 1
    } else {
        0
    }
}

/// The row of the view a point is in: never past the last line shown.
pub fn row_at(row: usize, lines: usize) -> (r: usize)
    ensures
        r == least(row as int, last_of(lines)),
{
    let last: usize = if lines > 0 { lines - 1 } else { 0 };
    if row < last {
        row
    } else {
        last
    }
}

/// The line of the document a row of the view shows: never past the last.
pub fn line_at(first_line: usize, row: usize, total_lines: usize) -> (r: usize)
    ensures
        r == least(first_line + row, last_of(total_lines)),
{
    let last: usize = if total_lines > 0 { total_lines - 1 } else { 0 };
    if row < last && first_line < last - row {
        first_line + row
    } else {
        last
    }
}

// --- laws --------------------------------------------------------------------

/// The column under a byte is the one the byte belongs to: where a column
/// starts, that column is found again.
pub proof fn a_column_is_found_where_it_starts(line: Seq<char>, n: int, m: int, byte: usize)
    requires
        0 <= n <= line.len(),
        byte_len(line.take(n)) == byte,
        column_at(line, byte, m),
    ensures
        m == n,
{
    if m < n {
        assert(line.take(n).take(m + 1) =~= line.take(m + 1));
        assert(line.take(m + 1) + line.take(n).skip(m + 1) =~= line.take(n));
        byte_len_adds(line.take(m + 1), line.take(n).skip(m + 1));
    }
    if n < m {
        let rest = line.take(m).skip(n);
        assert(line.take(n) + rest =~= line.take(m));
        byte_len_adds(line.take(n), rest);
        byte_len_steps(rest);
    }
}

/// Each tab is drawn as a gap, its own icon in its own colour, and its own
/// label, bright where the tab is the active one.
pub proof fn every_tab_shows_its_label(tabs: Seq<TabLabel>, n: int, at: int)
    requires
        0 <= at < n <= tabs.len(),
    ensures
        ({
            let runs = tab_row_runs(tabs, n);
            &&& runs.len() == 3 * n
            &&& runs[3 * at].text == " "@
            &&& runs[3 * at + 1].text == seq![tabs[at].icon.ch]
            &&& runs[3 * at + 1].look == crate::rich::Look::Icon(
                tabs[at].icon,
                Paint::Own(tabs[at].icon_color),
            )
            &&& runs[3 * at + 2].text == tabs[at].label@
            &&& tabs[at].active ==> runs[3 * at + 2].look == crate::rich::Look::Colored(
                Paint::Theme(Role::Text),
            )
            &&& !tabs[at].active ==> runs[3 * at + 2].look == crate::rich::Look::Colored(
                Paint::Theme(Role::DimText),
            )
        }),
    decreases n,
{
    three_runs_a_tab(tabs, n);
    three_runs_a_tab(tabs, n - 1);
    if at < n - 1 {
        every_tab_shows_its_label(tabs, n - 1, at);
    }
}

proof fn three_runs_a_tab(tabs: Seq<TabLabel>, n: int)
    requires
        0 <= n,
    ensures
        tab_row_runs(tabs, n).len() == 3 * n,
    decreases n,
{
    if n > 0 {
        three_runs_a_tab(tabs, n - 1);
    }
}

/// Both texts of the dropdown have a line for every row, the rows that can be
/// chosen in the one and the others in the other, each on its own line.
pub proof fn a_row_stands_on_its_own_line(
    items: Seq<MenuItem>,
    recent: Seq<RecentRow>,
    enabled: Seq<bool>,
    columns: int,
    wanted: bool,
    n: int,
)
    requires
        0 <= n <= items.len() + recent.len(),
    ensures
        dropdown_text(items, recent, enabled, columns, wanted, n) == crate::text::joined(
            Seq::new(
                n as nat,
                |i: int|
                    if (i >= enabled.len() || enabled[i]) != wanted {
                        Seq::empty()
                    } else if i < items.len() {
                        entry_text(items[i], columns)
                    } else {
                        left(recent[i - items.len()].label@, columns)
                    },
            ),
            "\n"@,
        ),
    decreases n,
{
    reveal_strlit("\n");
    let row = |i: int|
        if (i >= enabled.len() || enabled[i]) != wanted {
            Seq::<char>::empty()
        } else if i < items.len() {
            entry_text(items[i], columns)
        } else {
            left(recent[i - items.len()].label@, columns)
        };
    let rows = Seq::new(n as nat, row);
    if n > 0 {
        a_row_stands_on_its_own_line(items, recent, enabled, columns, wanted, n - 1);
        let before = Seq::new((n - 1) as nat, row);
        assert(rows.drop_last() =~= before);
        let above = dropdown_text(items, recent, enabled, columns, wanted, n - 1);
        if n > 1 {
            assert(above.push('\n') =~= above + "\n"@);
        } else {
            assert(dropdown_text(items, recent, enabled, columns, wanted, n) =~= rows[0]);
        }
    }
    assert(Seq::new(
        n as nat,
        |i: int|
            if (i >= enabled.len() || enabled[i]) != wanted {
                Seq::<char>::empty()
            } else if i < items.len() {
                entry_text(items[i], columns)
            } else {
                left(recent[i - items.len()].label@, columns)
            },
    ) =~= rows);
}

/// The search box shows what is typed, and says what it is for while nothing
/// is. A caret stands behind it while it has the keyboard.
pub proof fn the_search_box_shows_what_is_typed(query: Seq<char>, focused: bool)
    ensures
        ({
            let runs = settings_search_runs(query, focused);
            &&& query.len() > 0 ==> runs[2].text == query
            &&& query.len() == 0 ==> runs[2].text == "Search settings"@
            &&& focused ==> runs.len() == 4 && runs[3].text == "\u{2588}"@
            &&& !focused ==> runs.len() == 3
        }),
{
}

/// Every section stands on its own line, by its own name; the one that is
/// picked is bright and the others are dim.
pub proof fn every_section_has_its_line(
    sections: Seq<&'static str>,
    section: Option<usize>,
    n: int,
    at: int,
)
    requires
        0 <= at < n <= sections.len(),
    ensures
        ({
            let runs = section_runs(sections, section, n);
            &&& runs.len() == 2 * n
            &&& runs[2 * at].text == sections[at]@
            &&& runs[2 * at + 1].text == seq!['\n']
            &&& section is Some && section->0 == at ==> runs[2 * at].look
                == crate::rich::Look::Colored(Paint::Theme(Role::Text))
            &&& !(section is Some && section->0 == at) ==> runs[2 * at].look
                == crate::rich::Look::Colored(Paint::Theme(Role::DimText))
        }),
    decreases n,
{
    two_runs_a_section(sections, section, n);
    two_runs_a_section(sections, section, n - 1);
    if at < n - 1 {
        every_section_has_its_line(sections, section, n - 1, at);
    }
}

proof fn two_runs_a_section(sections: Seq<&'static str>, section: Option<usize>, n: int)
    requires
        0 <= n,
    ensures
        section_runs(sections, section, n).len() == 2 * n,
    decreases n,
{
    if n > 0 {
        two_runs_a_section(sections, section, n - 1);
    }
}

/// The scope that is picked is bright, and the other one dim.
pub proof fn the_picked_scope_is_bright(scope: SettingsScope)
    ensures
        ({
            let runs = scope_runs(scope);
            let bright = crate::rich::Look::Colored(Paint::Theme(Role::Text));
            let dim = crate::rich::Look::Colored(Paint::Theme(Role::DimText));
            &&& runs[0].text == "User"@
            &&& runs[2].text == "Workspace"@
            &&& scope == SettingsScope::User ==> runs[0].look == bright && runs[2].look == dim
            &&& scope == SettingsScope::Workspace ==> runs[0].look == dim && runs[2].look
                == bright
        }),
{
}

/// The settings list begins with the row it is scrolled to, and every row from
/// there on follows in its order. Scrolled past the end it is empty.
pub proof fn the_list_begins_where_it_is_scrolled(rows: Seq<SettingsRow>, from: int, n: int)
    requires
        0 <= from,
        n <= rows.len(),
    ensures
        from >= n ==> settings_list_runs(rows, from, n).len() == 0,
        from < n ==> settings_list_runs(rows, from, n) == settings_row_runs(rows[from])
            + settings_list_runs(rows, from + 1, n),
    decreases n - from,
{
    reveal_with_fuel(settings_list_runs, 2);
    if from < n {
        if from < n - 1 {
            the_list_begins_where_it_is_scrolled(rows, from, n - 1);
        }
        assert(settings_list_runs(rows, from, n) =~= settings_row_runs(rows[from])
            + settings_list_runs(rows, from + 1, n));
    }
}

/// A row of the settings list holds its own text and ends its line.
pub proof fn a_settings_row_holds_its_text(text: String)
    ensures
        ({
            let heading = settings_row_runs(SettingsRow::Heading(text));
            let title = settings_row_runs(SettingsRow::Title(text));
            let description = settings_row_runs(SettingsRow::Description(text));
            let value = settings_row_runs(SettingsRow::Value(text));
            let blank = settings_row_runs(SettingsRow::Blank);
            &&& heading.len() == 2 && heading[0].text == text@ && heading[1].text == seq!['\n']
            &&& title.len() == 2 && title[0].text == text@ && title[1].text == seq!['\n']
            &&& description.len() == 3 && description[0].text == "  "@ && description[1].text
                == text@ && description[2].text == seq!['\n']
            &&& value.len() == 3 && value[0].text == "     "@ && value[1].text == text@
                && value[2].text == seq!['\n']
            &&& blank.len() == 1 && blank[0].text == seq!['\n']
        }),
{
}

/// The widest line is one of the lines, and none is wider.
pub proof fn no_line_is_wider_than_the_widest(lines: Seq<Seq<char>>, n: int)
    requires
        0 <= n <= lines.len(),
    ensures
        forall|i: int| 0 <= i < n ==> (#[trigger] lines[i]).len() <= widest_upto(lines, n),
        n > 0 ==> exists|i: int|
            0 <= i < n && (#[trigger] lines[i]).len() == widest_upto(lines, n),
        n == 0 ==> widest_upto(lines, n) == 0,
    decreases n,
{
    if n > 0 {
        no_line_is_wider_than_the_widest(lines, n - 1);
        if lines[n - 1].len() > widest_upto(lines, n - 1) {
            assert(lines[n - 1].len() == widest_upto(lines, n));
        } else if n > 1 {
            let i = choose|i: int|
                0 <= i < n - 1 && (#[trigger] lines[i]).len() == widest_upto(lines, n - 1);
            assert(lines[i].len() == widest_upto(lines, n));
        } else {
            assert(lines[0].len() == widest_upto(lines, n));
        }
    }
}

/// Line breaks are counted wherever they stand: those of two texts together
/// are those of the one and of the other, and one break is one.
pub proof fn breaks_add_up(a: Seq<char>, b: Seq<char>)
    ensures
        breaks(a + b) == breaks(a) + breaks(b),
        breaks(seq!['\n']) == 1,
        forall|c: char| c != '\n' ==> #[trigger] breaks(seq![c]) == 0,
        breaks(Seq::<char>::empty()) == 0,
    decreases b.len(),
{
    reveal_with_fuel(breaks, 2);
    if b.len() == 0 {
        assert(a + b =~= a);
    } else {
        assert((a + b).drop_last() =~= a + b.drop_last());
        assert((a + b).last() == b.last());
        breaks_add_up(a, b.drop_last());
    }
    assert(seq!['\n'].drop_last() =~= Seq::<char>::empty());
    assert forall|c: char| c != '\n' implies #[trigger] breaks(seq![c]) == 0 by {
        assert(seq![c].drop_last() =~= Seq::<char>::empty());
        assert(seq![c].last() == c);
    }
}

} // verus!
