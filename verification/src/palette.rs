//! Command palette: the floating, filtered command list opened from the title
//! bar's own command field or with Ctrl+Shift+P.
//!
//! Filtering keeps the registry's own order, which is already grouped by area,
//! rather than sorting by how well a command matches.

use crate::icons::Icon;
use crate::keymap::{Key, NamedKey};
use crate::rich::{colored, icon, line_break, plain, RichText, Role, Run};
use crate::text::{
    chars_of, contains, least, listed, lists, lowered, occurs, printable, printable_of, string_of,
    to_lowered,
};
use vstd::prelude::*;

verus! {

/// Rows shown without scrolling.
pub const MAX_VISIBLE_ROWS: usize = 12;

/// A command of the registry.
#[derive(Copy, Clone, Debug, PartialEq, Eq)]
pub struct CommandDescriptor {
    pub id: &'static str,
    pub display_name: &'static str,
}

/// One command still available to run, matched against the typed query.
#[derive(Copy, Clone, Debug, PartialEq, Eq)]
pub struct PaletteRow {
    pub id: &'static str,
    pub display_name: &'static str,
}

/// Whether the palette offers a command: it can run, and its name holds the
/// query, the case of letters aside.
pub open spec fn offered(
    command: CommandDescriptor,
    query: Seq<char>,
    enabled: Seq<String>,
) -> bool {
    listed(enabled, command.id@) && (query.len() == 0 || occurs(
        lowered(command.display_name@),
        lowered(query),
    ))
}

/// The rows for the commands that are offered, in the registry's order.
pub open spec fn offered_rows(
    commands: Seq<CommandDescriptor>,
    query: Seq<char>,
    enabled: Seq<String>,
) -> Seq<PaletteRow>
    decreases commands.len(),
{
    if commands.len() == 0 {
        Seq::empty()
    } else {
        let before = offered_rows(commands.drop_last(), query, enabled);
        let last = commands.last();
        if offered(last, query, enabled) {
            before.push(PaletteRow { id: last.id, display_name: last.display_name })
        } else {
            before
        }
    }
}

/// Filters `commands` to the ones among `enabled` whose display name contains
/// `query`. A command that cannot run never appears.
pub fn filter(
    commands: &Vec<CommandDescriptor>,
    query: &str,
    enabled: &Vec<String>,
) -> (r: Vec<PaletteRow>)
    ensures
        r@ == offered_rows(commands@, query@, enabled@),
{
    let typed = chars_of(query);
    let small = to_lowered(&typed);
    let mut out: Vec<PaletteRow> = Vec::new();
    assert(commands@.take(0) =~= Seq::<CommandDescriptor>::empty());
    for i in 0..commands.len()
        invariant
            typed@ == query@,
            small@ == lowered(query@),
            out@ == offered_rows(commands@.take(i as int), query@, enabled@),
    {
        let command = commands[i];
        assert(commands@.take(i + 1).drop_last() =~= commands@.take(i as int));
        if lists(enabled, command.id) {
            if typed.len() == 0 || contains(&to_lowered(&chars_of(command.display_name)), &small) {
                out.push(PaletteRow { id: command.id, display_name: command.display_name });
            }
        }
    }
    assert(commands@.take(commands.len() as int) =~= commands@);
    out
}

/// An empty query offers every command that can run.
pub proof fn an_empty_query_offers_everything_enabled(
    commands: Seq<CommandDescriptor>,
    enabled: Seq<String>,
)
    requires
        forall|i: int| 0 <= i < commands.len() ==> listed(enabled, (#[trigger] commands[i]).id@),
    ensures
        offered_rows(commands, Seq::empty(), enabled) == Seq::new(
            commands.len(),
            |i: int| PaletteRow { id: commands[i].id, display_name: commands[i].display_name },
        ),
    decreases commands.len(),
{
    let want = Seq::new(
        commands.len(),
        |i: int| PaletteRow { id: commands[i].id, display_name: commands[i].display_name },
    );
    if commands.len() > 0 {
        let rest = commands.drop_last();
        assert forall|i: int| 0 <= i < rest.len() implies listed(
            enabled,
            (#[trigger] rest[i]).id@,
        ) by {
            assert(rest[i] == commands[i]);
        }
        an_empty_query_offers_everything_enabled(rest, enabled);
        assert(commands.last() == commands[commands.len() - 1]);
        assert(offered_rows(commands, Seq::empty(), enabled) =~= want);
    } else {
        assert(offered_rows(commands, Seq::empty(), enabled) =~= want);
    }
}

/// Every row that is offered can run and matches the query.
pub proof fn every_row_can_run_and_matches(
    commands: Seq<CommandDescriptor>,
    query: Seq<char>,
    enabled: Seq<String>,
    i: int,
)
    requires
        0 <= i < offered_rows(commands, query, enabled).len(),
    ensures
        ({
            let row = offered_rows(commands, query, enabled)[i];
            &&& listed(enabled, row.id@)
            &&& query.len() == 0 || occurs(lowered(row.display_name@), lowered(query))
        }),
    decreases commands.len(),
{
    if commands.len() > 0 {
        let before = offered_rows(commands.drop_last(), query, enabled);
        if i < before.len() {
            every_row_can_run_and_matches(commands.drop_last(), query, enabled, i);
        }
    }
}

// --- the palette on screen ---------------------------------------------------

/// The palette: whether it is open, what has been typed, which row is
/// highlighted and which is under the pointer.
#[derive(Clone, Debug)]
pub struct CommandPalette {
    pub open: bool,
    pub query: Vec<char>,
    pub selected: usize,
    pub hovered: Option<usize>,
}

/// The palette in contracts.
#[verifier::ext_equal]
pub struct Palette {
    pub open: bool,
    pub query: Seq<char>,
    pub selected: usize,
    pub hovered: Option<usize>,
}

impl View for CommandPalette {
    type V = Palette;

    open spec fn view(&self) -> Palette {
        Palette {
            open: self.open,
            query: self.query@,
            selected: self.selected,
            hovered: self.hovered,
        }
    }
}

/// A palette that was just opened.
pub open spec fn opened() -> Palette {
    Palette { open: true, query: Seq::empty(), selected: 0, hovered: None }
}

/// A palette that was never opened.
pub open spec fn unopened() -> Palette {
    Palette { open: false, query: Seq::empty(), selected: 0, hovered: None }
}

/// What a key in the palette asks of the shell.
#[derive(Copy, Clone, Debug, PartialEq, Eq, Structural)]
pub enum PaletteRequest {
    /// Close it.
    Close,
    /// Run the highlighted command.
    Run,
    /// Draw it anew.
    Redraw,
    /// Nothing changed.
    Ignore,
}

/// The highlight one row down, within the rows that are shown.
pub open spec fn down(p: Palette, count: int) -> Palette {
    let shown = least(count, MAX_VISIBLE_ROWS as int);
    if shown > 0 {
        Palette { selected: least(p.selected + 1, shown - 1) as usize, ..p }
    } else {
        p
    }
}

/// The highlight one row up.
pub open spec fn up(p: Palette) -> Palette {
    Palette { selected: if p.selected > 0 { (p.selected - 1) as usize } else { 0 }, ..p }
}

/// What a key does in the open palette, with `count` commands offered.
pub open spec fn palette_step(p: Palette, key: Key, text: Option<Seq<char>>, count: int) -> (
    Palette,
    PaletteRequest,
) {
    match key {
        Key::Named(NamedKey::Escape) => (p, PaletteRequest::Close),
        Key::Named(NamedKey::Enter) => (p, PaletteRequest::Run),
        Key::Named(NamedKey::ArrowDown) => (down(p, count), PaletteRequest::Redraw),
        Key::Named(NamedKey::ArrowUp) => (up(p), PaletteRequest::Redraw),
        Key::Named(NamedKey::Backspace) => (
            Palette {
                query: if p.query.len() > 0 {
                    p.query.drop_last()
                } else {
                    p.query
                },
                selected: 0,
                ..p
            },
            PaletteRequest::Redraw,
        ),
        _ => match text {
            Some(text) => if printable(text).len() > 0 {
                (
                    Palette { query: p.query + printable(text), selected: 0, ..p },
                    PaletteRequest::Redraw,
                )
            } else {
                (p, PaletteRequest::Ignore)
            },
            None => (p, PaletteRequest::Ignore),
        },
    }
}

/// A text that may be there, as characters.
pub open spec fn opt_text(text: Option<&String>) -> Option<Seq<char>> {
    match text {
        Some(text) => Some(text@),
        None => None,
    }
}

impl CommandPalette {
    /// A palette that was never opened.
    pub fn new() -> (r: Self)
        ensures
            r@ == unopened(),
    {
        let r = CommandPalette { open: false, query: Vec::new(), selected: 0, hovered: None };
        assert(r@ =~= unopened());
        r
    }

    /// Opens it afresh.
    pub fn show(&mut self)
        ensures
            final(self)@ == opened(),
    {
        self.open = true;
        self.query = Vec::new();
        self.selected = 0;
        self.hovered = None;
        assert(self@ =~= opened());
    }

    /// Takes one key while the palette owns the keyboard. `text` is what the
    /// key types, and `count` how many commands are offered.
    pub fn key(&mut self, key: &Key, text: Option<&String>, count: usize) -> (r: PaletteRequest)
        ensures
            (final(self)@, r) == palette_step(old(self)@, *key, opt_text(text), count as int),
    {
        match key {
            Key::Named(NamedKey::Escape) => PaletteRequest::Close,
            Key::Named(NamedKey::Enter) => PaletteRequest::Run,
            Key::Named(NamedKey::ArrowDown) => {
                let shown: usize = if count < MAX_VISIBLE_ROWS { count } else { MAX_VISIBLE_ROWS };
                if shown > 0 {
                    self.selected = if self.selected < shown - 1 {
                        self.selected + 1
                    } else {
                        shown - 1
                    };
                }
                PaletteRequest::Redraw
            },
            Key::Named(NamedKey::ArrowUp) => {
                self.selected = if self.selected > 0 { self.selected - 1 } else { 0 };
                PaletteRequest::Redraw
            },
            Key::Named(NamedKey::Backspace) => {
                self.query.pop();
                self.selected = 0;
                assert(self@ =~= palette_step(
                    old(self)@,
                    *key,
                    opt_text(text),
                    count as int,
                ).0);
                PaletteRequest::Redraw
            },
            _ => {
                if let Some(text) = text {
                    let mut typed = printable_of(text.as_str());
                    if typed.len() > 0 {
                        self.query.append(&mut typed);
                        self.selected = 0;
                        return PaletteRequest::Redraw;
                    }
                }
                PaletteRequest::Ignore
            },
        }
    }

    /// The commands the palette currently offers.
    pub fn rows(&self, commands: &Vec<CommandDescriptor>, enabled: &Vec<String>) -> (r: Vec<
        PaletteRow,
    >)
        ensures
            r@ == offered_rows(commands@, self@.query, enabled@),
    {
        filter(commands, string_of(&self.query).as_str(), enabled)
    }

    /// The palette's own content: a query row, then one line per command
    /// offered, as far as the panel shows them.
    pub fn rich(&self, rows: &Vec<PaletteRow>) -> (r: RichText)
        ensures
            r@ == palette_rich(self@.query, rows@),
    {
        let mut rich = RichText::new();
        rich.icon(Icon::Search, Role::DimText);
        rich.plain(" ");
        if self.query.len() == 0 {
            rich.colored("Type a command...", Role::DimText);
        } else {
            rich.colored(string_of(&self.query).as_str(), Role::Text);
        }
        rich.colored("\u{2588}", Role::Cursor);
        let shown: usize = if rows.len() < MAX_VISIBLE_ROWS { rows.len() } else { MAX_VISIBLE_ROWS };
        assert(rich@ =~= query_row(self@.query) + command_lines(rows@, 0));
        for i in 0..shown
            invariant
                shown <= rows.len(),
                rich@ == query_row(self@.query) + command_lines(rows@, i as int),
        {
            let ghost before = rich@;
            rich.newline();
            rich.colored(rows[i].display_name, Role::Text);
            assert(rich@ =~= query_row(self@.query) + command_lines(rows@, i + 1));
        }
        rich
    }
}

/// The palette's first line: a magnifier, what has been typed, a block caret.
pub open spec fn query_row(query: Seq<char>) -> Seq<Run<Seq<char>>> {
    seq![
        icon(Icon::Search, Role::DimText),
        plain(" "@),
        if query.len() == 0 {
            colored("Type a command..."@, Role::DimText)
        } else {
            colored(query, Role::Text)
        },
        colored("\u{2588}"@, Role::Cursor),
    ]
}

/// The lines of the first `n` commands.
pub open spec fn command_lines(rows: Seq<PaletteRow>, n: int) -> Seq<Run<Seq<char>>>
    decreases n,
{
    if n <= 0 {
        Seq::empty()
    } else {
        command_lines(rows, n - 1).push(line_break()).push(
            colored(rows[n - 1].display_name@, Role::Text),
        )
    }
}

/// The palette's content.
pub open spec fn palette_rich(query: Seq<char>, rows: Seq<PaletteRow>) -> Seq<Run<Seq<char>>> {
    query_row(query) + command_lines(rows, least(rows.len() as int, MAX_VISIBLE_ROWS as int))
}

/// Moving the highlight never leaves the rows that are shown.
pub proof fn the_highlight_stays_on_a_shown_row(p: Palette, count: int)
    requires
        count > 0,
    ensures
        down(p, count).selected < least(count, MAX_VISIBLE_ROWS as int),
        p.selected < least(count, MAX_VISIBLE_ROWS as int) ==> up(p).selected < least(
            count,
            MAX_VISIBLE_ROWS as int,
        ),
{
}

// --- what is offered and what is run -----------------------------------------

/// Whether two characters are the same letter, the case of ASCII letters aside.
pub open spec fn same_letter(a: char, b: char) -> bool {
    ||| a == b
    ||| 'A' <= a <= 'Z' && b as int == a as int + 32
    ||| 'A' <= b <= 'Z' && a as int == b as int + 32
}

/// Whether a name holds a query somewhere, letter by letter.
pub open spec fn holds(name: Seq<char>, query: Seq<char>) -> bool {
    exists|at: int| #[trigger] holds_at(name, query, at)
}

/// Whether a query stands at an index of a name, letter by letter.
pub open spec fn holds_at(name: Seq<char>, query: Seq<char>, at: int) -> bool {
    &&& 0 <= at
    &&& at + query.len() <= name.len()
    &&& forall|k: int| 0 <= k < query.len() ==> same_letter(name[at + k], #[trigger] query[k])
}

proof fn letters_fold(a: char, b: char)
    ensures
        crate::text::lower(a) == crate::text::lower(b) <==> same_letter(a, b),
{
    if 'A' <= a <= 'Z' {
        assert((crate::text::lower(a)) as int == a as int + 32);
    }
    if 'A' <= b <= 'Z' {
        assert((crate::text::lower(b)) as int == b as int + 32);
    }
}

proof fn holding_is_occurring(name: Seq<char>, query: Seq<char>)
    ensures
        holds(name, query) <==> occurs(lowered(name), lowered(query)),
{
    let n = lowered(name);
    let q = lowered(query);
    if holds(name, query) {
        let at = choose|at: int| #[trigger] holds_at(name, query, at);
        assert forall|k: int| 0 <= k < q.len() implies n.subrange(at, at + q.len())[k] == q[k] by {
            assert(same_letter(name[at + k], query[k]));
            letters_fold(name[at + k], query[k]);
        }
        assert(n.subrange(at, at + q.len()) =~= q);
        assert(crate::text::at_index(n, at, q));
    }
    if occurs(n, q) {
        let at = choose|at: int| crate::text::at_index(n, at, q);
        assert forall|k: int| 0 <= k < query.len() implies same_letter(
            name[at + k],
            #[trigger] query[k],
        ) by {
            assert(n.subrange(at, at + q.len())[k] == q[k]);
            letters_fold(name[at + k], query[k]);
        }
        assert(holds_at(name, query, at));
    }
}

/// The palette offers exactly the commands that can run and whose names hold
/// what is typed, the case of letters aside, each once and in the registry's
/// order.
pub proof fn the_palette_offers_what_matches(
    commands: Seq<CommandDescriptor>,
    query: Seq<char>,
    enabled: Seq<String>,
)
    ensures
        ({
            let kept = commands.filter(
                |c: CommandDescriptor|
                    (exists|j: int| 0 <= j < enabled.len() && (#[trigger] enabled[j])@ == c.id@) && (
                    query.len() == 0 || holds(c.display_name@, query)),
            );
            let rows = offered_rows(commands, query, enabled);
            &&& rows.len() == kept.len()
            &&& forall|i: int|
                0 <= i < rows.len() ==> (#[trigger] rows[i]).id == kept[i].id
                    && rows[i].display_name == kept[i].display_name
        }),
    decreases commands.len(),
{
    reveal(Seq::filter);
    if commands.len() > 0 {
        the_palette_offers_what_matches(commands.drop_last(), query, enabled);
        holding_is_occurring(commands.last().display_name@, query);
    }
}

/// What is typed goes behind what was typed before, Backspace takes the last
/// character off, and either puts the highlight back on the first row.
pub proof fn the_palette_is_a_field(p: Palette, key: Key, text: Seq<char>, count: int)
    requires
        key is Character,
        printable(text).len() > 0,
    ensures
        ({
            let (after, request) = palette_step(p, key, Some(text), count);
            &&& after.query.take(p.query.len() as int) == p.query
            &&& after.query.skip(p.query.len() as int) == printable(text)
            &&& after.selected == 0
            &&& after.open == p.open
            &&& request == PaletteRequest::Redraw
        }),
        ({
            let (after, request) = palette_step(
                p,
                Key::Named(NamedKey::Backspace),
                None,
                count,
            );
            &&& p.query.len() > 0 ==> after.query == p.query.take(p.query.len() - 1)
            &&& p.query.len() == 0 ==> after.query.len() == 0
            &&& after.selected == 0
        }),
{
    let after = palette_step(p, key, Some(text), count).0;
    assert(after.query.take(p.query.len() as int) =~= p.query);
    assert(after.query.skip(p.query.len() as int) =~= printable(text));
    if p.query.len() > 0 {
        assert(p.query.drop_last() =~= p.query.take(p.query.len() - 1));
    }
}

/// The arrows move the highlight by one row among the twelve at most that are
/// shown, Enter runs the highlighted command, and Escape closes the palette.
pub proof fn the_arrows_walk_the_palette(p: Palette, count: int)
    requires
        0 < count <= usize::MAX,
        p.selected < count,
        p.selected < 12,
    ensures
        ({
            let shown = if count < 12 { count } else { 12 };
            let down = palette_step(p, Key::Named(NamedKey::ArrowDown), None, count);
            let up = palette_step(p, Key::Named(NamedKey::ArrowUp), None, count);
            &&& p.selected + 1 < shown ==> down.0.selected == p.selected + 1
            &&& p.selected + 1 == shown ==> down.0.selected == p.selected
            &&& p.selected > 0 ==> up.0.selected == p.selected - 1
            &&& p.selected == 0 ==> up.0.selected == 0
            &&& down.0.query == p.query && up.0.query == p.query
        }),
        palette_step(p, Key::Named(NamedKey::Enter), None, count) == (p, PaletteRequest::Run),
        palette_step(p, Key::Named(NamedKey::Escape), None, count) == (p, PaletteRequest::Close),
{
}

proof fn command_lines_are(rows: Seq<PaletteRow>, n: int, i: int)
    requires
        0 <= i < n <= rows.len(),
    ensures
        command_lines(rows, n).len() == 2 * n,
        command_lines(rows, n)[2 * i] == line_break(),
        command_lines(rows, n)[2 * i + 1] == colored(rows[i].display_name@, Role::Text),
    decreases n,
{
    if i < n - 1 {
        command_lines_are(rows, n - 1, i);
    } else if n > 1 {
        command_lines_are(rows, n - 1, n - 2);
    } else {
        assert(command_lines(rows, 0).len() == 0);
    }
}

/// The palette shows what is typed on its first line, and below it the names of
/// the commands it offers, a line to each, the first twelve of them.
pub proof fn the_palette_shows_its_commands(query: Seq<char>, rows: Seq<PaletteRow>, i: int)
    requires
        0 <= i < rows.len(),
        i < 12,
    ensures
        ({
            let runs = palette_rich(query, rows);
            let shown = if rows.len() < 12 { rows.len() as int } else { 12 };
            &&& runs.len() == 4 + 2 * shown
            &&& query.len() > 0 ==> runs[2].text == query
            &&& runs[4 + 2 * i].text == seq!['\n']
            &&& runs[4 + 2 * i + 1].text == rows[i].display_name@
        }),
{
    let shown = if rows.len() < 12 { rows.len() as int } else { 12 };
    command_lines_are(rows, shown, i);
    let lines = command_lines(rows, shown);
    let runs = palette_rich(query, rows);
    assert(runs[4 + 2 * i] == lines[2 * i]);
    assert(runs[4 + (2 * i + 1)] == lines[2 * i + 1]);
}

/// A text that may be there is read as it stands.
pub proof fn a_shortcut_is_read_as_it_stands(text: String)
    ensures
        opt_text(Some(&text)) == Some(text@),
        opt_text(None) is None,
{
}

/// The palette's field is told apart from its rows: a caret in its own colour
/// stands behind what is typed, a hint stands dim where nothing is, and the
/// commands are bright.
pub proof fn the_palettes_field_has_a_caret(query: Seq<char>, rows: Seq<PaletteRow>, i: int)
    requires
        0 <= i < rows.len(),
        i < 12,
    ensures
        ({
            let runs = palette_rich(query, rows);
            &&& runs[0] == icon(Icon::Search, Role::DimText)
            &&& query.len() > 0 ==> runs[2] == colored(query, Role::Text)
            &&& query.len() == 0 ==> runs[2] == colored("Type a command..."@, Role::DimText)
            &&& runs[3] == colored("\u{2588}"@, Role::Cursor)
            &&& runs[4 + 2 * i + 1] == colored(rows[i].display_name@, Role::Text)
        }),
{
    let shown = if rows.len() < 12 { rows.len() as int } else { 12 };
    coloured_lines(rows, shown, i);
    let lines = command_lines(rows, shown);
    let runs = palette_rich(query, rows);
    assert(runs[4 + (2 * i + 1)] == lines[2 * i + 1]);
}

proof fn coloured_lines(rows: Seq<PaletteRow>, n: int, i: int)
    requires
        0 <= i < n <= rows.len(),
    ensures
        command_lines(rows, n).len() == 2 * n,
        command_lines(rows, n)[2 * i + 1] == colored(rows[i].display_name@, Role::Text),
    decreases n,
{
    reveal_with_fuel(command_lines, 2);
    if n > 1 {
        if i < n - 1 {
            coloured_lines(rows, n - 1, i);
        } else {
            coloured_lines(rows, n - 1, 0);
        }
    }
}

} // verus!
