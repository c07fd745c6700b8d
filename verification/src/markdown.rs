//! A Markdown source file, rendered into readable text.
//!
//! This strips the punctuation Markdown uses to mean something (`**bold**`,
//! `` `code` ``, `# heading`, `- list item`, `[text](url)`) and recolours what
//! is left.  Every line of the source keeps a row of its own, so a position in
//! one is a position in the other.

use crate::rich::{colored, flat, line_break, plain, RichText, Role, Run};
use crate::text::{
    at_index, chars_of, digit, find_from, is_digit, leading_white, lines, lines_from, lines_of,
    slice, stands_at, string_of, trim_start, views, white, without_return,
};
use vstd::prelude::*;
use vstd::string::*;

verus! {

// --- one line's shape --------------------------------------------------------

/// How many times `c` stands at the beginning of a text.
pub open spec fn run_of(s: Seq<char>, c: char) -> int
    decreases s.len(),
{
    if s.len() > 0 && s[0] == c {
        1 + run_of(s.drop_first(), c)
    } else {
        0
    }
}

/// How many digits a text begins with.
pub open spec fn run_of_digits(s: Seq<char>) -> int
    decreases s.len(),
{
    if s.len() > 0 && digit(s[0]) {
        1 + run_of_digits(s.drop_first())
    } else {
        0
    }
}

fn leading(v: &Vec<char>, c: char) -> (n: usize)
    ensures
        n == run_of(v@, c),
        n <= v.len(),
{
    let mut n: usize = 0;
    assert(v@.skip(0) == v@);
    while n < v.len() && v[n] == c
        invariant
            n <= v.len(),
            run_of(v@, c) == n + run_of(v@.skip(n as int), c),
        decreases v.len() - n,
    {
        assert(v@.skip(n as int).drop_first() == v@.skip(n + 1));
        n = n + 1;
    }
    n
}

fn leading_digits(v: &Vec<char>) -> (n: usize)
    ensures
        n == run_of_digits(v@),
        n <= v.len(),
{
    let mut n: usize = 0;
    assert(v@.skip(0) == v@);
    while n < v.len() && is_digit(v[n])
        invariant
            n <= v.len(),
            run_of_digits(v@) == n + run_of_digits(v@.skip(n as int)),
        decreases v.len() - n,
    {
        assert(v@.skip(n as int).drop_first() == v@.skip(n + 1));
        n = n + 1;
    }
    n
}

/// The text of a heading line: one to six `#`, a space, then something.
pub open spec fn heading(line: Seq<char>) -> Option<Seq<char>> {
    let hashes = run_of(line, '#');
    if 1 <= hashes <= 6 && hashes + 1 < line.len() && line[hashes] == ' ' {
        Some(line.skip(hashes + 1))
    } else {
        None
    }
}

/// `line` past its `#` markers and the space after them, if it is a heading
/// line at all. One with nothing after the space is not.
pub fn heading_text(line: &str) -> (r: Option<&str>)
    ensures
        r is Some <==> heading(line@) is Some,
        r matches Some(text) ==> heading(line@) == Some(text@),
{
    let v = chars_of(line);
    let hashes = leading(&v, '#');
    if hashes == 0 || hashes > 6 {
        return None;
    }
    if hashes + 1 < v.len() && v[hashes] == ' ' {
        let text = line.substring_char(hashes + 1, v.len());
        assert(text@ == line@.skip(hashes + 1));
        Some(text)
    } else {
        None
    }
}

/// How long the list marker at the beginning of a line is, or 0 when there is
/// none: `-`, `*` or `+`, or a number with `.` or `)`, and then a space.
pub open spec fn marker_len(line: Seq<char>) -> int {
    let digits = run_of_digits(line);
    if line.len() >= 2 && (line[0] == '-' || line[0] == '*' || line[0] == '+') && line[1] == ' ' {
        2
    } else if digits > 0 && digits + 1 < line.len() && (line[digits] == '.' || line[digits] == ')')
        && line[digits + 1] == ' ' {
        digits + 2
    } else {
        0
    }
}

/// The text of a list item.
pub open spec fn list_item(line: Seq<char>) -> Option<Seq<char>> {
    if marker_len(line) > 0 {
        Some(line.skip(marker_len(line)))
    } else {
        None
    }
}

/// The text after a list marker, if `line` (already start-trimmed) has one.
pub fn list_item_text(line: &str) -> (r: Option<&str>)
    ensures
        r is Some <==> list_item(line@) is Some,
        r matches Some(text) ==> list_item(line@) == Some(text@),
{
    let v = chars_of(line);
    let mut marker: usize = 0;
    if v.len() >= 2 && (v[0] == '-' || v[0] == '*' || v[0] == '+') && v[1] == ' ' {
        marker = 2;
    } else {
        let digits = leading_digits(&v);
        if digits > 0 && digits < v.len() && digits + 1 < v.len() && (v[digits] == '.' || v[digits]
            == ')') && v[digits + 1] == ' ' {
            marker = digits + 2;
        }
    }
    if marker > 0 {
        let text = line.substring_char(marker, v.len());
        assert(text@ == line@.skip(marker as int));
        Some(text)
    } else {
        None
    }
}

/// Whether a line opens or closes a fenced block.
pub open spec fn is_fence(line: Seq<char>) -> bool {
    at_index(trim_start(line), 0, "```"@)
}

// --- inline spans ------------------------------------------------------------

/// The first place at or after `from` where `delim` stands.
pub open spec fn find(s: Seq<char>, from: int, delim: Seq<char>) -> Option<int>
    decreases s.len() + 1 - from,
{
    if from < 0 || from + delim.len() > s.len() {
        None
    } else if s.subrange(from, from + delim.len()) == delim {
        Some(from)
    } else {
        find(s, from + 1, delim)
    }
}

/// The index of `delim` starting at or after `from`, or `None` if it never
/// appears again on this line.
pub fn find_delim(chars: &Vec<char>, from: usize, delim: &str) -> (r: Option<usize>)
    ensures
        r is Some <==> find(chars@, from as int, delim@) is Some,
        r matches Some(at) ==> find(chars@, from as int, delim@) == Some(at as int) && from <= at
            && at + delim@.len() <= chars.len(),
        r matches Some(at) ==> at_index(chars@, at as int, delim@) && forall|j: int|
            from <= j < at ==> !#[trigger] at_index(chars@, j, delim@),
        r is None ==> forall|j: int| from <= j ==> !#[trigger] at_index(chars@, j, delim@),
{
    let needle = chars_of(delim);
    let mut i: usize = from;
    while needle.len() <= chars.len() && i <= chars.len() - needle.len()
        invariant
            from <= i,
            needle@ == delim@,
            find(chars@, from as int, delim@) == find(chars@, i as int, delim@),
            forall|j: int| from <= j < i ==> !#[trigger] at_index(chars@, j, delim@),
        decreases chars.len() + 1 - i,
    {
        if stands_at(chars, i, &needle) {
            return Some(i);
        }
        assert(needle.len() > 0) by {
            assert(chars@.subrange(i as int, i + 0) =~= Seq::<char>::empty());
            if needle.len() == 0 {
                assert(needle@ =~= Seq::<char>::empty());
            }
        }
        i = i + 1;
    }
    None
}

/// An inline span: what it shows, in which colour, and where the text goes on.
pub struct Span {
    pub from: int,
    pub to: int,
    pub role: Role,
    pub next: int,
}

/// The span that opens at index `i`, if one opens there and is closed again on
/// the same line. Two asterisks open bold text or nothing: they are never an
/// italic span with nothing in it.
pub open spec fn span_at(s: Seq<char>, i: int) -> Option<Span> {
    let c = s[i];
    let bold = find(s, i + 2, seq!['*', '*']);
    let single = find(s, i + 1, seq![c]);
    let close = find(s, i + 1, seq![']']);
    if pair_at(s, i) {
        match bold {
            Some(end) => Some(Span { from: i + 2, to: end, role: Role::Text, next: end + 2 }),
            None => None,
        }
    } else if (c == '*' || c == '_') && single is Some {
        Some(Span { from: i + 1, to: single->0, role: Role::DimText, next: single->0 + 1 })
    } else if c == '`' && single is Some {
        Some(Span { from: i + 1, to: single->0, role: Role::SyntaxString, next: single->0 + 1 })
    } else if c == '[' && close is Some && close->0 + 1 < s.len() && s[close->0 + 1] == '('
        && find(s, close->0 + 2, seq![')']) is Some {
        Some(
            Span {
                from: i + 1,
                to: close->0,
                role: Role::ActivityIconActive,
                next: find(s, close->0 + 2, seq![')'])->0 + 1,
            },
        )
    } else {
        None
    }
}

/// The text from `from` to `to` as a run, or nothing when it is empty.
pub open spec fn flushed(s: Seq<char>, from: int, to: int) -> Seq<Run<Seq<char>>> {
    if to > from {
        seq![colored(s.subrange(from, to), Role::Text)]
    } else {
        Seq::empty()
    }
}

/// Whether two asterisks stand at index `i`.
pub open spec fn pair_at(s: Seq<char>, i: int) -> bool {
    i + 1 < s.len() && s[i] == '*' && s[i + 1] == '*'
}

/// Where the scan goes on from an index at which no span opens: past both
/// asterisks of a pair, so that neither opens anything, and past one character
/// otherwise.
pub open spec fn past_plain(s: Seq<char>, i: int) -> int {
    if pair_at(s, i) {
        i + 2
    } else {
        i + 1
    }
}

/// The runs of a line from index `at` on, with the plain text since `from` not
/// yet written.
pub open spec fn inline_from(s: Seq<char>, from: int, at: int) -> Seq<Run<Seq<char>>>
    decreases s.len() - at,
{
    if at < 0 || at >= s.len() {
        flushed(s, from, s.len() as int)
    } else {
        match span_at(s, at) {
            Some(span) => if at < span.next <= s.len() {
                flushed(s, from, at) + seq![colored(s.subrange(span.from, span.to), span.role)]
                    + inline_from(s, span.next, span.next)
            } else {
                Seq::empty()
            },
            None => inline_from(s, from, past_plain(s, at)),
        }
    }
}

/// The runs of a line of prose.
pub open spec fn inline(s: Seq<char>) -> Seq<Run<Seq<char>>> {
    inline_from(s, 0, 0)
}

/// Where a delimiter is found.
proof fn find_bounds(s: Seq<char>, from: int, delim: Seq<char>)
    requires
        0 <= from,
    ensures
        find(s, from, delim) matches Some(at) ==> from <= at && at + delim.len() <= s.len(),
    decreases s.len() + 1 - from,
{
    if from + delim.len() <= s.len() && s.subrange(from, from + delim.len()) != delim {
        find_bounds(s, from + 1, delim);
    }
}

/// A span lies within its line and moves the scan forward.
proof fn span_bounds(s: Seq<char>, i: int)
    requires
        0 <= i < s.len(),
    ensures
        span_at(s, i) matches Some(span) ==> i < span.from <= span.to < span.next <= s.len(),
{
    find_bounds(s, i + 2, seq!['*', '*']);
    find_bounds(s, i + 1, seq![s[i]]);
    find_bounds(s, i + 1, seq![']']);
    if let Some(close) = find(s, i + 1, seq![']']) {
        find_bounds(s, close + 2, seq![')']);
    }
}

/// One inline span as found in a line.
struct Found {
    from: usize,
    to: usize,
    role: Role,
    next: usize,
}

fn find_span(chars: &Vec<char>, i: usize) -> (r: Option<Found>)
    requires
        i < chars.len(),
    ensures
        r is Some <==> span_at(chars@, i as int) is Some,
        r matches Some(found) ==> span_at(chars@, i as int) == Some(
            Span {
                from: found.from as int,
                to: found.to as int,
                role: found.role,
                next: found.next as int,
            },
        ) && i < found.from <= found.to < found.next <= chars.len(),
{
    proof {
        reveal_strlit("**");
        reveal_strlit("*");
        reveal_strlit("_");
        reveal_strlit("`");
        reveal_strlit("]");
        reveal_strlit(")");
        assert("**"@ =~= seq!['*', '*']);
        assert("*"@ =~= seq!['*']);
        assert("_"@ =~= seq!['_']);
        assert("`"@ =~= seq!['`']);
        assert("]"@ =~= seq![']']);
        assert(")"@ =~= seq![')']);
        span_bounds(chars@, i as int);
    }
    let c = chars[i];
    if c == '*' && i + 1 < chars.len() && chars[i + 1] == '*' {
        if let Some(end) = find_delim(chars, i + 2, "**") {
            return Some(Found { from: i + 2, to: end, role: Role::Text, next: end + 2 });
        }
        return None;
    }
    if c == '*' || c == '_' {
        let end = if c == '*' { find_delim(chars, i + 1, "*") } else { find_delim(chars, i + 1, "_") };
        if let Some(end) = end {
            return Some(Found { from: i + 1, to: end, role: Role::DimText, next: end + 1 });
        }
    }
    if c == '`' {
        if let Some(end) = find_delim(chars, i + 1, "`") {
            return Some(Found { from: i + 1, to: end, role: Role::SyntaxString, next: end + 1 });
        }
    }
    if c == '[' {
        if let Some(close) = find_delim(chars, i + 1, "]") {
            if close + 1 < chars.len() && chars[close + 1] == '(' {
                if let Some(paren) = find_delim(chars, close + 2, ")") {
                    return Some(
                        Found {
                            from: i + 1,
                            to: close,
                            role: Role::ActivityIconActive,
                            next: paren + 1,
                        },
                    );
                }
            }
        }
    }
    None
}

/// Appends `chars[from..to]` in the ordinary text colour, if there is any.
fn flush_plain(rich: &mut RichText, chars: &Vec<char>, from: usize, to: usize)
    requires
        from <= to <= chars.len(),
    ensures
        final(rich)@ == old(rich)@ + flushed(chars@, from as int, to as int),
{
    if to > from {
        let text = string_of(&slice(chars, from, to));
        rich.colored(text.as_str(), Role::Text);
        assert(rich@ == old(rich)@ + flushed(chars@, from as int, to as int));
    } else {
        assert(rich@ == old(rich)@ + flushed(chars@, from as int, to as int));
    }
}

/// Inline emphasis, code spans and links within one line; the address of a
/// link is dropped.
pub fn push_inline(rich: &mut RichText, line: &str)
    ensures
        final(rich)@ == old(rich)@ + inline(line@),
{
    let chars = chars_of(line);
    let mut i: usize = 0;
    let mut plain_start: usize = 0;
    while i < chars.len()
        invariant
            chars@ == line@,
            plain_start <= i <= chars.len(),
            rich@ + inline_from(chars@, plain_start as int, i as int) == old(rich)@ + inline(
                line@,
            ),
        decreases chars.len() - i,
    {
        let ghost before = rich@;
        match find_span(&chars, i) {
            Some(found) => {
                flush_plain(rich, &chars, plain_start, i);
                let text = string_of(&slice(&chars, found.from, found.to));
                rich.colored(text.as_str(), found.role);
                proof {
                    let rest = inline_from(chars@, found.next as int, found.next as int);
                    assert(before + inline_from(chars@, plain_start as int, i as int) =~= rich@
                        + rest);
                }
                i = found.next;
                plain_start = i;
            },
            None => {
                let pair = i + 1 < chars.len() && chars[i] == '*' && chars[i + 1] == '*';
                i = if pair { i + 2 } else { i + 1 };
            },
        }
    }
    flush_plain(rich, &chars, plain_start, chars.len());
}

// --- the document ------------------------------------------------------------

/// The runs of one line that is not a fence.
pub open spec fn line_runs(line: Seq<char>, fenced: bool) -> Seq<Run<Seq<char>>> {
    let trimmed = trim_start(line);
    if fenced {
        seq![colored(line, Role::SyntaxString)]
    } else {
        match heading(trimmed) {
            Some(text) => seq![colored(text, Role::SyntaxKeyword)],
            None => match list_item(trimmed) {
                Some(text) => seq![
                    plain(line.take(line.len() - trimmed.len())),
                    colored(seq!['\u{2022}', ' '], Role::DimText),
                ] + inline(text),
                None => inline(line),
            },
        }
    }
}

/// The runs of the first `n` lines, and whether a fence is open after them.
pub open spec fn rendered_lines(lines: Seq<Seq<char>>, n: int) -> (Seq<Run<Seq<char>>>, bool)
    decreases n,
{
    if n <= 0 {
        (Seq::empty(), false)
    } else {
        let (runs, fenced) = rendered_lines(lines, n - 1);
        let start = if n > 1 {
            runs.push(line_break())
        } else {
            runs
        };
        if is_fence(lines[n - 1]) {
            (start, !fenced)
        } else {
            (start + line_runs(lines[n - 1], fenced), fenced)
        }
    }
}

/// The runs of a whole document.
pub open spec fn rendered(source: Seq<char>) -> Seq<Run<Seq<char>>> {
    rendered_lines(lines(source), lines(source).len() as int).0
}

fn push_line(rich: &mut RichText, line: &Vec<char>, fenced: bool)
    ensures
        final(rich)@ == old(rich)@ + line_runs(line@, fenced),
{
    let whole = string_of(line);
    if fenced {
        rich.colored(whole.as_str(), Role::SyntaxString);
        assert(rich@ == old(rich)@ + line_runs(line@, fenced));
        return;
    }
    let indent = leading_white(line);
    let trimmed = string_of(&slice(line, indent, line.len()));
    assert(trimmed@ == trim_start(line@));
    if let Some(text) = heading_text(trimmed.as_str()) {
        rich.colored(text, Role::SyntaxKeyword);
        assert(rich@ == old(rich)@ + line_runs(line@, fenced));
        return;
    }
    if let Some(text) = list_item_text(trimmed.as_str()) {
        let head = string_of(&slice(line, 0, indent));
        assert(head@ == line@.take(line@.len() - trimmed@.len()));
        rich.plain(head.as_str());
        proof {
            reveal_strlit("\u{2022} ");
            assert("\u{2022} "@ =~= seq!['\u{2022}', ' ']);
        }
        rich.colored("\u{2022} ", Role::DimText);
        let ghost before = rich@;
        push_inline(rich, text);
        assert(rich@ =~= old(rich)@ + line_runs(line@, fenced));
        return;
    }
    push_inline(rich, whole.as_str());
}

/// Renders a Markdown document's raw text: headings, emphasis, code, list
/// bullets and link text recoloured or reshaped, everything else untouched.
pub fn render(source: &str) -> (rich: RichText)
    ensures
        rich@ == rendered(source@),
{
    let chars = chars_of(source);
    let rows = lines_of(&chars);
    let mut rich = RichText::new();
    let mut fenced = false;
    proof {
        reveal_strlit("```");
    }
    for i in 0..rows.len()
        invariant
            views(rows@) == lines(source@),
            (rich@, fenced) == rendered_lines(lines(source@), i as int),
    {
        let line = &rows[i];
        assert(line@ == views(rows@)[i as int]);
        if i > 0 {
            rich.newline();
        }
        let indent = leading_white(line);
        let ticks = chars_of("```");
        assert(trim_start(line@) == line@.skip(indent as int));
        let trimmed = slice(line, indent, line.len());
        assert(trimmed@ == trim_start(line@));
        if stands_at(&trimmed, 0, &ticks) {
            fenced = !fenced;
        } else {
            push_line(&mut rich, line, fenced);
        }
    }
    rich
}

/// No line holds a line break.
proof fn lines_hold_no_break(s: Seq<char>, from: int, i: int)
    requires
        0 <= from <= s.len(),
        0 <= i < lines_from(s, from).len(),
    ensures
        forall|k: int|
            0 <= k < lines_from(s, from)[i].len() ==> lines_from(s, from)[i][k] != '\n',
    decreases s.len() - from,
{
    crate::text::find_from_bounds(s, from, '\n');
    let at = find_from(s, from, '\n');
    if from < s.len() && at < s.len() {
        let line = without_return(s.subrange(from, at));
        assert forall|k: int| 0 <= k < line.len() implies line[k] != '\n' by {
            assert(line[k] == s[from + k]);
        }
        if i > 0 {
            lines_hold_no_break(s, at + 1, i - 1);
            assert(lines_from(s, from)[i] == lines_from(s, at + 1)[i - 1]);
        }
    } else if from < s.len() {
        assert(lines_from(s, from)[i] == s.skip(from));
        assert forall|k: int| 0 <= k < s.skip(from).len() implies s.skip(from)[k] != '\n' by {
            assert(s.skip(from)[k] == s[from + k]);
        }
    }
}

// --- what holds of every document --------------------------------------------

/// Whether a character can open a span.
pub open spec fn marker(c: char) -> bool {
    c == '*' || c == '_' || c == '`' || c == '['
}

/// How many line breaks a text holds.
pub open spec fn breaks(s: Seq<char>) -> int
    decreases s.len(),
{
    if s.len() == 0 {
        0
    } else {
        breaks(s.drop_last()) + (if s.last() == '\n' {
            1int
        } else {
            0
        })
    }
}

proof fn breaks_add(a: Seq<char>, b: Seq<char>)
    ensures
        breaks(a + b) == breaks(a) + breaks(b),
    decreases b.len(),
{
    if b.len() == 0 {
        assert(a + b == a);
    } else {
        assert((a + b).drop_last() == a + b.drop_last());
        breaks_add(a, b.drop_last());
    }
}

proof fn no_breaks(s: Seq<char>)
    requires
        forall|k: int| 0 <= k < s.len() ==> s[k] != '\n',
    ensures
        breaks(s) == 0,
    decreases s.len(),
{
    if s.len() > 0 {
        no_breaks(s.drop_last());
    }
}

proof fn flat_adds(a: Seq<Run<Seq<char>>>, b: Seq<Run<Seq<char>>>)
    ensures
        flat(a + b) == flat(a) + flat(b),
    decreases b.len(),
{
    if b.len() == 0 {
        assert(a + b == a);
    } else {
        assert((a + b).drop_last() == a + b.drop_last());
        flat_adds(a, b.drop_last());
    }
}

proof fn flat_one(run: Run<Seq<char>>)
    ensures
        flat(seq![run]) == run.text,
{
    assert(seq![run].drop_last() == Seq::<Run<Seq<char>>>::empty());
    assert(flat(Seq::<Run<Seq<char>>>::empty()) == Seq::<char>::empty());
}

/// The runs of a line hold no line break when the line holds none.
proof fn inline_has_no_breaks(s: Seq<char>, from: int, at: int)
    requires
        0 <= from <= at <= s.len(),
        forall|k: int| 0 <= k < s.len() ==> s[k] != '\n',
    ensures
        breaks(flat(inline_from(s, from, at))) == 0,
    decreases s.len() - at,
{
    if at >= s.len() {
        flushed_has_no_breaks(s, from, s.len() as int);
    } else {
        span_bounds(s, at);
        match span_at(s, at) {
            Some(span) => {
                let head = flushed(s, from, at);
                let body = seq![colored(s.subrange(span.from, span.to), span.role)];
                let rest = inline_from(s, span.next, span.next);
                flushed_has_no_breaks(s, from, at);
                no_breaks(s.subrange(span.from, span.to));
                flat_one(colored(s.subrange(span.from, span.to), span.role));
                inline_has_no_breaks(s, span.next, span.next);
                flat_adds(head, body);
                flat_adds(head + body, rest);
                breaks_add(flat(head), flat(body));
                breaks_add(flat(head + body), flat(rest));
            },
            None => inline_has_no_breaks(s, from, past_plain(s, at)),
        }
    }
}

proof fn flushed_has_no_breaks(s: Seq<char>, from: int, to: int)
    requires
        0 <= from <= to <= s.len(),
        forall|k: int| 0 <= k < s.len() ==> s[k] != '\n',
    ensures
        breaks(flat(flushed(s, from, to))) == 0,
{
    if to > from {
        no_breaks(s.subrange(from, to));
        flat_one(colored(s.subrange(from, to), Role::Text));
    } else {
        assert(flat(flushed(s, from, to)) == Seq::<char>::empty());
        assert(breaks(Seq::<char>::empty()) == 0);
    }
}

proof fn run_of_bounds(s: Seq<char>, c: char)
    ensures
        0 <= run_of(s, c) <= s.len(),
    decreases s.len(),
{
    if s.len() > 0 && s[0] == c {
        run_of_bounds(s.drop_first(), c);
    }
}

proof fn trim_start_is_a_tail(s: Seq<char>)
    ensures
        trim_start(s).len() <= s.len(),
        trim_start(s) == s.skip(s.len() - trim_start(s).len()),
    decreases s.len(),
{
    if s.len() > 0 && white(s[0]) {
        trim_start_is_a_tail(s.drop_first());
        assert(trim_start(s) == s.skip(s.len() - trim_start(s).len()));
    } else {
        assert(s.skip(0) == s);
    }
}

proof fn line_runs_have_no_breaks(line: Seq<char>, fenced: bool)
    requires
        forall|k: int| 0 <= k < line.len() ==> line[k] != '\n',
    ensures
        breaks(flat(line_runs(line, fenced))) == 0,
{
    let trimmed = trim_start(line);
    trim_start_is_a_tail(line);
    if fenced {
        no_breaks(line);
        flat_one(colored(line, Role::SyntaxString));
    } else {
        match heading(trimmed) {
            Some(text) => {
                no_breaks(text);
                flat_one(colored(text, Role::SyntaxKeyword));
            },
            None => match list_item(trimmed) {
                Some(text) => {
                    let indent = plain(line.take(line.len() - trimmed.len()));
                    let bullet = colored(seq!['\u{2022}', ' '], Role::DimText);
                    assert(seq![indent, bullet] == seq![indent] + seq![bullet]);
                    flat_one(indent);
                    flat_one(bullet);
                    flat_adds(seq![indent], seq![bullet]);
                    flat_adds(seq![indent, bullet], inline(text));
                    no_breaks(indent.text);
                    no_breaks(bullet.text);
                    breaks_add(indent.text, bullet.text);
                    breaks_add(flat(seq![indent, bullet]), flat(inline(text)));
                    inline_has_no_breaks(text, 0, 0);
                },
                None => inline_has_no_breaks(line, 0, 0),
            },
        }
    }
}

proof fn rendered_lines_break_between(source: Seq<char>, n: int)
    requires
        0 <= n <= lines(source).len(),
    ensures
        breaks(flat(rendered_lines(lines(source), n).0)) == (if n > 0 {
            n - 1
        } else {
            0
        }),
    decreases n,
{
    if n == 0 {
        assert(flat(rendered_lines(lines(source), n).0) == Seq::<char>::empty());
        assert(breaks(Seq::<char>::empty()) == 0);
    } else {
        rendered_lines_break_between(source, n - 1);
        let (runs, fenced) = rendered_lines(lines(source), n - 1);
        let line = lines(source)[n - 1];
        lines_hold_no_break(source, 0, n - 1);
        let start = if n > 1 {
            runs.push(line_break())
        } else {
            runs
        };
        if n > 1 {
            assert(start == runs + seq![line_break()]);
            flat_one(line_break());
            flat_adds(runs, seq![line_break()]);
            breaks_add(flat(runs), seq!['\n']);
            assert(seq!['\n'].drop_last() == Seq::<char>::empty());
            assert(breaks(Seq::<char>::empty()) == 0);
            assert(breaks(seq!['\n']) == 1);
        }
        if !is_fence(line) {
            line_runs_have_no_breaks(line, fenced);
            flat_adds(start, line_runs(line, fenced));
            breaks_add(flat(start), flat(line_runs(line, fenced)));
        }
    }
}

/// Every line of the source has exactly one row in the preview, fences
/// included: the rendered text holds one line break between each two lines and
/// no other.
pub proof fn every_line_keeps_its_row(source: Seq<char>)
    ensures
        breaks(flat(rendered(source))) == (if lines(source).len() > 0 {
            lines(source).len() - 1
        } else {
            0
        }),
{
    rendered_lines_break_between(source, lines(source).len() as int);
}

/// A line of prose in which no span opens is shown as it is.
pub proof fn a_line_without_spans_is_untouched(line: Seq<char>)
    requires
        forall|k: int| 0 <= k < line.len() ==> #[trigger] span_at(line, k) is None,
    ensures
        flat(inline(line)) == line,
{
    untouched_from(line, 0);
}

/// A line of prose without any of the characters that open a span is shown as
/// it is.
pub proof fn prose_without_markers_is_untouched(line: Seq<char>)
    requires
        forall|k: int| 0 <= k < line.len() ==> !marker(#[trigger] line[k]),
    ensures
        flat(inline(line)) == line,
{
    assert forall|k: int| 0 <= k < line.len() implies #[trigger] span_at(line, k) is None by {
        assert(!marker(line[k]));
    }
    untouched_from(line, 0);
}

/// An emphasis or code delimiter that is never closed is left as plain text,
/// rather than eating the rest of the line: `width` characters of it stand at
/// `at`, one or two asterisks, an underscore or a backtick, and no other marker
/// stands anywhere on the line.
pub proof fn an_unclosed_delimiter_is_plain_text(line: Seq<char>, at: int, width: int)
    requires
        1 <= width <= 2,
        0 <= at,
        at + width <= line.len(),
        line[at] == '*' || (width == 1 && (line[at] == '_' || line[at] == '`')),
        width == 2 ==> line[at + 1] == '*',
        forall|k: int|
            0 <= k < line.len() && !(at <= k < at + width) ==> !marker(#[trigger] line[k]),
    ensures
        flat(inline(line)) == line,
{
    assert forall|k: int| 0 <= k < line.len() implies #[trigger] span_at(line, k) is None by {
        if at <= k < at + width {
            let last = at + width - 1;
            never_again(line, last + 1, line[last]);
            if k < last {
                no_pair(line, last + 1);
            }
        } else {
            assert(!marker(line[k]));
        }
    }
    untouched_from(line, 0);
}

/// Two asterisks that are never closed stay as they are, whatever else is on
/// the line: neither of them opens anything, and the scan goes on behind both
/// with the two in the plain text.
pub proof fn unclosed_asterisks_open_nothing(line: Seq<char>, from: int, at: int)
    requires
        0 <= from <= at,
        pair_at(line, at),
        find(line, at + 2, seq!['*', '*']) is None,
    ensures
        span_at(line, at) is None,
        inline_from(line, from, at) == inline_from(line, from, at + 2),
{
}

/// A character that no longer occurs is not found.
proof fn never_again(s: Seq<char>, from: int, c: char)
    requires
        0 <= from,
        forall|k: int| from <= k < s.len() ==> #[trigger] s[k] != c,
    ensures
        find(s, from, seq![c]) is None,
    decreases s.len() + 1 - from,
{
    if from < s.len() {
        assert(s.subrange(from, from + 1)[0] == s[from]);
        assert(seq![c][0] == c);
        never_again(s, from + 1, c);
    }
}

/// Two asterisks are not found where there is not even one.
proof fn no_pair(s: Seq<char>, from: int)
    requires
        0 <= from,
        forall|k: int| from <= k < s.len() ==> #[trigger] s[k] != '*',
    ensures
        find(s, from, seq!['*', '*']) is None,
    decreases s.len() + 1 - from,
{
    if from + 1 < s.len() {
        assert(s.subrange(from, from + 2)[0] == s[from]);
        assert(seq!['*', '*'][0] == '*');
        no_pair(s, from + 1);
    }
}

proof fn untouched_from(line: Seq<char>, at: int)
    requires
        0 <= at <= line.len(),
        forall|k: int| 0 <= k < line.len() ==> #[trigger] span_at(line, k) is None,
    ensures
        flat(inline_from(line, 0, at)) == line,
    decreases line.len() - at,
{
    if at < line.len() {
        untouched_from(line, past_plain(line, at));
    } else if line.len() > 0 {
        flat_one(colored(line.subrange(0, line.len() as int), Role::Text));
        assert(line.subrange(0, line.len() as int) == line);
    } else {
        assert(flat(inline_from(line, 0, at)) == line);
    }
}

// --- the rows of the preview -------------------------------------------------

/// Whether `row` is the row at index `k` of a text: `k` line breaks come before
/// it, the last of them right before it, and another, or the end, follows.
pub open spec fn row_is(text: Seq<char>, k: int, row: Seq<char>) -> bool {
    exists|before: Seq<char>, after: Seq<char>|
        {
            &&& text == #[trigger] (before + row + after)
            &&& breaks(before) == k
            &&& before.len() > 0 ==> before.last() == '\n'
            &&& after.len() > 0 ==> after[0] == '\n'
            &&& breaks(row) == 0
        }
}

/// How many of the first `k` lines are fences.
pub open spec fn fences_above(lines: Seq<Seq<char>>, k: int) -> int
    decreases k,
{
    if k <= 0 {
        0
    } else {
        fences_above(lines, k - 1) + (if is_fence(lines[k - 1]) {
            1int
        } else {
            0
        })
    }
}

/// A line is a fence exactly when three backticks are the first thing on it but
/// for white space.
pub proof fn a_fence_is_three_backticks(pad: Seq<char>, rest: Seq<char>)
    requires
        forall|i: int| 0 <= i < pad.len() ==> white(#[trigger] pad[i]),
        rest.len() == 0 || !white(rest[0]),
    ensures
        is_fence(pad + rest) <==> rest.len() >= 3 && rest[0] == '`' && rest[1] == '`' && rest[2]
            == '`',
{
    crate::text::trim_start_skips(pad, rest);
    crate::text::trim_start_keeps(rest);
    reveal_strlit("```");
    if rest.len() >= 3 {
        let head = rest.subrange(0, 3);
        if is_fence(pad + rest) {
            assert(head[0] == "```"@[0]);
            assert(head[1] == "```"@[1]);
            assert(head[2] == "```"@[2]);
        } else if rest[0] == '`' && rest[1] == '`' && rest[2] == '`' {
            assert(head =~= "```"@);
        }
    }
}

proof fn fences_make_the_state(lines: Seq<Seq<char>>, k: int)
    requires
        0 <= k <= lines.len(),
    ensures
        rendered_lines(lines, k).1 <==> fences_above(lines, k) % 2 == 1,
        fences_above(lines, k) >= 0,
    decreases k,
{
    if k > 0 {
        fences_make_the_state(lines, k - 1);
    }
}

/// What is shown of one line.
spec fn shown(lines: Seq<Seq<char>>, k: int) -> Seq<Run<Seq<char>>> {
    if is_fence(lines[k]) {
        Seq::empty()
    } else {
        line_runs(lines[k], rendered_lines(lines, k).1)
    }
}

proof fn a_row_in_the_text(lines: Seq<Seq<char>>, k: int, n: int) -> (after: Seq<char>)
    requires
        0 <= k < n <= lines.len(),
    ensures
        after.len() > 0 ==> after[0] == '\n',
        ({
            let runs = rendered_lines(lines, k).0;
            let start = if k > 0 {
                runs.push(line_break())
            } else {
                runs
            };
            flat(rendered_lines(lines, n).0) == flat(start) + flat(shown(lines, k)) + after
        }),
    decreases n,
{
    let runs = rendered_lines(lines, k).0;
    let start = if k > 0 {
        runs.push(line_break())
    } else {
        runs
    };
    if n == k + 1 {
        flat_adds(start, shown(lines, k));
        assert(start + Seq::<Run<Seq<char>>>::empty() =~= start);
        assert(flat(rendered_lines(lines, n).0) =~= flat(start) + flat(shown(lines, k))
            + Seq::<char>::empty());
        Seq::empty()
    } else {
        let before = a_row_in_the_text(lines, k, n - 1);
        let above = rendered_lines(lines, n - 1).0;
        let broken = above.push(line_break());
        assert(broken =~= above + seq![line_break()]);
        flat_adds(above, seq![line_break()]);
        flat_one(line_break());
        flat_adds(broken, shown(lines, n - 1));
        assert(broken + Seq::<Run<Seq<char>>>::empty() =~= broken);
        let after = before + seq!['\n'] + flat(shown(lines, n - 1));
        assert(flat(rendered_lines(lines, n).0) =~= flat(start) + flat(shown(lines, k)) + after);
        after
    }
}

proof fn the_row_of_a_line(source: Seq<char>, k: int)
    requires
        0 <= k < lines(source).len(),
    ensures
        row_is(flat(rendered(source)), k, flat(shown(lines(source), k))),
{
    let all = lines(source);
    let n = all.len() as int;
    let after = a_row_in_the_text(all, k, n);
    let runs = rendered_lines(all, k).0;
    let start = if k > 0 {
        runs.push(line_break())
    } else {
        runs
    };
    let before = flat(start);
    let row = flat(shown(all, k));
    rendered_lines_break_between(source, k);
    lines_hold_no_break(source, 0, k);
    if k > 0 {
        assert(start =~= runs + seq![line_break()]);
        flat_adds(runs, seq![line_break()]);
        flat_one(line_break());
        breaks_add(flat(runs), seq!['\n']);
        assert(seq!['\n'].drop_last() =~= Seq::<char>::empty());
        assert(breaks(Seq::<char>::empty()) == 0);
        assert(breaks(seq!['\n']) == 1);
        assert(before.last() == '\n');
    } else {
        assert(before =~= Seq::<char>::empty());
        assert(breaks(Seq::<char>::empty()) == 0);
    }
    if is_fence(all[k]) {
        assert(row =~= Seq::<char>::empty());
        assert(breaks(Seq::<char>::empty()) == 0);
    } else {
        line_runs_have_no_breaks(all[k], rendered_lines(all, k).1);
    }
    assert(flat(rendered(source)) == before + row + after);
}

/// A line of code is shown as it stands: between an opening fence and the next,
/// the row of a line is the line, character for character, whatever white space
/// or markers it holds.
pub proof fn code_is_shown_as_it_stands(source: Seq<char>, k: int)
    requires
        0 <= k < lines(source).len(),
        !is_fence(lines(source)[k]),
        fences_above(lines(source), k) % 2 == 1,
    ensures
        row_is(flat(rendered(source)), k, lines(source)[k]),
        line_runs(lines(source)[k], true) == seq![colored(lines(source)[k], Role::SyntaxString)],
{
    fences_make_the_state(lines(source), k);
    the_row_of_a_line(source, k);
    flat_one(colored(lines(source)[k], Role::SyntaxString));
}

/// A fence leaves an empty row where it stood.
pub proof fn a_fence_leaves_an_empty_row(source: Seq<char>, k: int)
    requires
        0 <= k < lines(source).len(),
        is_fence(lines(source)[k]),
    ensures
        row_is(flat(rendered(source)), k, Seq::empty()),
{
    the_row_of_a_line(source, k);
    assert(flat(shown(lines(source), k)) =~= Seq::<char>::empty());
}

proof fn run_of_is(s: Seq<char>, c: char, n: int)
    requires
        0 <= n <= s.len(),
        forall|i: int| 0 <= i < n ==> #[trigger] s[i] == c,
        n < s.len() ==> s[n] != c,
    ensures
        run_of(s, c) == n,
    decreases n,
{
    if n > 0 {
        assert(s[0] == c);
        let t = s.drop_first();
        assert forall|i: int| 0 <= i < n - 1 implies #[trigger] t[i] == c by {
            assert(t[i] == s[i + 1]);
        }
        run_of_is(t, c, n - 1);
    }
}

proof fn run_of_digits_is(s: Seq<char>, n: int)
    requires
        0 <= n <= s.len(),
        forall|i: int| 0 <= i < n ==> digit(#[trigger] s[i]),
        n < s.len() ==> !digit(s[n]),
    ensures
        run_of_digits(s) == n,
    decreases n,
{
    if n > 0 {
        assert(digit(s[0]));
        let t = s.drop_first();
        assert forall|i: int| 0 <= i < n - 1 implies digit(#[trigger] t[i]) by {
            assert(t[i] == s[i + 1]);
        }
        run_of_digits_is(t, n - 1);
    }
}

/// A heading is shown without its marks: of a line that begins with one to six
/// `#` and a space the row is what follows, in the colour of headings. With
/// seven, or without the space, it is no heading.
pub proof fn a_heading_loses_its_hashes(
    source: Seq<char>,
    k: int,
    pad: Seq<char>,
    hashes: int,
    text: Seq<char>,
)
    requires
        0 <= k < lines(source).len(),
        fences_above(lines(source), k) % 2 == 0,
        forall|i: int| 0 <= i < pad.len() ==> white(#[trigger] pad[i]),
        1 <= hashes <= 6,
        text.len() > 0,
        lines(source)[k] == pad + (Seq::new(hashes as nat, |i: int| '#') + seq![' '] + text),
    ensures
        row_is(flat(rendered(source)), k, text),
        line_runs(lines(source)[k], false) == seq![colored(text, Role::SyntaxKeyword)],
{
    let rest = Seq::new(hashes as nat, |i: int| '#') + seq![' '] + text;
    let line = lines(source)[k];
    assert(rest[0] == '#');
    crate::text::trim_start_skips(pad, rest);
    crate::text::trim_start_keeps(rest);
    run_of_is(rest, '#', hashes);
    assert(rest.skip(hashes + 1) =~= text);
    a_fence_is_three_backticks(pad, rest);
    fences_make_the_state(lines(source), k);
    the_row_of_a_line(source, k);
    flat_one(colored(text, Role::SyntaxKeyword));
}

/// A list item is shown with a bullet for its marker, where the marker stood.
pub proof fn a_list_item_gets_a_bullet(
    source: Seq<char>,
    k: int,
    pad: Seq<char>,
    marker: Seq<char>,
    text: Seq<char>,
)
    requires
        0 <= k < lines(source).len(),
        fences_above(lines(source), k) % 2 == 0,
        forall|i: int| 0 <= i < pad.len() ==> white(#[trigger] pad[i]),
        ({
            ||| marker.len() == 2 && (marker[0] == '-' || marker[0] == '*' || marker[0] == '+')
            ||| marker.len() >= 3 && (marker[marker.len() - 2] == '.' || marker[marker.len() - 2]
                == ')') && forall|i: int| 0 <= i < marker.len() - 2 ==> digit(#[trigger] marker[i])
        }),
        marker.last() == ' ',
        lines(source)[k] == pad + (marker + text),
    ensures
        row_is(
            flat(rendered(source)),
            k,
            pad + seq!['\u{2022}', ' '] + flat(inline(text)),
        ),
{
    let rest = marker + text;
    let line = lines(source)[k];
    assert(rest[0] == marker[0]);
    assert(rest[1] == marker[1]);
    if marker.len() >= 3 {
        let n = marker.len() - 2;
        assert(digit(marker[0]));
        assert forall|i: int| 0 <= i < n implies digit(#[trigger] rest[i]) by {
            assert(digit(marker[i]));
        }
        assert(rest[n] == marker[n]);
        assert(rest[n + 1] == marker[n + 1]);
        run_of_digits_is(rest, n);
    }
    crate::text::trim_start_skips(pad, rest);
    crate::text::trim_start_keeps(rest);
    run_of_is(rest, '#', 0);
    a_fence_is_three_backticks(pad, rest);
    assert(rest.skip(marker.len() as int) =~= text);
    assert(line.take(line.len() - rest.len()) =~= pad);
    fences_make_the_state(lines(source), k);
    the_row_of_a_line(source, k);
    let indent = plain(pad);
    let bullet = colored(seq!['\u{2022}', ' '], Role::DimText);
    assert(seq![indent, bullet] =~= seq![indent] + seq![bullet]);
    flat_one(indent);
    flat_one(bullet);
    flat_adds(seq![indent], seq![bullet]);
    flat_adds(seq![indent, bullet], inline(text));
}

/// Prose is shown on its own row with its spans resolved: a line that is neither
/// code nor a fence, a heading or a list item.
pub proof fn prose_is_shown_with_its_spans(source: Seq<char>, k: int)
    requires
        0 <= k < lines(source).len(),
        !is_fence(lines(source)[k]),
        fences_above(lines(source), k) % 2 == 0,
        heading(trim_start(lines(source)[k])) is None,
        list_item(trim_start(lines(source)[k])) is None,
    ensures
        row_is(flat(rendered(source)), k, flat(inline(lines(source)[k]))),
{
    fences_make_the_state(lines(source), k);
    the_row_of_a_line(source, k);
}

// --- spans -------------------------------------------------------------------

proof fn find_is(s: Seq<char>, from: int, delim: Seq<char>, at: int)
    requires
        0 <= from <= at,
        at + delim.len() <= s.len(),
        s.subrange(at, at + delim.len()) == delim,
        forall|j: int| from <= j < at ==> #[trigger] s.subrange(j, j + delim.len()) != delim,
    ensures
        find(s, from, delim) == Some(at),
    decreases at - from,
{
    if from < at {
        assert(s.subrange(from, from + delim.len()) != delim);
        find_is(s, from + 1, delim, at);
    }
}

proof fn find_one(s: Seq<char>, from: int, c: char, at: int)
    requires
        0 <= from <= at < s.len(),
        s[at] == c,
        forall|j: int| from <= j < at ==> #[trigger] s[j] != c,
    ensures
        find(s, from, seq![c]) == Some(at),
    decreases at - from,
{
    assert(s.subrange(at, at + 1) =~= seq![c]);
    assert forall|j: int| from <= j < at implies #[trigger] s.subrange(j, j + 1) != seq![c] by {
        assert(s.subrange(j, j + 1)[0] == s[j]);
        assert(seq![c][0] == c);
        assert(s[j] != c);
    }
    find_is(s, from, seq![c], at);
}

proof fn find_in_the_rest(s: Seq<char>, n: int, from: int, delim: Seq<char>)
    requires
        0 <= n <= s.len(),
        0 <= from,
    ensures
        find(s, n + from, delim) == (match find(s.skip(n), from, delim) {
            Some(at) => Some(at + n),
            None => None,
        }),
    decreases s.len() + 1 - (n + from),
{
    let t = s.skip(n);
    if n + from + delim.len() <= s.len() {
        assert(s.subrange(n + from, n + from + delim.len()) =~= t.subrange(
            from,
            from + delim.len(),
        ));
        find_in_the_rest(s, n, from + 1, delim);
    }
}

proof fn inline_of_the_rest(s: Seq<char>, n: int, from: int, at: int)
    requires
        0 <= n <= s.len(),
        0 <= from <= at,
        n + at <= s.len(),
    ensures
        inline_from(s, n + from, n + at) == inline_from(s.skip(n), from, at),
    decreases s.len() - (n + at),
{
    let t = s.skip(n);
    if n + at >= s.len() {
        assert(s.subrange(n + from, s.len() as int) =~= t.subrange(from, t.len() as int));
    } else {
        let i = n + at;
        assert(t[at] == s[i]);
        assert(at + 1 < t.len() ==> t[at + 1] == s[i + 1]);
        find_in_the_rest(s, n, at + 2, seq!['*', '*']);
        find_in_the_rest(s, n, at + 1, seq![s[i]]);
        find_in_the_rest(s, n, at + 1, seq![']']);
        find_bounds(t, at + 1, seq![']']);
        if let Some(close) = find(t, at + 1, seq![']']) {
            find_in_the_rest(s, n, close + 2, seq![')']);
            if close + 1 < t.len() {
                assert(t[close + 1] == s[n + close + 1]);
            }
        }
        span_bounds(s, i);
        span_bounds(t, at);
        match span_at(s, i) {
            Some(span) => {
                let inner = span_at(t, at)->0;
                assert(span.from == n + inner.from && span.to == n + inner.to && span.next == n
                    + inner.next && span.role == inner.role);
                assert(s.subrange(span.from, span.to) =~= t.subrange(inner.from, inner.to));
                assert(s.subrange(n + from, i) =~= t.subrange(from, at));
                inline_of_the_rest(s, n, inner.next, inner.next);
            },
            None => {
                assert(span_at(t, at) is None);
                if past_plain(s, i) <= s.len() {
                    inline_of_the_rest(s, n, from, past_plain(t, at));
                }
            },
        }
    }
}

proof fn unmarked_is_passed(s: Seq<char>, from: int, at: int)
    requires
        0 <= from <= at <= s.len(),
        forall|k: int| from <= k < at ==> !marker(#[trigger] s[k]),
    ensures
        inline_from(s, 0, from) == inline_from(s, 0, at),
    decreases at - from,
{
    if from < at {
        assert(!marker(s[from]));
        unmarked_is_passed(s, from + 1, at);
    }
}

proof fn a_span_is_cut_out(line: Seq<char>, at: int, span: Span)
    requires
        0 <= at < line.len(),
        forall|k: int| 0 <= k < at ==> !marker(#[trigger] line[k]),
        span_at(line, at) == Some(span),
    ensures
        flat(inline(line)) == line.take(at) + line.subrange(span.from, span.to) + flat(
            inline(line.skip(span.next)),
        ),
        inline(line).contains(colored(line.subrange(span.from, span.to), span.role)),
{
    span_bounds(line, at);
    unmarked_is_passed(line, 0, at);
    inline_of_the_rest(line, span.next, 0, 0);
    let head = flushed(line, 0, at);
    let body = seq![colored(line.subrange(span.from, span.to), span.role)];
    let rest = inline(line.skip(span.next));
    assert(inline(line) == head + body + rest);
    flat_adds(head, body);
    flat_adds(head + body, rest);
    flat_one(colored(line.subrange(span.from, span.to), span.role));
    if at > 0 {
        flat_one(colored(line.subrange(0, at), Role::Text));
        assert(line.subrange(0, at) =~= line.take(at));
    } else {
        assert(flat(head) =~= line.take(at));
    }
    assert(inline(line)[head.len() as int] == body[0]);
}

/// Bold text is shown without its asterisks, in the ordinary colour: the first
/// two asterisks on a line and the next two after them are gone, what stands
/// around and between them is there, and the line goes on after them.
pub proof fn bold_text_loses_its_asterisks(line: Seq<char>, at: int, end: int)
    requires
        0 <= at,
        at + 2 <= end,
        pair_at(line, at),
        pair_at(line, end),
        forall|k: int| 0 <= k < at ==> !marker(#[trigger] line[k]),
        forall|k: int| at + 2 <= k < end ==> !#[trigger] pair_at(line, k),
    ensures
        flat(inline(line)) == line.take(at) + line.subrange(at + 2, end) + flat(
            inline(line.skip(end + 2)),
        ),
        inline(line).contains(colored(line.subrange(at + 2, end), Role::Text)),
{
    let pair = seq!['*', '*'];
    assert(line.subrange(end, end + 2) =~= pair);
    assert forall|j: int| at + 2 <= j < end implies #[trigger] line.subrange(j, j + 2) != pair by {
        assert(!pair_at(line, j));
        assert(line.subrange(j, j + 2)[0] == line[j]);
        assert(line.subrange(j, j + 2)[1] == line[j + 1]);
        assert(pair[0] == '*' && pair[1] == '*');
    }
    find_is(line, at + 2, pair, end);
    a_span_is_cut_out(
        line,
        at,
        Span { from: at + 2, to: end, role: Role::Text, next: end + 2 },
    );
}

/// Italic text and code are shown without their marks: the first asterisk,
/// underscore or backtick on a line and the next of its kind are gone, and what
/// stands between them is dimmed, or coloured as code.
pub proof fn italics_and_code_lose_their_marks(line: Seq<char>, at: int, end: int)
    requires
        0 <= at < end < line.len(),
        line[at] == '*' || line[at] == '_' || line[at] == '`',
        line[at] == '*' ==> end > at + 1,
        line[end] == line[at],
        forall|k: int| 0 <= k < at ==> !marker(#[trigger] line[k]),
        forall|k: int| at < k < end ==> #[trigger] line[k] != line[at],
    ensures
        flat(inline(line)) == line.take(at) + line.subrange(at + 1, end) + flat(
            inline(line.skip(end + 1)),
        ),
        inline(line).contains(
            colored(
                line.subrange(at + 1, end),
                if line[at] == '`' {
                    Role::SyntaxString
                } else {
                    Role::DimText
                },
            ),
        ),
{
    find_one(line, at + 1, line[at], end);
    a_span_is_cut_out(
        line,
        at,
        Span {
            from: at + 1,
            to: end,
            role: if line[at] == '`' {
                Role::SyntaxString
            } else {
                Role::DimText
            },
            next: end + 1,
        },
    );
}

/// Of a link only the text is shown: the brackets and the address are gone.
pub proof fn a_link_is_its_text(line: Seq<char>, at: int, close: int, end: int)
    requires
        0 <= at < close,
        close + 1 < end < line.len(),
        line[at] == '[',
        line[close] == ']',
        line[close + 1] == '(',
        line[end] == ')',
        forall|k: int| 0 <= k < at ==> !marker(#[trigger] line[k]),
        forall|k: int| at < k < close ==> #[trigger] line[k] != ']',
        forall|k: int| close + 1 < k < end ==> #[trigger] line[k] != ')',
    ensures
        flat(inline(line)) == line.take(at) + line.subrange(at + 1, close) + flat(
            inline(line.skip(end + 1)),
        ),
        inline(line).contains(
            colored(line.subrange(at + 1, close), Role::ActivityIconActive),
        ),
{
    find_one(line, at + 1, ']', close);
    find_one(line, close + 2, ')', end);
    a_span_is_cut_out(
        line,
        at,
        Span { from: at + 1, to: close, role: Role::ActivityIconActive, next: end + 1 },
    );
}

} // verus!
