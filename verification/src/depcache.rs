//! The dependency graph's cache file.
//!
//! A settled graph is kept between sessions as plain text: a version line, a
//! root line, a flag, and then two runs of rows, one for the files and one for
//! the edges between them.  A path comes last on its row, because a path may
//! hold spaces and nothing else on the row may.
//!
//! Reading never fails with an error.  A cache that is not exactly what this
//! version writes for this folder is no cache, and the folder is scanned again.

use crate::numbers::{
    a_single_stays_finite, is_number, kept, number_char, number_chars, single_of, single_text,
    three_places_are_kept, thousandths_only, Single,
};
use crate::text::{
    after_prefix, chars_of, decimal, decimal_of, decimal_reads_back, digit, find_from_is, lines,
    lines_from, lines_of, owned, parse_usize, parsed_usize, same, split_at_char, split_once,
    string_of, strip_prefix, texts, views,
};
use vstd::prelude::*;

verus! {

/// Where every file came to rest, and what joins the files.
///
/// Everything here depends on the scanned code alone, which is what makes it
/// worth keeping on disk.
pub struct Settled {
    /// Paths relative to the workspace, in the order everything else indexes.
    pub files: Vec<String>,
    /// `(importer, imported)` pairs, as indices into `files`.
    pub edges: Vec<(usize, usize)>,
    /// Where each file came to rest.
    pub positions: Vec<(Single, Single)>,
    /// Whether the scan stopped early because the workspace was too large.
    pub truncated: bool,
}

/// What a settled graph says.
#[verifier::ext_equal]
pub struct Plan {
    pub files: Seq<Seq<char>>,
    pub edges: Seq<(usize, usize)>,
    pub positions: Seq<(Single, Single)>,
    pub truncated: bool,
}

impl View for Settled {
    type V = Plan;

    open spec fn view(&self) -> Plan {
        Plan {
            files: texts(self.files@),
            edges: self.edges@,
            positions: self.positions@,
            truncated: self.truncated,
        }
    }
}

// --- the rows ----------------------------------------------------------------

/// The version marker on the first line.  It changes with the format, so a
/// file of another version is ignored and never misread.
pub open spec fn cache_version() -> Seq<char> {
    "lightspeed-depgraph 1"@
}

/// A position that was never given.
pub open spec fn at_rest() -> (Single, Single) {
    (Single { bits: 0 }, Single { bits: 0 })
}

/// Where the file at `at` came to rest.
pub open spec fn place(plan: Plan, at: int) -> (Single, Single) {
    if 0 <= at < plan.positions.len() {
        plan.positions[at]
    } else {
        at_rest()
    }
}

/// How a flag is written.
pub open spec fn flag(set: bool) -> Seq<char> {
    if set {
        "true"@
    } else {
        "false"@
    }
}

/// The row of one file: its position with three places, and its path.
pub open spec fn file_text(at: (Single, Single), path: Seq<char>) -> Seq<char> {
    single_text(at.0) + seq![' '] + single_text(at.1) + seq![' '] + path
}

/// The row of one edge.
pub open spec fn edge_text(edge: (usize, usize)) -> Seq<char> {
    decimal(edge.0 as nat) + seq![' '] + decimal(edge.1 as nat)
}

/// The rows before the files.
pub open spec fn head_rows(root: Seq<char>, plan: Plan) -> Seq<Seq<char>> {
    seq![
        cache_version(),
        "root "@ + root,
        "truncated "@ + flag(plan.truncated),
        "files "@ + decimal(plan.files.len()),
    ]
}

/// The rows of the files.
pub open spec fn file_rows(plan: Plan) -> Seq<Seq<char>> {
    Seq::new(plan.files.len(), |i: int| file_text(place(plan, i), plan.files[i]))
}

/// The rows of the edges.
pub open spec fn edge_rows(plan: Plan) -> Seq<Seq<char>> {
    Seq::new(plan.edges.len(), |i: int| edge_text(plan.edges[i]))
}

/// Every row of a cache file.
pub open spec fn cache_rows(root: Seq<char>, plan: Plan) -> Seq<Seq<char>> {
    head_rows(root, plan) + file_rows(plan) + seq!["edges "@ + decimal(plan.edges.len())]
        + edge_rows(plan)
}

/// The rows as text, each ended by a line feed.
pub open spec fn terminated(rows: Seq<Seq<char>>) -> Seq<char>
    decreases rows.len(),
{
    if rows.len() == 0 {
        Seq::empty()
    } else {
        terminated(rows.drop_last()) + rows.last().push('\n')
    }
}

/// One more row.
proof fn terminated_push(rows: Seq<Seq<char>>, row: Seq<char>)
    ensures
        terminated(rows.push(row)) == terminated(rows) + row.push('\n'),
{
    assert(rows.push(row).drop_last() =~= rows);
}

/// Appends a row and its line feed.
fn push_row(out: &mut String, row: &str, rows: Ghost<Seq<Seq<char>>>)
    requires
        old(out)@ == terminated(rows@),
    ensures
        final(out)@ == terminated(rows@.push(row@)),
{
    out.push_str(row);
    out.push('\n');
    proof {
        terminated_push(rows@, row@);
        assert(old(out)@ + row@.push('\n') =~= (old(out)@ + row@).push('\n'));
    }
}

/// `head` followed by a number.
fn counted(head: &str, n: usize) -> (r: String)
    ensures
        r@ == head@ + decimal(n as nat),
{
    let mut row = owned(head);
    row.push_str(decimal_of(n as u64).as_str());
    row
}

/// Writes a settled graph of the folder `root` out as text.
pub fn encode(root: &str, settled: &Settled) -> (r: String)
    ensures
        r@ == terminated(cache_rows(root@, settled@)),
{
    let ghost plan = settled@;
    let ghost mut rows: Seq<Seq<char>> = Seq::empty();
    let mut out = String::new();
    assert(out@ =~= terminated(rows));
    push_row(&mut out, "lightspeed-depgraph 1", Ghost(rows));
    proof {
        rows = rows.push(cache_version());
    }
    let mut line = owned("root ");
    line.push_str(root);
    push_row(&mut out, line.as_str(), Ghost(rows));
    proof {
        rows = rows.push("root "@ + root@);
    }
    let mut line = owned("truncated ");
    line.push_str(if settled.truncated { "true" } else { "false" });
    push_row(&mut out, line.as_str(), Ghost(rows));
    proof {
        rows = rows.push("truncated "@ + flag(plan.truncated));
    }
    push_row(&mut out, counted("files ", settled.files.len()).as_str(), Ghost(rows));
    proof {
        rows = rows.push("files "@ + decimal(plan.files.len()));
        assert(rows =~= head_rows(root@, plan) + file_rows(plan).take(0));
    }
    for i in 0..settled.files.len()
        invariant
            plan == settled@,
            rows == head_rows(root@, plan) + file_rows(plan).take(i as int),
            out@ == terminated(rows),
    {
        let (x, y) = if i < settled.positions.len() {
            settled.positions[i]
        } else {
            (Single { bits: 0 }, Single { bits: 0 })
        };
        let mut line = x.to_text();
        line.push(' ');
        line.push_str(y.to_text().as_str());
        line.push(' ');
        line.push_str(settled.files[i].as_str());
        assert(line@ =~= file_text(place(plan, i as int), plan.files[i as int]));
        push_row(&mut out, line.as_str(), Ghost(rows));
        proof {
            rows = rows.push(line@);
            assert(rows =~= head_rows(root@, plan) + file_rows(plan).take(i + 1));
        }
    }
    let ghost above = head_rows(root@, plan) + file_rows(plan) + seq![
        "edges "@ + decimal(plan.edges.len()),
    ];
    push_row(&mut out, counted("edges ", settled.edges.len()).as_str(), Ghost(rows));
    proof {
        rows = rows.push("edges "@ + decimal(plan.edges.len()));
        assert(rows =~= above + edge_rows(plan).take(0));
    }
    for i in 0..settled.edges.len()
        invariant
            plan == settled@,
            rows == above + edge_rows(plan).take(i as int),
            out@ == terminated(rows),
    {
        let edge = settled.edges[i];
        let mut line = decimal_of(edge.0 as u64);
        line.push(' ');
        line.push_str(decimal_of(edge.1 as u64).as_str());
        assert(line@ =~= edge_text(plan.edges[i as int]));
        push_row(&mut out, line.as_str(), Ghost(rows));
        proof {
            rows = rows.push(line@);
            assert(rows =~= above + edge_rows(plan).take(i + 1));
        }
    }
    assert(rows =~= cache_rows(root@, plan));
    out
}

// --- reading -----------------------------------------------------------------

/// The number on a row that begins with `head`.
pub open spec fn count_row(row: Seq<char>, head: Seq<char>) -> Option<usize> {
    match strip_prefix(row, head) {
        Some(rest) => parsed_usize(rest),
        None => None,
    }
}

/// What the row of a file says: its position, both numbers of which are finite,
/// and its path.
pub open spec fn file_row(row: Seq<char>) -> Option<(Single, Single, Seq<char>)> {
    match split_once(row, ' ') {
        Some((x, rest)) => match split_once(rest, ' ') {
            Some((y, path)) => if is_number(x) && is_number(y) && single_of(x).finite()
                && single_of(y).finite() {
                Some((single_of(x), single_of(y), path))
            } else {
                None
            },
            None => None,
        },
        None => None,
    }
}

/// What the row of an edge says; both ends lie among the `files` files.
pub open spec fn edge_row(row: Seq<char>, files: nat) -> Option<(usize, usize)> {
    match split_once(row, ' ') {
        Some((from, to)) => match (parsed_usize(from), parsed_usize(to)) {
            (Some(a), Some(b)) => if a < files && b < files {
                Some((a, b))
            } else {
                None
            },
            _ => None,
        },
        None => None,
    }
}

/// Whether `count` rows from `at` on are rows of files.
pub open spec fn files_follow(rows: Seq<Seq<char>>, at: int, count: int) -> bool {
    &&& at + count <= rows.len()
    &&& forall|i: int| 0 <= i < count ==> file_row(#[trigger] rows[at + i]) is Some
}

/// Whether `count` rows from `at` on are rows of edges among `files` files.
pub open spec fn edges_follow(rows: Seq<Seq<char>>, at: int, count: int, files: nat) -> bool {
    &&& at + count <= rows.len()
    &&& forall|i: int| 0 <= i < count ==> edge_row(#[trigger] rows[at + i], files) is Some
}

/// The settled graph that the rows of a cache file hold for the folder `root`,
/// or `None` when they are not what this version writes for it.
pub open spec fn read_rows(root: Seq<char>, rows: Seq<Seq<char>>) -> Option<Plan> {
    if rows.len() < 4 || rows[0] != cache_version() || strip_prefix(rows[1], "root "@) != Some(
        root,
    ) || strip_prefix(rows[2], "truncated "@) is None {
        None
    } else {
        match count_row(rows[3], "files "@) {
            Some(n) => if !files_follow(rows, 4, n as int) || rows.len() <= 4 + n {
                None
            } else {
                match count_row(rows[4 + n], "edges "@) {
                    Some(m) => if !edges_follow(rows, 5 + n, m as int, n as nat) {
                        None
                    } else {
                        Some(
                            Plan {
                                files: Seq::new(n as nat, |i: int| file_row(rows[4 + i]).unwrap().2),
                                edges: Seq::new(
                                    m as nat,
                                    |i: int| edge_row(rows[5 + n + i], n as nat).unwrap(),
                                ),
                                positions: Seq::new(
                                    n as nat,
                                    |i: int|
                                        (
                                            file_row(rows[4 + i]).unwrap().0,
                                            file_row(rows[4 + i]).unwrap().1,
                                        ),
                                ),
                                truncated: strip_prefix(rows[2], "truncated "@) == Some("true"@),
                            },
                        )
                    },
                    None => None,
                }
            },
            None => None,
        }
    }
}

/// The number on a row that begins with `head`.
fn count_in(row: &Vec<char>, head: &str) -> (r: Option<usize>)
    ensures
        r == count_row(row@, head@),
{
    match after_prefix(row, head) {
        Some(rest) => parse_usize(&rest),
        None => None,
    }
}

/// What the row of a file says.
fn file_in(row: &Vec<char>) -> (r: Option<(Single, Single, String)>)
    ensures
        r is Some <==> file_row(row@) is Some,
        r matches Some(f) ==> file_row(row@) == Some((f.0, f.1, f.2@)),
{
    match split_at_char(row, ' ') {
        Some((x, rest)) => match split_at_char(&rest, ' ') {
            Some((y, path)) => match (Single::parse_finite(&x), Single::parse_finite(&y)) {
                (Some(a), Some(b)) => Some((a, b, string_of(&path))),
                _ => None,
            },
            None => None,
        },
        None => None,
    }
}

/// What the row of an edge says.
fn edge_in(row: &Vec<char>, files: usize) -> (r: Option<(usize, usize)>)
    ensures
        r == edge_row(row@, files as nat),
{
    match split_at_char(row, ' ') {
        Some((from, to)) => match (parse_usize(&from), parse_usize(&to)) {
            (Some(a), Some(b)) => if a < files && b < files {
                Some((a, b))
            } else {
                None
            },
            _ => None,
        },
        None => None,
    }
}

/// Reads a settled graph back, or `None` when the text is not one that this
/// version wrote for the folder `root`. A position that is not a pair of finite
/// numbers makes the whole cache unusable.
pub fn decode(root: &str, text: &str) -> (r: Option<Settled>)
    ensures
        r is Some <==> read_rows(root@, lines(text@)) is Some,
        r matches Some(settled) ==> read_rows(root@, lines(text@)) == Some(settled@),
{
    let rows = lines_of(&chars_of(text));
    let ghost all = lines(text@);
    assert(views(rows@) == all);
    assert(forall|i: int| 0 <= i < rows.len() ==> (#[trigger] rows@[i])@ == all[i]);
    if rows.len() < 4 || !same(&rows[0], "lightspeed-depgraph 1") {
        return None;
    }
    match after_prefix(&rows[1], "root ") {
        Some(folder) => if !same(&folder, root) {
            return None;
        },
        None => {
            return None;
        },
    }
    let truncated = match after_prefix(&rows[2], "truncated ") {
        Some(word) => same(&word, "true"),
        None => {
            return None;
        },
    };
    let n = match count_in(&rows[3], "files ") {
        Some(n) => n,
        None => {
            return None;
        },
    };
    if n >= rows.len() - 4 {
        return None;
    }
    let mut files: Vec<String> = Vec::new();
    let mut positions: Vec<(Single, Single)> = Vec::new();
    for i in 0..n
        invariant
            4 + n < rows.len(),
            views(rows@) == all,
            all == lines(text@),
            all.len() == rows.len(),
            files.len() == i,
            positions.len() == i,
            read_rows(root@, all) is Some ==> files_follow(all, 4, n as int),
            forall|j: int| 0 <= j < i ==> file_row(#[trigger] all[4 + j]) is Some,
            forall|j: int|
                0 <= j < i ==> (#[trigger] files@[j])@ == file_row(all[4 + j]).unwrap().2,
            forall|j: int|
                0 <= j < i ==> (#[trigger] positions@[j]).0 == file_row(all[4 + j]).unwrap().0
                    && positions@[j].1 == file_row(all[4 + j]).unwrap().1,
    {
        assert(rows@[4 + i]@ == all[4 + i]);
        match file_in(&rows[4 + i]) {
            Some((x, y, path)) => {
                positions.push((x, y));
                files.push(path);
            },
            None => {
                assert(file_row(all[4 + i]) is None);
                return None;
            },
        }
    }
    assert(rows@[4 + n]@ == all[4 + n]);
    let m = match count_in(&rows[4 + n], "edges ") {
        Some(m) => m,
        None => {
            return None;
        },
    };
    if m > rows.len() - 5 - n {
        return None;
    }
    let mut edges: Vec<(usize, usize)> = Vec::new();
    for i in 0..m
        invariant
            5 + n + m <= rows.len(),
            views(rows@) == all,
            all == lines(text@),
            all.len() == rows.len(),
            edges.len() == i,
            read_rows(root@, all) is Some ==> edges_follow(all, 5 + n, m as int, n as nat),
            forall|j: int| 0 <= j < i ==> edge_row(#[trigger] all[5 + n + j], n as nat) is Some,
            forall|j: int|
                0 <= j < i ==> (#[trigger] edges@[j]) == edge_row(
                    all[5 + n + j],
                    n as nat,
                ).unwrap(),
    {
        assert(rows@[5 + n + i]@ == all[5 + n + i]);
        match edge_in(&rows[5 + n + i], n) {
            Some(edge) => {
                edges.push(edge);
            },
            None => {
                assert(edge_row(all[5 + n + i], n as nat) is None);
                return None;
            },
        }
    }
    let settled = Settled { files, edges, positions, truncated };
    assert(read_rows(root@, all) is Some);
    assert(settled@ =~= read_rows(root@, all).unwrap());
    Some(settled)
}

// --- what is written reads back ----------------------------------------------

/// Whether a text can stand at the end of a line: it holds no line feed, and
/// does not end in a carriage return, which reading a line would take off.
pub open spec fn one_line(s: Seq<char>) -> bool {
    &&& !s.contains('\n')
    &&& s.len() > 0 ==> s.last() != '\r'
}

/// Whether a text can stand between two spaces on a row.
pub open spec fn one_word(s: Seq<char>) -> bool {
    !s.contains('\n') && !s.contains(' ')
}

/// Whether a graph can be kept in a cache file.
pub open spec fn storable(plan: Plan) -> bool {
    &&& plan.files.len() <= usize::MAX
    &&& plan.edges.len() <= usize::MAX
    &&& plan.positions.len() == plan.files.len()
    &&& forall|i: int| 0 <= i < plan.files.len() ==> one_line(#[trigger] plan.files[i])
    &&& forall|i: int|
        0 <= i < plan.positions.len() ==> (#[trigger] plan.positions[i]).0.finite()
            && plan.positions[i].1.finite()
    &&& forall|i: int|
        0 <= i < plan.edges.len() ==> (#[trigger] plan.edges[i]).0 < plan.files.len()
            && plan.edges[i].1 < plan.files.len()
}

/// A graph with its positions as they are read after they were written.
pub open spec fn rounded(plan: Plan) -> Plan {
    Plan {
        positions: Seq::new(
            plan.positions.len(),
            |i: int| (kept(plan.positions[i].0), kept(plan.positions[i].1)),
        ),
        ..plan
    }
}

/// The text of the first rows is where the text of all of them begins.
proof fn terminated_prefix(rows: Seq<Seq<char>>, n: int)
    requires
        0 <= n <= rows.len(),
    ensures
        terminated(rows.take(n)).len() <= terminated(rows).len(),
        terminated(rows.take(n)) == terminated(rows).take(terminated(rows.take(n)).len() as int),
    decreases rows.len(),
{
    if n == rows.len() {
        assert(rows.take(n) =~= rows);
        assert(terminated(rows).take(terminated(rows).len() as int) =~= terminated(rows));
    } else {
        assert(rows.drop_last().take(n) =~= rows.take(n));
        terminated_prefix(rows.drop_last(), n);
        assert(terminated(rows.take(n)) =~= terminated(rows).take(
            terminated(rows.take(n)).len() as int,
        ));
    }
}

/// From where row `n` begins, the lines are the rows from `n` on.
proof fn lines_from_rows(rows: Seq<Seq<char>>, n: int)
    requires
        0 <= n <= rows.len(),
        forall|i: int| 0 <= i < rows.len() ==> one_line(#[trigger] rows[i]),
    ensures
        lines_from(terminated(rows), terminated(rows.take(n)).len() as int) == rows.skip(n),
    decreases rows.len() - n,
{
    let text = terminated(rows);
    let from = terminated(rows.take(n)).len() as int;
    terminated_prefix(rows, n);
    if n == rows.len() {
        assert(rows.take(n) =~= rows);
        assert(rows.skip(n) =~= Seq::<Seq<char>>::empty());
    } else {
        let row = rows[n];
        assert(one_line(row));
        assert(rows.take(n + 1).drop_last() =~= rows.take(n));
        terminated_prefix(rows, n + 1);
        let next = terminated(rows.take(n + 1)).len() as int;
        assert(next == from + row.len() + 1);
        let upto = terminated(rows.take(n + 1));
        assert(rows.take(n + 1).last() == row);
        assert(upto == terminated(rows.take(n)) + row.push('\n'));
        assert forall|k: int| 0 <= k < row.len() + 1 implies text.subrange(from, next)[k]
            == row.push('\n')[k] by {
            assert(text[from + k] == text.take(next)[from + k]);
            assert(upto[from + k] == row.push('\n')[k]);
        }
        assert(text.subrange(from, next) =~= row.push('\n'));
        assert forall|i: int| from <= i < from + row.len() implies text[i] != '\n' by {
            assert(text.subrange(from, next)[i - from] == row[i - from]);
        }
        assert(text[from + row.len()] == text.subrange(from, next)[row.len() as int]);
        find_from_is(text, from, '\n', from + row.len());
        assert(text.subrange(from, from + row.len()) =~= row);
        lines_from_rows(rows, n + 1);
        assert(rows.skip(n) =~= seq![row] + rows.skip(n + 1));
    }
}

/// The lines of a text made of rows are those rows.
pub proof fn terminated_lines(rows: Seq<Seq<char>>)
    requires
        forall|i: int| 0 <= i < rows.len() ==> one_line(#[trigger] rows[i]),
    ensures
        lines(terminated(rows)) == rows,
{
    lines_from_rows(rows, 0);
    assert(rows.take(0) =~= Seq::<Seq<char>>::empty());
    assert(rows.skip(0) =~= rows);
}

/// A decimal number holds neither a space nor a line ending.
proof fn decimal_is_plain(n: nat)
    ensures
        one_word(decimal(n)),
        one_line(decimal(n)),
        n <= usize::MAX ==> parsed_usize(decimal(n)) == Some(n as usize),
{
    decimal_reads_back(n);
    let s = decimal(n);
    assert forall|i: int| 0 <= i < s.len() implies s[i] != ' ' && s[i] != '\n' && s[i] != '\r' by {
        assert(digit(s[i]));
    }
}

/// A number holds neither a space nor a line feed.
proof fn numbers_are_words(s: Seq<char>)
    requires
        is_number(s),
    ensures
        one_word(s),
{
    number_chars(s);
    assert forall|i: int| 0 <= i < s.len() implies s[i] != ' ' && s[i] != '\n' by {
        assert(number_char(s[i]));
    }
}

/// The text before and after the first space of `word`, a space, and `rest`.
proof fn split_after_word(word: Seq<char>, rest: Seq<char>)
    requires
        !word.contains(' '),
    ensures
        split_once(word + seq![' '] + rest, ' ') == Some((word, rest)),
{
    let s = word + seq![' '] + rest;
    assert forall|i: int| 0 <= i < word.len() implies s[i] != ' ' by {
        assert(word.contains(word[i]));
    }
    assert(s[word.len() as int] == ' ');
    find_from_is(s, 0, ' ', word.len() as int);
    assert(s.take(word.len() as int) =~= word);
    assert(s.skip(word.len() as int + 1) =~= rest);
}

/// A row that begins with `head` holds the rest.
proof fn strip_head(head: Seq<char>, rest: Seq<char>)
    ensures
        strip_prefix(head + rest, head) == Some(rest),
{
    assert((head + rest).subrange(0, head.len() as int) =~= head);
    assert((head + rest).skip(head.len() as int) =~= rest);
}

/// The row of a file reads back, with what its position is read as, and is one
/// line.
proof fn file_text_reads_back(at: (Single, Single), path: Seq<char>)
    requires
        at.0.finite(),
        at.1.finite(),
        one_line(path),
    ensures
        file_row(file_text(at, path)) == Some((kept(at.0), kept(at.1), path)),
        one_line(file_text(at, path)),
{
    let x = single_text(at.0);
    let y = single_text(at.1);
    a_single_stays_finite(at.0);
    a_single_stays_finite(at.1);
    numbers_are_words(x);
    numbers_are_words(y);
    let rest = y + seq![' '] + path;
    let s = file_text(at, path);
    assert(s =~= x + seq![' '] + rest);
    split_after_word(x, rest);
    split_after_word(y, path);
    if s.contains('\n') {
        let i = choose|i: int| 0 <= i < s.len() && s[i] == '\n';
        let a = x.len() as int;
        let b = a + 1 + y.len();
        if i < a {
            assert(x.contains(x[i]));
        } else if a < i < b {
            assert(y.contains(y[i - a - 1]));
        } else if b < i {
            assert(path.contains(path[i - b - 1]));
        }
        assert(false);
    }
    if path.len() > 0 {
        assert(s.last() == path.last());
    } else {
        assert(s.last() == ' ');
    }
}

/// The row of an edge reads back, and is one line.
proof fn edge_text_reads_back(edge: (usize, usize), files: nat)
    requires
        edge.0 < files,
        edge.1 < files,
    ensures
        edge_row(edge_text(edge), files) == Some(edge),
        one_line(edge_text(edge)),
{
    decimal_is_plain(edge.0 as nat);
    decimal_is_plain(edge.1 as nat);
    decimal_reads_back(edge.1 as nat);
    let a = decimal(edge.0 as nat);
    let b = decimal(edge.1 as nat);
    split_after_word(a, b);
    let s = edge_text(edge);
    if s.contains('\n') {
        let i = choose|i: int| 0 <= i < s.len() && s[i] == '\n';
        if i < a.len() {
            assert(a.contains(a[i]));
        } else if i > a.len() {
            assert(b.contains(b[i - a.len() - 1]));
        }
        assert(false);
    }
    assert(s.last() == b.last());
}

/// A row made of a word without line endings and a text that is one line.
proof fn head_is_one_line(head: Seq<char>, rest: Seq<char>)
    requires
        opens_row(head),
        one_line(rest),
    ensures
        one_line(head + rest),
{
    let s = head + rest;
    if s.contains('\n') {
        let i = choose|i: int| 0 <= i < s.len() && s[i] == '\n';
        if i < head.len() {
            assert(head.contains(head[i]));
        } else {
            assert(rest.contains(rest[i - head.len()]));
        }
        assert(false);
    }
    if rest.len() == 0 {
        assert(s.last() == head.last());
    } else {
        assert(s.last() == rest.last());
    }
}

/// Whether a text can begin a row.
spec fn opens_row(head: Seq<char>) -> bool {
    !head.contains('\n') && head.len() > 0 && head.last() != '\r'
}

/// The fixed words of a cache file can stand on its rows.
proof fn words_open_rows()
    ensures
        opens_row(cache_version()),
        opens_row("root "@),
        opens_row("truncated "@),
        opens_row("files "@),
        opens_row("edges "@),
        opens_row("true"@),
        opens_row("false"@),
{
    reveal_strlit("lightspeed-depgraph 1");
    reveal_strlit("root ");
    reveal_strlit("truncated ");
    reveal_strlit("files ");
    reveal_strlit("edges ");
    reveal_strlit("true");
    reveal_strlit("false");
}

/// The rows before the files are lines, and so is the one before the edges.
proof fn head_rows_are_lines(root: Seq<char>, plan: Plan)
    requires
        one_line(root),
    ensures
        one_line(cache_version()),
        one_line("root "@ + root),
        one_line("truncated "@ + flag(plan.truncated)),
        one_line("files "@ + decimal(plan.files.len())),
        one_line("edges "@ + decimal(plan.edges.len())),
{
    words_open_rows();
    decimal_is_plain(plan.files.len());
    decimal_is_plain(plan.edges.len());
    head_is_one_line("root "@, root);
    head_is_one_line("truncated "@, flag(plan.truncated));
    head_is_one_line("files "@, decimal(plan.files.len()));
    head_is_one_line("edges "@, decimal(plan.edges.len()));
}

/// Every row of a cache file is one line.
proof fn cache_rows_are_lines(root: Seq<char>, plan: Plan)
    requires
        one_line(root),
        storable(plan),
    ensures
        forall|i: int|
            0 <= i < cache_rows(root, plan).len() ==> one_line(#[trigger] cache_rows(root, plan)[i]),
{
    let rows = cache_rows(root, plan);
    let n = plan.files.len() as int;
    head_rows_are_lines(root, plan);
    assert forall|i: int| 0 <= i < rows.len() implies one_line(#[trigger] rows[i]) by {
        if i < 4 {
            assert(rows[i] == head_rows(root, plan)[i]);
        } else if i < 4 + n {
            assert(rows[i] == file_text(place(plan, i - 4), plan.files[i - 4]));
            assert(plan.positions[i - 4] == place(plan, i - 4));
            file_text_reads_back(place(plan, i - 4), plan.files[i - 4]);
        } else if i == 4 + n {
            assert(rows[i] == "edges "@ + decimal(plan.edges.len()));
        } else {
            assert(rows[i] == edge_text(plan.edges[i - 5 - n]));
            edge_text_reads_back(plan.edges[i - 5 - n], plan.files.len());
        }
    }
}

/// The rows of a cache file read back.
proof fn cache_rows_read_back(root: Seq<char>, plan: Plan)
    requires
        storable(plan),
    ensures
        read_rows(root, cache_rows(root, plan)) == Some(rounded(plan)),
{
    let rows = cache_rows(root, plan);
    let n = plan.files.len() as int;
    let m = plan.edges.len() as int;
    strip_head("root "@, root);
    strip_head("truncated "@, flag(plan.truncated));
    strip_head("files "@, decimal(plan.files.len()));
    strip_head("edges "@, decimal(plan.edges.len()));
    decimal_is_plain(plan.files.len());
    decimal_is_plain(plan.edges.len());
    reveal_strlit("true");
    reveal_strlit("false");
    assert(flag(plan.truncated) == "true"@ <==> plan.truncated) by {
        if !plan.truncated {
            assert("false"@.len() != "true"@.len());
        }
    }
    assert(rows[0] == cache_version());
    assert(rows[1] == "root "@ + root);
    assert(rows[2] == "truncated "@ + flag(plan.truncated));
    assert(rows[3] == "files "@ + decimal(plan.files.len()));
    assert(rows[4 + n] == "edges "@ + decimal(plan.edges.len()));
    assert forall|i: int| 0 <= i < n implies file_row(#[trigger] rows[4 + i]) == Some(
        (kept(plan.positions[i].0), kept(plan.positions[i].1), plan.files[i]),
    ) by {
        assert(rows[4 + i] == file_text(place(plan, i), plan.files[i]));
        assert(plan.positions[i] == place(plan, i));
        file_text_reads_back(place(plan, i), plan.files[i]);
    }
    assert forall|i: int| 0 <= i < m implies edge_row(
        #[trigger] rows[5 + n + i],
        plan.files.len(),
    ) == Some(plan.edges[i]) by {
        assert(rows[5 + n + i] == edge_text(plan.edges[i]));
        edge_text_reads_back(plan.edges[i], plan.files.len());
    }
    assert(files_follow(rows, 4, n));
    assert(edges_follow(rows, 5 + n, m, plan.files.len()));
    assert(read_rows(root, rows).unwrap() =~= rounded(plan));
}

/// A graph that is written for a folder reads back for that folder: every path,
/// spaces included, every edge, the flag, and every position to the nearest
/// thousandth.
pub proof fn a_settled_graph_survives_the_round_trip(root: Seq<char>, plan: Plan)
    requires
        one_line(root),
        storable(plan),
    ensures
        read_rows(root, lines(terminated(cache_rows(root, plan)))) == Some(rounded(plan)),
{
    cache_rows_are_lines(root, plan);
    terminated_lines(cache_rows(root, plan));
    cache_rows_read_back(root, plan);
}

/// A graph whose positions have no more than three places reads back whole.
pub proof fn a_graph_of_thousandths_survives_whole(root: Seq<char>, plan: Plan)
    requires
        one_line(root),
        storable(plan),
        forall|i: int|
            0 <= i < plan.positions.len() ==> thousandths_only((#[trigger] plan.positions[i]).0)
                && thousandths_only(plan.positions[i].1),
    ensures
        read_rows(root, lines(terminated(cache_rows(root, plan)))) == Some(plan),
{
    a_settled_graph_survives_the_round_trip(root, plan);
    assert forall|i: int| 0 <= i < plan.positions.len() implies rounded(plan).positions[i]
        == plan.positions[i] by {
        three_places_are_kept(plan.positions[i].0);
        three_places_are_kept(plan.positions[i].1);
    }
    assert(rounded(plan) =~= plan);
}

/// What was written for one folder is refused for every other.
pub proof fn a_cache_of_another_folder_is_refused(
    root: Seq<char>,
    other: Seq<char>,
    rows: Seq<Seq<char>>,
)
    requires
        read_rows(root, rows) is Some,
        other != root,
    ensures
        read_rows(other, rows) is None,
{
}

/// A file whose first line is not this version's marker is refused.
pub proof fn a_cache_of_another_version_is_refused(root: Seq<char>, rows: Seq<Seq<char>>)
    requires
        rows.len() > 0,
        rows[0] != cache_version(),
    ensures
        read_rows(root, rows) is None,
{
}

/// A cache file that was cut off is refused, wherever the cut fell.
pub proof fn a_cache_that_was_cut_off_is_refused(root: Seq<char>, plan: Plan, kept: int)
    requires
        storable(plan),
        0 <= kept < cache_rows(root, plan).len(),
    ensures
        read_rows(root, cache_rows(root, plan).take(kept)) is None,
{
    let rows = cache_rows(root, plan);
    let cut = rows.take(kept);
    let n = plan.files.len() as int;
    strip_head("files "@, decimal(plan.files.len()));
    strip_head("edges "@, decimal(plan.edges.len()));
    decimal_is_plain(plan.files.len());
    decimal_is_plain(plan.edges.len());
    assert(rows[3] == "files "@ + decimal(plan.files.len()));
    assert(rows[4 + n] == "edges "@ + decimal(plan.edges.len()));
    if kept > 3 {
        assert(cut[3] == rows[3]);
    }
    if kept > 4 + n {
        assert(cut[4 + n] == rows[4 + n]);
    }
}

/// Whatever is read back, every edge joins two of its files, and every file has
/// a position with two finite numbers.
pub proof fn what_reads_back_is_whole(root: Seq<char>, rows: Seq<Seq<char>>)
    requires
        read_rows(root, rows) is Some,
    ensures
        ({
            let plan = read_rows(root, rows).unwrap();
            &&& plan.positions.len() == plan.files.len()
            &&& forall|i: int|
                0 <= i < plan.positions.len() ==> (#[trigger] plan.positions[i]).0.finite()
                    && plan.positions[i].1.finite()
            &&& forall|i: int|
                0 <= i < plan.edges.len() ==> (#[trigger] plan.edges[i]).0 < plan.files.len()
                    && plan.edges[i].1 < plan.files.len()
        }),
{
    let plan = read_rows(root, rows).unwrap();
    let n = plan.files.len() as int;
    assert forall|i: int| 0 <= i < plan.edges.len() implies (#[trigger] plan.edges[i]).0
        < plan.files.len() && plan.edges[i].1 < plan.files.len() by {
        assert(edge_row(rows[5 + n + i], n as nat) is Some);
    }
}

/// A cache file says on its rows what it is, for which folder, whether it is
/// complete and how many files follow; then every file with its place and its
/// path, in its order; then how many edges follow, and every edge by the
/// numbers of its two files.
pub proof fn a_cache_file_lists_the_graph(root: Seq<char>, plan: Plan, i: int, j: int)
    requires
        plan.positions.len() == plan.files.len(),
        0 <= i < plan.files.len(),
        0 <= j < plan.edges.len(),
    ensures
        ({
            let rows = cache_rows(root, plan);
            let n = plan.files.len() as int;
            &&& rows.len() == 5 + n + plan.edges.len()
            &&& rows[0] == "lightspeed-depgraph 1"@
            &&& rows[1] == "root "@ + root
            &&& plan.truncated ==> rows[2] == "truncated "@ + "true"@
            &&& !plan.truncated ==> rows[2] == "truncated "@ + "false"@
            &&& rows[3] == "files "@ + decimal(plan.files.len())
            &&& rows[4 + i] == single_text(plan.positions[i].0) + seq![' '] + single_text(
                plan.positions[i].1,
            ) + seq![' '] + plan.files[i]
            &&& rows[4 + n] == "edges "@ + decimal(plan.edges.len())
            &&& rows[5 + n + j] == decimal(plan.edges[j].0 as nat) + seq![' '] + decimal(
                plan.edges[j].1 as nat,
            )
        }),
{
    let rows = cache_rows(root, plan);
    let n = plan.files.len() as int;
    assert(rows[4 + i] == file_rows(plan)[i]);
    assert(rows[5 + n + j] == edge_rows(plan)[j]);
}

} // verus!
