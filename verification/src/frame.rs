//! What one frame says and shows: the text of each region, and the marks that
//! go with the document.
//!
//! A frame is made from one immutable [`Snapshot`] of the document.  How wide a
//! glyph is, and where a row lies in pixels, is only known once the text has
//! been shaped; the marks made here name the glyphs they belong to instead.

use crate::compose::{quad, text, DrawList, Drawn, Fill, Place, Quad, Region, TextRegionPlacement};
use crate::depgraph::Mark;
use crate::rich::Role;
use crate::text::{
    byte_len, byte_len_adds, byte_offset, bytes_of, decimal, decimal_of, equal, least, pad_right,
    right,
};
use vstd::prelude::*;

verus! {

/// Why a frame could not be presented.
#[derive(Copy, Clone, Debug, PartialEq, Eq, Structural)]
pub enum FrameError {
    /// The surface was lost and could not be recreated.
    SurfaceLost,
}

impl FrameError {
    /// What went wrong, in words.
    pub fn text(self) -> (r: &'static str)
        ensures
            r@ == "the drawing surface was lost"@,
    {
        match self {
            FrameError::SurfaceLost => "the drawing surface was lost",
        }
    }
}

// --- the document ------------------------------------------------------------

/// One visible line.
#[derive(Clone, Debug, PartialEq, Eq)]
pub struct SnapshotLine {
    /// Which line of the document it is, counted from 0.
    pub index: usize,
    pub text: String,
}

/// What a decoration is.
#[derive(Copy, Clone, Debug, PartialEq, Eq, Structural)]
pub enum DecorationKind {
    SearchMatch,
    /// A token of the kind with this number.
    SyntaxToken(u32),
    Other,
}

/// Part of a line that is drawn differently.
#[derive(Copy, Clone, Debug, PartialEq, Eq, Structural)]
pub struct Decoration {
    pub line: usize,
    pub start_column_chars: usize,
    pub end_column_chars: usize,
    pub kind: DecorationKind,
}

/// Part of a line that is selected.
#[derive(Copy, Clone, Debug, PartialEq, Eq, Structural)]
pub struct SelectionSpan {
    pub line: usize,
    pub start_column_chars: usize,
    pub end_column_chars: usize,
    /// Whether the selection goes on past the end of the line.
    pub includes_line_break: bool,
}

/// A caret.
#[derive(Copy, Clone, Debug, PartialEq, Eq, Structural)]
pub struct CursorMark {
    pub line: usize,
    pub column_chars: usize,
    pub primary: bool,
}

/// The visible part of a document.
#[derive(Clone, Debug, PartialEq, Eq)]
pub struct Snapshot {
    pub lines: Vec<SnapshotLine>,
    pub decorations: Vec<Decoration>,
    pub selections: Vec<SelectionSpan>,
    pub cursors: Vec<CursorMark>,
    pub first_line: usize,
    pub visible_lines: usize,
    pub total_lines: usize,
}

/// A token in the text of the whole view, by its bytes.
#[derive(Copy, Clone, Debug, PartialEq, Eq, Structural)]
pub struct SyntaxSpan {
    pub start: usize,
    pub end: usize,
    pub kind: u32,
}

/// The first `n` lines, each on a line of its own.
pub open spec fn lines_text(lines: Seq<SnapshotLine>, n: int) -> Seq<char>
    decreases n, 0int,
{
    if n <= 0 {
        Seq::empty()
    } else {
        line_lead(lines, n - 1) + lines[n - 1].text@
    }
}

/// What comes before line `n`: the lines above it, and the break after them.
pub open spec fn line_lead(lines: Seq<SnapshotLine>, n: int) -> Seq<char>
    decreases n, 1int,
{
    if n <= 0 {
        Seq::empty()
    } else {
        lines_text(lines, n).push('\n')
    }
}

/// A line number as the gutter shows it.
pub open spec fn line_number(index: usize) -> Seq<char> {
    right(decimal(least(index + 1, usize::MAX as int) as nat), 3)
}

/// The gutter beside the first `n` lines.
pub open spec fn gutter_upto(lines: Seq<SnapshotLine>, n: int, numbers: bool) -> Seq<char>
    decreases n,
{
    if n <= 0 {
        Seq::empty()
    } else {
        let above = gutter_upto(lines, n - 1, numbers);
        (if n > 1 {
            above.push('\n')
        } else {
            above
        }) + (if numbers {
            line_number(lines[n - 1].index)
        } else {
            Seq::empty()
        })
    }
}

/// Where a column of a line lies, in bytes.
pub open spec fn byte_at(line: Seq<char>, column: usize) -> nat {
    byte_len(line.take(least(column as int, line.len() as int)))
}

/// The tokens of one line among the first `m` decorations.
pub open spec fn line_spans(
    line: SnapshotLine,
    start: nat,
    decorations: Seq<Decoration>,
    m: int,
) -> Seq<SyntaxSpan>
    decreases m,
{
    if m <= 0 {
        Seq::empty()
    } else {
        let before = line_spans(line, start, decorations, m - 1);
        let d = decorations[m - 1];
        match d.kind {
            DecorationKind::SyntaxToken(kind) => if d.line == line.index {
                before.push(
                    SyntaxSpan {
                        start: (start + byte_at(line.text@, d.start_column_chars)) as usize,
                        end: (start + byte_at(line.text@, d.end_column_chars)) as usize,
                        kind,
                    },
                )
            } else {
                before
            },
            _ => before,
        }
    }
}

/// The tokens of the first `n` lines.
pub open spec fn spans_upto(lines: Seq<SnapshotLine>, n: int, decorations: Seq<Decoration>) -> Seq<
    SyntaxSpan,
>
    decreases n,
{
    if n <= 0 {
        Seq::empty()
    } else {
        spans_upto(lines, n - 1, decorations) + line_spans(
            lines[n - 1],
            byte_len(line_lead(lines, n - 1)),
            decorations,
            decorations.len() as int,
        )
    }
}

/// The text of the editor and of its gutter.
#[derive(Clone, Debug, PartialEq, Eq)]
pub struct EditorText {
    pub editor: String,
    pub gutter: String,
    pub spans: Vec<SyntaxSpan>,
}

/// One token of a line.
fn span_of(line: &SnapshotLine, start: usize, d: &Decoration, kind: u32) -> (r: SyntaxSpan)
    requires
        start + byte_len(line.text@) <= usize::MAX,
    ensures
        r == (SyntaxSpan {
            start: (start + byte_at(line.text@, d.start_column_chars)) as usize,
            end: (start + byte_at(line.text@, d.end_column_chars)) as usize,
            kind,
        }),
{
    let from = byte_offset(line.text.as_str(), d.start_column_chars);
    let to = byte_offset(line.text.as_str(), d.end_column_chars);
    proof {
        head_is_no_longer(line.text@, d.start_column_chars);
        head_is_no_longer(line.text@, d.end_column_chars);
    }
    SyntaxSpan { start: start + from, end: start + to, kind }
}

proof fn head_is_no_longer(line: Seq<char>, column: usize)
    ensures
        byte_at(line, column) <= byte_len(line),
{
    let n = least(column as int, line.len() as int);
    assert(line.take(n) + line.skip(n) =~= line);
    byte_len_adds(line.take(n), line.skip(n));
}

fn push_spans(
    spans: &mut Vec<SyntaxSpan>,
    line: &SnapshotLine,
    start: usize,
    decorations: &Vec<Decoration>,
)
    requires
        start + byte_len(line.text@) <= usize::MAX,
    ensures
        final(spans)@ == old(spans)@ + line_spans(
            *line,
            start as nat,
            decorations@,
            decorations@.len() as int,
        ),
{
    let ghost before = spans@;
    assert(before =~= before + line_spans(*line, start as nat, decorations@, 0));
    for i in 0..decorations.len()
        invariant
            start + byte_len(line.text@) <= usize::MAX,
            spans@ == before + line_spans(*line, start as nat, decorations@, i as int),
    {
        let d = &decorations[i];
        if let DecorationKind::SyntaxToken(kind) = d.kind {
            if d.line == line.index {
                let span = span_of(line, start, d, kind);
                spans.push(span);
            }
        }
        assert(spans@ =~= before + line_spans(*line, start as nat, decorations@, i + 1));
    }
}

/// The text of the editor and of its gutter, and where each token lies in it.
/// Without a document the editor holds the placeholder.
pub fn editor_text(snapshot: Option<&Snapshot>, placeholder: &str, line_numbers: bool) -> (r:
    EditorText)
    ensures
        match snapshot {
            Some(s) => {
                let n = s.lines@.len() as int;
                &&& r.editor@ == lines_text(s.lines@, n)
                &&& r.gutter@ == gutter_upto(s.lines@, n, line_numbers)
                &&& r.spans@ == spans_upto(s.lines@, n, s.decorations@)
            },
            None => r.editor@ == placeholder@ && r.gutter@.len() == 0 && r.spans@.len() == 0,
        },
{
    let mut editor = String::new();
    let mut gutter = String::new();
    let mut spans: Vec<SyntaxSpan> = Vec::new();
    match snapshot {
        Some(s) => {
            for i in 0..s.lines.len()
                invariant
                    editor@ == lines_text(s.lines@, i as int),
                    gutter@ == gutter_upto(s.lines@, i as int, line_numbers),
                    spans@ == spans_upto(s.lines@, i as int, s.decorations@),
            {
                if i > 0 {
                    editor.push('\n');
                    gutter.push('\n');
                }
                assert(editor@ == line_lead(s.lines@, i as int));
                let start = bytes_of(editor.as_str());
                let line = &s.lines[i];
                editor.push_str(line.text.as_str());
                let end = bytes_of(editor.as_str());
                proof {
                    byte_len_adds(line_lead(s.lines@, i as int), line.text@);
                }
                push_spans(&mut spans, line, start, &s.decorations);
                if line_numbers {
                    let number: usize = if line.index < usize::MAX {
                        line.index + 1
                    } else {
                        line.index
                    };
                    gutter.push_str(pad_right(decimal_of(number as u64).as_str(), 3).as_str());
                } else {
                    assert(gutter@ =~= gutter@ + Seq::<char>::empty());
                }
            }
        },
        None => {
            editor.push_str(placeholder);
            assert(editor@ =~= placeholder@);
        },
    }
    EditorText { editor, gutter, spans }
}

// --- marks -------------------------------------------------------------------

/// Which rows of the view are on screen, at least in part.
#[derive(Copy, Clone, Debug, PartialEq, Eq, Structural)]
pub struct OnScreen {
    pub from: usize,
    pub to: usize,
}

/// The row of the view a line is in, when it is not above it.
pub open spec fn row_of(first_line: usize, line: usize) -> Option<usize> {
    if line >= first_line {
        Some((line - first_line) as usize)
    } else {
        None
    }
}

/// Whether a row is on screen.
pub open spec fn seen(screen: OnScreen, row: usize) -> bool {
    screen.from <= row < screen.to
}

/// The line the caret is on, unless something is selected.
pub open spec fn current_line_quads(s: Snapshot, screen: OnScreen) -> Seq<Quad> {
    if s.selections@.len() == 0 && s.cursors@.len() > 0 {
        match row_of(s.first_line, s.cursors@[0].line) {
            Some(row) => if seen(screen, row) {
                seq![quad(Place::TextRow(row), Fill::CurrentLine)]
            } else {
                Seq::empty()
            },
            None => Seq::empty(),
        }
    } else {
        Seq::empty()
    }
}

/// The glyphs of part of a line, when it is on screen.
pub open spec fn glyphs_at(
    s: Snapshot,
    screen: OnScreen,
    line: usize,
    start: usize,
    end: usize,
) -> Option<Place> {
    match row_of(s.first_line, line) {
        Some(row) => if row < s.lines@.len() && seen(screen, row) {
            let shown = s.lines@[row as int].text@;
            Some(
                Place::Glyphs {
                    row,
                    start: byte_at(shown, start) as usize,
                    end: byte_at(shown, end) as usize,
                },
            )
        } else {
            None
        },
        None => None,
    }
}

/// The matches of a search among the first `n` decorations.
pub open spec fn match_quads(s: Snapshot, screen: OnScreen, n: int) -> Seq<Quad>
    decreases n,
{
    if n <= 0 {
        Seq::empty()
    } else {
        let before = match_quads(s, screen, n - 1);
        let d = s.decorations@[n - 1];
        match glyphs_at(s, screen, d.line, d.start_column_chars, d.end_column_chars) {
            Some(place) => if d.kind == DecorationKind::SearchMatch {
                before.push(quad(place, Fill::SearchMatch))
            } else {
                before
            },
            None => before,
        }
    }
}

/// One selected part of a line, and the line break after it.
pub open spec fn selection_quads(s: Snapshot, screen: OnScreen, span: SelectionSpan) -> Seq<Quad> {
    match glyphs_at(s, screen, span.line, span.start_column_chars, span.end_column_chars) {
        Some(place) => seq![quad(place, Fill::Selection)] + (if span.includes_line_break {
            seq![
                quad(
                    Place::LineBreak(row_of(s.first_line, span.line)->0),
                    Fill::Selection,
                ),
            ]
        } else {
            Seq::empty()
        }),
        None => Seq::empty(),
    }
}

/// The first `n` selected parts.
pub open spec fn selections_quads(s: Snapshot, screen: OnScreen, n: int) -> Seq<Quad>
    decreases n,
{
    if n <= 0 {
        Seq::empty()
    } else {
        selections_quads(s, screen, n - 1) + selection_quads(s, screen, s.selections@[n - 1])
    }
}

/// The primary caret among the first cursors from `n` on.
pub open spec fn primary_from(cursors: Seq<CursorMark>, n: int) -> Option<CursorMark>
    decreases cursors.len() - n,
{
    if n < 0 || n >= cursors.len() {
        None
    } else if cursors[n].primary {
        Some(cursors[n])
    } else {
        primary_from(cursors, n + 1)
    }
}

/// The caret, while it is in its visible half.
pub open spec fn caret_quads(s: Snapshot, screen: OnScreen, visible: bool) -> Seq<Quad> {
    match primary_from(s.cursors@, 0) {
        Some(cursor) => match row_of(s.first_line, cursor.line) {
            Some(row) => if visible && row < s.lines@.len() && seen(screen, row) {
                seq![
                    quad(
                        Place::Caret {
                            row,
                            byte: byte_at(
                                s.lines@[row as int].text@,
                                cursor.column_chars,
                            ) as usize,
                        },
                        Fill::Cursor,
                    ),
                ]
            } else {
                Seq::empty()
            },
            None => Seq::empty(),
        },
        None => Seq::empty(),
    }
}

/// The scrollbar, when there is anything to scroll.
pub open spec fn scrollbar_quads(s: Snapshot) -> Seq<Quad> {
    if s.total_lines > s.visible_lines {
        seq![quad(Place::ScrollTrack, Fill::TabBar), quad(Place::ScrollThumb, Fill::Scrollbar)]
    } else {
        Seq::empty()
    }
}

/// Every mark of the document, bottom to top: the current match's selection is
/// drawn over its match, and the caret over both.
pub open spec fn document_quads(s: Snapshot, screen: OnScreen, caret: bool) -> Seq<Quad> {
    current_line_quads(s, screen) + match_quads(s, screen, s.decorations@.len() as int)
        + selections_quads(s, screen, s.selections@.len() as int) + caret_quads(
        s,
        screen,
        caret,
    ) + scrollbar_quads(s)
}

/// What the settings screen shows of one setting.
#[derive(Clone, Debug, PartialEq, Eq)]
pub enum ControlShape {
    /// A switch, and whether it is on.
    Switch(bool),
    /// Choices, which of them is current, and how many are laid out.
    Choices { options: Vec<String>, current: String, placed: usize },
    /// A field for the setting with this key.
    Field(String),
}

/// One setting of the list.
#[derive(Clone, Debug, PartialEq, Eq)]
pub struct ControlMark {
    /// Whether its control lies within the list at all.
    pub in_list: bool,
    pub shape: ControlShape,
    /// Whether it can be put back to its default.
    pub reset: bool,
}

/// The settings screen's marks.
#[derive(Clone, Debug, PartialEq, Eq)]
pub struct SettingsMarks {
    /// The section picked on the left, and how many are laid out.
    pub section: Option<usize>,
    pub sections: usize,
    /// The key of the field being typed into.
    pub editing: Option<String>,
    pub controls: Vec<ControlMark>,
}

/// The first `n` choices of a setting.
pub open spec fn choice_quads(at: usize, options: Seq<String>, current: Seq<char>, n: int) -> Seq<
    Quad,
>
    decreases n,
{
    if n <= 0 {
        Seq::empty()
    } else {
        choice_quads(at, options, current, n - 1).push(
            quad(
                Place::Choice(at, (n - 1) as usize),
                if options[n - 1]@ == current {
                    Fill::Cursor
                } else {
                    Fill::OverlayBackground
                },
            ),
        )
    }
}

/// One setting's control.
pub open spec fn control_quads(at: usize, mark: ControlMark, editing: Option<String>) -> Seq<Quad> {
    if !mark.in_list {
        Seq::empty()
    } else {
        (match mark.shape {
            ControlShape::Switch(on) => if on {
                seq![
                    quad(Place::Control(at), Fill::OverlayBorder),
                    quad(Place::ControlDot(at), Fill::Cursor),
                ]
            } else {
                seq![quad(Place::Control(at), Fill::OverlayBorder)]
            },
            ControlShape::Choices { options, current, placed } => choice_quads(
                at,
                options@,
                current@,
                least(options@.len() as int, placed as int),
            ),
            ControlShape::Field(key) => seq![
                quad(
                    Place::Control(at),
                    if editing is Some && editing->0@ == key@ {
                        Fill::OverlayBorder
                    } else {
                        Fill::OverlayBackground
                    },
                ),
            ],
        }) + (if mark.reset {
            seq![quad(Place::Reset(at), Fill::OverlayBackground)]
        } else {
            Seq::empty()
        })
    }
}

/// The first `n` settings' controls.
pub open spec fn controls_quads(marks: SettingsMarks, n: int) -> Seq<Quad>
    decreases n,
{
    if n <= 0 {
        Seq::empty()
    } else {
        controls_quads(marks, n - 1) + control_quads(
            (n - 1) as usize,
            marks.controls@[n - 1],
            marks.editing,
        )
    }
}

/// The settings screen.
pub open spec fn settings_quads(marks: SettingsMarks) -> Seq<Quad> {
    seq![quad(Place::SettingsSearch, Fill::OverlayBackground)] + (match marks.section {
        Some(at) => if at < marks.sections {
            seq![quad(Place::SettingsSection(at), Fill::SidebarSelected)]
        } else {
            Seq::empty()
        },
        None => Seq::empty(),
    }) + controls_quads(marks, marks.controls@.len() as int)
}

/// What stands in the editor area.
#[derive(Clone, Debug, PartialEq, Eq)]
pub enum EditorArea {
    /// A document, or the placeholder.
    Document(Option<Snapshot>),
    /// The dependency view, and what is drawn of the graph, from the bottom up.
    Graph(Vec<Mark>),
    /// The settings screen.
    Settings(SettingsMarks),
}

/// The editor area of one frame.
#[derive(Clone, Debug, PartialEq, Eq)]
pub struct EditorFrame {
    pub area: EditorArea,
    pub line_numbers: bool,
    pub caret_visible: bool,
    pub screen: OnScreen,
}

/// The fill of a mark of the dependency graph: what is traced stands out, and
/// so does a file that nothing imports.
pub open spec fn mark_fill(mark: Mark) -> Fill {
    match mark {
        Mark::Stroke { lit, .. } => if lit {
            Fill::GraphTraced
        } else {
            Fill::GraphEdge
        },
        Mark::Ring { .. } => Fill::GraphTraced,
        Mark::Circle { imported, .. } => if imported {
            Fill::GraphFile
        } else {
            Fill::GraphEntry
        },
    }
}

/// The dependency graph.
pub open spec fn graph_quads(marks: Seq<Mark>) -> Seq<Quad> {
    Seq::new(marks.len(), |i: int| quad(Place::GraphMark(marks[i]), mark_fill(marks[i])))
}

/// The quads of the editor area.
pub open spec fn area_quads(frame: EditorFrame) -> Seq<Quad> {
    match frame.area {
        EditorArea::Document(Some(s)) => document_quads(s, frame.screen, frame.caret_visible),
        EditorArea::Document(None) => Seq::empty(),
        EditorArea::Graph(marks) => graph_quads(marks@),
        EditorArea::Settings(marks) => settings_quads(marks),
    }
}

/// The text of the editor area.
pub open spec fn area_text(frame: EditorFrame) -> Seq<TextRegionPlacement> {
    match frame.area {
        EditorArea::Document(Some(_)) => if frame.line_numbers {
            seq![
                text(Region::Editor, Place::Text, Role::Text),
                text(Region::Gutter, Place::Gutter, Role::GutterText),
            ]
        } else {
            seq![text(Region::Editor, Place::Text, Role::Text)]
        },
        EditorArea::Document(None) => seq![text(Region::Editor, Place::Text, Role::DimText)],
        EditorArea::Graph(_) => seq![text(Region::DependencyGraph, Place::Text, Role::Text)],
        EditorArea::Settings(_) => seq![
            text(Region::SettingsSearch, Place::SettingsSearch, Role::Text),
            text(Region::SettingsCategories, Place::SettingsCategories, Role::DimText),
            text(Region::SettingsList, Place::SettingsList, Role::Text),
        ],
    }
}

fn row_in_view(first_line: usize, line: usize) -> (r: Option<usize>)
    ensures
        r == row_of(first_line, line),
{
    if line >= first_line {
        Some(line - first_line)
    } else {
        None
    }
}

fn glyphs_in(s: &Snapshot, screen: OnScreen, line: usize, start: usize, end: usize) -> (r: Option<
    Place,
>)
    ensures
        r == glyphs_at(*s, screen, line, start, end),
{
    match row_in_view(s.first_line, line) {
        Some(row) => if row < s.lines.len() && screen.from <= row && row < screen.to {
            let shown = s.lines[row].text.as_str();
            Some(
                Place::Glyphs {
                    row,
                    start: byte_offset(shown, start),
                    end: byte_offset(shown, end),
                },
            )
        } else {
            None
        },
        None => None,
    }
}

fn push_current_line(quads: &mut Vec<Quad>, s: &Snapshot, screen: OnScreen)
    ensures
        final(quads)@ == old(quads)@ + current_line_quads(*s, screen),
{
    if s.selections.len() == 0 && s.cursors.len() > 0 {
        if let Some(row) = row_in_view(s.first_line, s.cursors[0].line) {
            if screen.from <= row && row < screen.to {
                quads.push(Quad::new(Place::TextRow(row), Fill::CurrentLine));
            }
        }
    }
    assert(quads@ =~= old(quads)@ + current_line_quads(*s, screen));
}

fn push_matches(quads: &mut Vec<Quad>, s: &Snapshot, screen: OnScreen)
    ensures
        final(quads)@ == old(quads)@ + match_quads(*s, screen, s.decorations@.len() as int),
{
    let ghost before = quads@;
    assert(before =~= before + match_quads(*s, screen, 0));
    for i in 0..s.decorations.len()
        invariant
            quads@ == before + match_quads(*s, screen, i as int),
    {
        let d = s.decorations[i];
        if d.kind == DecorationKind::SearchMatch {
            if let Some(place) = glyphs_in(
                s,
                screen,
                d.line,
                d.start_column_chars,
                d.end_column_chars,
            ) {
                quads.push(Quad::new(place, Fill::SearchMatch));
            }
        }
        assert(quads@ =~= before + match_quads(*s, screen, i + 1));
    }
}

fn push_selection(quads: &mut Vec<Quad>, s: &Snapshot, screen: OnScreen, span: SelectionSpan)
    ensures
        final(quads)@ == old(quads)@ + selection_quads(*s, screen, span),
{
    if let Some(place) = glyphs_in(
        s,
        screen,
        span.line,
        span.start_column_chars,
        span.end_column_chars,
    ) {
        quads.push(Quad::new(place, Fill::Selection));
        if span.includes_line_break {
            if let Some(row) = row_in_view(s.first_line, span.line) {
                quads.push(Quad::new(Place::LineBreak(row), Fill::Selection));
            }
        }
    }
    assert(quads@ =~= old(quads)@ + selection_quads(*s, screen, span));
}

fn push_selections(quads: &mut Vec<Quad>, s: &Snapshot, screen: OnScreen)
    ensures
        final(quads)@ == old(quads)@ + selections_quads(
            *s,
            screen,
            s.selections@.len() as int,
        ),
{
    let ghost before = quads@;
    assert(before =~= before + selections_quads(*s, screen, 0));
    for i in 0..s.selections.len()
        invariant
            quads@ == before + selections_quads(*s, screen, i as int),
    {
        let ghost upto = quads@;
        push_selection(quads, s, screen, s.selections[i]);
        assert(quads@ =~= before + selections_quads(*s, screen, i + 1));
    }
}

/// Appends the marks of the document.
fn push_document(quads: &mut Vec<Quad>, s: &Snapshot, screen: OnScreen, caret: bool)
    ensures
        final(quads)@ == old(quads)@ + document_quads(*s, screen, caret),
{
    let ghost before = quads@;
    push_current_line(quads, s, screen);
    push_matches(quads, s, screen);
    push_selections(quads, s, screen);
    push_caret(quads, s, screen, caret);
    let ghost upto = quads@;
    if s.total_lines > s.visible_lines {
        quads.push(Quad::new(Place::ScrollTrack, Fill::TabBar));
        quads.push(Quad::new(Place::ScrollThumb, Fill::Scrollbar));
    }
    assert(quads@ =~= upto + scrollbar_quads(*s));
    assert(quads@ =~= before + document_quads(*s, screen, caret));
}

fn primary_cursor(cursors: &Vec<CursorMark>) -> (r: Option<CursorMark>)
    ensures
        r == primary_from(cursors@, 0),
{
    for i in 0..cursors.len()
        invariant
            primary_from(cursors@, i as int) == primary_from(cursors@, 0),
    {
        if cursors[i].primary {
            return Some(cursors[i]);
        }
    }
    None
}

fn push_caret(quads: &mut Vec<Quad>, s: &Snapshot, screen: OnScreen, visible: bool)
    ensures
        final(quads)@ == old(quads)@ + caret_quads(*s, screen, visible),
{
    if visible {
        if let Some(cursor) = primary_cursor(&s.cursors) {
            if let Some(row) = row_in_view(s.first_line, cursor.line) {
                if row < s.lines.len() && screen.from <= row && row < screen.to {
                    let byte = byte_offset(s.lines[row].text.as_str(), cursor.column_chars);
                    quads.push(Quad::new(Place::Caret { row, byte }, Fill::Cursor));
                }
            }
        }
    }
    assert(quads@ =~= old(quads)@ + caret_quads(*s, screen, visible));
}

fn push_control(quads: &mut Vec<Quad>, at: usize, mark: &ControlMark, editing: &Option<String>)
    ensures
        final(quads)@ == old(quads)@ + control_quads(at, *mark, *editing),
{
    let ghost before = quads@;
    if !mark.in_list {
        assert(before =~= before + control_quads(at, *mark, *editing));
        return;
    }
    match &mark.shape {
        ControlShape::Switch(on) => {
            quads.push(Quad::new(Place::Control(at), Fill::OverlayBorder));
            if *on {
                quads.push(Quad::new(Place::ControlDot(at), Fill::Cursor));
            }
        },
        ControlShape::Choices { options, current, placed } => {
            let n: usize = if options.len() < *placed { options.len() } else { *placed };
            assert(before =~= before + choice_quads(at, options@, current@, 0));
            for i in 0..n
                invariant
                    n <= options.len(),
                    quads@ == before + choice_quads(at, options@, current@, i as int),
            {
                let fill = if equal(options[i].as_str(), current.as_str()) {
                    Fill::Cursor
                } else {
                    Fill::OverlayBackground
                };
                quads.push(Quad::new(Place::Choice(at, i), fill));
                assert(quads@ =~= before + choice_quads(at, options@, current@, i + 1));
            }
        },
        ControlShape::Field(key) => {
            let typing = match editing {
                Some(field) => equal(field.as_str(), key.as_str()),
                None => false,
            };
            let fill = if typing {
                Fill::OverlayBorder
            } else {
                Fill::OverlayBackground
            };
            quads.push(Quad::new(Place::Control(at), fill));
        },
    }
    if mark.reset {
        quads.push(Quad::new(Place::Reset(at), Fill::OverlayBackground));
    }
    assert(quads@ =~= before + control_quads(at, *mark, *editing));
}

fn push_settings(quads: &mut Vec<Quad>, marks: &SettingsMarks)
    ensures
        final(quads)@ == old(quads)@ + settings_quads(*marks),
{
    let ghost before = quads@;
    quads.push(Quad::new(Place::SettingsSearch, Fill::OverlayBackground));
    if let Some(at) = marks.section {
        if at < marks.sections {
            quads.push(Quad::new(Place::SettingsSection(at), Fill::SidebarSelected));
        }
    }
    let ghost head = quads@;
    assert(head =~= head + controls_quads(*marks, 0));
    for i in 0..marks.controls.len()
        invariant
            quads@ == head + controls_quads(*marks, i as int),
    {
        push_control(quads, i, &marks.controls[i], &marks.editing);
        assert(quads@ =~= head + controls_quads(*marks, i + 1));
    }
    assert(quads@ =~= before + settings_quads(*marks));
}

fn fill_of_mark(mark: Mark) -> (r: Fill)
    ensures
        r == mark_fill(mark),
{
    match mark {
        Mark::Stroke { lit, .. } => if lit {
            Fill::GraphTraced
        } else {
            Fill::GraphEdge
        },
        Mark::Ring { .. } => Fill::GraphTraced,
        Mark::Circle { imported, .. } => if imported {
            Fill::GraphFile
        } else {
            Fill::GraphEntry
        },
    }
}

fn push_graph(quads: &mut Vec<Quad>, marks: &Vec<Mark>)
    ensures
        final(quads)@ == old(quads)@ + graph_quads(marks@),
{
    let ghost before = quads@;
    assert(before =~= before + graph_quads(marks@).take(0));
    for i in 0..marks.len()
        invariant
            quads@ == before + graph_quads(marks@).take(i as int),
    {
        quads.push(Quad { place: Place::GraphMark(marks[i]), fill: fill_of_mark(marks[i]) });
        assert(quads@ =~= before + graph_quads(marks@).take(i + 1));
    }
    assert(graph_quads(marks@).take(marks.len() as int) =~= graph_quads(marks@));
}

/// Adds the editor area to a frame. It all belongs to the base layer: the
/// editor is what an overlay covers, never the other way round.
pub fn add_editor_layer(frame: &EditorFrame, draw: &mut DrawList)
    ensures
        final(draw)@ == (Drawn {
            base_quads: old(draw)@.base_quads + area_quads(*frame),
            base_text: old(draw)@.base_text + area_text(*frame),
            ..old(draw)@
        }),
{
    match &frame.area {
        EditorArea::Document(document) => {
            let color = if document.is_some() {
                Role::Text
            } else {
                Role::DimText
            };
            draw.base_text.push(
                TextRegionPlacement { region: Region::Editor, clip: Place::Text, color },
            );
            if let Some(s) = document {
                if frame.line_numbers {
                    draw.base_text.push(
                        TextRegionPlacement {
                            region: Region::Gutter,
                            clip: Place::Gutter,
                            color: Role::GutterText,
                        },
                    );
                }
                push_document(&mut draw.base_quads, s, frame.screen, frame.caret_visible);
            }
        },
        EditorArea::Graph(marks) => {
            push_graph(&mut draw.base_quads, marks);
            draw.base_text.push(
                TextRegionPlacement {
                    region: Region::DependencyGraph,
                    clip: Place::Text,
                    color: Role::Text,
                },
            );
        },
        EditorArea::Settings(marks) => {
            push_settings(&mut draw.base_quads, marks);
            draw.base_text.push(
                TextRegionPlacement {
                    region: Region::SettingsSearch,
                    clip: Place::SettingsSearch,
                    color: Role::Text,
                },
            );
            draw.base_text.push(
                TextRegionPlacement {
                    region: Region::SettingsCategories,
                    clip: Place::SettingsCategories,
                    color: Role::DimText,
                },
            );
            draw.base_text.push(
                TextRegionPlacement {
                    region: Region::SettingsList,
                    clip: Place::SettingsList,
                    color: Role::Text,
                },
            );
        },
    }
    assert(draw@.base_quads =~= old(draw)@.base_quads + area_quads(*frame));
    assert(draw@.base_text =~= old(draw)@.base_text + area_text(*frame));
}

// --- laws --------------------------------------------------------------------

/// Every token lies within the text it colours, whatever columns the
/// decoration names.
pub proof fn every_token_lies_in_the_text(
    lines: Seq<SnapshotLine>,
    n: int,
    decorations: Seq<Decoration>,
    i: int,
)
    requires
        0 <= n <= lines.len(),
        byte_len(lines_text(lines, n)) <= usize::MAX,
        0 <= i < spans_upto(lines, n, decorations).len(),
    ensures
        spans_upto(lines, n, decorations)[i].start <= byte_len(lines_text(lines, n)),
        spans_upto(lines, n, decorations)[i].end <= byte_len(lines_text(lines, n)),
    decreases n,
{
    if n > 0 {
        let above = spans_upto(lines, n - 1, decorations);
        let lead = line_lead(lines, n - 1);
        byte_len_adds(lead, lines[n - 1].text@);
        if i < above.len() {
            if n > 1 {
                assert(lead =~= lines_text(lines, n - 1) + seq!['\n']);
                byte_len_adds(lines_text(lines, n - 1), seq!['\n']);
            }
            every_token_lies_in_the_text(lines, n - 1, decorations, i);
        } else {
            tokens_lie_in_their_line(
                lines[n - 1],
                byte_len(lead),
                decorations,
                decorations.len() as int,
                i - above.len(),
            );
        }
    }
}

proof fn tokens_lie_in_their_line(
    line: SnapshotLine,
    start: nat,
    decorations: Seq<Decoration>,
    m: int,
    i: int,
)
    requires
        start + byte_len(line.text@) <= usize::MAX,
        0 <= i < line_spans(line, start, decorations, m).len(),
    ensures
        line_spans(line, start, decorations, m)[i].start <= start + byte_len(line.text@),
        line_spans(line, start, decorations, m)[i].end <= start + byte_len(line.text@),
    decreases m,
{
    if m > 0 {
        let d = decorations[m - 1];
        head_is_no_longer(line.text@, d.start_column_chars);
        head_is_no_longer(line.text@, d.end_column_chars);
        if i < line_spans(line, start, decorations, m - 1).len() {
            tokens_lie_in_their_line(line, start, decorations, m - 1, i);
        }
    }
}

/// With a selection on screen the current line is not marked.
pub proof fn a_selection_replaces_the_current_line(s: Snapshot, screen: OnScreen)
    requires
        s.selections@.len() > 0,
    ensures
        current_line_quads(s, screen).len() == 0,
{
}

/// A caret in the hidden half of its blink is not drawn, and nothing else
/// changes with it.
pub proof fn blinking_changes_only_the_caret(s: Snapshot, screen: OnScreen)
    ensures
        document_quads(s, screen, false) == current_line_quads(s, screen) + match_quads(
            s,
            screen,
            s.decorations@.len() as int,
        ) + selections_quads(s, screen, s.selections@.len() as int) + scrollbar_quads(s),
{
    assert(caret_quads(s, screen, false) =~= Seq::<Quad>::empty());
    assert(document_quads(s, screen, false) =~= current_line_quads(s, screen) + match_quads(
        s,
        screen,
        s.decorations@.len() as int,
    ) + selections_quads(s, screen, s.selections@.len() as int) + scrollbar_quads(s));
}

/// Whether a place belongs to the document: a row of its text, what is on such
/// a row, or its scrollbar.
pub open spec fn of_the_document(place: Place) -> bool {
    match place {
        Place::TextRow(_) | Place::Glyphs { .. } | Place::LineBreak(_) | Place::Caret { .. } => true,
        Place::ScrollTrack | Place::ScrollThumb => true,
        _ => false,
    }
}

proof fn choices_are_no_document(
    at: usize,
    options: Seq<String>,
    current: Seq<char>,
    n: int,
    i: int,
)
    requires
        0 <= i < choice_quads(at, options, current, n).len(),
    ensures
        !of_the_document(choice_quads(at, options, current, n)[i].place),
    decreases n,
{
    if n > 0 && i < choice_quads(at, options, current, n - 1).len() {
        choices_are_no_document(at, options, current, n - 1, i);
    }
}

proof fn controls_are_no_document(marks: SettingsMarks, n: int, i: int)
    requires
        0 <= n <= marks.controls@.len(),
        0 <= i < controls_quads(marks, n).len(),
    ensures
        !of_the_document(controls_quads(marks, n)[i].place),
    decreases n,
{
    if n > 0 {
        let above = controls_quads(marks, n - 1);
        let mark = marks.controls@[n - 1];
        if i < above.len() {
            controls_are_no_document(marks, n - 1, i);
        } else if let ControlShape::Choices { options, current, placed } = mark.shape {
            let shown = least(options@.len() as int, placed as int);
            let at = (n - 1) as usize;
            if i - above.len() < choice_quads(at, options@, current@, shown).len() {
                choices_are_no_document(at, options@, current@, shown, i - above.len());
            }
        }
    }
}

/// While the settings or the graph stand in for the document, none of the
/// document is drawn: neither its text nor anything on or beside it.
pub proof fn what_stands_in_hides_the_document(frame: EditorFrame)
    requires
        !(frame.area is Document),
    ensures
        forall|i: int|
            0 <= i < area_text(frame).len() ==> (#[trigger] area_text(frame)[i]).region
                != Region::Editor && area_text(frame)[i].region != Region::Gutter,
        forall|i: int|
            0 <= i < area_quads(frame).len() ==> !of_the_document(
                (#[trigger] area_quads(frame)[i]).place,
            ),
{
    if let EditorArea::Settings(marks) = frame.area {
        let n = marks.controls@.len() as int;
        let head = settings_quads(marks).len() - controls_quads(marks, n).len();
        assert forall|i: int| 0 <= i < area_quads(frame).len() implies !of_the_document(
            (#[trigger] area_quads(frame)[i]).place,
        ) by {
            if i >= head {
                assert(area_quads(frame)[i] == controls_quads(marks, n)[i - head]);
                controls_are_no_document(marks, n, i - head);
            }
        }
    }
}

/// Every mark of the dependency graph is drawn, in its order, and the names of
/// the files with them.
pub proof fn every_mark_of_the_graph_is_drawn(frame: EditorFrame, i: int)
    requires
        frame.area matches EditorArea::Graph(marks) && 0 <= i < marks@.len(),
    ensures
        area_quads(frame).len() == frame.area->Graph_0@.len(),
        area_quads(frame)[i].place == Place::GraphMark(frame.area->Graph_0@[i]),
        area_text(frame)[0].region == Region::DependencyGraph,
{
}

// --- the text and its colours ------------------------------------------------

/// How many characters of the whole text come before a line: every line above
/// it, with its line break.
pub open spec fn chars_above(lines: Seq<SnapshotLine>, k: int) -> int
    decreases k,
{
    if k <= 0 {
        0
    } else {
        chars_above(lines, k - 1) + lines[k - 1].text@.len() + 1
    }
}

proof fn lead_is_what_is_above(lines: Seq<SnapshotLine>, k: int)
    requires
        0 <= k <= lines.len(),
    ensures
        line_lead(lines, k).len() == chars_above(lines, k),
    decreases k,
{
    if k > 0 {
        lead_is_what_is_above(lines, k - 1);
    }
}

proof fn a_lead_begins_the_text(lines: Seq<SnapshotLine>, k: int, n: int)
    requires
        0 <= k < n <= lines.len(),
    ensures
        line_lead(lines, k).len() + lines[k].text@.len() <= lines_text(lines, n).len(),
        lines_text(lines, n).take((line_lead(lines, k).len() + lines[k].text@.len()) as int)
            == line_lead(lines, k) + lines[k].text@,
    decreases n,
{
    let text = lines_text(lines, n);
    if k == n - 1 {
        assert(text.take(text.len() as int) =~= text);
    } else {
        a_lead_begins_the_text(lines, k, n - 1);
        let end = (line_lead(lines, k).len() + lines[k].text@.len()) as int;
        let shorter = lines_text(lines, n - 1);
        assert(text.take(end) =~= shorter.take(end));
    }
}

/// The text of the view is its lines, each on a line of its own: every line
/// stands where those above it and their breaks leave off, a break comes before
/// each but the first, and nothing follows the last.
pub proof fn the_text_is_its_lines(lines: Seq<SnapshotLine>, k: int)
    requires
        0 <= k < lines.len(),
    ensures
        ({
            let text = lines_text(lines, lines.len() as int);
            let from = chars_above(lines, k);
            let to = from + lines[k].text@.len();
            &&& to <= text.len()
            &&& text.subrange(from, to) == lines[k].text@
            &&& k > 0 ==> text[from - 1] == '\n'
            &&& k == lines.len() - 1 ==> to == text.len()
        }),
{
    let n = lines.len() as int;
    let text = lines_text(lines, n);
    let lead = line_lead(lines, k);
    lead_is_what_is_above(lines, k);
    a_lead_begins_the_text(lines, k, n);
    let from = chars_above(lines, k);
    let to = from + lines[k].text@.len();
    let head = text.take(to);
    assert(text.subrange(from, to) =~= head.subrange(from, to));
    assert((lead + lines[k].text@).subrange(from, to) =~= lines[k].text@);
    if k > 0 {
        assert(text[from - 1] == head[from - 1]);
        assert(lead.last() == '\n');
    }
}

/// How many tokens of a line are among the first `m` decorations.
pub open spec fn tokens_of(line: SnapshotLine, decorations: Seq<Decoration>, m: int) -> int
    decreases m,
{
    if m <= 0 {
        0
    } else {
        tokens_of(line, decorations, m - 1) + (if decorations[m - 1].kind is SyntaxToken
            && decorations[m - 1].line == line.index {
            1int
        } else {
            0
        })
    }
}

/// How many tokens the lines before `k` have.
pub open spec fn tokens_above(
    lines: Seq<SnapshotLine>,
    decorations: Seq<Decoration>,
    k: int,
) -> int
    decreases k,
{
    if k <= 0 {
        0
    } else {
        tokens_above(lines, decorations, k - 1) + tokens_of(
            lines[k - 1],
            decorations,
            decorations.len() as int,
        )
    }
}

proof fn tokens_of_a_line(
    line: SnapshotLine,
    start: nat,
    decorations: Seq<Decoration>,
    m: int,
    j: int,
)
    requires
        0 <= j < m <= decorations.len(),
    ensures
        0 <= tokens_of(line, decorations, j) <= tokens_of(line, decorations, m),
        line_spans(line, start, decorations, m).len() == tokens_of(line, decorations, m),
        (decorations[j].kind is SyntaxToken && decorations[j].line == line.index) ==> tokens_of(
            line,
            decorations,
            j,
        ) < tokens_of(line, decorations, m) && line_spans(line, start, decorations, m)[tokens_of(
            line,
            decorations,
            j,
        )] == (SyntaxSpan {
            start: (start + byte_at(line.text@, decorations[j].start_column_chars)) as usize,
            end: (start + byte_at(line.text@, decorations[j].end_column_chars)) as usize,
            kind: decorations[j].kind->SyntaxToken_0,
        }),
    decreases m,
{
    tokens_count(line, start, decorations, m);
    tokens_count(line, start, decorations, m - 1);
    if j < m - 1 {
        tokens_of_a_line(line, start, decorations, m - 1, j);
    } else if j > 0 {
        tokens_of_a_line(line, start, decorations, m - 1, j - 1);
    }
}

proof fn tokens_count(line: SnapshotLine, start: nat, decorations: Seq<Decoration>, m: int)
    requires
        0 <= m <= decorations.len(),
    ensures
        line_spans(line, start, decorations, m).len() == tokens_of(line, decorations, m),
    decreases m,
{
    if m > 0 {
        tokens_count(line, start, decorations, m - 1);
    }
}

proof fn tokens_of_the_lines(
    lines: Seq<SnapshotLine>,
    decorations: Seq<Decoration>,
    n: int,
    k: int,
    j: int,
)
    requires
        0 <= k < n <= lines.len(),
        0 <= j < decorations.len(),
        decorations[j].kind is SyntaxToken,
        decorations[j].line == lines[k].index,
    ensures
        spans_upto(lines, n, decorations).len() == tokens_above(lines, decorations, n),
        ({
            let i = tokens_above(lines, decorations, k) + tokens_of(lines[k], decorations, j);
            let start = byte_len(line_lead(lines, k));
            &&& 0 <= i < spans_upto(lines, n, decorations).len()
            &&& spans_upto(lines, n, decorations)[i] == (SyntaxSpan {
                start: (start + byte_at(lines[k].text@, decorations[j].start_column_chars)) as usize,
                end: (start + byte_at(lines[k].text@, decorations[j].end_column_chars)) as usize,
                kind: decorations[j].kind->SyntaxToken_0,
            })
        }),
    decreases n,
{
    let start = byte_len(line_lead(lines, n - 1));
    let m = decorations.len() as int;
    tokens_count(lines[n - 1], start, decorations, m);
    spans_count(lines, decorations, n - 1);
    if k < n - 1 {
        tokens_of_the_lines(lines, decorations, n - 1, k, j);
    } else {
        tokens_of_a_line(lines[k], start, decorations, m, j);
        let above = spans_upto(lines, k, decorations);
        let i = tokens_of(lines[k], decorations, j);
        assert(spans_upto(lines, n, decorations)[above.len() + i] == line_spans(
            lines[k],
            start,
            decorations,
            m,
        )[i]);
    }
}

proof fn spans_count(lines: Seq<SnapshotLine>, decorations: Seq<Decoration>, n: int)
    requires
        0 <= n <= lines.len(),
    ensures
        spans_upto(lines, n, decorations).len() == tokens_above(lines, decorations, n),
        tokens_above(lines, decorations, n) >= 0,
    decreases n,
{
    if n > 0 {
        spans_count(lines, decorations, n - 1);
        tokens_count(
            lines[n - 1],
            byte_len(line_lead(lines, n - 1)),
            decorations,
            decorations.len() as int,
        );
    }
}

/// Every token colours its own characters: the span of a token lies in the part
/// of the text that is its line, and between its two byte offsets stand exactly
/// the characters between the token's two columns. There is one span to each
/// token of a visible line, line by line and in the order they are given.
pub proof fn every_token_colours_its_own_characters(
    lines: Seq<SnapshotLine>,
    decorations: Seq<Decoration>,
    k: int,
    j: int,
)
    requires
        byte_len(lines_text(lines, lines.len() as int)) <= usize::MAX,
        0 <= k < lines.len(),
        0 <= j < decorations.len(),
        decorations[j].kind is SyntaxToken,
        decorations[j].line == lines[k].index,
        decorations[j].start_column_chars <= decorations[j].end_column_chars
            <= lines[k].text@.len(),
    ensures
        ({
            let text = lines_text(lines, lines.len() as int);
            let spans = spans_upto(lines, lines.len() as int, decorations);
            let span = spans[tokens_above(lines, decorations, k) + tokens_of(
                lines[k],
                decorations,
                j,
            )];
            let from = chars_above(lines, k) + decorations[j].start_column_chars;
            let to = chars_above(lines, k) + decorations[j].end_column_chars;
            &&& spans.len() == tokens_above(lines, decorations, lines.len() as int)
            &&& span.kind == decorations[j].kind->SyntaxToken_0
            &&& span.start == byte_len(text.take(from))
            &&& span.end == byte_len(text.take(to))
            &&& text.subrange(from, to) == lines[k].text@.subrange(
                decorations[j].start_column_chars as int,
                decorations[j].end_column_chars as int,
            )
        }),
{
    let n = lines.len() as int;
    let d = decorations[j];
    let text = lines_text(lines, n);
    let lead = line_lead(lines, k);
    let line = lines[k].text@;
    tokens_of_the_lines(lines, decorations, n, k, j);
    lead_is_what_is_above(lines, k);
    a_lead_begins_the_text(lines, k, n);
    let end = (lead.len() + line.len()) as int;
    let from = chars_above(lines, k) + d.start_column_chars;
    let to = chars_above(lines, k) + d.end_column_chars;
    assert(text.take(from) =~= lead + line.take(d.start_column_chars as int)) by {
        assert(text.take(from) =~= text.take(end).take(from));
        assert((lead + line).take(from) =~= lead + line.take(d.start_column_chars as int));
    }
    assert(text.take(to) =~= lead + line.take(d.end_column_chars as int)) by {
        assert(text.take(to) =~= text.take(end).take(to));
        assert((lead + line).take(to) =~= lead + line.take(d.end_column_chars as int));
    }
    byte_len_adds(lead, line.take(d.start_column_chars as int));
    byte_len_adds(lead, line.take(d.end_column_chars as int));
    assert(text.take(from) + text.skip(from) =~= text);
    byte_len_adds(text.take(from), text.skip(from));
    assert(text.take(to) + text.skip(to) =~= text);
    byte_len_adds(text.take(to), text.skip(to));
    assert(text.subrange(from, to) =~= text.take(end).subrange(from, to));
    assert((lead + line).subrange(from, to) =~= line.subrange(
        d.start_column_chars as int,
        d.end_column_chars as int,
    ));
}

/// Nothing but tokens of visible lines is coloured: every span is that of some
/// token of some line.
pub proof fn every_span_is_a_token(
    lines: Seq<SnapshotLine>,
    decorations: Seq<Decoration>,
    n: int,
    i: int,
) -> (found: (int, int))
    requires
        0 <= n <= lines.len(),
        0 <= i < spans_upto(lines, n, decorations).len(),
    ensures
        ({
            let (k, j) = found;
            &&& 0 <= k < n
            &&& 0 <= j < decorations.len()
            &&& decorations[j].kind is SyntaxToken
            &&& decorations[j].line == lines[k].index
            &&& i == tokens_above(lines, decorations, k) + tokens_of(lines[k], decorations, j)
        }),
    decreases n,
{
    spans_count(lines, decorations, n - 1);
    let above = spans_upto(lines, n - 1, decorations);
    if i < above.len() {
        every_span_is_a_token(lines, decorations, n - 1, i)
    } else {
        let m = decorations.len() as int;
        tokens_count(lines[n - 1], byte_len(line_lead(lines, n - 1)), decorations, m);
        (n - 1, token_number(lines[n - 1], decorations, m, i - above.len()))
    }
}

proof fn token_number(line: SnapshotLine, decorations: Seq<Decoration>, m: int, i: int) -> (j: int)
    requires
        0 <= m <= decorations.len(),
        0 <= i < tokens_of(line, decorations, m),
    ensures
        0 <= j < m,
        decorations[j].kind is SyntaxToken,
        decorations[j].line == line.index,
        tokens_of(line, decorations, j) == i,
    decreases m,
{
    if i < tokens_of(line, decorations, m - 1) {
        token_number(line, decorations, m - 1, i)
    } else {
        m - 1
    }
}

/// The gutter numbers every visible line on its own row: the row of a line
/// holds the number of the line counted from 1, padded to three places, and
/// with the numbers off every row is empty.
pub proof fn the_gutter_numbers_every_line(lines: Seq<SnapshotLine>, n: int)
    requires
        0 < n <= lines.len(),
        lines[n - 1].index < usize::MAX,
    ensures
        ({
            let number = decimal((lines[n - 1].index + 1) as nat);
            let pad = Seq::new(
                if number.len() < 3 {
                    (3 - number.len()) as nat
                } else {
                    0
                },
                |i: int| ' ',
            );
            let lead = if n > 1 {
                gutter_upto(lines, n - 1, true) + seq!['\n']
            } else {
                Seq::empty()
            };
            &&& gutter_upto(lines, n, true) == lead + (pad + number)
            &&& gutter_upto(lines, n, false).len() == n - 1
        }),
    decreases n,
{
    let number = decimal((lines[n - 1].index + 1) as nat);
    let pad = Seq::new(
        if number.len() < 3 {
            (3 - number.len()) as nat
        } else {
            0
        },
        |i: int| ' ',
    );
    assert(right(number, 3) =~= pad + number);
    if n > 1 {
        assert(gutter_upto(lines, n - 1, true).push('\n') =~= gutter_upto(lines, n - 1, true)
            + seq!['\n']);
    } else {
        assert(gutter_upto(lines, 0, true) =~= Seq::<char>::empty());
    }
    empty_gutter(lines, n);
}

proof fn empty_gutter(lines: Seq<SnapshotLine>, n: int)
    requires
        0 < n <= lines.len(),
    ensures
        gutter_upto(lines, n, false).len() == n - 1,
        forall|i: int| 0 <= i < n - 1 ==> #[trigger] gutter_upto(lines, n, false)[i] == '\n',
    decreases n,
{
    if n > 1 {
        empty_gutter(lines, n - 1);
    } else {
        assert(gutter_upto(lines, 0, false).len() == 0);
    }
}

// --- the marks of the document -----------------------------------------------

/// Where part of a visible line lies: its row in the view, and the bytes of the
/// row before each of its two columns; a column past the end counts as the end.
pub open spec fn lies_at(
    s: Snapshot,
    screen: OnScreen,
    line: usize,
    start: usize,
    end: usize,
    row: usize,
    from: usize,
    to: usize,
) -> bool {
    &&& line == s.first_line + row
    &&& row < s.lines@.len()
    &&& screen.from <= row < screen.to
    &&& ({
        let shown = s.lines@[row as int].text@;
        let a = if start < shown.len() { start as int } else { shown.len() as int };
        let b = if end < shown.len() { end as int } else { shown.len() as int };
        &&& from == byte_len(shown.take(a)) as usize
        &&& to == byte_len(shown.take(b)) as usize
    })
}

proof fn match_is_marked(s: Snapshot, screen: OnScreen, n: int, j: int) -> (i: int)
    requires
        0 <= j < n <= s.decorations@.len(),
        s.decorations@[j].kind == DecorationKind::SearchMatch,
        glyphs_at(
            s,
            screen,
            s.decorations@[j].line,
            s.decorations@[j].start_column_chars,
            s.decorations@[j].end_column_chars,
        ) is Some,
    ensures
        0 <= i < match_quads(s, screen, n).len(),
        match_quads(s, screen, n)[i] == quad(
            glyphs_at(
                s,
                screen,
                s.decorations@[j].line,
                s.decorations@[j].start_column_chars,
                s.decorations@[j].end_column_chars,
            )->0,
            Fill::SearchMatch,
        ),
    decreases n,
{
    if j < n - 1 {
        match_is_marked(s, screen, n - 1, j)
    } else {
        match_quads(s, screen, n - 1).len() as int
    }
}

proof fn marked_is_match(s: Snapshot, screen: OnScreen, n: int, i: int) -> (j: int)
    requires
        0 <= n <= s.decorations@.len(),
        0 <= i < match_quads(s, screen, n).len(),
    ensures
        0 <= j < n,
        s.decorations@[j].kind == DecorationKind::SearchMatch,
        ({
            let place = glyphs_at(
                s,
                screen,
                s.decorations@[j].line,
                s.decorations@[j].start_column_chars,
                s.decorations@[j].end_column_chars,
            );
            place is Some && match_quads(s, screen, n)[i] == quad(place->0, Fill::SearchMatch)
        }),
    decreases n,
{
    if i < match_quads(s, screen, n - 1).len() {
        marked_is_match(s, screen, n - 1, i)
    } else {
        n - 1
    }
}

/// Where the five kinds of marks lie among all of them.
proof fn document_parts(s: Snapshot, screen: OnScreen, caret: bool)
    ensures
        ({
            let all = document_quads(s, screen, caret);
            let a = current_line_quads(s, screen);
            let b = match_quads(s, screen, s.decorations@.len() as int);
            let c = selections_quads(s, screen, s.selections@.len() as int);
            let d = caret_quads(s, screen, caret);
            let e = scrollbar_quads(s);
            &&& all.len() == a.len() + b.len() + c.len() + d.len() + e.len()
            &&& forall|i: int| 0 <= i < a.len() ==> #[trigger] all[i] == a[i]
            &&& forall|i: int| 0 <= i < b.len() ==> all[a.len() + i] == #[trigger] b[i]
            &&& forall|i: int|
                0 <= i < c.len() ==> all[a.len() + b.len() + i] == #[trigger] c[i]
            &&& forall|i: int|
                0 <= i < d.len() ==> all[a.len() + b.len() + c.len() + i] == #[trigger] d[i]
            &&& forall|i: int|
                0 <= i < e.len() ==> all[a.len() + b.len() + c.len() + d.len() + i]
                    == #[trigger] e[i]
        }),
{
}

/// Every match of a search that can be seen is marked, over exactly the
/// characters it covers, and nothing that is no match is marked as one.
pub proof fn matches_are_marked_where_they_are(
    s: Snapshot,
    screen: OnScreen,
    caret: bool,
    row: usize,
    from: usize,
    to: usize,
)
    ensures
        document_quads(s, screen, caret).contains(
            Quad { place: Place::Glyphs { row, start: from, end: to }, fill: Fill::SearchMatch },
        ) <==> exists|j: int|
            0 <= j < s.decorations@.len() && (#[trigger] s.decorations@[j]).kind
                == DecorationKind::SearchMatch && lies_at(
                s,
                screen,
                s.decorations@[j].line,
                s.decorations@[j].start_column_chars,
                s.decorations@[j].end_column_chars,
                row,
                from,
                to,
            ),
{
    let n = s.decorations@.len() as int;
    let wanted = Quad {
        place: Place::Glyphs { row, start: from, end: to },
        fill: Fill::SearchMatch,
    };
    let all = document_quads(s, screen, caret);
    document_parts(s, screen, caret);
    let before = current_line_quads(s, screen).len() as int;
    if exists|j: int|
        0 <= j < n && (#[trigger] s.decorations@[j]).kind == DecorationKind::SearchMatch
            && lies_at(
            s,
            screen,
            s.decorations@[j].line,
            s.decorations@[j].start_column_chars,
            s.decorations@[j].end_column_chars,
            row,
            from,
            to,
        ) {
        let j = choose|j: int|
            0 <= j < n && (#[trigger] s.decorations@[j]).kind == DecorationKind::SearchMatch
                && lies_at(
                s,
                screen,
                s.decorations@[j].line,
                s.decorations@[j].start_column_chars,
                s.decorations@[j].end_column_chars,
                row,
                from,
                to,
            );
        let i = match_is_marked(s, screen, n, j);
        assert(match_quads(s, screen, n)[i] == wanted);
        assert(all[before + i] == wanted);
    }
    if all.contains(wanted) {
        let p = choose|p: int| 0 <= p < all.len() && all[p] == wanted;
        marks_by_fill(s, screen, caret, p);
        let i = p - before;
        assert(match_quads(s, screen, n)[i] == all[before + i]);
        let j = marked_is_match(s, screen, n, i);
        assert(s.decorations@[j].kind == DecorationKind::SearchMatch);
    }
}

proof fn selections_are_selected(s: Snapshot, screen: OnScreen, n: int, i: int) -> (j: int)
    requires
        0 <= n <= s.selections@.len(),
        0 <= i < selections_quads(s, screen, n).len(),
    ensures
        0 <= j < n,
        ({
            let span = s.selections@[j];
            let place = glyphs_at(
                s,
                screen,
                span.line,
                span.start_column_chars,
                span.end_column_chars,
            );
            let here = selections_quads(s, screen, n)[i];
            place is Some && (here == quad(place->0, Fill::Selection) || (span.includes_line_break
                && here == quad(
                Place::LineBreak((span.line - s.first_line) as usize),
                Fill::Selection,
            )))
        }),
    decreases n,
{
    if i < selections_quads(s, screen, n - 1).len() {
        selections_are_selected(s, screen, n - 1, i)
    } else {
        n - 1
    }
}

proof fn a_selection_is_marked(s: Snapshot, screen: OnScreen, n: int, j: int) -> (i: int)
    requires
        0 <= j < n <= s.selections@.len(),
        glyphs_at(
            s,
            screen,
            s.selections@[j].line,
            s.selections@[j].start_column_chars,
            s.selections@[j].end_column_chars,
        ) is Some,
    ensures
        ({
            let span = s.selections@[j];
            let place = glyphs_at(
                s,
                screen,
                span.line,
                span.start_column_chars,
                span.end_column_chars,
            );
            let all = selections_quads(s, screen, n);
            &&& 0 <= i < all.len()
            &&& all[i] == quad(place->0, Fill::Selection)
            &&& span.includes_line_break ==> i + 1 < all.len() && all[i + 1] == quad(
                Place::LineBreak((span.line - s.first_line) as usize),
                Fill::Selection,
            )
        }),
    decreases n,
{
    if j < n - 1 {
        a_selection_is_marked(s, screen, n - 1, j)
    } else {
        selections_quads(s, screen, n - 1).len() as int
    }
}

/// Every selected part that can be seen is marked, over exactly the characters
/// it covers, and nothing that is not selected is.
pub proof fn selections_are_marked_where_they_are(
    s: Snapshot,
    screen: OnScreen,
    caret: bool,
    row: usize,
    from: usize,
    to: usize,
)
    ensures
        document_quads(s, screen, caret).contains(
            Quad { place: Place::Glyphs { row, start: from, end: to }, fill: Fill::Selection },
        ) <==> exists|j: int|
            0 <= j < s.selections@.len() && lies_at(
                s,
                screen,
                (#[trigger] s.selections@[j]).line,
                s.selections@[j].start_column_chars,
                s.selections@[j].end_column_chars,
                row,
                from,
                to,
            ),
        document_quads(s, screen, caret).contains(
            Quad { place: Place::LineBreak(row), fill: Fill::Selection },
        ) <==> exists|j: int|
            0 <= j < s.selections@.len() && (#[trigger] s.selections@[j]).includes_line_break
                && s.selections@[j].line == s.first_line + row && row < s.lines@.len()
                && screen.from <= row < screen.to,
{
    let n = s.selections@.len() as int;
    let all = document_quads(s, screen, caret);
    let part = selections_quads(s, screen, n);
    let glyphs = Quad {
        place: Place::Glyphs { row, start: from, end: to },
        fill: Fill::Selection,
    };
    let broken = Quad { place: Place::LineBreak(row), fill: Fill::Selection };
    document_parts(s, screen, caret);
    let before = current_line_quads(s, screen).len() as int + match_quads(
        s,
        screen,
        s.decorations@.len() as int,
    ).len();
    assert forall|j: int|
        0 <= j < n && lies_at(
            s,
            screen,
            (#[trigger] s.selections@[j]).line,
            s.selections@[j].start_column_chars,
            s.selections@[j].end_column_chars,
            row,
            from,
            to,
        ) implies all.contains(glyphs) by {
        let i = a_selection_is_marked(s, screen, n, j);
        assert(part[i] == glyphs);
        assert(all[before + i] == glyphs);
    }
    assert forall|j: int|
        0 <= j < n && (#[trigger] s.selections@[j]).includes_line_break && s.selections@[j].line
            == s.first_line + row && row < s.lines@.len() && screen.from <= row
            < screen.to implies all.contains(broken) by {
        let i = a_selection_is_marked(s, screen, n, j);
        assert(part[i + 1] == broken);
        assert(all[before + (i + 1)] == broken);
    }
    if all.contains(glyphs) {
        let p = choose|p: int| 0 <= p < all.len() && all[p] == glyphs;
        marks_by_fill(s, screen, caret, p);
        assert(part[p - before] == all[before + (p - before)]);
        let j = selections_are_selected(s, screen, n, p - before);
        assert(lies_at(
            s,
            screen,
            s.selections@[j].line,
            s.selections@[j].start_column_chars,
            s.selections@[j].end_column_chars,
            row,
            from,
            to,
        ));
    }
    if all.contains(broken) {
        let p = choose|p: int| 0 <= p < all.len() && all[p] == broken;
        marks_by_fill(s, screen, caret, p);
        assert(part[p - before] == all[before + (p - before)]);
        let j = selections_are_selected(s, screen, n, p - before);
        assert(s.selections@[j].includes_line_break);
    }
}

/// Which part of the marks one belongs to, by its fill.
proof fn marks_by_fill(s: Snapshot, screen: OnScreen, caret: bool, p: int)
    requires
        0 <= p < document_quads(s, screen, caret).len(),
    ensures
        ({
            let all = document_quads(s, screen, caret);
            let a = current_line_quads(s, screen).len() as int;
            let b = a + match_quads(s, screen, s.decorations@.len() as int).len();
            let c = b + selections_quads(s, screen, s.selections@.len() as int).len();
            let d = c + caret_quads(s, screen, caret).len();
            &&& all[p].fill == Fill::CurrentLine <==> p < a
            &&& all[p].fill == Fill::SearchMatch <==> a <= p < b
            &&& all[p].fill == Fill::Selection <==> b <= p < c
            &&& all[p].fill == Fill::Cursor <==> c <= p < d
            &&& (all[p].fill == Fill::TabBar || all[p].fill == Fill::Scrollbar) <==> d <= p
        }),
{
    let all = document_quads(s, screen, caret);
    let m = match_quads(s, screen, s.decorations@.len() as int);
    let q = selections_quads(s, screen, s.selections@.len() as int);
    let a = current_line_quads(s, screen).len() as int;
    let b = a + m.len();
    let c = b + q.len();
    let d = c + caret_quads(s, screen, caret).len();
    document_parts(s, screen, caret);
    if p < a {
        assert(all[p] == current_line_quads(s, screen)[p]);
    } else if p < b {
        assert(all[a + (p - a)] == m[p - a]);
        let j = marked_is_match(s, screen, s.decorations@.len() as int, p - a);
    } else if p < c {
        assert(all[b + (p - b)] == q[p - b]);
        let j = selections_are_selected(s, screen, s.selections@.len() as int, p - b);
    } else if p < d {
        assert(all[c + (p - c)] == caret_quads(s, screen, caret)[p - c]);
    } else {
        assert(all[d + (p - d)] == scrollbar_quads(s)[p - d]);
    }
}

/// What lies over what: the current line under every match, a match under every
/// selection, and the caret over them all.
pub proof fn the_caret_is_over_the_selection_over_the_matches(
    s: Snapshot,
    screen: OnScreen,
    caret: bool,
    p: int,
    q: int,
)
    requires
        0 <= p < document_quads(s, screen, caret).len(),
        0 <= q < document_quads(s, screen, caret).len(),
    ensures
        ({
            let under = document_quads(s, screen, caret)[p].fill;
            let over = document_quads(s, screen, caret)[q].fill;
            ({
                ||| under == Fill::CurrentLine && (over == Fill::SearchMatch || over
                    == Fill::Selection || over == Fill::Cursor)
                ||| under == Fill::SearchMatch && (over == Fill::Selection || over
                    == Fill::Cursor)
                ||| under == Fill::Selection && over == Fill::Cursor
            }) ==> p < q
        }),
{
    marks_by_fill(s, screen, caret, p);
    marks_by_fill(s, screen, caret, q);
}

/// The caret is drawn before the character it stands at: exactly while it is
/// visible and its row can be seen, for the primary cursor and no other.
pub proof fn the_caret_stands_at_its_column(
    s: Snapshot,
    screen: OnScreen,
    caret: bool,
    at: int,
    row: usize,
    byte: usize,
)
    requires
        0 <= at < s.cursors@.len(),
        s.cursors@[at].primary,
        forall|i: int| 0 <= i < at ==> !(#[trigger] s.cursors@[i]).primary,
    ensures
        document_quads(s, screen, caret).contains(
            Quad { place: Place::Caret { row, byte }, fill: Fill::Cursor },
        ) <==> caret && s.cursors@[at].line == s.first_line + row && row < s.lines@.len()
            && screen.from <= row < screen.to && byte == ({
            let shown = s.lines@[row as int].text@;
            byte_len(
                shown.take(
                    if s.cursors@[at].column_chars < shown.len() {
                        s.cursors@[at].column_chars as int
                    } else {
                        shown.len() as int
                    },
                ),
            ) as usize
        }),
{
    primary_is(s.cursors@, 0, at);
    let all = document_quads(s, screen, caret);
    let wanted = Quad { place: Place::Caret { row, byte }, fill: Fill::Cursor };
    document_parts(s, screen, caret);
    let before = current_line_quads(s, screen).len() as int + match_quads(
        s,
        screen,
        s.decorations@.len() as int,
    ).len() + selections_quads(s, screen, s.selections@.len() as int).len();
    let part = caret_quads(s, screen, caret);
    if part.len() > 0 {
        assert(all[before + 0] == part[0]);
    }
    if all.contains(wanted) {
        let p = choose|p: int| 0 <= p < all.len() && all[p] == wanted;
        marks_by_fill(s, screen, caret, p);
        assert(part[p - before] == all[before + (p - before)]);
    }
}

proof fn primary_is(cursors: Seq<CursorMark>, from: int, at: int)
    requires
        0 <= from <= at < cursors.len(),
        cursors[at].primary,
        forall|i: int| from <= i < at ==> !(#[trigger] cursors[i]).primary,
    ensures
        primary_from(cursors, from) == Some(cursors[at]),
    decreases at - from,
{
    if from < at {
        assert(!cursors[from].primary);
        primary_is(cursors, from + 1, at);
    }
}

/// The row of the caret is marked as the current line exactly while nothing is
/// selected and the row can be seen, and no other row ever is.
pub proof fn the_current_line_is_the_row_of_the_caret(
    s: Snapshot,
    screen: OnScreen,
    caret: bool,
    row: usize,
)
    ensures
        document_quads(s, screen, caret).contains(
            Quad { place: Place::TextRow(row), fill: Fill::CurrentLine },
        ) <==> s.selections@.len() == 0 && s.cursors@.len() > 0 && s.cursors@[0].line
            == s.first_line + row && screen.from <= row < screen.to,
{
    let all = document_quads(s, screen, caret);
    let wanted = Quad { place: Place::TextRow(row), fill: Fill::CurrentLine };
    document_parts(s, screen, caret);
    let part = current_line_quads(s, screen);
    if part.len() > 0 {
        assert(all[0] == part[0]);
    }
    if all.contains(wanted) {
        let p = choose|p: int| 0 <= p < all.len() && all[p] == wanted;
        marks_by_fill(s, screen, caret, p);
    }
}

/// There is a scrollbar exactly while the document has more lines than fit.
pub proof fn a_scrollbar_means_there_is_more(s: Snapshot, screen: OnScreen, caret: bool)
    ensures
        document_quads(s, screen, caret).contains(
            Quad { place: Place::ScrollThumb, fill: Fill::Scrollbar },
        ) <==> s.total_lines > s.visible_lines,
        document_quads(s, screen, caret).contains(
            Quad { place: Place::ScrollTrack, fill: Fill::TabBar },
        ) <==> s.total_lines > s.visible_lines,
{
    let all = document_quads(s, screen, caret);
    let thumb = Quad { place: Place::ScrollThumb, fill: Fill::Scrollbar };
    let track = Quad { place: Place::ScrollTrack, fill: Fill::TabBar };
    document_parts(s, screen, caret);
    let before = all.len() - scrollbar_quads(s).len();
    if s.total_lines > s.visible_lines {
        assert(all[before + 0] == scrollbar_quads(s)[0]);
        assert(all[before + 1] == scrollbar_quads(s)[1]);
    }
    if all.contains(thumb) {
        let p = choose|p: int| 0 <= p < all.len() && all[p] == thumb;
        marks_by_fill(s, screen, caret, p);
    }
    if all.contains(track) {
        let p = choose|p: int| 0 <= p < all.len() && all[p] == track;
        marks_by_fill(s, screen, caret, p);
    }
}

/// What a mark of the graph looks like: the strokes and the ring of what is
/// traced stand out, and so does a file that nothing imports.
pub proof fn the_graph_is_drawn_in_its_colours(marks: Seq<Mark>, i: int)
    requires
        0 <= i < marks.len(),
    ensures
        graph_quads(marks).len() == marks.len(),
        graph_quads(marks)[i].place == Place::GraphMark(marks[i]),
        match marks[i] {
            Mark::Stroke { lit: true, .. } => graph_quads(marks)[i].fill == Fill::GraphTraced,
            Mark::Stroke { lit: false, .. } => graph_quads(marks)[i].fill == Fill::GraphEdge,
            Mark::Ring { .. } => graph_quads(marks)[i].fill == Fill::GraphTraced,
            Mark::Circle { imported: true, .. } => graph_quads(marks)[i].fill == Fill::GraphFile,
            Mark::Circle { imported: false, .. } => graph_quads(marks)[i].fill == Fill::GraphEntry,
        },
{
}

/// The settings screen lights the picked section, the switches that are on, the
/// current one of a setting's choices and the field that is typed into.
pub proof fn the_settings_show_what_is_set(marks: SettingsMarks, at: usize, option: usize)
    requires
        at < marks.controls@.len(),
        marks.controls@[at as int].in_list,
    ensures
        ({
            let all = settings_quads(marks);
            match marks.controls@[at as int].shape {
                ControlShape::Switch(on) => {
                    &&& all.contains(
                        Quad { place: Place::Control(at), fill: Fill::OverlayBorder },
                    )
                    &&& on ==> all.contains(
                        Quad { place: Place::ControlDot(at), fill: Fill::Cursor },
                    )
                },
                ControlShape::Choices { options, current, placed } => option < options@.len()
                    && option < placed ==> all.contains(
                    Quad {
                        place: Place::Choice(at, option),
                        fill: if options@[option as int]@ == current@ {
                            Fill::Cursor
                        } else {
                            Fill::OverlayBackground
                        },
                    },
                ),
                ControlShape::Field(key) => all.contains(
                    Quad {
                        place: Place::Control(at),
                        fill: if marks.editing matches Some(editing) && editing@ == key@ {
                            Fill::OverlayBorder
                        } else {
                            Fill::OverlayBackground
                        },
                    },
                ),
            }
        }),
        marks.controls@[at as int].reset ==> settings_quads(marks).contains(
            Quad { place: Place::Reset(at), fill: Fill::OverlayBackground },
        ),
        marks.section matches Some(section) ==> section < marks.sections ==> settings_quads(
            marks,
        ).contains(
            Quad { place: Place::SettingsSection(section), fill: Fill::SidebarSelected },
        ),
{
    let all = settings_quads(marks);
    let n = marks.controls@.len() as int;
    let head = all.len() - controls_quads(marks, n).len();
    let mark = marks.controls@[at as int];
    let own = control_quads(at, mark, marks.editing);
    let from = controls_before(marks, n, at);
    assert forall|i: int| 0 <= i < own.len() implies all.contains(#[trigger] own[i]) by {
        assert(controls_quads(marks, n)[from + i] == own[i]);
        assert(all[head + (from + i)] == own[i]);
    }
    match mark.shape {
        ControlShape::Switch(on) => {
            assert(own[0] == quad(Place::Control(at), Fill::OverlayBorder));
            if on {
                assert(own[1] == quad(Place::ControlDot(at), Fill::Cursor));
            }
        },
        ControlShape::Choices { options, current, placed } => {
            let shown = least(options@.len() as int, placed as int);
            if option < shown {
                a_choice_is_shown(at, options@, current@, shown, option as int);
                assert(own[option as int] == choice_quads(
                    at,
                    options@,
                    current@,
                    shown,
                )[option as int]);
            }
        },
        ControlShape::Field(key) => {
            assert(own[0].place == Place::Control(at));
        },
    }
    if mark.reset {
        assert(own[own.len() - 1] == quad(Place::Reset(at), Fill::OverlayBackground));
    }
    if let Some(section) = marks.section {
        if section < marks.sections {
            assert(all[1] == quad(Place::SettingsSection(section), Fill::SidebarSelected));
        }
    }
}

proof fn controls_before(marks: SettingsMarks, n: int, at: usize) -> (from: int)
    requires
        at < n <= marks.controls@.len(),
    ensures
        ({
            let own = control_quads(at, marks.controls@[at as int], marks.editing);
            let all = controls_quads(marks, n);
            &&& 0 <= from
            &&& from + own.len() <= all.len()
            &&& forall|i: int| 0 <= i < own.len() ==> all[from + i] == #[trigger] own[i]
        }),
    decreases n,
{
    if at < n - 1 {
        controls_before(marks, n - 1, at)
    } else {
        controls_quads(marks, n - 1).len() as int
    }
}

proof fn a_choice_is_shown(
    at: usize,
    options: Seq<String>,
    current: Seq<char>,
    n: int,
    i: int,
)
    requires
        0 <= i < n <= options.len(),
        n <= usize::MAX,
    ensures
        choice_quads(at, options, current, n).len() == n,
        choice_quads(at, options, current, n)[i] == (Quad {
            place: Place::Choice(at, i as usize),
            fill: if options[i]@ == current {
                Fill::Cursor
            } else {
                Fill::OverlayBackground
            },
        }),
    decreases n,
{
    if i < n - 1 {
        a_choice_is_shown(at, options, current, n - 1, i);
    } else if n > 1 {
        a_choice_is_shown(at, options, current, n - 1, n - 2);
    }
}

} // verus!
