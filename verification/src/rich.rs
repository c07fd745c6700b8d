//! Text with looks: what the chrome hands to the text engine.
//!
//! A [`RichText`] is a row of runs, each a piece of text and how it is drawn.
//! Colours are named by their role in the theme, so the same text serves every
//! theme; only a file icon brings a colour of its own.

use crate::icons::{chrome_glyph, Glyph, Icon};
use crate::text::owned;
use vstd::prelude::*;

verus! {

/// An opaque sRGB colour.
#[derive(Copy, Clone, Debug, PartialEq, Eq, Structural)]
pub struct Color {
    pub r: u8,
    pub g: u8,
    pub b: u8,
}

impl Color {
    /// The colour with these three channels.
    pub fn rgb(r: u8, g: u8, b: u8) -> (color: Self)
        ensures
            color == (Color { r, g, b }),
    {
        Color { r, g, b }
    }
}

/// What a colour is for. The theme says which colour that is.
#[derive(Copy, Clone, Debug, PartialEq, Eq, Structural)]
pub enum Role {
    Text,
    DimText,
    Cursor,
    StatusText,
    TabText,
    GutterText,
    Success,
    Warning,
    Error,
    SyntaxString,
    SyntaxKeyword,
    ActivityIconActive,
    ActivityIconInactive,
    SidebarFolder,
    SidebarHeader,
    SidebarDirectory,
    SidebarFile,
    SidebarInfo,
}

/// A colour: one of the theme's, or one that an icon brings along.
#[derive(Copy, Clone, Debug, PartialEq, Eq, Structural)]
pub enum Paint {
    Theme(Role),
    Own(Color),
}

/// How one run of text is drawn.
#[derive(Copy, Clone, Debug, PartialEq, Eq)]
pub enum Look {
    /// In the colour of the region it stands in.
    Plain,
    /// In a colour of its own.
    Colored(Paint),
    /// As a glyph of one of the icon fonts.
    Icon(Glyph, Paint),
    /// As a gap exactly as wide as an icon.
    IconSpace,
}

/// A piece of text with one look. `T` is how the text is held: a `String` in a
/// running program, a `Seq<char>` in a contract.
#[derive(Clone, Debug, PartialEq, Eq)]
pub struct Run<T> {
    pub text: T,
    pub look: Look,
}

/// Text made of runs.
#[derive(Clone, Debug, PartialEq, Eq)]
pub struct RichText {
    pub runs: Vec<Run<String>>,
}

/// What a run is in contracts.
pub open spec fn run_view(run: Run<String>) -> Run<Seq<char>> {
    Run { text: run.text@, look: run.look }
}

impl View for RichText {
    type V = Seq<Run<Seq<char>>>;

    open spec fn view(&self) -> Seq<Run<Seq<char>>> {
        Seq::new(self.runs@.len(), |i: int| run_view(self.runs@[i]))
    }
}

/// The characters of the runs, one after the other.
pub open spec fn flat(runs: Seq<Run<Seq<char>>>) -> Seq<char>
    decreases runs.len(),
{
    if runs.len() == 0 {
        Seq::empty()
    } else {
        flat(runs.drop_last()) + runs.last().text
    }
}

/// A run in the colour of its region.
pub open spec fn plain(text: Seq<char>) -> Run<Seq<char>> {
    Run { text, look: Look::Plain }
}

/// A run in one of the theme's colours.
pub open spec fn colored(text: Seq<char>, role: Role) -> Run<Seq<char>> {
    Run { text, look: Look::Colored(Paint::Theme(role)) }
}

/// A run that is one chrome icon in one of the theme's colours.
pub open spec fn icon(icon: Icon, role: Role) -> Run<Seq<char>> {
    glyph_run(chrome_glyph(icon), Paint::Theme(role))
}

/// A run that is one glyph.
pub open spec fn glyph_run(glyph: Glyph, paint: Paint) -> Run<Seq<char>> {
    Run { text: seq![glyph.ch], look: Look::Icon(glyph, paint) }
}

/// A gap as wide as an icon.
pub open spec fn icon_gap() -> Run<Seq<char>> {
    Run { text: seq![' '], look: Look::IconSpace }
}

/// A line break.
pub open spec fn line_break() -> Run<Seq<char>> {
    Run { text: seq!['\n'], look: Look::Plain }
}

impl RichText {
    /// No text yet.
    pub fn new() -> (r: Self)
        ensures
            r@ == Seq::<Run<Seq<char>>>::empty(),
    {
        let r = RichText { runs: Vec::new() };
        assert(r@ == Seq::<Run<Seq<char>>>::empty());
        r
    }

    fn push(&mut self, text: String, look: Look)
        ensures
            final(self)@ == old(self)@.push(Run { text: text@, look }),
    {
        self.runs.push(Run { text, look });
        assert(self@ == old(self)@.push(Run { text: text@, look }));
    }

    /// Appends text in the region's own colour.
    pub fn plain(&mut self, text: &str)
        ensures
            final(self)@ == old(self)@.push(plain(text@)),
    {
        self.push(owned(text), Look::Plain);
    }

    /// Appends text in one of the theme's colours.
    pub fn colored(&mut self, text: &str, role: Role)
        ensures
            final(self)@ == old(self)@.push(colored(text@, role)),
    {
        self.push(owned(text), Look::Colored(Paint::Theme(role)));
    }

    /// Appends a chrome icon in one of the theme's colours.
    pub fn icon(&mut self, icon: Icon, role: Role)
        ensures
            final(self)@ == old(self)@.push(self::icon(icon, role)),
    {
        self.glyph(Glyph::from(icon), Paint::Theme(role));
    }

    /// Appends a glyph of either icon font.
    pub fn glyph(&mut self, glyph: Glyph, paint: Paint)
        ensures
            final(self)@ == old(self)@.push(glyph_run(glyph, paint)),
    {
        let mut text = String::new();
        text.push(glyph.ch);
        assert(text@ == seq![glyph.ch]);
        self.push(text, Look::Icon(glyph, paint));
    }

    /// Appends a gap as wide as an icon, so that rows with and without one
    /// line up.
    pub fn icon_space(&mut self)
        ensures
            final(self)@ == old(self)@.push(icon_gap()),
    {
        let mut text = String::new();
        text.push(' ');
        assert(text@ == seq![' ']);
        self.push(text, Look::IconSpace);
    }

    /// Starts a new line.
    pub fn newline(&mut self)
        ensures
            final(self)@ == old(self)@.push(line_break()),
    {
        let mut text = String::new();
        text.push('\n');
        assert(text@ == seq!['\n']);
        self.push(text, Look::Plain);
    }

    /// Whether nothing has been appended.
    pub fn is_empty(&self) -> (r: bool)
        ensures
            r == (self@.len() == 0),
    {
        self.runs.len() == 0
    }

    /// The characters alone, without their looks.
    pub fn text(&self) -> (r: String)
        ensures
            r@ == flat(self@),
    {
        let mut out = String::new();
        for i in 0..self.runs.len()
            invariant
                out@ == flat(self@.take(i as int)),
        {
            out.push_str(self.runs[i].text.as_str());
            proof {
                assert(self@.take(i + 1).drop_last() == self@.take(i as int));
                assert(self@.take(i + 1).last() == run_view(self.runs@[i as int]));
            }
        }
        assert(self@.take(self.runs.len() as int) == self@);
        out
    }
}

/// The characters of runs are those of each run, in the order they stand.
pub proof fn the_characters_stand_in_their_order(
    a: Seq<Run<Seq<char>>>,
    b: Seq<Run<Seq<char>>>,
    run: Run<Seq<char>>,
)
    ensures
        flat(a + b) == flat(a) + flat(b),
        flat(seq![run]) == run.text,
        flat(Seq::<Run<Seq<char>>>::empty()).len() == 0,
    decreases b.len(),
{
    reveal_with_fuel(flat, 2);
    assert(seq![run].drop_last() =~= Seq::<Run<Seq<char>>>::empty());
    assert(flat(seq![run]) =~= run.text);
    if b.len() == 0 {
        assert(a + b =~= a);
        assert(flat(a) + flat(b) =~= flat(a));
    } else {
        the_characters_stand_in_their_order(a, b.drop_last(), run);
        assert((a + b).drop_last() =~= a + b.drop_last());
        assert((a + b).last() == b.last());
        assert(flat(a + b) =~= flat(a) + flat(b));
    }
}

/// A run holds its text, in the colour it was given; an icon is its glyph, and
/// a gap is as wide as one.
pub proof fn a_run_holds_its_text(text: Seq<char>, role: Role, glyph: Glyph, paint: Paint)
    ensures
        plain(text).text == text,
        plain(text).look == Look::Plain,
        colored(text, role).text == text,
        colored(text, role).look == Look::Colored(Paint::Theme(role)),
        glyph_run(glyph, paint).text == seq![glyph.ch],
        glyph_run(glyph, paint).look == Look::Icon(glyph, paint),
        icon_gap().text == seq![' '],
        icon_gap().look == Look::IconSpace,
        line_break().text == seq!['\n'],
{
}

} // verus!
