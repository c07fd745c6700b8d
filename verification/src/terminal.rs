//! The command runner's panel: the line being typed, the commands recalled
//! into it, and the output scrolled through.
//!
//! The process behind it belongs to the program; what a key does to the line,
//! and which rows the panel shows, is decided here.

use crate::text::{
    byte_len, byte_len_steps, chars_of, decimal, decimal_of, equal, least, lines, lines_of, owned,
    slice, string_of, texts, trim, trimmed, views, width_of,
};
use vstd::prelude::*;

verus! {

/// How much output is kept, in bytes.
pub const SCROLLBACK_BYTES: usize = 65536;

/// How many commands can be recalled.
pub const MAX_RECALL_HISTORY: usize = 1000;

/// Rows of the panel that hold no output: the header, and the input line.
pub const CHROME_ROWS: usize = 2;

/// How many lines of output fit in a panel with room for `rows` rows.
pub open spec fn visible_lines(rows: int) -> int {
    if rows - CHROME_ROWS > 1 {
        rows - CHROME_ROWS
    } else {
        1
    }
}

/// How many lines of terminal output fit in the bottom panel, after the header
/// and the input line have taken their rows.
pub fn terminal_visible_lines(rows: usize) -> (r: usize)
    ensures
        r == visible_lines(rows as int),
{
    if rows > CHROME_ROWS + 1 {
        rows - CHROME_ROWS
    } else {
        1
    }
}

/// The byte offset in `line` for character index `cursor`, clamped to the end
/// of the line.
pub fn terminal_char_boundary(line: &str, cursor: usize) -> (r: usize)
    ensures
        r == byte_len(line@.take(least(cursor as int, line@.len() as int))),
{
    crate::text::byte_offset(line, cursor)
}

/// The live input row: the line with a block at the caret.
pub open spec fn input_row(input: Seq<char>, cursor: int) -> Seq<char> {
    let at = least(cursor, input.len() as int);
    "> "@ + input.take(at) + seq!['\u{2588}'] + input.skip(at)
}

fn caret_row(input: &Vec<char>, cursor: usize) -> (r: String)
    ensures
        r@ == input_row(input@, cursor as int),
{
    let at: usize = if cursor < input.len() { cursor } else { input.len() };
    let mut row = owned("> ");
    let head = slice(input, 0, at);
    let tail = slice(input, at, input.len());
    row.push_str(string_of(&head).as_str());
    row.push('\u{2588}');
    row.push_str(string_of(&tail).as_str());
    assert(head@ =~= input@.take(at as int));
    assert(tail@ =~= input@.skip(at as int));
    assert(row@ =~= input_row(input@, cursor as int));
    row
}

/// Builds the terminal's live input row with a visible cursor spliced in at
/// character index `cursor`, which may lie past the end.
pub fn terminal_input_row(input: &str, cursor: usize) -> (r: String)
    ensures
        r@ == input_row(input@, cursor as int),
{
    caret_row(&chars_of(input), cursor)
}

/// Which way the terminal's command history is being walked.
#[derive(Copy, Clone, Debug, PartialEq, Eq, Structural)]
pub enum HistoryDirection {
    /// Up: toward commands run further in the past.
    Older,
    /// Down: back toward the live input line.
    Newer,
}

/// Where one press lands in a history of `len` commands; `None` is the live
/// line. Older stops at the oldest, newer goes back to the live line.
pub open spec fn walked(len: int, current: Option<usize>, direction: HistoryDirection) -> Option<
    usize,
> {
    if len == 0 {
        None
    } else {
        match (direction, current) {
            (HistoryDirection::Older, None) => Some((len - 1) as usize),
            (HistoryDirection::Older, Some(index)) => Some(
                if index > 0 {
                    (index - 1) as usize
                } else {
                    0
                },
            ),
            (HistoryDirection::Newer, Some(index)) => if index + 1 < len {
                Some((index + 1) as usize)
            } else {
                None
            },
            (HistoryDirection::Newer, None) => None,
        }
    }
}

/// Resolves one Up/Down press against the command history, returning the index
/// it lands on (`None` means back at the live input line).
pub fn navigate_terminal_history(
    history: &[String],
    current: Option<usize>,
    direction: HistoryDirection,
) -> (r: Option<usize>)
    ensures
        r == walked(history@.len() as int, current, direction),
{
    if history.len() == 0 {
        return None;
    }
    match (direction, current) {
        (HistoryDirection::Older, None) => Some(history.len() - 1),
        (HistoryDirection::Older, Some(index)) => Some(if index > 0 { index - 1 } else { 0 }),
        (HistoryDirection::Newer, Some(index)) => if index < history.len() - 1 {
            Some(index + 1)
        } else {
            None
        },
        (HistoryDirection::Newer, None) => None,
    }
}

// --- the panel ---------------------------------------------------------------

/// The command runner's panel.
#[derive(Clone, Debug)]
pub struct TerminalPanel {
    visible: bool,
    scrollback: Vec<char>,
    /// How far the view is scrolled back, in lines up from the newest output.
    scroll_lines: usize,
    input: Vec<char>,
    /// Where the caret sits in `input`, as a character index.
    cursor: usize,
    /// Commands run this session, oldest first.
    history: Vec<String>,
    /// Which entry of `history` is being recalled; `None` on a live line.
    history_index: Option<usize>,
    /// What was being typed before the first recall.
    draft: Vec<char>,
}

/// The panel in contracts.
#[verifier::ext_equal]
pub struct Panel {
    pub visible: bool,
    pub scrollback: Seq<char>,
    pub scroll: int,
    pub input: Seq<char>,
    pub cursor: int,
    pub history: Seq<Seq<char>>,
    pub index: Option<usize>,
    pub draft: Seq<char>,
}

impl View for TerminalPanel {
    type V = Panel;

    closed spec fn view(&self) -> Panel {
        Panel {
            visible: self.visible,
            scrollback: self.scrollback@,
            scroll: self.scroll_lines as int,
            input: self.input@,
            cursor: self.cursor as int,
            history: texts(self.history@),
            index: self.history_index,
            draft: self.draft@,
        }
    }
}

/// A panel nothing was typed into.
pub open spec fn fresh() -> Panel {
    Panel {
        visible: false,
        scrollback: Seq::empty(),
        scroll: 0,
        input: Seq::empty(),
        cursor: 0,
        history: Seq::empty(),
        index: None,
        draft: Seq::empty(),
    }
}

/// Whether a line holds nothing but white space.
pub open spec fn blank(line: Seq<char>) -> bool {
    trim(line).len() == 0
}

/// The caret lies within the line, what is recalled exists, and the history is
/// bounded and repeats no command twice in a row.
pub open spec fn sound(p: Panel) -> bool {
    &&& 0 <= p.cursor <= p.input.len()
    &&& 0 <= p.scroll
    &&& p.index matches Some(i) ==> i < p.history.len()
    &&& p.history.len() <= MAX_RECALL_HISTORY
    &&& forall|i: int|
        0 < i < p.history.len() ==> (#[trigger] p.history[i]) != p.history[i - 1]
    &&& forall|i: int| 0 <= i < p.history.len() ==> !blank(#[trigger] p.history[i])
}

/// Text inserted at the caret, which moves past it.
pub open spec fn inserted(p: Panel, text: Seq<char>) -> Panel {
    Panel {
        input: p.input.take(p.cursor) + text + p.input.skip(p.cursor),
        cursor: p.cursor + text.len(),
        ..p
    }
}

/// The character behind the caret deleted.
pub open spec fn backspaced(p: Panel) -> Panel {
    if p.cursor == 0 {
        p
    } else {
        Panel { input: p.input.remove(p.cursor - 1), cursor: p.cursor - 1, ..p }
    }
}

/// The character ahead of the caret deleted.
pub open spec fn deleted_forward(p: Panel) -> Panel {
    if p.cursor >= p.input.len() {
        p
    } else {
        Panel { input: p.input.remove(p.cursor), ..p }
    }
}

/// The caret moved.
pub open spec fn moved(p: Panel, cursor: int) -> Panel {
    Panel { cursor, ..p }
}

/// The caret one character to the left, as far as there is one.
pub open spec fn moved_left(p: Panel) -> Panel {
    moved(p, if p.cursor > 0 { p.cursor - 1 } else { 0 })
}

/// The caret one character to the right, as far as there is one.
pub open spec fn moved_right(p: Panel) -> Panel {
    moved(p, least(p.cursor + 1, p.input.len() as int))
}

/// A history with a command added: not a blank one, not the one just run
/// again, and no more than can be recalled.
pub open spec fn remembered(history: Seq<Seq<char>>, line: Seq<char>) -> Seq<Seq<char>> {
    if blank(line) {
        history
    } else {
        let longer = if history.len() > 0 && history.last() == line {
            history
        } else {
            history.push(line)
        };
        if longer.len() > MAX_RECALL_HISTORY {
            longer.skip(longer.len() - MAX_RECALL_HISTORY)
        } else {
            longer
        }
    }
}

/// The line taken out to be run: the input empty, the command remembered, any
/// recall over.
pub open spec fn taken(p: Panel) -> Panel {
    Panel {
        input: Seq::empty(),
        cursor: 0,
        history: remembered(p.history, p.input),
        index: None,
        draft: Seq::empty(),
        ..p
    }
}

/// An older command recalled. The first recall off a live line keeps what was
/// being typed.
pub open spec fn recalled_older(p: Panel) -> Panel {
    match walked(p.history.len() as int, p.index, HistoryDirection::Older) {
        Some(index) => Panel {
            index: Some(index),
            input: p.history[index as int],
            cursor: p.history[index as int].len() as int,
            draft: if p.index is None {
                p.input
            } else {
                p.draft
            },
            ..p
        },
        None => p,
    }
}

/// A newer command recalled, or the live line given back. Nothing happens on a
/// live line.
pub open spec fn recalled_newer(p: Panel) -> Panel {
    if p.index is None {
        p
    } else {
        match walked(p.history.len() as int, p.index, HistoryDirection::Newer) {
            Some(index) => Panel {
                index: Some(index),
                input: p.history[index as int],
                cursor: p.history[index as int].len() as int,
                ..p
            },
            None => Panel {
                index: None,
                input: p.draft,
                cursor: p.draft.len() as int,
                draft: Seq::empty(),
                ..p
            },
        }
    }
}

/// The longest end of a text that takes no more than `cap` bytes.
pub open spec fn newest(s: Seq<char>, cap: int) -> Seq<char>
    decreases s.len(),
{
    if byte_len(s) <= cap || s.len() == 0 {
        s
    } else {
        newest(s.drop_first(), cap)
    }
}

/// The furthest a view of `visible` lines can be scrolled back over `total`.
pub open spec fn furthest(total: int, visible: int) -> int {
    if total > visible {
        total - visible
    } else {
        0
    }
}

/// Output that arrived: kept up to the cap, and the view held on the lines
/// being read when it is scrolled back. `visible` is how many lines the panel
/// shows, once that is known.
pub open spec fn drained(p: Panel, text: Seq<char>, visible: Option<usize>) -> Panel {
    if text.len() == 0 {
        p
    } else {
        let before = lines(p.scrollback).len() as int;
        let scrollback = newest(p.scrollback + text, SCROLLBACK_BYTES as int);
        let after = lines(scrollback).len() as int;
        let added = if after > before {
            after - before
        } else {
            0
        };
        let most = match visible {
            Some(visible) => furthest(after, visible as int),
            None => after,
        };
        Panel {
            scrollback,
            scroll: if p.scroll > 0 {
                least(p.scroll + added, most)
            } else {
                p.scroll
            },
            ..p
        }
    }
}

/// The view scrolled by `by` lines, back for a positive number, within what
/// there is.
pub open spec fn scrolled(p: Panel, by: int, visible: int) -> Panel {
    let most = furthest(lines(p.scrollback).len() as int, visible);
    let next = p.scroll + by;
    Panel {
        scroll: if next < 0 {
            0
        } else {
            least(next, most)
        },
        ..p
    }
}

/// A line sent to the shell: shown in the scrollback, with the view back at
/// the newest output.
pub open spec fn echoed(p: Panel, line: Seq<char>) -> Panel {
    Panel { scrollback: p.scrollback + "> "@ + line + seq!['\n'], scroll: 0, ..p }
}

/// How far back the view is, within what there is to show.
pub open spec fn from_bottom(p: Panel, visible: int) -> int {
    least(p.scroll, furthest(lines(p.scrollback).len() as int, visible))
}

/// The rows of the panel: a header, the visible window of output, and the
/// input line, or how far the view is scrolled back.
pub open spec fn panel_rows(p: Panel, visible: int) -> Seq<Seq<char>> {
    let all = lines(p.scrollback);
    let back = from_bottom(p, visible);
    let end = all.len() - back;
    let start = furthest(end, visible);
    seq!["Terminal  (Enter to run, \u{2191}\u{2193} for history, F11 to hide)"@] + all.subrange(
        start,
        end,
    ) + seq![
        if back == 0 {
            input_row(p.input, p.cursor)
        } else {
            "-- scrolled back "@ + decimal(back as nat) + " lines --"@
        },
    ]
}

/// What became of the shell behind the panel.
#[derive(Copy, Clone, Debug, PartialEq, Eq, Structural)]
pub enum ShellState {
    NotStarted,
    Running,
    Exited,
}

/// What to do with a line that was entered. `T` is how text is held.
#[derive(Clone, Debug, PartialEq, Eq)]
pub enum LineOutcome<T> {
    /// No shell to send it to.
    Dropped,
    /// The shell is gone; say so and let go of it.
    ShellExited,
    /// Send this line.
    Send(T),
}

/// The panel after Enter.
pub open spec fn entered(p: Panel, shell: ShellState) -> Panel {
    match shell {
        ShellState::Running => echoed(taken(p), p.input),
        _ => taken(p),
    }
}

impl TerminalPanel {
    /// A panel nothing was typed into.
    pub fn new() -> (r: Self)
        ensures
            r@ == fresh(),
            sound(r@),
    {
        let r = TerminalPanel {
            visible: false,
            scrollback: Vec::new(),
            scroll_lines: 0,
            input: Vec::new(),
            cursor: 0,
            history: Vec::new(),
            history_index: None,
            draft: Vec::new(),
        };
        assert(r@ =~= fresh());
        r
    }

    /// Whether the panel is on screen.
    pub fn is_visible(&self) -> (r: bool)
        ensures
            r == self@.visible,
    {
        self.visible
    }

    /// Shows or hides the panel.
    pub fn set_visible(&mut self, visible: bool)
        ensures
            final(self)@ == (Panel { visible, ..old(self)@ }),
    {
        self.visible = visible;
    }

    /// Inserts `text` at the caret and advances it past what was inserted.
    pub fn insert(&mut self, text: &Vec<char>)
        requires
            sound(old(self)@),
        ensures
            final(self)@ == inserted(old(self)@, text@),
            sound(final(self)@),
    {
        let head = slice(&self.input, 0, self.cursor);
        let mut tail = slice(&self.input, self.cursor, self.input.len());
        let mut middle = slice(text, 0, text.len());
        let mut line = head;
        line.append(&mut middle);
        let cursor = line.len();
        line.append(&mut tail);
        self.input = line;
        self.cursor = cursor;
        assert(self@ =~= inserted(old(self)@, text@));
    }

    /// Deletes the character behind the caret, and moves the caret onto where
    /// it was.
    pub fn backspace(&mut self)
        requires
            sound(old(self)@),
        ensures
            final(self)@ == backspaced(old(self)@),
            sound(final(self)@),
    {
        if self.cursor > 0 {
            self.input.remove(self.cursor - 1);
            self.cursor = self.cursor - 1;
        }
        assert(self@ =~= backspaced(old(self)@));
    }

    /// Deletes the character ahead of the caret, which stays where it is.
    pub fn delete_forward(&mut self)
        requires
            sound(old(self)@),
        ensures
            final(self)@ == deleted_forward(old(self)@),
            sound(final(self)@),
    {
        if self.cursor < self.input.len() {
            self.input.remove(self.cursor);
        }
        assert(self@ =~= deleted_forward(old(self)@));
    }

    /// Moves the caret one character to the left.
    pub fn move_left(&mut self)
        requires
            sound(old(self)@),
        ensures
            final(self)@ == moved_left(old(self)@),
            sound(final(self)@),
    {
        if self.cursor > 0 {
            self.cursor = self.cursor - 1;
        }
    }

    /// Moves the caret one character to the right.
    pub fn move_right(&mut self)
        requires
            sound(old(self)@),
        ensures
            final(self)@ == moved_right(old(self)@),
            sound(final(self)@),
    {
        if self.cursor < self.input.len() {
            self.cursor = self.cursor + 1;
        }
    }

    /// Moves the caret before the first character.
    pub fn move_home(&mut self)
        requires
            sound(old(self)@),
        ensures
            final(self)@ == moved(old(self)@, 0),
            sound(final(self)@),
    {
        self.cursor = 0;
    }

    /// Moves the caret past the last character.
    pub fn move_end(&mut self)
        requires
            sound(old(self)@),
        ensures
            final(self)@ == moved(old(self)@, old(self)@.input.len() as int),
            sound(final(self)@),
    {
        self.cursor = self.input.len();
    }

    fn remember(&mut self, line: &Vec<char>)
        requires
            sound(old(self)@),
            old(self)@.index is None,
        ensures
            final(self)@ == (Panel { history: remembered(old(self)@.history, line@), ..old(self)@ }),
            sound(final(self)@),
    {
        if trimmed(line).len() == 0 {
            return;
        }
        let text = string_of(line);
        let ghost before = texts(self.history@);
        let repeats = self.history.len() > 0 && equal(
            self.history[self.history.len() - 1].as_str(),
            text.as_str(),
        );
        if self.history.len() > 0 {
            assert(before.last() == self.history@[self.history@.len() - 1]@);
        }
        if repeats {
            return;
        }
        self.history.push(text);
        assert(texts(self.history@) =~= before.push(line@));
        if self.history.len() > MAX_RECALL_HISTORY {
            let ghost longer = texts(self.history@);
            self.history.remove(0);
            assert(texts(self.history@) =~= longer.skip(1));
        }
        proof {
            let after = texts(self.history@);
            assert(after =~= remembered(before, line@));
            assert forall|i: int| 0 < i < after.len() implies (#[trigger] after[i]) != after[i
                - 1] by {
                let shift = before.len() + 1 - after.len();
                if i + shift < before.len() {
                    assert(after[i] == before[i + shift]);
                    assert(after[i - 1] == before[i + shift - 1]);
                } else {
                    assert(after[i] == line@);
                    assert(after[i - 1] == before.last());
                }
            }
            assert forall|i: int| 0 <= i < after.len() implies !blank(#[trigger] after[i]) by {
                let shift = before.len() + 1 - after.len();
                if i + shift < before.len() {
                    assert(after[i] == before[i + shift]);
                }
            }
        }
        assert(self@ =~= (Panel { history: remembered(old(self)@.history, line@), ..old(self)@ }));
    }

    /// Enter: takes the line out to be run, remembers it, and says what to do
    /// with it. Running something snaps the view back to the newest output.
    pub fn enter(&mut self, shell: ShellState) -> (r: LineOutcome<String>)
        requires
            sound(old(self)@),
        ensures
            final(self)@ == entered(old(self)@, shell),
            sound(final(self)@),
            match shell {
                ShellState::NotStarted => r is Dropped,
                ShellState::Exited => r is ShellExited,
                ShellState::Running => r matches LineOutcome::Send(line) && line@ == old(
                    self,
                )@.input,
            },
    {
        let line = slice(&self.input, 0, self.input.len());
        assert(line@ =~= self.input@);
        self.input = Vec::new();
        self.cursor = 0;
        self.history_index = None;
        self.draft = Vec::new();
        self.remember(&line);
        assert(self@ =~= taken(old(self)@));
        match shell {
            ShellState::NotStarted => LineOutcome::Dropped,
            ShellState::Exited => LineOutcome::ShellExited,
            ShellState::Running => {
                let ghost before = self.scrollback@;
                let mut prompt = chars_of("> ");
                self.scrollback.append(&mut prompt);
                let mut copy = slice(&line, 0, line.len());
                self.scrollback.append(&mut copy);
                self.scrollback.push('\n');
                self.scroll_lines = 0;
                assert(self.scrollback@ =~= before + "> "@ + line@ + seq!['\n']);
                assert(self@ =~= echoed(taken(old(self)@), line@));
                LineOutcome::Send(string_of(&line))
            },
        }
    }

    /// Up: recalls an older command.
    pub fn history_up(&mut self)
        requires
            sound(old(self)@),
        ensures
            final(self)@ == recalled_older(old(self)@),
            sound(final(self)@),
    {
        let next = navigate_terminal_history(
            self.history.as_slice(),
            self.history_index,
            HistoryDirection::Older,
        );
        if let Some(index) = next {
            if self.history_index.is_none() {
                let mut line: Vec<char> = Vec::new();
                line.append(&mut self.input);
                self.draft = line;
                assert(self.draft@ =~= old(self)@.input);
            }
            self.history_index = Some(index);
            self.input = chars_of(self.history[index].as_str());
            self.cursor = self.input.len();
            assert(self@.history[index as int] == self.history@[index as int]@);
        }
        assert(self@ =~= recalled_older(old(self)@));
    }

    /// Down: walks back toward the live input line.
    pub fn history_down(&mut self)
        requires
            sound(old(self)@),
        ensures
            final(self)@ == recalled_newer(old(self)@),
            sound(final(self)@),
    {
        if self.history_index.is_none() {
            return;
        }
        let next = navigate_terminal_history(
            self.history.as_slice(),
            self.history_index,
            HistoryDirection::Newer,
        );
        self.history_index = next;
        match next {
            Some(index) => {
                self.input = chars_of(self.history[index].as_str());
                assert(self@.history[index as int] == self.history@[index as int]@);
            },
            None => {
                let mut line: Vec<char> = Vec::new();
                line.append(&mut self.draft);
                self.input = line;
                assert(self.input@ =~= old(self)@.draft);
            },
        }
        self.cursor = self.input.len();
        assert(self@ =~= recalled_newer(old(self)@));
    }

    /// Takes in output that arrived. `visible` is how many lines the panel
    /// shows, once that is known.
    pub fn drain_output(&mut self, text: &str, visible: Option<usize>)
        requires
            sound(old(self)@),
        ensures
            final(self)@ == drained(old(self)@, text@, visible),
            sound(final(self)@),
    {
        let mut arrived = chars_of(text);
        if arrived.len() == 0 {
            return;
        }
        let before = count_lines(&self.scrollback);
        let ghost joined = self.scrollback@ + text@;
        self.scrollback.append(&mut arrived);
        let from = newest_from(&self.scrollback);
        self.scrollback = slice(&self.scrollback, from, self.scrollback.len());
        assert(self.scrollback@ =~= newest(joined, SCROLLBACK_BYTES as int));
        if self.scroll_lines > 0 {
            let after = count_lines(&self.scrollback);
            let added: usize = if after > before { after - before } else { 0 };
            let most: usize = match visible {
                Some(visible) => if after > visible {
                    after - visible
                } else {
                    0
                },
                None => after,
            };
            self.scroll_lines = if self.scroll_lines < most && added < most - self.scroll_lines {
                self.scroll_lines + added
            } else {
                most
            };
        }
        assert(self@ =~= drained(old(self)@, text@, visible));
    }

    /// Scrolls the output by `by` lines, back into history for a positive
    /// number, clamped so it can never run past either end.
    pub fn scroll_by_lines(&mut self, by: i64, visible: usize)
        requires
            sound(old(self)@),
        ensures
            final(self)@ == scrolled(old(self)@, by as int, visible as int),
            sound(final(self)@),
    {
        let total = count_lines(&self.scrollback);
        let most: usize = if total > visible { total - visible } else { 0 };
        let next: i128 = self.scroll_lines as i128 + by as i128;
        self.scroll_lines = if next < 0 {
            0
        } else if next < most as i128 {
            next as usize
        } else {
            most
        };
        assert(self@ =~= scrolled(old(self)@, by as int, visible as int));
    }

    /// The panel's rows: the visible window of output and the line being
    /// typed, or a note on how far back the view is.
    pub fn rows(&self, visible: usize) -> (r: Vec<String>)
        requires
            sound(self@),
        ensures
            texts(r@) == panel_rows(self@, visible as int),
    {
        let all = lines_of(&self.scrollback);
        let ghost every = lines(self.scrollback@);
        assert(views(all@).len() == all@.len());
        let most: usize = if all.len() > visible { all.len() - visible } else { 0 };
        let back: usize = if self.scroll_lines < most { self.scroll_lines } else { most };
        let end: usize = all.len() - back;
        let start: usize = if end > visible { end - visible } else { 0 };
        let mut rows: Vec<String> = Vec::new();
        rows.push(owned("Terminal  (Enter to run, \u{2191}\u{2193} for history, F11 to hide)"));
        let ghost header = texts(rows@);
        assert(header =~= seq![
            "Terminal  (Enter to run, \u{2191}\u{2193} for history, F11 to hide)"@,
        ]);
        assert(texts(rows@) =~= header + every.subrange(start as int, start as int));
        for i in start..end
            invariant
                start <= i <= end <= all.len(),
                views(all@) == every,
                every.len() == all.len(),
                texts(rows@) == header + every.subrange(start as int, i as int),
        {
            let ghost before = texts(rows@);
            rows.push(string_of(&all[i]));
            proof {
                assert(views(all@)[i as int] == all@[i as int]@);
                assert(texts(rows@) =~= before.push(every[i as int]));
                assert(every.subrange(start as int, i + 1) =~= every.subrange(
                    start as int,
                    i as int,
                ).push(every[i as int]));
            }
        }
        let ghost shown = texts(rows@);
        if back == 0 {
            rows.push(caret_row(&self.input, self.cursor));
        } else {
            let mut note = owned("-- scrolled back ");
            note.push_str(decimal_of(back as u64).as_str());
            note.push_str(" lines --");
            rows.push(note);
        }
        assert(texts(rows@) =~= panel_rows(self@, visible as int));
        rows
    }
}

fn count_lines(text: &Vec<char>) -> (n: usize)
    ensures
        n == lines(text@).len(),
{
    let rows = lines_of(text);
    assert(views(rows@).len() == rows@.len());
    rows.len()
}

/// Where the longest end of the text that fits the cap begins.
fn newest_from(text: &Vec<char>) -> (from: usize)
    ensures
        from <= text.len(),
        newest(text@, SCROLLBACK_BYTES as int) == text@.skip(from as int),
{
    let mut total: u128 = 0;
    assert(text@.skip(text.len() as int) =~= Seq::<char>::empty());
    let mut i: usize = text.len();
    while i > 0
        invariant
            i <= text.len(),
            total == byte_len(text@.skip(i as int)),
            total <= 4 * (text.len() - i),
        decreases i,
    {
        i = i - 1;
        total = total + width_of(text[i]) as u128;
        proof {
            byte_len_steps(text@.skip(i as int));
            assert(text@.skip(i as int).drop_first() =~= text@.skip(i + 1));
        }
    }
    let mut from: usize = 0;
    assert(text@.skip(0) =~= text@);
    while from < text.len() && total > SCROLLBACK_BYTES as u128
        invariant
            from <= text.len(),
            total == byte_len(text@.skip(from as int)),
            newest(text@, SCROLLBACK_BYTES as int) == newest(
                text@.skip(from as int),
                SCROLLBACK_BYTES as int,
            ),
        decreases text.len() - from,
    {
        proof {
            byte_len_steps(text@.skip(from as int));
            assert(text@.skip(from as int).drop_first() =~= text@.skip(from + 1));
        }
        total = total - width_of(text[from]) as u128;
        from = from + 1;
    }
    from
}

// --- what holds of the panel -------------------------------------------------

/// Backspace undoes typing a character, wherever the caret is.
pub proof fn backspace_undoes_typing(p: Panel, c: char)
    requires
        sound(p),
    ensures
        backspaced(inserted(p, seq![c])) == p,
{
    let typed = inserted(p, seq![c]);
    assert(typed.input.remove(p.cursor) =~= p.input);
}

/// Going up from a live line and down again gives back what was being typed.
pub proof fn down_gives_back_what_was_being_typed(p: Panel)
    requires
        sound(p),
        p.index is None,
        p.history.len() > 0,
    ensures
        ({
            let back = recalled_newer(recalled_older(p));
            &&& back.input == p.input
            &&& back.index is None
            &&& back.cursor == p.input.len()
            &&& back.history == p.history
        }),
{
}

/// However much output arrives, no more than the cap is kept, and what is kept
/// is the newest of it.
pub proof fn the_scrollback_is_bounded(s: Seq<char>, cap: int)
    requires
        0 <= cap,
    ensures
        byte_len(newest(s, cap)) <= cap,
        newest(s, cap).len() <= s.len(),
        newest(s, cap) == s.skip(s.len() - newest(s, cap).len()),
    decreases s.len(),
{
    if byte_len(s) <= cap || s.len() == 0 {
        assert(s.skip(0) =~= s);
    } else {
        the_scrollback_is_bounded(s.drop_first(), cap);
        let kept = newest(s.drop_first(), cap);
        assert(s.drop_first().skip(s.len() - 1 - kept.len()) =~= s.skip(s.len() - kept.len()));
    }
}

/// The panel always shows a header and an input line around the output, and
/// never more output than fits.
pub proof fn the_rows_fit_the_panel(p: Panel, rows: int)
    requires
        sound(p),
        rows >= CHROME_ROWS + 1,
    ensures
        CHROME_ROWS <= panel_rows(p, visible_lines(rows)).len() <= rows,
{
}

/// The view can be scrolled past neither the newest output nor the oldest.
pub proof fn scrolling_stays_in_the_output(p: Panel, by: int, visible: int)
    requires
        sound(p),
    ensures
        0 <= scrolled(p, by, visible).scroll <= furthest(
            lines(p.scrollback).len() as int,
            visible,
        ),
{
}

/// Down leaves a line alone that was not recalled.
pub proof fn down_leaves_a_fresh_line_alone(p: Panel)
    requires
        p.index is None,
    ensures
        recalled_newer(p) == p,
{
}

/// What is typed stands at the caret, between what was before it and what was
/// behind it, and the caret moves past it; nothing else changes.
pub proof fn typing_inserts_at_the_caret(p: Panel, text: Seq<char>)
    requires
        sound(p),
    ensures
        ({
            let after = inserted(p, text);
            &&& after.input.len() == p.input.len() + text.len()
            &&& after.input.take(p.cursor) == p.input.take(p.cursor)
            &&& after.input.subrange(p.cursor, p.cursor + text.len()) == text
            &&& after.input.skip(p.cursor + text.len()) == p.input.skip(p.cursor)
            &&& after.cursor == p.cursor + text.len()
            &&& after.history == p.history && after.scrollback == p.scrollback
        }),
{
    let after = inserted(p, text);
    assert(after.input.take(p.cursor) =~= p.input.take(p.cursor));
    assert(after.input.subrange(p.cursor, p.cursor + text.len()) =~= text);
    assert(after.input.skip(p.cursor + text.len()) =~= p.input.skip(p.cursor));
}

/// Delete takes the character at the caret, Backspace the one before it, and
/// the rest of the line stays as it was.
pub proof fn erasing_takes_one_character(p: Panel)
    requires
        sound(p),
    ensures
        p.cursor < p.input.len() ==> deleted_forward(p).input == p.input.take(p.cursor)
            + p.input.skip(p.cursor + 1) && deleted_forward(p).cursor == p.cursor,
        p.cursor == p.input.len() ==> deleted_forward(p) == p,
        p.cursor > 0 ==> backspaced(p).input == p.input.take(p.cursor - 1) + p.input.skip(p.cursor)
            && backspaced(p).cursor == p.cursor - 1,
        p.cursor == 0 ==> backspaced(p) == p,
{
    if p.cursor < p.input.len() {
        assert(deleted_forward(p).input =~= p.input.take(p.cursor) + p.input.skip(p.cursor + 1));
    }
    if p.cursor > 0 {
        assert(backspaced(p).input =~= p.input.take(p.cursor - 1) + p.input.skip(p.cursor));
    }
}

/// The arrows move the caret by one character and no further than the line.
pub proof fn the_caret_moves_by_one(p: Panel)
    requires
        sound(p),
    ensures
        p.cursor > 0 ==> moved_left(p).cursor == p.cursor - 1,
        p.cursor == 0 ==> moved_left(p).cursor == 0,
        p.cursor < p.input.len() ==> moved_right(p).cursor == p.cursor + 1,
        p.cursor == p.input.len() ==> moved_right(p).cursor == p.cursor,
        moved_left(p).input == p.input,
        moved_right(p).input == p.input,
{
}

/// The input row shows the line with a block at the caret.
pub proof fn the_input_row_shows_the_caret(input: Seq<char>, cursor: int)
    requires
        0 <= cursor <= input.len(),
    ensures
        ({
            let row = input_row(input, cursor);
            &&& row.len() == input.len() + 3
            &&& row[0] == '>' && row[1] == ' '
            &&& row.subrange(2, 2 + cursor) == input.take(cursor)
            &&& row[2 + cursor] == '\u{2588}'
            &&& row.skip(3 + cursor) == input.skip(cursor)
        }),
{
    reveal_strlit("> ");
    let row = input_row(input, cursor);
    assert(row.subrange(2, 2 + cursor) =~= input.take(cursor));
    assert(row.skip(3 + cursor) =~= input.skip(cursor));
}

/// A line that is entered is gone from the input, shown behind the output, and
/// the first to be recalled; the view is back at the newest output.
pub proof fn an_entered_line_is_shown_and_remembered(p: Panel)
    requires
        sound(p),
        !blank(p.input),
    ensures
        ({
            let after = entered(p, ShellState::Running);
            &&& after.input.len() == 0 && after.cursor == 0
            &&& after.scrollback == p.scrollback + "> "@ + p.input + seq!['\n']
            &&& after.scroll == 0
            &&& after.history.len() > 0 && after.history.last() == p.input
            &&& after.index is None
            &&& recalled_older(after).input == p.input
        }),
        entered(p, ShellState::NotStarted).scrollback == p.scrollback,
        entered(p, ShellState::NotStarted).input.len() == 0,
        entered(p, ShellState::NotStarted).history.last() == p.input,
{
    let longer = if p.history.len() > 0 && p.history.last() == p.input {
        p.history
    } else {
        p.history.push(p.input)
    };
    assert(longer.last() == p.input);
    if longer.len() > MAX_RECALL_HISTORY {
        assert(longer.skip(longer.len() - MAX_RECALL_HISTORY).last() == longer.last());
    }
}

/// The history is what was entered, oldest first: a command goes behind the
/// others, a blank line and the command just run again are not added, and past
/// a thousand the oldest are forgotten.
pub proof fn the_history_is_what_was_entered(history: Seq<Seq<char>>, line: Seq<char>)
    requires
        history.len() <= 1000,
    ensures
        ({
            let after = remembered(history, line);
            let again = history.len() > 0 && history.last() == line;
            &&& blank(line) || again ==> after == history
            &&& !blank(line) && !again && history.len() < 1000 ==> after == history.push(line)
            &&& !blank(line) && !again && history.len() == 1000 ==> after == history.push(
                line,
            ).skip(1)
        }),
{
}

/// Up goes one command further back, to the oldest and no further, and Down one
/// command forward; whatever is recalled stands in the input whole, with the
/// caret behind it.
pub proof fn the_history_is_walked_one_by_one(p: Panel)
    requires
        sound(p),
        p.history.len() > 0,
    ensures
        ({
            let up = recalled_older(p);
            let down = recalled_newer(p);
            let last = p.history.len() - 1;
            &&& p.index is None ==> up.index == Some(last as usize)
            &&& p.index matches Some(i) ==> (i > 0 ==> up.index == Some((i - 1) as usize))
            &&& p.index == Some(0usize) ==> up.index == p.index
            &&& up.input == p.history[up.index->0 as int] && up.cursor == up.input.len()
            &&& p.index matches Some(i) ==> (i < last ==> down.index == Some((i + 1) as usize)
                && down.input == p.history[i + 1] && down.cursor == down.input.len())
            &&& p.index == Some(last as usize) ==> down.index is None && down.input == p.draft
            &&& up.history == p.history && down.history == p.history
        }),
{
}

proof fn newest_is_the_end(s: Seq<char>, cap: int)
    requires
        cap >= 0,
    ensures
        newest(s, cap).len() <= s.len(),
        newest(s, cap) == s.skip(s.len() - newest(s, cap).len()),
    decreases s.len(),
{
    if byte_len(s) <= cap || s.len() == 0 {
        assert(s.skip(0) =~= s);
    } else {
        newest_is_the_end(s.drop_first(), cap);
        let kept = newest(s, cap);
        assert(s.drop_first().skip(s.drop_first().len() - kept.len()) =~= s.skip(
            s.len() - kept.len(),
        ));
    }
}

/// Output goes behind the output before it: what is kept is the end of the two
/// together, and all of it as long as there is room. A view at the newest
/// output stays there.
pub proof fn output_goes_behind_the_output(p: Panel, text: Seq<char>, visible: Option<usize>)
    requires
        text.len() > 0,
    ensures
        ({
            let after = drained(p, text, visible);
            let both = p.scrollback + text;
            &&& byte_len(both) <= 65536 ==> after.scrollback == both
            &&& after.scrollback.len() <= both.len()
            &&& after.scrollback == both.skip(both.len() - after.scrollback.len())
            &&& p.scroll == 0 ==> after.scroll == 0
            &&& after.input == p.input && after.history == p.history
        }),
{
    newest_is_the_end(p.scrollback + text, SCROLLBACK_BYTES as int);
}

/// The panel shows the newest lines of output, or those as far back as it is
/// scrolled, in their order, between the header and the input line.
pub proof fn the_panel_shows_the_newest_output(p: Panel, visible: int, i: int)
    requires
        sound(p),
        visible >= 1,
        p.scroll + visible <= lines(p.scrollback).len(),
        0 <= i < visible,
    ensures
        ({
            let rows = panel_rows(p, visible);
            let all = lines(p.scrollback);
            &&& rows.len() == visible + 2
            &&& rows[1 + i] == all[all.len() - p.scroll - visible + i]
            &&& p.scroll == 0 ==> rows[visible + 1] == input_row(p.input, p.cursor)
            &&& p.scroll > 0 ==> rows[visible + 1] == "-- scrolled back "@ + decimal(
                p.scroll as nat,
            ) + " lines --"@
        }),
{
}

/// Output that is not enough to fill the panel is shown from its first line.
pub proof fn little_output_is_shown_whole(p: Panel, visible: int)
    requires
        sound(p),
        visible >= 1,
        lines(p.scrollback).len() <= visible,
    ensures
        ({
            let rows = panel_rows(p, visible);
            let all = lines(p.scrollback);
            &&& rows.len() == all.len() + 2
            &&& forall|i: int| 0 <= i < all.len() ==> #[trigger] rows[1 + i] == all[i]
            &&& rows.last() == input_row(p.input, p.cursor)
        }),
{
    let rows = panel_rows(p, visible);
    let all = lines(p.scrollback);
    assert(all.subrange(0, all.len() as int) =~= all);
}

/// A terminal starts hidden, with nothing in it and nothing to recall.
pub proof fn a_terminal_starts_empty()
    ensures
        !fresh().visible,
        fresh().scrollback.len() == 0,
        fresh().scroll == 0,
        fresh().input.len() == 0,
        fresh().cursor == 0,
        fresh().history.len() == 0,
        fresh().index is None,
{
}

} // verus!
