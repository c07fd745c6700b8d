//! Development panel: a live view of asynchronous document loading.
//!
//! It shows what the scheduler is doing, which loads joined which task, what
//! each one cost, and a heartbeat that keeps ticking while a large file is
//! being read.  The panel is a pure view: the same state gives the same lines.
//!
//! Durations arrive here already put in words.

use crate::clock::{span, Duration, Instant};
use crate::text::{
    chars_of, cut_to, cut_with, decimal, decimal_of, left, owned, pad_left, pad_right, right,
    slice, string_of, texts,
};
use vstd::prelude::*;

verus! {

// --- the heartbeat -----------------------------------------------------------

/// Proof that the event loop is still turning.
///
/// The counter advances once per rendered frame.  While a load is in flight
/// the shell keeps asking for frames, so a stalled counter means a blocked
/// loop.
#[derive(Copy, Clone, Debug, PartialEq, Eq, Structural)]
pub struct Heartbeat {
    pub ticks: u64,
    pub last_tick: Instant,
    pub longest_gap: Duration,
}

/// The longer of two spans.
pub open spec fn longer(a: Duration, b: Duration) -> Duration {
    if a.nanos >= b.nanos {
        a
    } else {
        b
    }
}

/// A heartbeat after one more frame.
pub open spec fn ticked(heartbeat: Heartbeat, now: Instant) -> Heartbeat {
    Heartbeat {
        ticks: (heartbeat.ticks + 1) as u64,
        last_tick: now,
        // The first tick's gap measures startup, not responsiveness.
        longest_gap: if heartbeat.ticks == 0 {
            heartbeat.longest_gap
        } else {
            longer(
                heartbeat.longest_gap,
                Duration { nanos: span(heartbeat.last_tick, now) as u64 },
            )
        },
    }
}

impl Heartbeat {
    /// A heartbeat that has not ticked yet.
    pub fn new(now: Instant) -> (r: Self)
        ensures
            r == (Heartbeat { ticks: 0, last_tick: now, longest_gap: Duration { nanos: 0 } }),
    {
        Heartbeat { ticks: 0, last_tick: now, longest_gap: Duration::zero() }
    }

    /// Records a frame.  Returns the gap since the previous one.
    pub fn tick(&mut self, now: Instant) -> (gap: Duration)
        requires
            old(self).ticks < u64::MAX,
        ensures
            *final(self) == ticked(*old(self), now),
            gap.nanos == span(old(self).last_tick, now),
    {
        let gap = now.since(self.last_tick);
        self.last_tick = now;
        self.ticks = self.ticks + 1;
        if self.ticks > 1 && gap.nanos > self.longest_gap.nanos {
            self.longest_gap = gap;
        }
        gap
    }

    /// How many frames were recorded.
    pub fn ticks(&self) -> (r: u64)
        ensures
            r == self.ticks,
    {
        self.ticks
    }

    /// The longest gap between frames: the number that would grow if the event
    /// loop ever blocked.
    pub fn longest_gap(&self) -> (r: Duration)
        ensures
            r == self.longest_gap,
    {
        self.longest_gap
    }

    /// How long ago the last frame was.
    pub fn since_last_tick(&self, now: Instant) -> (r: Duration)
        ensures
            r.nanos == span(self.last_tick, now),
    {
        now.since(self.last_tick)
    }
}

/// Ticking counts a frame, and never forgets the worst gap.
pub proof fn the_worst_gap_is_remembered(heartbeat: Heartbeat, now: Instant)
    requires
        heartbeat.ticks < u64::MAX,
    ensures
        ticked(heartbeat, now).ticks == heartbeat.ticks + 1,
        ticked(heartbeat, now).longest_gap.nanos >= heartbeat.longest_gap.nanos,
        heartbeat.ticks > 0 ==> ticked(heartbeat, now).longest_gap.nanos >= span(
            heartbeat.last_tick,
            now,
        ),
{
}

/// The first tick measures startup, and is no gap.
pub proof fn the_first_tick_is_no_gap(started: Instant, now: Instant)
    ensures
        ticked(
            Heartbeat { ticks: 0, last_tick: started, longest_gap: Duration { nanos: 0 } },
            now,
        ).longest_gap.nanos == 0,
{
}

// --- what the panel shows ----------------------------------------------------

/// What the scheduler counts.
#[derive(Copy, Clone, Debug, PartialEq, Eq, Structural)]
pub struct SchedulerCounts {
    pub workers: u64,
    pub queued: u64,
    pub capacity: u64,
    pub running: u64,
    pub dropped: u64,
}

/// A load in flight.
pub struct PendingLoad {
    /// The file's own name.
    pub name: String,
    pub task: u64,
    pub elapsed: String,
    /// How many requests share the task.
    pub joins: u64,
}

/// The document in front.
pub enum Current {
    Loading(PendingLoad),
    Document { name: String, lines: u64, encoding: String, dirty: bool },
    NoDocument,
    NoTab,
}

/// How a load ended, as far as the status bar cares.
#[derive(Copy, Clone, Debug, PartialEq, Eq, Structural)]
pub enum LoadEnd {
    Failed,
    Cancelled,
    /// Loaded, or not settled yet.
    Otherwise,
}

/// One load, as it is remembered.
pub struct LoadRecord {
    pub document: u64,
    pub path: String,
    pub task: u64,
    /// The name of the state it is in.
    pub state: String,
    pub end: LoadEnd,
    /// Whether more than one request shared it.
    pub joined: bool,
    pub joins: u64,
    pub total: Option<String>,
    pub queue_wait: Option<String>,
    pub wall_time: Option<String>,
    pub error: Option<String>,
}

/// Everything the panel shows.
pub struct PanelFacts {
    pub ticks: u64,
    /// Since the last frame, and the worst gap, in words.
    pub since_last_tick: String,
    pub longest_gap: String,
    pub scheduler: SchedulerCounts,
    pub current: Current,
    pub loading: u64,
    pub tabs: u64,
    /// The loads, the most recent first.
    pub recent: Vec<LoadRecord>,
}

/// How many loads the panel lists.
pub const LISTED_LOADS: usize = 8;

/// A text shortened to `width` characters, `~` standing for the rest.
pub fn truncate(text: &str, width: usize) -> (r: String)
    ensures
        r@ == cut_to(text@, width as int, '~'),
{
    cut_with(text, width, '~')
}

/// A duration in words, or a dash where there is none.
pub open spec fn or_dash(words: Option<String>) -> Seq<char> {
    match words {
        Some(words) => words@,
        None => "-"@,
    }
}

/// What follows the last separator of a path.
pub open spec fn file_part(path: Seq<char>) -> Seq<char>
    decreases path.len(),
{
    if path.len() == 0 || path.last() == '/' || path.last() == '\\' {
        Seq::empty()
    } else {
        file_part(path.drop_last()).push(path.last())
    }
}

/// What follows the last separator of a path.
pub fn file_part_of(path: &str) -> (r: String)
    ensures
        r@ == file_part(path@),
{
    let chars = chars_of(path);
    let mut from: usize = chars.len();
    assert(chars@.skip(chars.len() as int) =~= Seq::<char>::empty());
    assert(chars@.take(chars.len() as int) =~= chars@);
    assert(file_part(chars@) + Seq::<char>::empty() =~= file_part(chars@));
    while from > 0 && chars[from - 1] != '/' && chars[from - 1] != '\\'
        invariant
            from <= chars.len(),
            file_part(chars@) == file_part(chars@.take(from as int)) + chars@.skip(from as int),
        decreases from,
    {
        proof {
            let head = chars@.take(from as int);
            assert(head.drop_last() =~= chars@.take(from - 1));
            assert(chars@.skip(from - 1) =~= seq![head.last()] + chars@.skip(from as int));
            assert(file_part(chars@) =~= file_part(chars@.take(from - 1)) + chars@.skip(from - 1));
        }
        from = from - 1;
    }
    let tail = slice(&chars, from, chars.len());
    assert(tail@ =~= file_part(chars@));
    string_of(&tail)
}

/// One row of the list of loads.
pub open spec fn load_row(
    name: Seq<char>,
    task: Seq<char>,
    state: Seq<char>,
    joins: Seq<char>,
    total: Seq<char>,
    queue: Seq<char>,
    work: Seq<char>,
) -> Seq<char> {
    left(name, 22) + " "@ + right(task, 6) + " "@ + left(state, 9) + " "@ + right(joins, 5) + " "@
        + right(total, 10) + " "@ + right(queue, 10) + " "@ + right(work, 10)
}

/// The state of a load; a star marks one that several requests shared.
pub open spec fn state_text(record: LoadRecord) -> Seq<char> {
    if record.joined {
        record.state@.push('*')
    } else {
        record.state@
    }
}

/// The rows of one load: its figures, and its error where it has one.
pub open spec fn record_rows(record: LoadRecord) -> Seq<Seq<char>> {
    let row = load_row(
        cut_to(file_part(record.path@), 22, '~'),
        decimal(record.task as nat),
        state_text(record),
        decimal(record.joins as nat),
        or_dash(record.total),
        or_dash(record.queue_wait),
        or_dash(record.wall_time),
    );
    match record.error {
        Some(error) => seq![row, "  "@ + cut_to(error@, 70, '~')],
        None => seq![row],
    }
}

/// The rows of the first `n` loads.
pub open spec fn recent_rows(recent: Seq<LoadRecord>, n: int) -> Seq<Seq<char>>
    decreases n,
{
    if n <= 0 {
        Seq::empty()
    } else {
        recent_rows(recent, n - 1) + record_rows(recent[n - 1])
    }
}

/// The row of the document in front.
pub open spec fn current_row(current: Current) -> Seq<char> {
    match current {
        Current::Loading(pending) => "current    "@ + pending.name@ + " LOADING   task "@ + decimal(
            pending.task as nat,
        ) + "   elapsed "@ + pending.elapsed@ + "   joined requests "@ + decimal(
            pending.joins as nat,
        ),
        Current::Document { name, lines, encoding, dirty } => "current    "@ + name@ + "   "@
            + decimal(lines as nat) + " lines   "@ + encoding@ + "   "@ + (if dirty {
            "modified"@
        } else {
            "saved"@
        }),
        Current::NoDocument => "current    (no document)"@,
        Current::NoTab => "current    (no tab)"@,
    }
}

/// The row of the heartbeat.
pub open spec fn heartbeat_row(facts: PanelFacts) -> Seq<char> {
    "heartbeat "@ + right(decimal(facts.ticks as nat), 8) + "   since last frame "@ + right(
        facts.since_last_tick@,
        9,
    ) + "   worst gap "@ + right(facts.longest_gap@, 9)
}

/// The row of the scheduler.
pub open spec fn scheduler_row(counts: SchedulerCounts) -> Seq<char> {
    "scheduler  workers "@ + decimal(counts.workers as nat) + "   queue "@ + decimal(
        counts.queued as nat,
    ) + "/"@ + decimal(counts.capacity as nat) + "   running "@ + decimal(counts.running as nat)
        + "   dropped completions "@ + decimal(counts.dropped as nat)
}

/// The row of the loads in flight.
pub open spec fn flight_row(facts: PanelFacts) -> Seq<char> {
    "loads in flight "@ + decimal(facts.loading as nat) + "   tabs "@ + decimal(facts.tabs as nat)
}

/// How many loads are listed.
pub open spec fn listed_loads(recent: Seq<LoadRecord>) -> int {
    if recent.len() < LISTED_LOADS {
        recent.len() as int
    } else {
        LISTED_LOADS as int
    }
}

/// The rows above the list of loads.
pub open spec fn head_rows(facts: PanelFacts) -> Seq<Seq<char>> {
    seq![
        "LightSpeed - async document loading"@,
        heartbeat_row(facts),
        scheduler_row(facts.scheduler),
        current_row(facts.current),
        flight_row(facts),
        ""@,
        load_row("recent load"@, "task"@, "state"@, "joins"@, "total"@, "queue"@, "work"@),
    ]
}

/// The row that stands in for an empty list of loads.
pub open spec fn empty_rows(recent: Seq<LoadRecord>) -> Seq<Seq<char>> {
    if recent.len() == 0 {
        seq!["(nothing loaded yet - Ctrl+O opens a file)"@]
    } else {
        Seq::empty()
    }
}

/// The panel's rows.
pub open spec fn panel_lines(facts: PanelFacts) -> Seq<Seq<char>> {
    head_rows(facts) + recent_rows(facts.recent@, listed_loads(facts.recent@)) + empty_rows(
        facts.recent@,
    ) + seq![
        ""@,
        "F9 panel   F5 duplicate storm   F6 slow load   F7 failing load   Esc cancel"@,
    ]
}

/// Appends one row.
fn push_line(out: &mut Vec<String>, row: String)
    ensures
        texts(final(out)@) == texts(old(out)@).push(row@),
{
    out.push(row);
    assert(texts(out@) =~= texts(old(out)@).push(row@));
}

/// One row of the list of loads.
fn load_line(
    name: &str,
    task: &str,
    state: &str,
    joins: &str,
    total: &str,
    queue: &str,
    work: &str,
) -> (r: String)
    ensures
        r@ == load_row(name@, task@, state@, joins@, total@, queue@, work@),
{
    let mut row = pad_left(name, 22);
    row.push_str(" ");
    row.push_str(pad_right(task, 6).as_str());
    row.push_str(" ");
    row.push_str(pad_left(state, 9).as_str());
    row.push_str(" ");
    row.push_str(pad_right(joins, 5).as_str());
    row.push_str(" ");
    row.push_str(pad_right(total, 10).as_str());
    row.push_str(" ");
    row.push_str(pad_right(queue, 10).as_str());
    row.push_str(" ");
    row.push_str(pad_right(work, 10).as_str());
    row
}

/// A duration in words, or a dash where there is none.
fn words_or_dash(words: &Option<String>) -> (r: String)
    ensures
        r@ == or_dash(*words),
{
    match words {
        Some(words) => owned(words.as_str()),
        None => owned("-"),
    }
}

/// Appends the rows of one load.
fn push_record(out: &mut Vec<String>, record: &LoadRecord)
    ensures
        texts(final(out)@) == texts(old(out)@) + record_rows(*record),
{
    let name = truncate(file_part_of(record.path.as_str()).as_str(), 22);
    let mut state = owned(record.state.as_str());
    if record.joined {
        state.push('*');
    }
    let row = load_line(
        name.as_str(),
        decimal_of(record.task).as_str(),
        state.as_str(),
        decimal_of(record.joins).as_str(),
        words_or_dash(&record.total).as_str(),
        words_or_dash(&record.queue_wait).as_str(),
        words_or_dash(&record.wall_time).as_str(),
    );
    let ghost before = texts(out@);
    push_line(out, row);
    if let Some(error) = &record.error {
        let mut line = owned("  ");
        line.push_str(truncate(error.as_str(), 70).as_str());
        push_line(out, line);
    }
    assert(texts(out@) =~= before + record_rows(*record));
}

/// The row of the document in front.
fn current_line(current: &Current) -> (r: String)
    ensures
        r@ == current_row(*current),
{
    match current {
        Current::Loading(pending) => {
            let mut row = owned("current    ");
            row.push_str(pending.name.as_str());
            row.push_str(" LOADING   task ");
            row.push_str(decimal_of(pending.task).as_str());
            row.push_str("   elapsed ");
            row.push_str(pending.elapsed.as_str());
            row.push_str("   joined requests ");
            row.push_str(decimal_of(pending.joins).as_str());
            row
        },
        Current::Document { name, lines, encoding, dirty } => {
            let mut row = owned("current    ");
            row.push_str(name.as_str());
            row.push_str("   ");
            row.push_str(decimal_of(*lines).as_str());
            row.push_str(" lines   ");
            row.push_str(encoding.as_str());
            row.push_str("   ");
            row.push_str(if *dirty { "modified" } else { "saved" });
            row
        },
        Current::NoDocument => owned("current    (no document)"),
        Current::NoTab => owned("current    (no tab)"),
    }
}

/// The row of the heartbeat.
fn heartbeat_line(facts: &PanelFacts) -> (r: String)
    ensures
        r@ == heartbeat_row(*facts),
{
    let mut row = owned("heartbeat ");
    row.push_str(pad_right(decimal_of(facts.ticks).as_str(), 8).as_str());
    row.push_str("   since last frame ");
    row.push_str(pad_right(facts.since_last_tick.as_str(), 9).as_str());
    row.push_str("   worst gap ");
    row.push_str(pad_right(facts.longest_gap.as_str(), 9).as_str());
    row
}

/// The row of the scheduler.
fn scheduler_line(counts: &SchedulerCounts) -> (r: String)
    ensures
        r@ == scheduler_row(*counts),
{
    let mut row = owned("scheduler  workers ");
    row.push_str(decimal_of(counts.workers).as_str());
    row.push_str("   queue ");
    row.push_str(decimal_of(counts.queued).as_str());
    row.push_str("/");
    row.push_str(decimal_of(counts.capacity).as_str());
    row.push_str("   running ");
    row.push_str(decimal_of(counts.running).as_str());
    row.push_str("   dropped completions ");
    row.push_str(decimal_of(counts.dropped).as_str());
    row
}

/// The panel's rows.
pub fn lines(facts: &PanelFacts) -> (r: Vec<String>)
    ensures
        texts(r@) == panel_lines(*facts),
{
    let mut out: Vec<String> = Vec::new();
    push_line(&mut out, owned("LightSpeed - async document loading"));
    push_line(&mut out, heartbeat_line(facts));
    push_line(&mut out, scheduler_line(&facts.scheduler));
    push_line(&mut out, current_line(&facts.current));
    let mut row = owned("loads in flight ");
    row.push_str(decimal_of(facts.loading).as_str());
    row.push_str("   tabs ");
    row.push_str(decimal_of(facts.tabs).as_str());
    push_line(&mut out, row);
    push_line(&mut out, owned(""));
    push_line(
        &mut out,
        load_line("recent load", "task", "state", "joins", "total", "queue", "work"),
    );
    let ghost head = head_rows(*facts);
    assert(texts(out@) =~= head);
    let count = if facts.recent.len() < LISTED_LOADS {
        facts.recent.len()
    } else {
        LISTED_LOADS
    };
    assert(head + recent_rows(facts.recent@, 0) =~= head);
    for i in 0..count
        invariant
            count <= facts.recent.len(),
            texts(out@) == head + recent_rows(facts.recent@, i as int),
    {
        push_record(&mut out, &facts.recent[i]);
        assert(texts(out@) =~= head + recent_rows(facts.recent@, i + 1));
    }
    if facts.recent.len() == 0 {
        push_line(&mut out, owned("(nothing loaded yet - Ctrl+O opens a file)"));
    }
    push_line(&mut out, owned(""));
    push_line(
        &mut out,
        owned("F9 panel   F5 duplicate storm   F6 slow load   F7 failing load   Esc cancel"),
    );
    assert(texts(out@) =~= panel_lines(*facts));
    out
}

/// Whether the panel needs another frame to stay live: something is loading,
/// or the panel is open and its timers are on screen.
pub fn wants_continuous_frames(loading: u64, panel_open: bool) -> (r: bool)
    ensures
        r == (loading > 0 || panel_open),
{
    loading > 0 || panel_open
}

// --- the status bar ----------------------------------------------------------

/// The first of the loads that was of this document.
pub open spec fn load_of(recent: Seq<LoadRecord>, document: u64, from: int) -> Option<LoadRecord>
    decreases recent.len() - from,
{
    if from < 0 || from >= recent.len() {
        None
    } else if recent[from].document == document {
        Some(recent[from])
    } else {
        load_of(recent, document, from + 1)
    }
}

/// What the status bar says of a load that is remembered.
pub open spec fn settled_text(record: LoadRecord) -> Option<Seq<char>> {
    match record.end {
        LoadEnd::Failed => match record.error {
            Some(error) => Some("Failed to open "@ + record.path@ + ": "@ + error@),
            None => None,
        },
        LoadEnd::Cancelled => Some("Cancelled loading "@ + record.path@),
        LoadEnd::Otherwise => None,
    }
}

/// What the status bar says of the document in front.
pub open spec fn summary(
    active: Option<u64>,
    pending: Option<PendingLoad>,
    recent: Seq<LoadRecord>,
) -> Option<Seq<char>> {
    match active {
        None => None,
        Some(document) => match pending {
            Some(pending) => Some(
                "Loading "@ + pending.name@ + " ... "@ + pending.elapsed@ + " (task "@ + decimal(
                    pending.task as nat,
                ) + ", Esc to cancel)"@,
            ),
            None => match load_of(recent, document, 0) {
                Some(record) => settled_text(record),
                None => None,
            },
        },
    }
}

/// What the status bar says of a load that is remembered.
fn settled_line(record: &LoadRecord) -> (r: Option<String>)
    ensures
        r is Some <==> settled_text(*record) is Some,
        r matches Some(text) ==> settled_text(*record) == Some(text@),
{
    match record.end {
        LoadEnd::Failed => match &record.error {
            Some(error) => {
                let mut text = owned("Failed to open ");
                text.push_str(record.path.as_str());
                text.push_str(": ");
                text.push_str(error.as_str());
                Some(text)
            },
            None => None,
        },
        LoadEnd::Cancelled => {
            let mut text = owned("Cancelled loading ");
            text.push_str(record.path.as_str());
            Some(text)
        },
        LoadEnd::Otherwise => None,
    }
}

/// What the status bar says of the document in front: that it is loading, or
/// how its load ended, where that is worth saying.
pub fn status_summary(
    active: Option<u64>,
    pending: &Option<PendingLoad>,
    recent: &Vec<LoadRecord>,
) -> (r: Option<String>)
    ensures
        r is Some <==> summary(active, *pending, recent@) is Some,
        r matches Some(text) ==> summary(active, *pending, recent@) == Some(text@),
{
    match active {
        None => None,
        Some(document) => match pending {
            Some(pending) => {
                let mut text = owned("Loading ");
                text.push_str(pending.name.as_str());
                text.push_str(" ... ");
                text.push_str(pending.elapsed.as_str());
                text.push_str(" (task ");
                text.push_str(decimal_of(pending.task).as_str());
                text.push_str(", Esc to cancel)");
                Some(text)
            },
            None => {
                for i in 0..recent.len()
                    invariant
                        active == Some(document),
                        *pending is None,
                        load_of(recent@, document, 0) == load_of(recent@, document, i as int),
                {
                    if recent[i].document == document {
                        return settled_line(&recent[i]);
                    }
                }
                None
            },
        },
    }
}

/// A document that loaded needs no status line.
pub proof fn a_loaded_document_needs_no_status_line(
    document: u64,
    recent: Seq<LoadRecord>,
)
    requires
        load_of(recent, document, 0) matches Some(record) ==> record.end is Otherwise,
    ensures
        summary(Some(document), None, recent) is None,
{
}

/// However many loads there were, the panel keeps its height: at most two rows
/// to each of those it lists.
pub proof fn the_panel_stays_bounded(facts: PanelFacts)
    ensures
        panel_lines(facts).len() <= 10 + 2 * LISTED_LOADS,
{
    recent_rows_bounded(facts.recent@, listed_loads(facts.recent@));
}

/// A load takes one row or two.
proof fn recent_rows_bounded(recent: Seq<LoadRecord>, n: int)
    requires
        0 <= n,
    ensures
        recent_rows(recent, n).len() <= 2 * n,
    decreases n,
{
    if n > 0 {
        recent_rows_bounded(recent, n - 1);
    }
}

/// A tick is counted and its time kept. The worst gap is the one before or the
/// new one, whichever is longer; the first tick makes none.
pub proof fn a_tick_is_counted(heartbeat: Heartbeat, now: Instant)
    requires
        heartbeat.ticks < u64::MAX,
        heartbeat.last_tick.nanos <= now.nanos,
    ensures
        ({
            let after = ticked(heartbeat, now);
            let gap = now.nanos - heartbeat.last_tick.nanos;
            &&& after.ticks == heartbeat.ticks + 1
            &&& after.last_tick == now
            &&& heartbeat.ticks == 0 ==> after.longest_gap == heartbeat.longest_gap
            &&& heartbeat.ticks > 0 && gap <= heartbeat.longest_gap.nanos ==> after.longest_gap
                == heartbeat.longest_gap
            &&& heartbeat.ticks > 0 && gap > heartbeat.longest_gap.nanos
                ==> after.longest_gap.nanos == gap
        }),
{
}

/// A file is called by what follows the last separator of its path, whichever
/// of the two it is.
pub proof fn a_file_is_called_by_its_name(dir: Seq<char>, name: Seq<char>)
    requires
        !name.contains('/'),
        !name.contains('\\'),
    ensures
        file_part(dir.push('/') + name) == name,
        file_part(dir.push('\\') + name) == name,
        file_part(name) == name,
    decreases name.len(),
{
    if name.len() == 0 {
        assert(dir.push('/') + name =~= dir.push('/'));
        assert(dir.push('\\') + name =~= dir.push('\\'));
        assert(name =~= Seq::<char>::empty());
    } else {
        let front = name.drop_last();
        assert(name.contains(name.last()));
        assert forall|i: int| 0 <= i < front.len() implies front[i] != '/' && front[i] != '\\' by {
            assert(name.contains(name[i]));
        }
        a_file_is_called_by_its_name(dir, front);
        assert((dir.push('/') + name).drop_last() =~= dir.push('/') + front);
        assert((dir.push('\\') + name).drop_last() =~= dir.push('\\') + front);
        assert(front.push(name.last()) =~= name);
    }
}

/// The figures of a load stand in their own columns, under the headings they
/// belong to, as long as each fits.
pub proof fn a_load_stands_in_its_columns(
    name: Seq<char>,
    task: Seq<char>,
    state: Seq<char>,
    joins: Seq<char>,
    total: Seq<char>,
    queue: Seq<char>,
    work: Seq<char>,
)
    requires
        name.len() <= 22,
        task.len() <= 6,
        state.len() <= 9,
        joins.len() <= 5,
        total.len() <= 10,
        queue.len() <= 10,
        work.len() <= 10,
    ensures
        ({
            let row = load_row(name, task, state, joins, total, queue, work);
            &&& row.len() == 78
            &&& row.subrange(0, 22) == left(name, 22)
            &&& row.subrange(23, 29) == right(task, 6)
            &&& row.subrange(30, 39) == left(state, 9)
            &&& row.subrange(40, 45) == right(joins, 5)
            &&& row.subrange(46, 56) == right(total, 10)
            &&& row.subrange(57, 67) == right(queue, 10)
            &&& row.subrange(68, 78) == right(work, 10)
        }),
{
    reveal_strlit(" ");
    let row = load_row(name, task, state, joins, total, queue, work);
    assert(row.subrange(0, 22) =~= left(name, 22));
    assert(row.subrange(23, 29) =~= right(task, 6));
    assert(row.subrange(30, 39) =~= left(state, 9));
    assert(row.subrange(40, 45) =~= right(joins, 5));
    assert(row.subrange(46, 56) =~= right(total, 10));
    assert(row.subrange(57, 67) =~= right(queue, 10));
    assert(row.subrange(68, 78) =~= right(work, 10));
}

/// A load is listed by its own name and figures, with a star where several
/// requests shared it, a dash where a time is not known, and its error below.
pub proof fn a_load_is_listed_with_its_figures(record: LoadRecord)
    ensures
        ({
            let rows = record_rows(record);
            let dashed = |words: Option<String>|
                if words is Some {
                    words->0@
                } else {
                    "-"@
                };
            let state = if record.joined {
                record.state@ + seq!['*']
            } else {
                record.state@
            };
            &&& rows[0] == load_row(
                cut_to(file_part(record.path@), 22, '~'),
                decimal(record.task as nat),
                state,
                decimal(record.joins as nat),
                dashed(record.total),
                dashed(record.queue_wait),
                dashed(record.wall_time),
            )
            &&& record.error is None ==> rows.len() == 1
            &&& record.error is Some ==> rows.len() == 2 && rows[1] == "  "@ + cut_to(
                record.error->0@,
                70,
                '~',
            )
        }),
{
    assert(record.state@ + seq!['*'] =~= record.state@.push('*'));
}

/// The eight most recent loads are listed, each in full, and the others are
/// not. Before there is any, the panel says so.
pub proof fn the_recent_loads_are_listed(facts: PanelFacts, at: int)
    requires
        0 <= at < facts.recent@.len(),
        at < 8,
    ensures
        panel_lines(facts).contains(record_rows(facts.recent@[at])[0]),
        facts.recent@[at].error is Some ==> panel_lines(facts).contains(
            record_rows(facts.recent@[at])[1],
        ),
{
    let n = listed_loads(facts.recent@);
    let k = rows_of_a_load(facts.recent@, n, at);
    let rows = recent_rows(facts.recent@, n);
    let all = panel_lines(facts);
    assert(all[7 + k] == rows[k]);
    if facts.recent@[at].error is Some {
        assert(all[8 + k] == rows[k + 1]);
    }
}

proof fn rows_of_a_load(recent: Seq<LoadRecord>, n: int, at: int) -> (k: int)
    requires
        0 <= at < n <= recent.len(),
    ensures
        0 <= k,
        k + record_rows(recent[at]).len() <= recent_rows(recent, n).len(),
        recent_rows(recent, n)[k] == record_rows(recent[at])[0],
        recent[at].error is Some ==> recent_rows(recent, n)[k + 1] == record_rows(recent[at])[1],
    decreases n,
{
    if at == n - 1 {
        recent_rows(recent, n - 1).len() as int
    } else {
        rows_of_a_load(recent, n - 1, at)
    }
}

/// No load past the eighth takes a row.
pub proof fn older_loads_are_left_out(facts: PanelFacts, shorter: PanelFacts)
    requires
        facts.recent@.len() > 8,
        shorter.recent@ == facts.recent@.take(8),
        shorter.ticks == facts.ticks,
        shorter.since_last_tick == facts.since_last_tick,
        shorter.longest_gap == facts.longest_gap,
        shorter.scheduler == facts.scheduler,
        shorter.current == facts.current,
        shorter.loading == facts.loading,
        shorter.tabs == facts.tabs,
    ensures
        panel_lines(facts) == panel_lines(shorter),
{
    rows_of_a_beginning(facts.recent@, 8, 8);
}

proof fn rows_of_a_beginning(recent: Seq<LoadRecord>, m: int, n: int)
    requires
        0 <= n <= m <= recent.len(),
    ensures
        recent_rows(recent.take(m), n) == recent_rows(recent, n),
    decreases n,
{
    if n > 0 {
        rows_of_a_beginning(recent, m, n - 1);
        assert(recent.take(m)[n - 1] == recent[n - 1]);
    }
}

/// The panel's head counts what it names: frames, workers, what is queued and
/// what is running, loads in flight and tabs.
pub proof fn the_panel_counts_what_it_names(facts: PanelFacts)
    ensures
        ({
            let rows = panel_lines(facts);
            let s = facts.scheduler;
            &&& rows[1] == "heartbeat "@ + right(decimal(facts.ticks as nat), 8)
                + "   since last frame "@ + right(facts.since_last_tick@, 9) + "   worst gap "@
                + right(facts.longest_gap@, 9)
            &&& rows[2] == "scheduler  workers "@ + decimal(s.workers as nat) + "   queue "@
                + decimal(s.queued as nat) + "/"@ + decimal(s.capacity as nat) + "   running "@
                + decimal(s.running as nat) + "   dropped completions "@ + decimal(
                s.dropped as nat,
            )
            &&& rows[4] == "loads in flight "@ + decimal(facts.loading as nat) + "   tabs "@
                + decimal(facts.tabs as nat)
            &&& facts.recent@.len() == 0 ==> rows[7]
                == "(nothing loaded yet - Ctrl+O opens a file)"@
        }),
{
}

/// The document in front is described as it is: a load by its name, task and
/// time, a document by its name, lines, encoding and whether it is saved.
pub proof fn the_document_in_front_is_described(
    facts: PanelFacts,
    pending: PendingLoad,
    name: String,
    lines: u64,
    encoding: String,
    dirty: bool,
)
    ensures
        facts.current == Current::Loading(pending) ==> panel_lines(facts)[3] == "current    "@
            + pending.name@ + " LOADING   task "@ + decimal(pending.task as nat) + "   elapsed "@
            + pending.elapsed@ + "   joined requests "@ + decimal(pending.joins as nat),
        facts.current == (Current::Document { name, lines, encoding, dirty }) && dirty
            ==> panel_lines(facts)[3] == "current    "@ + name@ + "   "@ + decimal(lines as nat)
            + " lines   "@ + encoding@ + "   "@ + "modified"@,
        facts.current == (Current::Document { name, lines, encoding, dirty }) && !dirty
            ==> panel_lines(facts)[3] == "current    "@ + name@ + "   "@ + decimal(lines as nat)
            + " lines   "@ + encoding@ + "   "@ + "saved"@,
        facts.current == Current::NoDocument ==> panel_lines(facts)[3]
            == "current    (no document)"@,
        facts.current == Current::NoTab ==> panel_lines(facts)[3] == "current    (no tab)"@,
{
}

/// The load that the status bar speaks of is the most recent one of the active
/// document, whatever others there are.
pub proof fn the_newest_load_of_the_document_counts(
    recent: Seq<LoadRecord>,
    document: u64,
    from: int,
    at: int,
)
    requires
        0 <= from <= at < recent.len(),
        recent[at].document == document,
        forall|i: int| from <= i < at ==> (#[trigger] recent[i]).document != document,
    ensures
        load_of(recent, document, from) == Some(recent[at]),
    decreases at - from,
{
    if from < at {
        the_newest_load_of_the_document_counts(recent, document, from + 1, at);
    }
}

/// A load in flight is what the status bar tells of, by its name and its task;
/// one that failed is told with its error, one that was cancelled as that.
/// Without an active document nothing is told.
pub proof fn a_load_is_told_by_how_it_goes(
    document: u64,
    pending: PendingLoad,
    recent: Seq<LoadRecord>,
    record: LoadRecord,
)
    ensures
        summary(Some(document), Some(pending), recent) == Some(
            "Loading "@ + pending.name@ + " ... "@ + pending.elapsed@ + " (task "@ + decimal(
                pending.task as nat,
            ) + ", Esc to cancel)"@,
        ),
        summary(None, None, recent) is None,
        load_of(recent, document, 0) == Some(record) ==> {
            let told = summary(Some(document), None, recent);
            &&& record.end == LoadEnd::Failed && record.error is Some ==> told == Some(
                "Failed to open "@ + record.path@ + ": "@ + record.error->0@,
            )
            &&& record.end == LoadEnd::Cancelled ==> told == Some(
                "Cancelled loading "@ + record.path@,
            )
            &&& record.end == LoadEnd::Otherwise ==> told is None
        },
{
}

} // verus!
