//! Resource Center: a live view of admission, accounting and pressure.
//!
//! The scheduler bounds its queue, orders its work and keeps an account of
//! every task; this panel turns what is already measured into rows to read.
//! It is a pure view, and controls nothing.

use crate::devpanel::SchedulerCounts;
use crate::numbers::half_even;
use crate::text::{decimal, decimal_of, left, owned, pad_left, texts};
use vstd::prelude::*;

verus! {

// --- sizes in words ----------------------------------------------------------

/// The first of `grain`, twice it, four times it and so on at which `value`
/// is below as many times `limit`.
pub open spec fn grain_from(value: int, limit: int, grain: int) -> int
    decreases 2 * value + 2 - limit,
{
    if limit <= 0 || value < limit {
        grain
    } else {
        grain_from(value, 2 * limit, 2 * grain)
    }
}

/// A size with the fifty-three leading bits that a size is divided with.
pub open spec fn leading_bits(value: int) -> int {
    let grain = grain_from(value, 0x20_0000_0000_0000, 1);
    half_even(value, grain) * grain
}

/// The unit a size is given in: its name and how many bytes it has.
pub open spec fn unit_of(value: int) -> (Seq<char>, int) {
    if value < 0x10_0000 {
        ("KB"@, 0x400)
    } else if value < 0x4000_0000 {
        ("MB"@, 0x10_0000)
    } else {
        ("GB"@, 0x4000_0000)
    }
}

/// A size in words: whole bytes, or its largest unit with one decimal.
pub open spec fn size_text(value: int) -> Seq<char> {
    if value < 0x400 {
        decimal(value as nat) + " B"@
    } else {
        let (unit, size) = unit_of(value);
        let tenths = half_even(10 * leading_bits(value), size);
        decimal((tenths / 10) as nat) + "."@ + decimal((tenths % 10) as nat) + " "@ + unit
    }
}

/// `n` divided by `d`, to the nearest whole number.
fn nearest(n: u128, d: u128) -> (r: u128)
    requires
        0 < d <= 0x1_0000_0000,
        n <= 0x1_0000_0000_0000_0000_0000,
    ensures
        r == half_even(n as int, d as int),
        r <= n / d + 1,
{
    assert(n / d <= n) by (nonlinear_arith)
        requires
            0 < d,
    ;
    if 2 * (n % d) > d || (2 * (n % d) == d && (n / d) % 2 == 1) {
        n / d + 1
    } else {
        n / d
    }
}

/// A size below the first limit is divided as it is.
proof fn small_sizes_are_exact(value: int)
    requires
        0 <= value < 0x20_0000_0000_0000,
    ensures
        leading_bits(value) == value,
{
    assert(value / 1 == value && value % 1 == 0);
}

/// A size with its fifty-three leading bits.
fn leading(value: u64) -> (r: u128)
    ensures
        r == leading_bits(value as int),
        r <= value + 4096,
{
    let mut limit: u128 = 0x20_0000_0000_0000;
    let mut grain: u128 = 1;
    while value as u128 >= limit
        invariant
            limit == grain * 0x20_0000_0000_0000,
            1 <= grain <= 4096,
            grain_from(value as int, 0x20_0000_0000_0000, 1) == grain_from(
                value as int,
                limit as int,
                grain as int,
            ),
        decreases 2 * value + 2 - limit,
    {
        limit = limit * 2;
        grain = grain * 2;
    }
    let n = nearest(value as u128, grain);
    proof {
        let v = value as int;
        let g = grain as int;
        assert((v / g) * g <= v) by (nonlinear_arith)
            requires
                g > 0,
                v >= 0,
        ;
        assert(n * g <= (v / g + 1) * g) by (nonlinear_arith)
            requires
                n <= v / g + 1,
                g > 0,
        ;
        assert((v / g + 1) * g == (v / g) * g + g) by (nonlinear_arith);
    }
    n * grain
}

/// A size in words.
pub fn bytes(value: u64) -> (r: String)
    ensures
        r@ == size_text(value as int),
{
    if value < 0x400 {
        let mut text = decimal_of(value);
        text.push_str(" B");
        return text;
    }
    let (unit, size): (&str, u128) = if value < 0x10_0000 {
        ("KB", 0x400)
    } else if value < 0x4000_0000 {
        ("MB", 0x10_0000)
    } else {
        ("GB", 0x4000_0000)
    };
    let scaled: u128 = 10 * leading(value);
    let tenths = nearest(scaled, size);
    proof {
        let n = scaled as int;
        if value < 0x20_0000_0000_0000 {
            small_sizes_are_exact(value as int);
        }
        if size == 0x400 {
            assert(tenths <= n / 0x400 + 1);
        } else if size == 0x10_0000 {
            assert(tenths <= n / 0x10_0000 + 1);
        } else {
            assert(tenths <= n / 0x4000_0000 + 1);
        }
    }
    let mut text = decimal_of((tenths / 10) as u64);
    text.push_str(".");
    text.push_str(decimal_of((tenths % 10) as u64).as_str());
    text.push_str(" ");
    text.push_str(unit);
    text
}

// --- the panel ---------------------------------------------------------------

/// A subsystem that hands tasks to the scheduler.
#[derive(Copy, Clone, Debug, PartialEq, Eq, Structural)]
pub enum Subsystem {
    DocumentIo,
    Language,
    Search,
    Git,
    Indexing,
}

/// The priority each subsystem's tasks start from.
#[derive(Copy, Clone, Debug, PartialEq, Eq, Structural)]
pub struct BasePriorities {
    pub document_io: u64,
    pub language: u64,
    pub search: u64,
    pub git: u64,
    pub indexing: u64,
}

/// The subsystems whose base priority is shown, in the order of the table.
pub open spec fn listed_subsystems() -> Seq<Subsystem> {
    seq![
        Subsystem::DocumentIo,
        Subsystem::Language,
        Subsystem::Search,
        Subsystem::Git,
        Subsystem::Indexing,
    ]
}

/// What a subsystem is called.
pub open spec fn subsystem_name(subsystem: Subsystem) -> Seq<char> {
    match subsystem {
        Subsystem::DocumentIo => "document_io"@,
        Subsystem::Language => "language"@,
        Subsystem::Search => "search"@,
        Subsystem::Git => "git"@,
        Subsystem::Indexing => "indexing"@,
    }
}

/// The priority a subsystem's tasks start from.
pub open spec fn base_of(bases: BasePriorities, subsystem: Subsystem) -> u64 {
    match subsystem {
        Subsystem::DocumentIo => bases.document_io,
        Subsystem::Language => bases.language,
        Subsystem::Search => bases.search,
        Subsystem::Git => bases.git,
        Subsystem::Indexing => bases.indexing,
    }
}

/// The subsystems whose base priority is shown, in the order of the table.
pub fn subsystems() -> (r: Vec<Subsystem>)
    ensures
        r@ == listed_subsystems(),
{
    vec![
        Subsystem::DocumentIo,
        Subsystem::Language,
        Subsystem::Search,
        Subsystem::Git,
        Subsystem::Indexing,
    ]
}

impl Subsystem {
    /// What it is called.
    pub fn name(self) -> (r: &'static str)
        ensures
            r@ == subsystem_name(self),
    {
        match self {
            Subsystem::DocumentIo => "document_io",
            Subsystem::Language => "language",
            Subsystem::Search => "search",
            Subsystem::Git => "git",
            Subsystem::Indexing => "indexing",
        }
    }
}

impl BasePriorities {
    /// The priority a subsystem's tasks start from.
    pub fn base(&self, subsystem: Subsystem) -> (r: u64)
        ensures
            r == base_of(*self, subsystem),
    {
        match subsystem {
            Subsystem::DocumentIo => self.document_io,
            Subsystem::Language => self.language,
            Subsystem::Search => self.search,
            Subsystem::Git => self.git,
            Subsystem::Indexing => self.indexing,
        }
    }
}

/// One task, as it is accounted for.
pub struct TaskRecord {
    pub subsystem: String,
    pub outcome: String,
    /// Its waiting and running time in milliseconds, as they are written.
    pub queue_wait: String,
    pub wall_time: String,
    pub bytes_read: u64,
    pub bytes_written: u64,
    /// How many times its estimate it cost, as that number is written.
    pub cost_ratio: Option<String>,
}

/// Everything the panel shows.
pub struct ResourceFacts {
    pub scheduler: SchedulerCounts,
    pub submitted: u64,
    pub rejected: u64,
    pub bases: BasePriorities,
    /// The tasks, the most recent last.
    pub records: Vec<TaskRecord>,
    /// The memory in megabytes and the processor use in percent, as they are
    /// written.
    pub memory: String,
    pub processor: String,
}

/// How many tasks the panel lists.
pub const LISTED_TASKS: usize = 6;

/// The row of the queue.
pub open spec fn queue_row(counts: SchedulerCounts) -> Seq<char> {
    "  queue "@ + decimal(counts.queued as nat) + " / "@ + decimal(counts.capacity as nat)
        + "    running "@ + decimal(counts.running as nat) + "    workers "@ + decimal(
        counts.workers as nat,
    )
}

/// The row of what was admitted and what was not.
pub open spec fn overload_row(facts: ResourceFacts) -> Seq<char> {
    "  submitted "@ + decimal(facts.submitted as nat) + "    rejected (overload) "@ + decimal(
        facts.rejected as nat,
    ) + "    completions dropped "@ + decimal(facts.scheduler.dropped as nat)
}

/// The row that explains a rejection, once there was one.
pub open spec fn rejection_rows(rejected: u64) -> Seq<Seq<char>> {
    if rejected > 0 {
        seq![
            "  the queue rejects rather than retries by design (amendment 3.5.1);a rejected action must be reissued by whatever asked for it"@,
        ]
    } else {
        Seq::empty()
    }
}

/// The row of a subsystem.
pub open spec fn subsystem_row(bases: BasePriorities, subsystem: Subsystem) -> Seq<char> {
    "  "@ + left(subsystem_name(subsystem), 11) + " base "@ + decimal(
        base_of(bases, subsystem) as nat,
    )
}

/// The rows of the subsystems.
pub open spec fn subsystem_rows(bases: BasePriorities) -> Seq<Seq<char>> {
    Seq::new(listed_subsystems().len(), |i: int| subsystem_row(bases, listed_subsystems()[i]))
}

/// The row of a task.
pub open spec fn task_row(record: TaskRecord) -> Seq<char> {
    "  "@ + left(record.subsystem@, 11) + " "@ + record.outcome@ + "   wait "@ + record.queue_wait@
        + " ms   run "@ + record.wall_time@ + " ms   "@ + size_text(
        record.bytes_read + record.bytes_written,
    ) + "   "@ + (match record.cost_ratio {
        Some(ratio) => ratio@ + "x estimate"@,
        None => "-"@,
    })
}

/// How many tasks are listed.
pub open spec fn listed_tasks(records: Seq<TaskRecord>) -> nat {
    if records.len() < LISTED_TASKS {
        records.len()
    } else {
        LISTED_TASKS as nat
    }
}

/// The rows of the tasks, the most recent first.
pub open spec fn task_rows(records: Seq<TaskRecord>) -> Seq<Seq<char>> {
    Seq::new(listed_tasks(records), |i: int| task_row(records[records.len() - 1 - i]))
}

/// The row that stands in for an empty list of tasks.
pub open spec fn empty_rows(records: Seq<TaskRecord>) -> Seq<Seq<char>> {
    if records.len() == 0 {
        seq!["  none yet"@]
    } else {
        Seq::empty()
    }
}

/// The panel's rows.
pub open spec fn resource_lines(facts: ResourceFacts) -> Seq<Seq<char>> {
    seq![
        "Resource Center"@,
        ""@,
        "Admission (bounded queue, amendment section 3-4)"@,
        queue_row(facts.scheduler),
        overload_row(facts),
    ] + rejection_rows(facts.rejected) + seq![
        ""@,
        "Fairness (base priority + aging + deadline pressure)"@,
    ] + subsystem_rows(facts.bases) + seq![
        ""@,
        "Recent tasks (accounting, amendment section 6)"@,
    ] + empty_rows(facts.records@) + task_rows(facts.records@) + seq![
        ""@,
        "Process (memory pressure signal, not yet an admission control)"@,
        "  RSS "@ + facts.memory@ + " MB    CPU "@ + facts.processor@ + "%"@,
    ]
}

/// Appends one row.
fn push_line(out: &mut Vec<String>, row: String)
    ensures
        texts(final(out)@) == texts(old(out)@).push(row@),
{
    out.push(row);
    assert(texts(out@) =~= texts(old(out)@).push(row@));
}

/// The row of the queue.
fn queue_line(counts: &SchedulerCounts) -> (r: String)
    ensures
        r@ == queue_row(*counts),
{
    let mut row = owned("  queue ");
    row.push_str(decimal_of(counts.queued).as_str());
    row.push_str(" / ");
    row.push_str(decimal_of(counts.capacity).as_str());
    row.push_str("    running ");
    row.push_str(decimal_of(counts.running).as_str());
    row.push_str("    workers ");
    row.push_str(decimal_of(counts.workers).as_str());
    row
}

/// The row of what was admitted and what was not.
fn overload_line(facts: &ResourceFacts) -> (r: String)
    ensures
        r@ == overload_row(*facts),
{
    let mut row = owned("  submitted ");
    row.push_str(decimal_of(facts.submitted).as_str());
    row.push_str("    rejected (overload) ");
    row.push_str(decimal_of(facts.rejected).as_str());
    row.push_str("    completions dropped ");
    row.push_str(decimal_of(facts.scheduler.dropped).as_str());
    row
}

/// The row of a task.
fn task_line(record: &TaskRecord) -> (r: String)
    requires
        record.bytes_read + record.bytes_written <= u64::MAX,
    ensures
        r@ == task_row(*record),
{
    let mut row = owned("  ");
    row.push_str(pad_left(record.subsystem.as_str(), 11).as_str());
    row.push_str(" ");
    row.push_str(record.outcome.as_str());
    row.push_str("   wait ");
    row.push_str(record.queue_wait.as_str());
    row.push_str(" ms   run ");
    row.push_str(record.wall_time.as_str());
    row.push_str(" ms   ");
    row.push_str(bytes(record.bytes_read + record.bytes_written).as_str());
    row.push_str("   ");
    match &record.cost_ratio {
        Some(ratio) => {
            row.push_str(ratio.as_str());
            row.push_str("x estimate");
        },
        None => {
            row.push_str("-");
        },
    }
    row
}

/// The panel's rows.
pub fn lines(facts: &ResourceFacts) -> (r: Vec<String>)
    requires
        forall|i: int|
            0 <= i < facts.records.len() ==> (#[trigger] facts.records@[i]).bytes_read
                + facts.records@[i].bytes_written <= u64::MAX,
    ensures
        texts(r@) == resource_lines(*facts),
{
    let mut out: Vec<String> = Vec::new();
    push_line(&mut out, owned("Resource Center"));
    push_line(&mut out, owned(""));
    push_line(&mut out, owned("Admission (bounded queue, amendment section 3-4)"));
    push_line(&mut out, queue_line(&facts.scheduler));
    push_line(&mut out, overload_line(facts));
    if facts.rejected > 0 {
        push_line(
            &mut out,
            owned(
                "  the queue rejects rather than retries by design (amendment 3.5.1);a rejected action must be reissued by whatever asked for it",
            ),
        );
    }
    push_line(&mut out, owned(""));
    push_line(&mut out, owned("Fairness (base priority + aging + deadline pressure)"));
    let ghost head = texts(out@);
    let ghost all = subsystem_rows(facts.bases);
    assert(head + all.take(0) =~= head);
    let listed = subsystems();
    for i in 0..listed.len()
        invariant
            listed@ == listed_subsystems(),
            all == subsystem_rows(facts.bases),
            texts(out@) == head + all.take(i as int),
    {
        let mut row = owned("  ");
        row.push_str(pad_left(listed[i].name(), 11).as_str());
        row.push_str(" base ");
        row.push_str(decimal_of(facts.bases.base(listed[i])).as_str());
        push_line(&mut out, row);
        assert(texts(out@) =~= head + all.take(i + 1));
    }
    assert(all.take(listed.len() as int) =~= all);
    push_line(&mut out, owned(""));
    push_line(&mut out, owned("Recent tasks (accounting, amendment section 6)"));
    if facts.records.len() == 0 {
        push_line(&mut out, owned("  none yet"));
    }
    let ghost above = texts(out@);
    let ghost listed = task_rows(facts.records@);
    let count: usize = if facts.records.len() < LISTED_TASKS {
        facts.records.len()
    } else {
        LISTED_TASKS
    };
    assert(above + listed.take(0) =~= above);
    for i in 0..count
        invariant
            count <= facts.records.len(),
            count == listed_tasks(facts.records@),
            listed == task_rows(facts.records@),
            forall|i: int|
                0 <= i < facts.records.len() ==> (#[trigger] facts.records@[i]).bytes_read
                    + facts.records@[i].bytes_written <= u64::MAX,
            texts(out@) == above + listed.take(i as int),
    {
        let row = task_line(&facts.records[facts.records.len() - 1 - i]);
        push_line(&mut out, row);
        assert(texts(out@) =~= above + listed.take(i + 1));
    }
    assert(listed.take(count as int) =~= listed);
    push_line(&mut out, owned(""));
    push_line(&mut out, owned("Process (memory pressure signal, not yet an admission control)"));
    let mut row = owned("  RSS ");
    row.push_str(facts.memory.as_str());
    row.push_str(" MB    CPU ");
    row.push_str(facts.processor.as_str());
    row.push_str("%");
    push_line(&mut out, row);
    assert(texts(out@) =~= resource_lines(*facts));
    out
}

/// Every subsystem has its row in the table.
pub proof fn every_subsystem_is_listed(facts: ResourceFacts, subsystem: Subsystem)
    ensures
        resource_lines(facts).contains(subsystem_row(facts.bases, subsystem)),
{
    let i = match subsystem {
        Subsystem::DocumentIo => 0int,
        Subsystem::Language => 1,
        Subsystem::Search => 2,
        Subsystem::Git => 3,
        Subsystem::Indexing => 4,
    };
    assert(listed_subsystems()[i] == subsystem);
    let at = 7 + rejection_rows(facts.rejected).len() + i;
    assert(resource_lines(facts)[at] == subsystem_row(facts.bases, subsystem));
}

/// An empty history says so, and one that is not never does.
pub proof fn an_empty_history_says_so(records: Seq<TaskRecord>)
    ensures
        records.len() == 0 <==> empty_rows(records).contains("  none yet"@),
        records.len() == 0 <==> task_rows(records).len() == 0,
{
    if records.len() == 0 {
        assert(empty_rows(records)[0] == "  none yet"@);
    }
}

/// The newest task is listed first: one more task stands above those that were
/// listed, of which at most five stay.
pub proof fn the_newest_task_comes_first(records: Seq<TaskRecord>, record: TaskRecord)
    ensures
        ({
            let before = task_rows(records);
            let after = task_rows(records.push(record));
            &&& after.len() >= 1
            &&& after[0] == task_row(record)
            &&& after.len() == (if records.len() < 5 {
                records.len() + 1
            } else {
                6
            })
            &&& forall|i: int| 1 <= i < after.len() ==> #[trigger] after[i] == before[i - 1]
        }),
{
    let before = task_rows(records);
    let after = task_rows(records.push(record));
    assert forall|i: int| 1 <= i < after.len() implies #[trigger] after[i] == before[i - 1] by {
        assert(records.push(record)[records.len() - i] == records[records.len() - i]);
    }
}

/// A task is told by its subsystem, how it ended, how long it waited and ran,
/// and how much it read and wrote together.
pub proof fn a_task_is_told_by_its_figures(record: TaskRecord)
    ensures
        ({
            let told = "  "@ + left(record.subsystem@, 11) + " "@ + record.outcome@ + "   wait "@
                + record.queue_wait@ + " ms   run "@ + record.wall_time@ + " ms   "@ + size_text(
                record.bytes_read + record.bytes_written,
            ) + "   "@;
            &&& record.cost_ratio is Some ==> task_row(record) == told + (record.cost_ratio->0@
                + "x estimate"@)
            &&& record.cost_ratio is None ==> task_row(record) == told + "-"@
        }),
{
}

/// What was queued, admitted and rejected is counted under its own name, and
/// the first rejection is explained.
pub proof fn the_resource_center_counts_what_it_names(facts: ResourceFacts)
    ensures
        ({
            let rows = resource_lines(facts);
            let s = facts.scheduler;
            &&& rows[3] == "  queue "@ + decimal(s.queued as nat) + " / "@ + decimal(
                s.capacity as nat,
            ) + "    running "@ + decimal(s.running as nat) + "    workers "@ + decimal(
                s.workers as nat,
            )
            &&& rows[4] == "  submitted "@ + decimal(facts.submitted as nat)
                + "    rejected (overload) "@ + decimal(facts.rejected as nat)
                + "    completions dropped "@ + decimal(s.dropped as nat)
            &&& facts.rejected == 0 ==> rows[5] == ""@
            &&& facts.rejected > 0 ==> rows[5] != ""@ && rows[6] == ""@
            &&& rows.last() == "  RSS "@ + facts.memory@ + " MB    CPU "@ + facts.processor@ + "%"@
        }),
{
    reveal_strlit("");
    reveal_strlit(
        "  the queue rejects rather than retries by design (amendment 3.5.1);a rejected action must be reissued by whatever asked for it",
    );
    let rows = resource_lines(facts);
    if facts.rejected > 0 {
        assert(rows[5].len() > 0);
    }
}

/// Each subsystem is shown with its own base priority.
pub proof fn each_subsystem_has_its_own_base(bases: BasePriorities)
    ensures
        ({
            let rows = subsystem_rows(bases);
            &&& rows.len() == 5
            &&& rows[0] == "  "@ + left("document_io"@, 11) + " base "@ + decimal(
                bases.document_io as nat,
            )
            &&& rows[1] == "  "@ + left("language"@, 11) + " base "@ + decimal(
                bases.language as nat,
            )
            &&& rows[2] == "  "@ + left("search"@, 11) + " base "@ + decimal(bases.search as nat)
            &&& rows[3] == "  "@ + left("git"@, 11) + " base "@ + decimal(bases.git as nat)
            &&& rows[4] == "  "@ + left("indexing"@, 11) + " base "@ + decimal(
                bases.indexing as nat,
            )
        }),
{
}

/// A size is given in the largest unit of which it holds one, and its tenths
/// of that unit are off by at most half a tenth.
pub proof fn a_size_is_off_by_half_a_tenth(value: int)
    requires
        0x400 <= value < 0x20_0000_0000_0000,
    ensures
        ({
            let unit = if value < 0x10_0000 {
                "KB"@
            } else if value < 0x4000_0000 {
                "MB"@
            } else {
                "GB"@
            };
            let size: int = if value < 0x10_0000 {
                0x400
            } else if value < 0x4000_0000 {
                0x10_0000
            } else {
                0x4000_0000
            };
            exists|tenths: int|
                #![trigger decimal((tenths / 10) as nat)]
                {
                    &&& size_text(value) == decimal((tenths / 10) as nat) + "."@ + decimal(
                        (tenths % 10) as nat,
                    ) + " "@ + unit
                    &&& -size <= 2 * (tenths * size - 10 * value) <= size
                }
        }),
{
    small_sizes_are_exact(value);
    let (unit, size) = unit_of(value);
    let n = 10 * value;
    let tenths = half_even(n, size);
    assert(-size <= 2 * (tenths * size - n) <= size) by {
        assert(n == (n / size) * size + n % size) by (nonlinear_arith)
            requires
                size > 0,
        ;
        assert(0 <= n % size < size);
        assert((n / size + 1) * size == (n / size) * size + size) by (nonlinear_arith);
    }
    assert(size_text(value) == decimal((tenths / 10) as nat) + "."@ + decimal(
        (tenths % 10) as nat,
    ) + " "@ + unit);
}

/// A size below a thousand and twenty-four is given in bytes.
pub proof fn a_small_size_is_given_in_bytes(value: int)
    requires
        0 <= value < 1024,
    ensures
        size_text(value) == decimal(value as nat) + " B"@,
{
}

} // verus!
