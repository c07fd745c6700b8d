//! The floating diagnostics panel: the performance overlay, and the panels
//! stacked above it.

use crate::text::{decimal, decimal_of, left, owned, pad_left, pad_right, right, texts};
use vstd::prelude::*;

verus! {

/// One measured quantity, its durations already put in words.
#[derive(Clone, Debug, PartialEq, Eq)]
pub struct MetricRow {
    pub name: String,
    /// How many samples there are.
    pub count: u64,
    pub p50: String,
    pub p95: String,
    pub p99: String,
    /// How it stands against its budget.
    pub status: String,
}

/// What the renderer counted.
#[derive(Copy, Clone, Debug, PartialEq, Eq)]
pub struct DrawCounts {
    pub quads: u64,
    pub reshaped: u64,
}

/// What the active document counts.
#[derive(Copy, Clone, Debug, PartialEq, Eq)]
pub struct DocumentCounts {
    pub revision: u64,
    pub undo: u64,
    pub redo: u64,
    pub lines: u64,
}

/// Everything the overlay shows.
#[derive(Clone, Debug, PartialEq, Eq)]
pub struct OverlayFacts {
    pub metrics: Vec<MetricRow>,
    /// What the process has resident and had at most, in megabytes, and its
    /// processor use in percent: three numbers, as they are written.
    pub resident: String,
    pub peak: String,
    pub processor: String,
    pub documents: u64,
    pub dropped: u64,
    pub drawn: Option<DrawCounts>,
    pub document: Option<DocumentCounts>,
}

/// One line of the table: the name, three durations, and a state.
pub open spec fn table_row(
    name: Seq<char>,
    p50: Seq<char>,
    p95: Seq<char>,
    p99: Seq<char>,
    status: Seq<char>,
) -> Seq<char> {
    left(name, 22) + " "@ + right(p50, 8) + " "@ + right(p95, 8) + " "@ + right(p99, 8) + " "@
        + right(status, 6)
}

/// The lines of the metrics that have samples.
pub open spec fn metric_rows(metrics: Seq<MetricRow>) -> Seq<Seq<char>>
    decreases metrics.len(),
{
    if metrics.len() == 0 {
        Seq::empty()
    } else {
        let before = metric_rows(metrics.drop_last());
        let m = metrics.last();
        if m.count == 0 {
            before
        } else {
            before.push(table_row(m.name@, m.p50@, m.p95@, m.p99@, m.status@))
        }
    }
}

/// The line of the renderer's counts.
pub open spec fn drawn_rows(drawn: Option<DrawCounts>) -> Seq<Seq<char>> {
    match drawn {
        Some(d) => seq![
            "quads "@ + decimal(d.quads as nat) + "   regions reshaped "@ + decimal(
                d.reshaped as nat,
            ),
        ],
        None => Seq::empty(),
    }
}

/// The line of the active document's counts.
pub open spec fn document_rows(document: Option<DocumentCounts>) -> Seq<Seq<char>> {
    match document {
        Some(d) => seq![
            "revision "@ + decimal(d.revision as nat) + "   undo "@ + decimal(d.undo as nat)
                + "   redo "@ + decimal(d.redo as nat) + "   lines "@ + decimal(d.lines as nat),
        ],
        None => Seq::empty(),
    }
}

/// The line of the process.
pub open spec fn process_row(facts: OverlayFacts) -> Seq<char> {
    "RSS "@ + facts.resident@ + " MB   peak "@ + facts.peak@ + " MB   CPU "@ + facts.processor@
        + "%"@
}

/// The overlay's lines.
pub open spec fn overlay_rows(facts: OverlayFacts) -> Seq<Seq<char>> {
    seq![
        "LightSpeed Performance"@,
        table_row("metric"@, "p50"@, "p95"@, "p99"@, "state"@),
    ] + metric_rows(facts.metrics@) + seq![
        ""@,
        process_row(facts),
        "documents "@ + decimal(facts.documents as nat) + "   dropped events "@ + decimal(
            facts.dropped as nat,
        ),
    ] + drawn_rows(facts.drawn) + document_rows(facts.document)
}

fn table_line(name: &str, p50: &str, p95: &str, p99: &str, status: &str) -> (r: String)
    ensures
        r@ == table_row(name@, p50@, p95@, p99@, status@),
{
    let mut row = pad_left(name, 22);
    row.push_str(" ");
    row.push_str(pad_right(p50, 8).as_str());
    row.push_str(" ");
    row.push_str(pad_right(p95, 8).as_str());
    row.push_str(" ");
    row.push_str(pad_right(p99, 8).as_str());
    row.push_str(" ");
    row.push_str(pad_right(status, 6).as_str());
    row
}

/// Appends a line.
fn push_line(rows: &mut Vec<String>, line: String)
    ensures
        texts(final(rows)@) == texts(old(rows)@).push(line@),
{
    rows.push(line);
    assert(texts(rows@) =~= texts(old(rows)@).push(line@));
}

/// Builds the developer overlay.
pub fn build_overlay(facts: &OverlayFacts) -> (r: Vec<String>)
    ensures
        texts(r@) == overlay_rows(*facts),
{
    let mut rows: Vec<String> = Vec::new();
    assert(texts(rows@) =~= Seq::empty());
    push_line(&mut rows, owned("LightSpeed Performance"));
    push_line(&mut rows, table_line("metric", "p50", "p95", "p99", "state"));
    let ghost head = seq![
        "LightSpeed Performance"@,
        table_row("metric"@, "p50"@, "p95"@, "p99"@, "state"@),
    ];
    assert(facts.metrics@.take(0) =~= Seq::<MetricRow>::empty());
    assert(texts(rows@) =~= head + metric_rows(facts.metrics@.take(0)));
    for i in 0..facts.metrics.len()
        invariant
            texts(rows@) == head + metric_rows(facts.metrics@.take(i as int)),
    {
        let metric = &facts.metrics[i];
        assert(facts.metrics@.take(i + 1).drop_last() =~= facts.metrics@.take(i as int));
        if metric.count > 0 {
            push_line(
                &mut rows,
                table_line(
                    metric.name.as_str(),
                    metric.p50.as_str(),
                    metric.p95.as_str(),
                    metric.p99.as_str(),
                    metric.status.as_str(),
                ),
            );
        }
        assert(texts(rows@) =~= head + metric_rows(facts.metrics@.take(i + 1)));
    }
    assert(facts.metrics@.take(facts.metrics.len() as int) =~= facts.metrics@);
    push_line(&mut rows, owned(""));
    let mut line = owned("RSS ");
    line.push_str(facts.resident.as_str());
    line.push_str(" MB   peak ");
    line.push_str(facts.peak.as_str());
    line.push_str(" MB   CPU ");
    line.push_str(facts.processor.as_str());
    line.push_str("%");
    push_line(&mut rows, line);
    let mut line = owned("documents ");
    line.push_str(decimal_of(facts.documents).as_str());
    line.push_str("   dropped events ");
    line.push_str(decimal_of(facts.dropped).as_str());
    push_line(&mut rows, line);
    if let Some(d) = &facts.drawn {
        let mut line = owned("quads ");
        line.push_str(decimal_of(d.quads).as_str());
        line.push_str("   regions reshaped ");
        line.push_str(decimal_of(d.reshaped).as_str());
        push_line(&mut rows, line);
    }
    if let Some(d) = &facts.document {
        let mut line = owned("revision ");
        line.push_str(decimal_of(d.revision).as_str());
        line.push_str("   undo ");
        line.push_str(decimal_of(d.undo).as_str());
        line.push_str("   redo ");
        line.push_str(decimal_of(d.redo).as_str());
        line.push_str("   lines ");
        line.push_str(decimal_of(d.lines).as_str());
        push_line(&mut rows, line);
    }
    assert(texts(rows@) =~= overlay_rows(*facts));
    rows
}

/// One panel below what is already stacked, with a blank line between.
pub open spec fn stacked(above: Seq<Seq<char>>, shown: bool, rows: Seq<Seq<char>>) -> Seq<
    Seq<char>,
> {
    if !shown {
        above
    } else if above.len() > 0 {
        above.push(""@) + rows
    } else {
        rows
    }
}

fn stack(above: &mut Vec<String>, shown: bool, rows: &Vec<String>)
    ensures
        texts(final(above)@) == stacked(texts(old(above)@), shown, texts(rows@)),
{
    if !shown {
        return;
    }
    if above.len() > 0 {
        push_line(above, owned(""));
    }
    let ghost before = texts(above@);
    assert(before =~= before + texts(rows@).take(0));
    for i in 0..rows.len()
        invariant
            texts(above@) == before + texts(rows@).take(i as int),
    {
        push_line(above, rows[i].clone());
        assert(texts(above@) =~= before + texts(rows@).take(i + 1));
    }
    assert(texts(rows@).take(rows.len() as int) =~= texts(rows@));
    assert(texts(above@) =~= stacked(texts(old(above)@), shown, texts(rows@)));
}

/// The panels, top to bottom.
pub open spec fn panels(
    dev: (bool, Seq<Seq<char>>),
    resources: (bool, Seq<Seq<char>>),
    overlay: (bool, Seq<Seq<char>>),
) -> Seq<Seq<char>> {
    stacked(
        stacked(stacked(Seq::empty(), dev.0, dev.1), resources.0, resources.1),
        overlay.0,
        overlay.1,
    )
}

/// Rows for the floating diagnostics panel: the loading panel, the resource
/// center and the overlay, as far as each is shown, with a blank line between.
pub fn panel_rows(
    dev_visible: bool,
    dev: &Vec<String>,
    resources_visible: bool,
    resources: &Vec<String>,
    overlay_visible: bool,
    overlay: &Vec<String>,
) -> (r: Vec<String>)
    ensures
        texts(r@) == panels(
            (dev_visible, texts(dev@)),
            (resources_visible, texts(resources@)),
            (overlay_visible, texts(overlay@)),
        ),
{
    let mut rows: Vec<String> = Vec::new();
    assert(texts(rows@) =~= Seq::empty());
    stack(&mut rows, dev_visible, dev);
    stack(&mut rows, resources_visible, resources);
    stack(&mut rows, overlay_visible, overlay);
    rows
}

/// With nothing switched on the panel is empty, and so is not drawn.
pub proof fn hidden_panels_take_no_rows(
    dev: Seq<Seq<char>>,
    resources: Seq<Seq<char>>,
    overlay: Seq<Seq<char>>,
)
    ensures
        panels((false, dev), (false, resources), (false, overlay)).len() == 0,
{
}

/// Every metric that has samples has its line, in its order, and no other has
/// one.
pub proof fn every_measured_metric_has_its_line(metrics: Seq<MetricRow>)
    ensures
        metric_rows(metrics) == metrics.filter(|m: MetricRow| m.count != 0).map_values(
            |m: MetricRow| table_row(m.name@, m.p50@, m.p95@, m.p99@, m.status@),
        ),
    decreases metrics.len(),
{
    reveal(Seq::filter);
    let measured = |m: MetricRow| m.count != 0;
    let line = |m: MetricRow| table_row(m.name@, m.p50@, m.p95@, m.p99@, m.status@);
    if metrics.len() > 0 {
        every_measured_metric_has_its_line(metrics.drop_last());
        let before = metrics.drop_last().filter(measured);
        let m = metrics.last();
        assert(before.push(m).map_values(line) =~= before.map_values(line).push(line(m)));
    }
    assert(metric_rows(metrics) =~= metrics.filter(measured).map_values(line));
}

/// The figures of a metric stand in their own columns, under the headings they
/// belong to, as long as each fits.
pub proof fn a_metric_stands_in_its_columns(
    name: Seq<char>,
    p50: Seq<char>,
    p95: Seq<char>,
    p99: Seq<char>,
    status: Seq<char>,
)
    requires
        name.len() <= 22,
        p50.len() <= 8,
        p95.len() <= 8,
        p99.len() <= 8,
        status.len() <= 6,
    ensures
        ({
            let row = table_row(name, p50, p95, p99, status);
            &&& row.len() == 56
            &&& row.subrange(0, 22) == left(name, 22)
            &&& row.subrange(23, 31) == right(p50, 8)
            &&& row.subrange(32, 40) == right(p95, 8)
            &&& row.subrange(41, 49) == right(p99, 8)
            &&& row.subrange(50, 56) == right(status, 6)
        }),
{
    reveal_strlit(" ");
    let row = table_row(name, p50, p95, p99, status);
    assert(row.subrange(0, 22) =~= left(name, 22));
    assert(row.subrange(23, 31) =~= right(p50, 8));
    assert(row.subrange(32, 40) =~= right(p95, 8));
    assert(row.subrange(41, 49) =~= right(p99, 8));
    assert(row.subrange(50, 56) =~= right(status, 6));
}

/// Below the metrics the overlay tells of the process, of the documents, of
/// what was drawn and of the active document, each by its own figures.
pub proof fn the_overlay_tells_what_it_counts(facts: OverlayFacts)
    ensures
        ({
            let rows = overlay_rows(facts);
            let n = metric_rows(facts.metrics@).len() as int;
            let d: int = if facts.drawn is Some {
                1
            } else {
                0
            };
            &&& forall|i: int| 0 <= i < n ==> #[trigger] rows[2 + i] == metric_rows(
                facts.metrics@,
            )[i]
            &&& rows[3 + n] == "RSS "@ + facts.resident@ + " MB   peak "@ + facts.peak@
                + " MB   CPU "@ + facts.processor@ + "%"@
            &&& rows[4 + n] == "documents "@ + decimal(facts.documents as nat)
                + "   dropped events "@ + decimal(facts.dropped as nat)
            &&& facts.drawn is Some ==> rows[5 + n] == "quads "@ + decimal(
                facts.drawn->0.quads as nat,
            ) + "   regions reshaped "@ + decimal(facts.drawn->0.reshaped as nat)
            &&& facts.document is Some ==> rows[5 + n + d] == "revision "@ + decimal(
                facts.document->0.revision as nat,
            ) + "   undo "@ + decimal(facts.document->0.undo as nat) + "   redo "@ + decimal(
                facts.document->0.redo as nat,
            ) + "   lines "@ + decimal(facts.document->0.lines as nat)
            &&& rows.len() == 5 + n + d + (if facts.document is Some {
                1int
            } else {
                0
            })
        }),
{
    let rows = overlay_rows(facts);
    let n = metric_rows(facts.metrics@).len() as int;
    assert forall|i: int| 0 <= i < n implies #[trigger] rows[2 + i] == metric_rows(
        facts.metrics@,
    )[i] by {}
}

/// The panels that are shown stand below each other in their order, the
/// loading panel first and the overlay last, with one blank line between each
/// two; one that is not shown leaves no trace.
pub proof fn the_panels_stand_below_each_other(
    dev: Seq<Seq<char>>,
    resources: Seq<Seq<char>>,
    overlay: Seq<Seq<char>>,
)
    requires
        dev.len() > 0,
        resources.len() > 0,
        overlay.len() > 0,
    ensures
        panels((true, dev), (true, resources), (true, overlay)) == dev + seq![""@] + resources
            + seq![""@] + overlay,
        panels((true, dev), (true, resources), (false, overlay)) == dev + seq![""@] + resources,
        panels((true, dev), (false, resources), (true, overlay)) == dev + seq![""@] + overlay,
        panels((false, dev), (true, resources), (true, overlay)) == resources + seq![""@] + overlay,
        panels((true, dev), (false, resources), (false, overlay)) == dev,
        panels((false, dev), (true, resources), (false, overlay)) == resources,
        panels((false, dev), (false, resources), (true, overlay)) == overlay,
        panels((false, dev), (false, resources), (false, overlay)).len() == 0,
{
    assert(panels((true, dev), (true, resources), (true, overlay)) =~= dev + seq![""@] + resources
        + seq![""@] + overlay);
    assert(panels((true, dev), (true, resources), (false, overlay)) =~= dev + seq![""@]
        + resources);
    assert(panels((true, dev), (false, resources), (true, overlay)) =~= dev + seq![""@] + overlay);
    assert(panels((false, dev), (true, resources), (true, overlay)) =~= resources + seq![""@]
        + overlay);
}

} // verus!
