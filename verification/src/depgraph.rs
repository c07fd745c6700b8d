//! The dependency view: files as circles, imports as arrows between them.
//!
//! What the view decides is here: which imports join two known files, how
//! busy each file is, in what order the files are drawn, which of them are
//! entry points, what is lit while the pointer rests on a file, and which
//! names find room on the label grid.  Where the circles come to rest and how
//! they are fitted to a pane is arithmetic on coordinates, and not here.

use crate::depcache::{Plan, Settled};
use crate::numbers::Single;
use crate::text::{
    chars_of, count, cut_to, cut_with, equal, join, joined, least, owned, repeat, slice, string_of,
    texts, views,
};
use vstd::prelude::*;

verus! {

// --- the scanned graph -------------------------------------------------------

/// One import between two files, by their paths.
pub struct ImportEdge {
    pub from: String,
    pub to: String,
}

/// The files of a workspace and the imports found among them.
pub struct DependencyGraph {
    /// Paths relative to the workspace.
    pub files: Vec<String>,
    pub edges: Vec<ImportEdge>,
    /// Whether the scan stopped early because the workspace was too large.
    pub truncated: bool,
}

/// The index of `path` among the files; the last one, where it is listed twice.
pub open spec fn file_index(files: Seq<Seq<char>>, path: Seq<char>) -> Option<usize>
    decreases files.len(),
{
    if files.len() == 0 {
        None
    } else if files.last() == path {
        Some((files.len() - 1) as usize)
    } else {
        file_index(files.drop_last(), path)
    }
}

/// The imports as pairs of indices, in their order.  One that names a path
/// outside the files is left out.
pub open spec fn resolved(files: Seq<Seq<char>>, edges: Seq<ImportEdge>) -> Seq<(usize, usize)>
    decreases edges.len(),
{
    if edges.len() == 0 {
        Seq::empty()
    } else {
        let before = resolved(files, edges.drop_last());
        match (file_index(files, edges.last().from@), file_index(files, edges.last().to@)) {
            (Some(from), Some(to)) => before.push((from, to)),
            _ => before,
        }
    }
}

/// Whether every edge joins two of `n` files.
pub open spec fn edges_within(edges: Seq<(usize, usize)>, n: int) -> bool {
    forall|i: int| 0 <= i < edges.len() ==> (#[trigger] edges[i]).0 < n && edges[i].1 < n
}

/// What a file's index says: it is that file.
proof fn file_index_is(files: Seq<Seq<char>>, path: Seq<char>)
    requires
        files.len() <= usize::MAX,
    ensures
        file_index(files, path) matches Some(i) ==> i < files.len() && files[i as int] == path,
        file_index(files, path) is None ==> !files.contains(path),
    decreases files.len(),
{
    if files.len() > 0 && files.last() != path {
        file_index_is(files.drop_last(), path);
        if files.contains(path) {
            let i = choose|i: int| 0 <= i < files.len() && files[i] == path;
            assert(files.drop_last()[i] == path);
        }
    }
}

/// Imports resolve to files that are there: every pair of indices lies within
/// the files.
pub proof fn resolved_edges_join_known_files(files: Seq<Seq<char>>, edges: Seq<ImportEdge>)
    requires
        files.len() <= usize::MAX,
    ensures
        edges_within(resolved(files, edges), files.len() as int),
    decreases edges.len(),
{
    if edges.len() > 0 {
        resolved_edges_join_known_files(files, edges.drop_last());
        file_index_is(files, edges.last().from@);
        file_index_is(files, edges.last().to@);
    }
}

/// The index of a path among the files.
fn index_among(files: &Vec<String>, path: &str) -> (r: Option<usize>)
    ensures
        r == file_index(texts(files@), path@),
{
    let mut n: usize = files.len();
    assert(texts(files@).take(n as int) =~= texts(files@));
    while n > 0
        invariant
            n <= files.len(),
            file_index(texts(files@), path@) == file_index(texts(files@).take(n as int), path@),
        decreases n,
    {
        assert(texts(files@).take(n as int).drop_last() =~= texts(files@).take(n - 1));
        assert(texts(files@).take(n as int).last() == files@[n - 1]@);
        if equal(files[n - 1].as_str(), path) {
            return Some(n - 1);
        }
        n = n - 1;
    }
    None
}

/// The imports between the files, as pairs of indices.
pub fn import_edges(graph: &DependencyGraph) -> (r: Vec<(usize, usize)>)
    ensures
        r@ == resolved(texts(graph.files@), graph.edges@),
        edges_within(r@, graph.files.len() as int),
{
    let mut out: Vec<(usize, usize)> = Vec::new();
    for i in 0..graph.edges.len()
        invariant
            out@ == resolved(texts(graph.files@), graph.edges@.take(i as int)),
    {
        let edge = &graph.edges[i];
        assert(graph.edges@.take(i + 1).drop_last() =~= graph.edges@.take(i as int));
        let from = index_among(&graph.files, edge.from.as_str());
        let to = index_among(&graph.files, edge.to.as_str());
        match (from, to) {
            (Some(a), Some(b)) => {
                out.push((a, b));
            },
            _ => {},
        }
    }
    proof {
        assert(graph.edges@.take(graph.edges.len() as int) =~= graph.edges@);
        assert(texts(graph.files@).len() == graph.files.len());
        resolved_edges_join_known_files(texts(graph.files@), graph.edges@);
    }
    out
}

/// The settled graph: the scanned files and their imports, with the positions
/// that the files came to rest at.
pub fn settle_graph(graph: &DependencyGraph, positions: Vec<(Single, Single)>) -> (r: Settled)
    ensures
        r@ == (Plan {
            files: texts(graph.files@),
            edges: resolved(texts(graph.files@), graph.edges@),
            positions: positions@,
            truncated: graph.truncated,
        }),
        edges_within(r.edges@, r.files.len() as int),
{
    let mut files: Vec<String> = Vec::new();
    for i in 0..graph.files.len()
        invariant
            texts(files@) == texts(graph.files@).take(i as int),
    {
        let ghost before = files@;
        files.push(owned(graph.files[i].as_str()));
        assert(texts(files@) =~= texts(before).push(graph.files@[i as int]@));
        assert(texts(graph.files@).take(i + 1) =~= texts(graph.files@).take(i as int).push(
            graph.files@[i as int]@,
        ));
    }
    assert(texts(files@) =~= texts(graph.files@));
    assert(texts(files@).len() == files.len() && texts(graph.files@).len() == graph.files.len());
    let edges = import_edges(graph);
    Settled { files, edges, positions, truncated: graph.truncated }
}

// --- how busy a file is ------------------------------------------------------

/// How many ends of edges rest on a node.  A file that imports itself counts
/// twice.
pub open spec fn degree(edges: Seq<(usize, usize)>, node: int) -> nat
    decreases edges.len(),
{
    if edges.len() == 0 {
        0
    } else {
        let before = degree(edges.drop_last(), node);
        let edge = edges.last();
        before + (if edge.0 == node {
            1nat
        } else {
            0
        }) + (if edge.1 == node {
            1nat
        } else {
            0
        })
    }
}

/// Whether any file imports this one.  What nothing imports is an entry point.
pub open spec fn is_imported(edges: Seq<(usize, usize)>, node: int) -> bool {
    exists|i: int| 0 <= i < edges.len() && (#[trigger] edges[i]).1 == node
}

/// A node has at most two ends of every edge.
proof fn degree_is_bounded(edges: Seq<(usize, usize)>, node: int)
    ensures
        degree(edges, node) <= 2 * edges.len(),
    decreases edges.len(),
{
    if edges.len() > 0 {
        degree_is_bounded(edges.drop_last(), node);
    }
}

/// How many ends of edges rest on a node.
fn degree_of(edges: &Vec<(usize, usize)>, node: usize) -> (r: u128)
    ensures
        r == degree(edges@, node as int),
{
    let mut n: u128 = 0;
    for i in 0..edges.len()
        invariant
            n == degree(edges@.take(i as int), node as int),
    {
        proof {
            degree_is_bounded(edges@.take(i as int), node as int);
            assert(edges@.take(i + 1).drop_last() =~= edges@.take(i as int));
        }
        if edges[i].0 == node {
            n = n + 1;
        }
        if edges[i].1 == node {
            n = n + 1;
        }
    }
    assert(edges@.take(edges.len() as int) =~= edges@);
    n
}

/// How busy each of `count` files is.
pub fn degrees(count: usize, edges: &Vec<(usize, usize)>) -> (r: Vec<u128>)
    ensures
        r@ == Seq::new(count as nat, |i: int| degree(edges@, i) as u128),
        forall|i: int| 0 <= i < count ==> #[trigger] r@[i] == degree(edges@, i),
{
    let mut out: Vec<u128> = Vec::new();
    for i in 0..count
        invariant
            out.len() == i,
            forall|j: int| 0 <= j < i ==> #[trigger] out@[j] == degree(edges@, j),
    {
        out.push(degree_of(edges, i));
    }
    out
}

/// Whether any file imports this one.
fn imported_at(edges: &Vec<(usize, usize)>, node: usize) -> (r: bool)
    ensures
        r == is_imported(edges@, node as int),
{
    for i in 0..edges.len()
        invariant
            forall|j: int| 0 <= j < i ==> (#[trigger] edges@[j]).1 != node,
    {
        if edges[i].1 == node {
            assert(edges@[i as int].1 == node);
            return true;
        }
    }
    false
}

// --- the order of drawing ----------------------------------------------------

/// The degree at which a circle is as large as its graph allows.
pub const BUSY_DEGREE: u128 = 12;

/// What a circle's size goes by: its degree, up to the busy one.
pub open spec fn rank(degree: int) -> int {
    least(degree, BUSY_DEGREE as int)
}

/// The files below `n` whose rank is `r`, in their order.
pub open spec fn of_rank(degrees: Seq<u128>, r: int, n: int) -> Seq<usize>
    decreases n,
{
    if n <= 0 {
        Seq::empty()
    } else {
        let before = of_rank(degrees, r, n - 1);
        if rank(degrees[n - 1] as int) == r {
            before.push((n - 1) as usize)
        } else {
            before
        }
    }
}

/// The files of rank `r` and less, the highest rank first.
pub open spec fn ranked(degrees: Seq<u128>, r: int) -> Seq<usize>
    decreases r + 1,
{
    if r < 0 {
        Seq::empty()
    } else {
        of_rank(degrees, r, degrees.len() as int) + ranked(degrees, r - 1)
    }
}

/// The files in the order they are drawn: the largest circle first, so that a
/// small one lies on top of it; equal ones in the order of the files.
pub open spec fn drawing_order(degrees: Seq<u128>) -> Seq<usize> {
    ranked(degrees, BUSY_DEGREE as int)
}

/// Whether the file `a` is drawn before the file `b`.
pub open spec fn drawn_before(degrees: Seq<u128>, a: usize, b: usize) -> bool {
    let ra = rank(degrees[a as int] as int);
    let rb = rank(degrees[b as int] as int);
    ra > rb || (ra == rb && a < b)
}

/// What the files of one rank are.
proof fn of_rank_is(degrees: Seq<u128>, r: int, n: int)
    requires
        0 <= n <= degrees.len() <= usize::MAX,
    ensures
        forall|p: int|
            0 <= p < of_rank(degrees, r, n).len() ==> (#[trigger] of_rank(degrees, r, n)[p]) < n
                && rank(degrees[of_rank(degrees, r, n)[p] as int] as int) == r,
        forall|p: int, q: int|
            0 <= p < q < of_rank(degrees, r, n).len() ==> (#[trigger] of_rank(degrees, r, n)[p])
                < (#[trigger] of_rank(degrees, r, n)[q]),
        forall|i: int|
            0 <= i < n && rank(#[trigger] degrees[i] as int) == r ==> of_rank(
                degrees,
                r,
                n,
            ).contains(i as usize),
    decreases n,
{
    if n > 0 {
        of_rank_is(degrees, r, n - 1);
        let before = of_rank(degrees, r, n - 1);
        let all = of_rank(degrees, r, n);
        assert forall|i: int| 0 <= i < n && rank(#[trigger] degrees[i] as int) == r implies all.contains(
            i as usize,
        ) by {
            if i < n - 1 {
                assert(before.contains(i as usize));
                let p = choose|p: int| 0 <= p < before.len() && before[p] == i as usize;
                assert(all[p] == i as usize);
            } else {
                assert(all[all.len() - 1] == i as usize);
            }
        }
    }
}

/// What the files of a rank and less are.
proof fn ranked_is(degrees: Seq<u128>, r: int)
    requires
        degrees.len() <= usize::MAX,
        -1 <= r,
    ensures
        forall|p: int|
            0 <= p < ranked(degrees, r).len() ==> (#[trigger] ranked(degrees, r)[p])
                < degrees.len() && rank(degrees[ranked(degrees, r)[p] as int] as int) <= r,
        forall|p: int, q: int|
            0 <= p < q < ranked(degrees, r).len() ==> drawn_before(
                degrees,
                #[trigger] ranked(degrees, r)[p],
                #[trigger] ranked(degrees, r)[q],
            ),
        forall|i: int|
            0 <= i < degrees.len() && rank(#[trigger] degrees[i] as int) <= r ==> ranked(
                degrees,
                r,
            ).contains(i as usize),
    decreases r + 1,
{
    if r >= 0 {
        let n = degrees.len() as int;
        of_rank_is(degrees, r, n);
        ranked_is(degrees, r - 1);
        let here = of_rank(degrees, r, n);
        let rest = ranked(degrees, r - 1);
        let all = ranked(degrees, r);
        assert(all =~= here + rest);
        assert forall|i: int| 0 <= i < n && rank(#[trigger] degrees[i] as int) <= r implies all.contains(
            i as usize,
        ) by {
            if rank(degrees[i] as int) == r {
                let p = choose|p: int| 0 <= p < here.len() && here[p] == i as usize;
                assert(all[p] == i as usize);
            } else {
                let p = choose|p: int| 0 <= p < rest.len() && rest[p] == i as usize;
                assert(all[here.len() + p] == i as usize);
            }
        }
        assert forall|p: int, q: int| 0 <= p < q < all.len() implies drawn_before(
            degrees,
            #[trigger] all[p],
            #[trigger] all[q],
        ) by {
            if q < here.len() {
                assert(here[p] < here[q]);
            } else if p < here.len() {
                assert(all[q] == rest[q - here.len()]);
                assert(all[p] == here[p]);
            } else {
                assert(all[p] == rest[p - here.len()]);
                assert(all[q] == rest[q - here.len()]);
            }
        }
    } else {
        assert forall|i: int| 0 <= i < degrees.len() implies rank(#[trigger] degrees[i] as int)
            >= 0 by {}
    }
}

/// The busier of two files is drawn first, and of two as busy the one listed
/// first.
pub proof fn busier_files_are_drawn_first(degrees: Seq<u128>, p: int, q: int)
    requires
        degrees.len() <= usize::MAX,
        0 <= p < q < drawing_order(degrees).len(),
    ensures
        drawn_before(degrees, drawing_order(degrees)[p], drawing_order(degrees)[q]),
{
    ranked_is(degrees, BUSY_DEGREE as int);
}

/// Every file is drawn, and drawn once.
pub proof fn every_file_is_drawn_once(degrees: Seq<u128>)
    requires
        degrees.len() <= usize::MAX,
    ensures
        drawing_order(degrees).len() == degrees.len(),
        drawing_order(degrees).no_duplicates(),
        forall|p: int|
            0 <= p < degrees.len() ==> (#[trigger] drawing_order(degrees)[p]) < degrees.len(),
        forall|i: usize| i < degrees.len() ==> drawing_order(degrees).contains(i),
{
    let order = drawing_order(degrees);
    let n = degrees.len() as int;
    ranked_is(degrees, BUSY_DEGREE as int);
    assert forall|i: usize| i < degrees.len() implies order.contains(i) by {
        assert(rank(degrees[i as int] as int) <= BUSY_DEGREE);
        assert(order.contains((i as int) as usize));
    }
    assert(order.no_duplicates()) by {
        assert forall|p: int, q: int| 0 <= p < order.len() && 0 <= q < order.len() && p != q implies order[p]
            != order[q] by {
            if p < q {
                assert(drawn_before(degrees, order[p], order[q]));
            } else {
                assert(drawn_before(degrees, order[q], order[p]));
            }
        }
    }
    let ints = Seq::new(order.len(), |p: int| order[p] as int);
    assert(ints.no_duplicates());
    ints.unique_seq_to_set();
    vstd::set_lib::lemma_int_range(0, n);
    assert(ints.to_set() =~= vstd::set_lib::set_int_range(0, n)) by {
        assert forall|i: int| ints.to_set().contains(i) <==> vstd::set_lib::set_int_range(
            0,
            n,
        ).contains(i) by {
            if 0 <= i < n {
                assert(order.contains(i as usize));
                let p = choose|p: int| 0 <= p < order.len() && order[p] == i as usize;
                assert(ints[p] == i);
            }
            if ints.to_set().contains(i) {
                let p = choose|p: int| 0 <= p < ints.len() && ints[p] == i;
                assert(order[p] < n);
            }
        }
    }
}

/// What a circle's size goes by.
fn rank_of(degree: u128) -> (r: u128)
    ensures
        r == rank(degree as int),
{
    if degree < BUSY_DEGREE {
        degree
    } else {
        BUSY_DEGREE
    }
}

/// The files in the order they are drawn.
pub fn draw_order(degrees: &Vec<u128>) -> (r: Vec<usize>)
    ensures
        r@ == drawing_order(degrees@),
{
    let mut out: Vec<usize> = Vec::new();
    let mut left: u128 = BUSY_DEGREE + 1;
    assert(out@ + ranked(degrees@, left - 1) =~= drawing_order(degrees@));
    while left > 0
        invariant
            left <= BUSY_DEGREE + 1,
            out@ + ranked(degrees@, left - 1) == drawing_order(degrees@),
        decreases left,
    {
        let r: u128 = left - 1;
        let ghost before = out@;
        assert(before + of_rank(degrees@, r as int, 0) =~= before);
        for i in 0..degrees.len()
            invariant
                out@ == before + of_rank(degrees@, r as int, i as int),
        {
            if rank_of(degrees[i]) == r {
                out.push(i);
            }
            assert(out@ =~= before + of_rank(degrees@, r as int, i + 1));
        }
        assert(out@ + ranked(degrees@, r - 1) =~= before + ranked(degrees@, r as int));
        left = r;
    }
    assert(out@ =~= drawing_order(degrees@));
    out
}

// --- the scene ---------------------------------------------------------------

/// One file, as drawn.
pub struct Node {
    /// Which of the settled files this is.
    pub at: usize,
    /// The path that a click on this node opens.
    pub path: String,
    /// The file's own name, uncut.
    pub name: String,
    /// Whether anything in the workspace imports this file.
    pub imported: bool,
    /// How many ends of edges rest on it.
    pub degree: u128,
}

/// What a node says.
pub struct NodeText {
    pub at: usize,
    pub path: Seq<char>,
    pub name: Seq<char>,
    pub imported: bool,
    pub degree: u128,
}

impl View for Node {
    type V = NodeText;

    open spec fn view(&self) -> NodeText {
        NodeText {
            at: self.at,
            path: self.path@,
            name: self.name@,
            imported: self.imported,
            degree: self.degree,
        }
    }
}

/// A graph ready to be drawn.
pub struct Scene {
    /// The busiest first.
    pub nodes: Vec<Node>,
    /// `(importer, imported)` as indices into `nodes`.
    pub edges: Vec<(usize, usize)>,
}

/// What the nodes say.
pub open spec fn node_texts(nodes: Seq<Node>) -> Seq<NodeText> {
    Seq::new(nodes.len(), |i: int| nodes[i]@)
}

/// The degrees of the files of a plan.
pub open spec fn plan_degrees(plan: Plan) -> Seq<u128> {
    Seq::new(plan.files.len(), |i: int| degree(plan.edges, i) as u128)
}

/// The node that is drawn as number `p`.
pub open spec fn scene_node(plan: Plan, names: Seq<Seq<char>>, p: int) -> NodeText {
    let at = drawing_order(plan_degrees(plan))[p];
    NodeText {
        at,
        path: plan.files[at as int],
        name: names[at as int],
        imported: is_imported(plan.edges, at as int),
        degree: plan_degrees(plan)[at as int],
    }
}

/// Whether `drawn` is `edge` with its ends renumbered by the order of drawing.
pub open spec fn renumbered(order: Seq<usize>, edge: (usize, usize), drawn: (usize, usize)) -> bool {
    &&& drawn.0 < order.len()
    &&& drawn.1 < order.len()
    &&& order[drawn.0 as int] == edge.0
    &&& order[drawn.1 as int] == edge.1
}

/// The scene of a settled graph.
///
/// `names` holds each file's own name, without the folders it lies in.
pub fn build_scene(settled: &Settled, names: &Vec<String>) -> (r: Scene)
    requires
        names.len() == settled.files.len(),
        edges_within(settled.edges@, settled.files.len() as int),
    ensures
        node_texts(r.nodes@) == Seq::new(
            settled.files@.len(),
            |p: int| scene_node(settled@, texts(names@), p),
        ),
        r.edges.len() == settled.edges.len(),
        edges_within(r.edges@, r.nodes.len() as int),
        forall|i: int|
            0 <= i < r.edges.len() ==> renumbered(
                drawing_order(plan_degrees(settled@)),
                settled.edges@[i],
                #[trigger] r.edges@[i],
            ),
{
    let count = settled.files.len();
    let degrees = degrees(count, &settled.edges);
    assert(degrees@ =~= plan_degrees(settled@));
    let order = draw_order(&degrees);
    proof {
        every_file_is_drawn_once(degrees@);
    }
    let mut drawn_at: Vec<usize> = Vec::new();
    for i in 0..count
        invariant
            drawn_at.len() == i,
    {
        drawn_at.push(0);
    }
    let mut nodes: Vec<Node> = Vec::new();
    let ghost expected = Seq::new(
        settled.files@.len(),
        |p: int| scene_node(settled@, texts(names@), p),
    );
    for p in 0..count
        invariant
            count == settled.files.len(),
            count == names.len(),
            order.len() == count,
            degrees.len() == count,
            degrees@ == plan_degrees(settled@),
            order@ == drawing_order(degrees@),
            order@.no_duplicates(),
            forall|q: int| 0 <= q < count ==> (#[trigger] order@[q]) < count,
            drawn_at.len() == count,
            forall|q: int| 0 <= q < p ==> drawn_at@[(#[trigger] order@[q]) as int] == q,
            expected == Seq::new(
                settled.files@.len(),
                |p: int| scene_node(settled@, texts(names@), p),
            ),
            node_texts(nodes@) == expected.take(p as int),
    {
        let at = order[p];
        drawn_at.set(at, p);
        let ghost before = nodes@;
        let node = Node {
            at,
            path: owned(settled.files[at].as_str()),
            name: owned(names[at].as_str()),
            imported: imported_at(&settled.edges, at),
            degree: degrees[at],
        };
        assert(node@ == scene_node(settled@, texts(names@), p as int));
        nodes.push(node);
        assert(node_texts(nodes@) =~= node_texts(before).push(node@));
        assert(expected.take(p + 1) =~= expected.take(p as int).push(expected[p as int]));
        assert forall|q: int| 0 <= q < p + 1 implies drawn_at@[(#[trigger] order@[q]) as int]
            == q by {
            if q < p {
                assert(order@[q] != order@[p as int]);
            }
        }
    }
    assert(expected.take(count as int) =~= expected);
    assert(node_texts(nodes@).len() == nodes.len());
    assert forall|i: usize| i < count implies (#[trigger] drawn_at@[i as int]) < count
        && order@[drawn_at@[i as int] as int] == i by {
        assert(order@.contains(i));
        let q = choose|q: int| 0 <= q < order@.len() && order@[q] == i;
        assert(drawn_at@[order@[q] as int] == q);
    }
    let mut edges: Vec<(usize, usize)> = Vec::new();
    for i in 0..settled.edges.len()
        invariant
            count == settled.files.len(),
            order.len() == count,
            drawn_at.len() == count,
            edges_within(settled.edges@, count as int),
            forall|k: usize|
                k < count ==> (#[trigger] drawn_at@[k as int]) < count
                    && order@[drawn_at@[k as int] as int] == k,
            edges.len() == i,
            forall|j: int|
                0 <= j < i ==> renumbered(order@, settled.edges@[j], #[trigger] edges@[j]),
    {
        let edge = settled.edges[i];
        assert(settled.edges@[i as int].0 < count && settled.edges@[i as int].1 < count);
        assert(drawn_at@[edge.0 as int] < count);
        assert(drawn_at@[edge.1 as int] < count);
        edges.push((drawn_at[edge.0], drawn_at[edge.1]));
    }
    assert forall|i: int| 0 <= i < edges.len() implies (#[trigger] edges@[i]).0 < nodes.len()
        && edges@[i].1 < nodes.len() by {
        assert(renumbered(order@, settled.edges@[i], edges@[i]));
    }
    Scene { nodes, edges }
}

/// Whether `node` is either end of the edge at `at`.
pub open spec fn touched(edges: Seq<(usize, usize)>, at: int, node: usize) -> bool {
    0 <= at < edges.len() && (edges[at].0 == node || edges[at].1 == node)
}

/// How many edges lead out of a node.
pub open spec fn outward(edges: Seq<(usize, usize)>, node: usize) -> nat
    decreases edges.len(),
{
    if edges.len() == 0 {
        0
    } else {
        outward(edges.drop_last(), node) + (if edges.last().0 == node {
            1nat
        } else {
            0
        })
    }
}

/// How many edges lead into a node.
pub open spec fn inward(edges: Seq<(usize, usize)>, node: usize) -> nat
    decreases edges.len(),
{
    if edges.len() == 0 {
        0
    } else {
        inward(edges.drop_last(), node) + (if edges.last().1 == node {
            1nat
        } else {
            0
        })
    }
}

/// A file is as busy as the files it imports and the files that import it.
pub proof fn a_degree_counts_both_directions(edges: Seq<(usize, usize)>, node: usize)
    ensures
        degree(edges, node as int) == outward(edges, node) + inward(edges, node),
    decreases edges.len(),
{
    if edges.len() > 0 {
        a_degree_counts_both_directions(edges.drop_last(), node);
    }
}

/// A file that nothing imports has no edge leading into it.
pub proof fn an_entry_point_is_imported_by_nothing(edges: Seq<(usize, usize)>, node: usize)
    ensures
        is_imported(edges, node as int) <==> inward(edges, node) > 0,
    decreases edges.len(),
{
    if edges.len() > 0 {
        let before = edges.drop_last();
        an_entry_point_is_imported_by_nothing(before, node);
        if edges.last().1 == node {
            assert(edges[edges.len() - 1].1 == node);
        } else if is_imported(before, node as int) {
            let i = choose|i: int| 0 <= i < before.len() && (#[trigger] before[i]).1 == node;
            assert(edges[i].1 == node);
        } else if is_imported(edges, node as int) {
            let i = choose|i: int| 0 <= i < edges.len() && (#[trigger] edges[i]).1 == node;
            assert(before[i].1 == node);
        }
    }
}

impl Scene {
    /// Whether `node` is either end of the edge at `edge`.
    pub fn touches(&self, edge: usize, node: usize) -> (r: bool)
        ensures
            r == touched(self.edges@, edge as int, node),
    {
        edge < self.edges.len() && (self.edges[edge].0 == node || self.edges[edge].1 == node)
    }

    /// How many files this one imports, and how many import it.
    pub fn connections(&self, node: usize) -> (r: (usize, usize))
        ensures
            r.0 == outward(self.edges@, node),
            r.1 == inward(self.edges@, node),
    {
        let mut out: usize = 0;
        let mut within: usize = 0;
        for i in 0..self.edges.len()
            invariant
                out == outward(self.edges@.take(i as int), node),
                within == inward(self.edges@.take(i as int), node),
                out <= i,
                within <= i,
        {
            proof {
                let upto = self.edges@.take(i + 1);
                assert(upto.drop_last() =~= self.edges@.take(i as int));
                assert(upto.last() == self.edges@[i as int]);
            }
            if self.edges[i].0 == node {
                out = out + 1;
            }
            if self.edges[i].1 == node {
                within = within + 1;
            }
        }
        assert(self.edges@.take(self.edges.len() as int) =~= self.edges@);
        (out, within)
    }
}

// --- what is drawn -----------------------------------------------------------

/// One thing drawn for the view, from the bottom up.
#[derive(Copy, Clone, Debug, PartialEq, Eq, Structural)]
pub enum Mark {
    /// A stroke of an edge; `lit` where the edge touches the traced node.
    Stroke { segment: usize, lit: bool },
    /// The ring under the traced node.
    Ring { node: usize },
    /// A circle; what nothing imports stands out.
    Circle { node: usize, imported: bool },
}

/// The strokes, in their order.  `segments` says of each which edge it belongs
/// to.
pub open spec fn strokes(
    edges: Seq<(usize, usize)>,
    segments: Seq<usize>,
    traced: Option<usize>,
) -> Seq<Mark> {
    Seq::new(
        segments.len(),
        |i: int|
            Mark::Stroke {
                segment: i as usize,
                lit: traced matches Some(node) && touched(edges, segments[i] as int, node),
            },
    )
}

/// The circles of the first `n` nodes, with a ring under the traced one.
pub open spec fn circles(nodes: Seq<NodeText>, traced: Option<usize>, n: int) -> Seq<Mark>
    decreases n,
{
    if n <= 0 {
        Seq::empty()
    } else {
        let at = (n - 1) as usize;
        let before = circles(nodes, traced, n - 1);
        let ringed = if traced == Some(at) {
            before.push(Mark::Ring { node: at })
        } else {
            before
        };
        ringed.push(Mark::Circle { node: at, imported: nodes[n - 1].imported })
    }
}

/// Everything drawn for a scene: the strokes, and over them the circles.
pub open spec fn marks_of(
    nodes: Seq<NodeText>,
    edges: Seq<(usize, usize)>,
    segments: Seq<usize>,
    traced: Option<usize>,
) -> Seq<Mark> {
    strokes(edges, segments, traced) + circles(nodes, traced, nodes.len() as int)
}

/// What is drawn for a scene, in order.
pub fn pane_marks(scene: &Scene, segments: &Vec<usize>, traced: Option<usize>) -> (r: Vec<Mark>)
    ensures
        r@ == marks_of(node_texts(scene.nodes@), scene.edges@, segments@, traced),
{
    let ghost nodes = node_texts(scene.nodes@);
    let ghost lines = strokes(scene.edges@, segments@, traced);
    let mut out: Vec<Mark> = Vec::new();
    for i in 0..segments.len()
        invariant
            lines == strokes(scene.edges@, segments@, traced),
            out@ == lines.take(i as int),
    {
        let lit = match traced {
            Some(node) => scene.touches(segments[i], node),
            None => false,
        };
        out.push(Mark::Stroke { segment: i, lit });
        assert(lines.take(i + 1) =~= lines.take(i as int).push(lines[i as int]));
    }
    assert(lines.take(segments.len() as int) =~= lines);
    assert(lines + circles(nodes, traced, 0) =~= lines);
    for i in 0..scene.nodes.len()
        invariant
            nodes == node_texts(scene.nodes@),
            out@ == lines + circles(nodes, traced, i as int),
    {
        let ghost before = circles(nodes, traced, i as int);
        let ghost start = out@;
        let here = match traced {
            Some(node) => node == i,
            None => false,
        };
        if here {
            out.push(Mark::Ring { node: i });
        }
        let imported = scene.nodes[i].imported;
        out.push(Mark::Circle { node: i, imported });
        assert(nodes[i as int].imported == imported);
        assert(out@ =~= lines + circles(nodes, traced, i + 1));
    }
    assert(nodes.len() == scene.nodes.len());
    out
}

/// While nothing is traced, nothing is lit and no ring is drawn.
pub proof fn nothing_is_lit_unless_traced(
    nodes: Seq<NodeText>,
    edges: Seq<(usize, usize)>,
    segments: Seq<usize>,
    i: int,
)
    requires
        nodes.len() <= usize::MAX,
        0 <= i < marks_of(nodes, edges, segments, None).len(),
    ensures
        marks_of(nodes, edges, segments, None)[i] !is Ring,
        marks_of(nodes, edges, segments, None)[i] matches Mark::Stroke { lit, .. } ==> !lit,
{
    circles_without_tracing(nodes, nodes.len() as int);
    if i >= segments.len() {
        assert(marks_of(nodes, edges, segments, None)[i] == circles(
            nodes,
            None,
            nodes.len() as int,
        )[i - segments.len()]);
    }
}

/// Without tracing there is one circle to a node, and nothing else.
proof fn circles_without_tracing(nodes: Seq<NodeText>, n: int)
    requires
        0 <= n <= nodes.len() <= usize::MAX,
    ensures
        circles(nodes, None, n).len() == n,
        forall|p: int| 0 <= p < n ==> (#[trigger] circles(nodes, None, n)[p]) is Circle,
    decreases n,
{
    if n > 0 {
        circles_without_tracing(nodes, n - 1);
    }
}

/// Tracing a node adds its ring, and nothing besides.
pub proof fn tracing_a_node_adds_its_ring(
    nodes: Seq<NodeText>,
    edges: Seq<(usize, usize)>,
    segments: Seq<usize>,
    node: usize,
)
    requires
        node < nodes.len() <= usize::MAX,
    ensures
        marks_of(nodes, edges, segments, Some(node)).len() == marks_of(
            nodes,
            edges,
            segments,
            None,
        ).len() + 1,
        marks_of(nodes, edges, segments, Some(node)).contains(Mark::Ring { node }),
{
    circles_without_tracing(nodes, nodes.len() as int);
    circles_while_tracing(nodes, node, nodes.len() as int);
    let all = circles(nodes, Some(node), nodes.len() as int);
    let p = choose|p: int| 0 <= p < all.len() && all[p] == (Mark::Ring { node });
    assert(marks_of(nodes, edges, segments, Some(node))[segments.len() + p] == all[p]);
}

/// With tracing there is a circle to each node, and the ring once its node is
/// among them.
proof fn circles_while_tracing(nodes: Seq<NodeText>, node: usize, n: int)
    requires
        0 <= n <= nodes.len() <= usize::MAX,
    ensures
        circles(nodes, Some(node), n).len() == n + (if node < n {
            1int
        } else {
            0
        }),
        node < n ==> circles(nodes, Some(node), n).contains(Mark::Ring { node }),
    decreases n,
{
    if n > 0 {
        circles_while_tracing(nodes, node, n - 1);
        let before = circles(nodes, Some(node), n - 1);
        let all = circles(nodes, Some(node), n);
        if node < n - 1 {
            let p = choose|p: int| 0 <= p < before.len() && before[p] == (Mark::Ring { node });
            assert(all[p] == before[p]);
        } else if node == n - 1 {
            assert(all[before.len() as int] == (Mark::Ring { node }));
        }
    }
}

/// The node under the pointer: of those whose circles lie under it, the one
/// drawn last, which is the one that can be seen there.
pub fn hit_test(in_pane: bool, under: &Vec<bool>) -> (r: Option<usize>)
    ensures
        r matches Some(at) ==> in_pane && at < under.len() && under@[at as int] && forall|i: int|
            at < i < under.len() ==> !(#[trigger] under@[i]),
        r is None ==> !in_pane || forall|i: int| 0 <= i < under.len() ==> !(#[trigger] under@[i]),
{
    if !in_pane {
        return None;
    }
    let mut n: usize = under.len();
    while n > 0
        invariant
            in_pane,
            n <= under.len(),
            forall|i: int| n <= i < under.len() ==> !(#[trigger] under@[i]),
        decreases n,
    {
        if under[n - 1] {
            return Some(n - 1);
        }
        n = n - 1;
    }
    None
}

// --- labels ------------------------------------------------------------------

/// The longest name drawn on a node, however large its circle.
pub const LABEL_CAP: usize = 28;

/// The shortest a name is cut to before it is left out instead.
pub const LABEL_FLOOR: usize = 5;

/// A name cut to `room` characters, the ellipsis among them.
pub fn cut(name: &str, room: usize) -> (r: String)
    ensures
        r@ == cut_to(name@, room as int, '\u{2026}'),
{
    cut_with(name, room, '\u{2026}')
}

/// The room a label gets of the room there is.
pub open spec fn label_room(room: int) -> int {
    if room < LABEL_FLOOR {
        LABEL_FLOOR as int
    } else if room > LABEL_CAP {
        LABEL_CAP as int
    } else {
        room
    }
}

/// What is drawn of a name where there is room for `room` characters.
///
/// Where the room is the least there is, a name more than twice as long says
/// nothing useful, and is left out.
pub open spec fn label(name: Seq<char>, room: int) -> Option<Seq<char>> {
    let room = label_room(room);
    if room <= LABEL_FLOOR && name.len() > LABEL_FLOOR * 2 || name.len() == 0 {
        None
    } else {
        Some(cut_to(name, room, '\u{2026}'))
    }
}

/// What is drawn of a name where there is room for `room` characters.
pub fn label_of(name: &str, room: usize) -> (r: Option<String>)
    ensures
        r is Some <==> label(name@, room as int) is Some,
        r matches Some(text) ==> label(name@, room as int) == Some(text@),
{
    let length = count(name);
    let room: usize = if room < LABEL_FLOOR {
        LABEL_FLOOR
    } else if room > LABEL_CAP {
        LABEL_CAP
    } else {
        room
    };
    if room <= LABEL_FLOOR && length > LABEL_FLOOR * 2 || length == 0 {
        None
    } else {
        Some(cut(name, room))
    }
}

/// A label never takes more room than the longest one may.
pub proof fn a_label_fits_its_room(name: Seq<char>, room: int)
    ensures
        label(name, room) matches Some(text) ==> 0 < text.len() <= label_room(room) <= LABEL_CAP,
{
}

/// More room never shows less of a name.
pub proof fn more_room_shows_more(name: Seq<char>, room: int, more: int)
    requires
        room <= more,
    ensures
        label(name, room) matches Some(text) ==> label(name, more) matches Some(longer)
            && text.len() <= longer.len(),
{
}

/// The order in which names claim their cells: the traced node first, since
/// the reader is pointing at it, and the others as they are drawn.
pub open spec fn label_order(count: int, traced: Option<usize>) -> Seq<usize> {
    match traced {
        Some(at) => seq![at] + others(count, at as int),
        None => others(count, -1),
    }
}

/// The numbers below `count` but for one.
pub open spec fn others(count: int, but: int) -> Seq<usize>
    decreases count,
{
    if count <= 0 {
        Seq::empty()
    } else if count - 1 == but {
        others(count - 1, but)
    } else {
        others(count - 1, but).push((count - 1) as usize)
    }
}

/// The order in which names claim their cells.
pub fn label_sequence(count: usize, traced: Option<usize>) -> (r: Vec<usize>)
    ensures
        r@ == label_order(count as int, traced),
{
    let mut out: Vec<usize> = Vec::new();
    if let Some(at) = traced {
        out.push(at);
    }
    let ghost head = out@;
    let ghost but: int = match traced {
        Some(at) => at as int,
        None => -1,
    };
    assert(head + others(0, but) =~= head);
    for i in 0..count
        invariant
            but == (match traced {
                Some(at) => at as int,
                None => -1,
            }),
            out@ == head + others(i as int, but),
    {
        let skip = match traced {
            Some(at) => at == i,
            None => false,
        };
        if !skip {
            out.push(i);
        }
        assert(out@ =~= head + others(i + 1, but));
    }
    assert(out@ =~= label_order(count as int, traced));
    out
}

/// A label and the cell its first character is to stand in.
pub struct Stamp {
    pub row: i64,
    pub column: i64,
    pub text: String,
}

/// Whether a label lies within a grid of `rows` rows and `columns` columns.
pub open spec fn in_grid(stamp: Stamp, rows: int, columns: int) -> bool {
    &&& 0 <= stamp.row < rows
    &&& 0 <= stamp.column
    &&& stamp.column + stamp.text@.len() <= columns
}

/// A row made at least `to` cells long.
pub open spec fn widened(cells: Seq<char>, to: int) -> Seq<char> {
    cells + repeat(' ', to - cells.len())
}

/// Whether the cells of a label, and one to each side of it, are blank.
pub open spec fn has_room(cells: Seq<char>, column: int, length: int) -> bool {
    forall|k: int|
        0 <= k < cells.len() && column - 1 <= k < column + length + 1 ==> #[trigger] cells[k] == ' '
}

/// The cells with a text written over them from `column` on.
pub open spec fn written(cells: Seq<char>, column: int, text: Seq<char>) -> Seq<char> {
    Seq::new(
        cells.len(),
        |k: int|
            if column <= k < column + text.len() {
                text[k - column]
            } else {
                cells[k]
            },
    )
}

/// A row after a label has asked for its cells.
pub open spec fn stamped_row(cells: Seq<char>, column: int, text: Seq<char>) -> Seq<char> {
    let wide = widened(cells, column + text.len());
    if has_room(wide, column, text.len() as int) {
        written(wide, column, text)
    } else {
        wide
    }
}

/// The grid after one more label.
pub open spec fn stamped(grid: Seq<Seq<char>>, stamp: Stamp, columns: int) -> Seq<Seq<char>> {
    if in_grid(stamp, grid.len() as int, columns) {
        grid.update(
            stamp.row as int,
            stamped_row(grid[stamp.row as int], stamp.column as int, stamp.text@),
        )
    } else {
        grid
    }
}

/// A grid of `rows` rows that holds nothing yet.
pub open spec fn blank_grid(rows: int) -> Seq<Seq<char>> {
    Seq::new(rows as nat, |i: int| Seq::empty())
}

/// The grid after all the labels, in their order.
pub open spec fn stamped_all(rows: int, columns: int, stamps: Seq<Stamp>) -> Seq<Seq<char>>
    decreases stamps.len(),
{
    if stamps.len() == 0 {
        blank_grid(rows)
    } else {
        stamped(stamped_all(rows, columns, stamps.drop_last()), stamps.last(), columns)
    }
}

/// A row after a label has asked for its cells.
fn stamp_row(cells: &Vec<char>, column: usize, text: &Vec<char>) -> (r: Vec<char>)
    requires
        column + text.len() <= usize::MAX,
    ensures
        r@ == stamped_row(cells@, column as int, text@),
{
    let end: usize = column + text.len();
    let mut wide = slice(cells, 0, cells.len());
    assert(wide@ =~= cells@);
    while wide.len() < end
        invariant
            cells.len() <= wide.len(),
            wide.len() <= end || wide.len() == cells.len(),
            wide@ == cells@ + repeat(' ', wide.len() - cells.len()),
        decreases end - wide.len(),
    {
        wide.push(' ');
        assert(wide@ =~= cells@ + repeat(' ', wide.len() - cells.len()));
    }
    assert(wide@ =~= widened(cells@, end as int));
    let from: usize = if column == 0 { 0 } else { column - 1 };
    let to: usize = if end < wide.len() { end + 1 } else { wide.len() };
    let mut free: bool = true;
    for k in from..to
        invariant
            from <= to <= wide.len(),
            free <==> forall|j: int| from <= j < k ==> #[trigger] wide@[j] == ' ',
    {
        if wide[k] != ' ' {
            assert(wide@[k as int] != ' ');
            free = false;
        }
    }
    if free {
        assert(has_room(wide@, column as int, text@.len() as int));
        let ghost before = wide@;
        for k in 0..text.len()
            invariant
                column + text.len() <= wide.len(),
                wide.len() == before.len(),
                wide@ == written(before, column as int, text@.take(k as int)),
        {
            wide.set(column + k, text[k]);
            assert(wide@ =~= written(before, column as int, text@.take(k + 1)));
        }
        assert(text@.take(text.len() as int) =~= text@);
    } else {
        let ghost bad = choose|j: int| from <= j < to && #[trigger] wide@[j] != ' ';
        assert(wide@[bad] != ' ');
        assert(!has_room(wide@, column as int, text@.len() as int));
    }
    wide
}

/// The label grid as text: `rows` rows, the labels stamped in their order.
///
/// A label that does not lie in the grid is left out, and so is one whose
/// cells, or a cell to either side of them, an earlier one took.
pub fn label_rows(rows: usize, columns: usize, stamps: &Vec<Stamp>) -> (r: String)
    ensures
        r@ == joined(stamped_all(rows as int, columns as int, stamps@), "\n"@),
{
    let mut grid: Vec<Vec<char>> = Vec::new();
    for i in 0..rows
        invariant
            views(grid@) == blank_grid(i as int),
    {
        let ghost before = grid@;
        let cells: Vec<char> = Vec::new();
        grid.push(cells);
        assert(views(grid@) =~= views(before).push(cells@));
        assert(cells@ =~= Seq::<char>::empty());
        assert(views(grid@) =~= blank_grid(i + 1));
    }
    assert(stamps@.take(0) =~= Seq::<Stamp>::empty());
    for i in 0..stamps.len()
        invariant
            grid.len() == rows,
            views(grid@) == stamped_all(
                rows as int,
                columns as int,
                stamps@.take(i as int),
            ),
    {
        let stamp = &stamps[i];
        let text = chars_of(stamp.text.as_str());
        let ghost before = views(grid@);
        assert(stamps@.take(i + 1).drop_last() =~= stamps@.take(i as int));
        let fits = stamp.row >= 0 && (stamp.row as u64) < rows as u64 && stamp.column >= 0
            && text.len() <= columns && stamp.column as u64 <= (columns - text.len()) as u64;
        assert(fits == in_grid(*stamp, rows as int, columns as int));
        if fits {
            let row: usize = stamp.row as usize;
            let column: usize = stamp.column as usize;
            let cells = stamp_row(&grid[row], column, &text);
            grid.set(row, cells);
            assert(views(grid@) =~= before.update(row as int, cells@));
        }
    }
    assert(stamps@.take(stamps.len() as int) =~= stamps@);
    let mut lines: Vec<String> = Vec::new();
    let ghost all = views(grid@);
    for i in 0..grid.len()
        invariant
            all == views(grid@),
            texts(lines@) == all.take(i as int),
    {
        let ghost before = lines@;
        let line = string_of(&grid[i]);
        lines.push(line);
        assert(texts(lines@) =~= texts(before).push(line@));
        assert(all.take(i + 1) =~= all.take(i as int).push(all[i as int]));
    }
    assert(all.take(grid.len() as int) =~= all);
    join(&lines, "\n")
}

/// Stamping keeps the number of rows.
proof fn stamping_keeps_rows(rows: int, columns: int, stamps: Seq<Stamp>)
    requires
        0 <= rows,
    ensures
        stamped_all(rows, columns, stamps).len() == rows,
    decreases stamps.len(),
{
    if stamps.len() > 0 {
        stamping_keeps_rows(rows, columns, stamps.drop_last());
    }
}

/// What an earlier label wrote, no later one writes over: two names are never
/// run into a third that does not exist.
pub proof fn an_earlier_label_keeps_its_cells(
    grid: Seq<Seq<char>>,
    stamp: Stamp,
    columns: int,
    row: int,
    column: int,
)
    requires
        0 <= row < grid.len(),
        0 <= column < grid[row].len(),
        grid[row][column] != ' ',
    ensures
        column < stamped(grid, stamp, columns)[row].len(),
        stamped(grid, stamp, columns)[row][column] == grid[row][column],
{
    if in_grid(stamp, grid.len() as int, columns) && stamp.row == row {
        let wide = widened(grid[row], stamp.column + stamp.text@.len());
        assert(wide[column] == grid[row][column]);
    }
}

/// A label that is stamped stands a space apart from what is beside it.
pub proof fn a_stamped_label_stands_alone(cells: Seq<char>, column: int, text: Seq<char>)
    requires
        0 <= column,
        has_room(widened(cells, column + text.len()), column, text.len() as int),
    ensures
        ({
            let row = stamped_row(cells, column, text);
            &&& row.subrange(column, column + text.len()) == text
            &&& column > 0 ==> row[column - 1] == ' '
            &&& column + text.len() < row.len() ==> row[column + text.len()] == ' '
        }),
{
    let wide = widened(cells, column + text.len());
    let row = stamped_row(cells, column, text);
    assert(row.subrange(column, column + text.len()) =~= text);
    if column > 0 {
        assert(wide[column - 1] == ' ');
    }
    if column + text.len() < row.len() {
        assert(wide[column + text.len()] == ' ');
    }
}

/// The name of the traced node, which asks first, is drawn whatever else wants
/// its cells.
pub proof fn the_traced_name_is_drawn(rows: int, columns: int, stamps: Seq<Stamp>, k: int)
    requires
        0 <= rows,
        stamps.len() > 0,
        in_grid(stamps[0], rows, columns),
        0 <= k < stamps[0].text@.len(),
        stamps[0].text@[k] != ' ',
    ensures
        ({
            let cells = stamped_all(rows, columns, stamps)[stamps[0].row as int];
            stamps[0].column + k < cells.len() && cells[stamps[0].column + k] == stamps[0].text@[k]
        }),
    decreases stamps.len(),
{
    let first = stamps[0];
    if stamps.len() == 1 {
        assert(stamps.drop_last() =~= Seq::<Stamp>::empty());
        let wide = widened(Seq::<char>::empty(), first.column + first.text@.len());
        assert(has_room(wide, first.column as int, first.text@.len() as int));
        let grid = stamped_all(rows, columns, stamps);
        assert(grid == stamped(blank_grid(rows), first, columns)) by {
            assert(stamped_all(rows, columns, stamps.drop_last()) == blank_grid(rows));
        }
    } else {
        let before = stamps.drop_last();
        assert(before[0] == first);
        the_traced_name_is_drawn(rows, columns, before, k);
        stamping_keeps_rows(rows, columns, before);
        an_earlier_label_keeps_its_cells(
            stamped_all(rows, columns, before),
            stamps.last(),
            columns,
            first.row as int,
            first.column + k,
        );
    }
}

// --- the view's share of a frame ---------------------------------------------

/// The view's contribution to a frame: a graph, the node under the pointer,
/// and the message to show instead while there is no graph yet.
pub struct DependencyFrame<'a> {
    pub scene: Option<&'a Scene>,
    /// The node under the pointer.
    pub traced: Option<usize>,
    pub placeholder: &'a str,
}

impl<'a> DependencyFrame<'a> {
    /// What is drawn of the graph; nothing while there is none.
    pub fn marks(&self, segments: &Vec<usize>) -> (r: Vec<Mark>)
        ensures
            r@ == (match self.scene {
                Some(scene) => marks_of(
                    node_texts(scene.nodes@),
                    scene.edges@,
                    segments@,
                    self.traced,
                ),
                None => Seq::empty(),
            }),
    {
        match self.scene {
            Some(scene) => pane_marks(scene, segments, self.traced),
            None => Vec::new(),
        }
    }

    /// The text of the pane: the stamped names, or the message while there is
    /// no graph.
    pub fn text(&self, rows: usize, columns: usize, stamps: &Vec<Stamp>) -> (r: String)
        ensures
            r@ == (match self.scene {
                Some(_) => joined(stamped_all(rows as int, columns as int, stamps@), "\n"@),
                None => self.placeholder@,
            }),
    {
        match self.scene {
            Some(_) => label_rows(rows, columns, stamps),
            None => owned(self.placeholder),
        }
    }
}

// --- what the picture says ---------------------------------------------------

/// An import between two files of the workspace becomes an edge between those
/// two, from the importer to what it imports; none is lost, and they keep their
/// order.
pub proof fn every_import_becomes_its_edge(files: Seq<Seq<char>>, edges: Seq<ImportEdge>)
    requires
        files.len() <= usize::MAX,
        forall|i: int|
            0 <= i < edges.len() ==> files.contains((#[trigger] edges[i]).from@) && files.contains(
                edges[i].to@,
            ),
    ensures
        resolved(files, edges).len() == edges.len(),
        forall|i: int|
            0 <= i < edges.len() ==> {
                let edge = #[trigger] resolved(files, edges)[i];
                &&& edge.0 < files.len()
                &&& edge.1 < files.len()
                &&& files[edge.0 as int] == edges[i].from@
                &&& files[edge.1 as int] == edges[i].to@
            },
    decreases edges.len(),
{
    if edges.len() > 0 {
        let before = edges.drop_last();
        assert forall|i: int| 0 <= i < before.len() implies files.contains(
            (#[trigger] before[i]).from@,
        ) && files.contains(before[i].to@) by {
            assert(before[i] == edges[i]);
        }
        every_import_becomes_its_edge(files, before);
        let last = edges.len() - 1;
        assert(files.contains(edges[last].from@));
        file_index_is(files, edges[last].from@);
        file_index_is(files, edges[last].to@);
        assert forall|i: int| 0 <= i < edges.len() implies {
            let edge = #[trigger] resolved(files, edges)[i];
            &&& edge.0 < files.len()
            &&& edge.1 < files.len()
            &&& files[edge.0 as int] == edges[i].from@
            &&& files[edge.1 as int] == edges[i].to@
        } by {
            if i < last {
                assert(resolved(files, edges)[i] == resolved(files, before)[i]);
                assert(before[i] == edges[i]);
            }
        }
    }
}

/// An import of something outside the workspace costs only itself.
pub proof fn an_unknown_import_costs_only_itself(
    files: Seq<Seq<char>>,
    edges: Seq<ImportEdge>,
    at: int,
)
    requires
        files.len() <= usize::MAX,
        0 <= at < edges.len(),
        !files.contains(edges[at].from@) || !files.contains(edges[at].to@),
    ensures
        resolved(files, edges) == resolved(files, edges.remove(at)),
    decreases edges.len(),
{
    let last = edges.len() - 1;
    file_index_is(files, edges[at].from@);
    file_index_is(files, edges[at].to@);
    if at == last {
        assert(edges.remove(at) =~= edges.drop_last());
    } else {
        let fewer = edges.remove(at);
        an_unknown_import_costs_only_itself(files, edges.drop_last(), at);
        assert(fewer.drop_last() =~= edges.drop_last().remove(at));
        assert(fewer.last() == edges.last());
    }
}

/// Of two files that are listed under one path, the later one is meant.
pub proof fn the_last_listing_of_a_path_counts(files: Seq<Seq<char>>, path: Seq<char>, at: int)
    requires
        files.len() <= usize::MAX,
        0 <= at < files.len(),
        files[at] == path,
        forall|i: int| at < i < files.len() ==> #[trigger] files[i] != path,
    ensures
        file_index(files, path) == Some(at as usize),
    decreases files.len(),
{
    if at < files.len() - 1 {
        assert(files[files.len() - 1] != path);
        the_last_listing_of_a_path_counts(files.drop_last(), path, at);
    }
}

/// A file counts as imported exactly when some import names it as what is
/// imported.
pub proof fn a_file_is_imported_by_an_edge_into_it(edges: Seq<(usize, usize)>, node: usize)
    ensures
        is_imported(edges, node as int) <==> exists|i: int|
            0 <= i < edges.len() && (#[trigger] edges[i]).1 == node,
{
}

/// What a file imports is counted by the edges that begin at it, and what
/// imports it by those that end there.
pub proof fn connections_are_counted_by_their_ends(edges: Seq<(usize, usize)>, node: usize)
    ensures
        outward(edges, node) == edges.filter(|e: (usize, usize)| e.0 == node).len(),
        inward(edges, node) == edges.filter(|e: (usize, usize)| e.1 == node).len(),
        degree(edges, node as int) == edges.filter(|e: (usize, usize)| e.0 == node).len()
            + edges.filter(|e: (usize, usize)| e.1 == node).len(),
    decreases edges.len(),
{
    reveal(Seq::filter);
    if edges.len() > 0 {
        connections_are_counted_by_their_ends(edges.drop_last(), node);
    }
    a_degree_counts_both_directions(edges, node);
}

/// The order of drawing, by the degrees themselves: a file of higher degree
/// comes first, a degree of twelve or more counting as twelve, and of two that
/// count as much the one listed first.
pub proof fn files_are_drawn_by_degree(degrees: Seq<u128>, p: int, q: int)
    requires
        degrees.len() <= usize::MAX,
        0 <= p < q < drawing_order(degrees).len(),
    ensures
        ({
            let a = drawing_order(degrees)[p];
            let b = drawing_order(degrees)[q];
            let da = if degrees[a as int] < 12 { degrees[a as int] } else { 12 };
            let db = if degrees[b as int] < 12 { degrees[b as int] } else { 12 };
            da > db || (da == db && a < b)
        }),
{
    busier_files_are_drawn_first(degrees, p, q);
}

/// A stroke is lit exactly while one end of its own edge is traced: pointing at
/// a file lights the arrows that begin or end there, and no other.
pub proof fn only_the_arrows_of_the_traced_file_are_lit(
    nodes: Seq<NodeText>,
    edges: Seq<(usize, usize)>,
    segments: Seq<usize>,
    traced: Option<usize>,
    i: int,
)
    requires
        segments.len() <= usize::MAX,
        0 <= i < segments.len(),
        segments[i] < edges.len(),
    ensures
        marks_of(nodes, edges, segments, traced).len() >= segments.len(),
        marks_of(nodes, edges, segments, traced)[i] matches Mark::Stroke { segment, lit }
            && segment == i && (lit <==> exists|t: usize|
            traced == Some(t) && (edges[segments[i] as int].0 == t || edges[segments[i] as int].1
                == t)),
{
    if let Some(t) = traced {
        assert(traced == Some(t));
    }
}

/// How many marks the circles up to a node are.
spec fn marks_up_to(traced: Option<usize>, n: int) -> int {
    n + (if traced matches Some(t) && t < n {
        1int
    } else {
        0
    })
}

proof fn circles_in_order(nodes: Seq<NodeText>, traced: Option<usize>, n: int, at: int)
    requires
        0 <= at < n <= nodes.len() <= usize::MAX,
    ensures
        circles(nodes, traced, n).len() == marks_up_to(traced, n),
        circles(nodes, traced, n)[marks_up_to(traced, at + 1) - 1] == (Mark::Circle {
            node: at as usize,
            imported: nodes[at].imported,
        }),
        traced == Some(at as usize) ==> circles(nodes, traced, n)[marks_up_to(traced, at)] == (
        Mark::Ring { node: at as usize }),
    decreases n,
{
    if n - 1 > at {
        circles_in_order(nodes, traced, n - 1, at);
    } else if n > 1 {
        circles_in_order(nodes, traced, n - 1, n - 2);
    }
}

/// Every file has its circle, over all the strokes and in the order of the
/// files, and the circle says whether anything imports the file; the ring of
/// the traced file lies right under its circle.
pub proof fn every_file_has_its_circle(
    nodes: Seq<NodeText>,
    edges: Seq<(usize, usize)>,
    segments: Seq<usize>,
    traced: Option<usize>,
    at: int,
)
    requires
        nodes.len() <= usize::MAX,
        0 <= at < nodes.len(),
    ensures
        ({
            let marks = marks_of(nodes, edges, segments, traced);
            let above: int = if traced matches Some(t) && t <= at { 1 } else { 0 };
            let place = segments.len() + at + above;
            &&& marks.len() == segments.len() + nodes.len() + (if traced matches Some(t) && t
                < nodes.len() {
                1int
            } else {
                0
            })
            &&& marks[place] == (Mark::Circle {
                node: at as usize,
                imported: nodes[at].imported,
            })
            &&& traced == Some(at as usize) ==> marks[place - 1] == (Mark::Ring {
                node: at as usize,
            })
        }),
{
    circles_in_order(nodes, traced, nodes.len() as int, at);
    let lines = strokes(edges, segments, traced);
    let rest = circles(nodes, traced, nodes.len() as int);
    let marks = marks_of(nodes, edges, segments, traced);
    let above: int = if traced matches Some(t) && t <= at { 1 } else { 0 };
    assert(marks[segments.len() + (at + above)] == rest[at + above]);
    if traced == Some(at as usize) {
        assert(marks[segments.len() + at] == rest[at]);
    }
}

/// What is drawn of a name: all of it where it fits, and otherwise its
/// beginning with an ellipsis in the last place. There is room for no more than
/// twenty-eight characters and no less than five; where there are only five, a
/// name of more than ten is left out.
pub proof fn a_label_is_the_name_or_its_beginning(name: Seq<char>, room: int)
    requires
        name.len() > 0,
    ensures
        ({
            let fit = if room < 5 { 5 } else if room > 28 { 28 } else { room };
            if fit == 5 && name.len() > 10 {
                label(name, room) is None
            } else if name.len() <= fit {
                label(name, room) == Some(name)
            } else {
                label(name, room) == Some(name.take(fit - 1) + seq!['\u{2026}'])
            }
        }),
{
    let fit = if room < 5 { 5 } else if room > 28 { 28 } else { room };
    assert(name.take(fit - 1).push('\u{2026}') =~= name.take(fit - 1) + seq!['\u{2026}']);
}

proof fn others_are(count: int, but: int, k: int)
    requires
        0 <= count <= usize::MAX + 1,
        0 <= k < count,
        k != but,
    ensures
        others(count, but).len() == count - (if 0 <= but < count {
            1int
        } else {
            0
        }),
        others(count, but)[k - (if 0 <= but < k {
            1int
        } else {
            0
        })] == k,
    decreases count,
{
    if count - 1 > k {
        others_are(count - 1, but, k);
    } else {
        others_count(count - 1, but);
    }
}

proof fn others_count(count: int, but: int)
    requires
        0 <= count,
    ensures
        others(count, but).len() == count - (if 0 <= but < count {
            1int
        } else {
            0
        }),
    decreases count,
{
    if count > 0 {
        others_count(count - 1, but);
    }
}

/// The traced file names itself first, and every other after it, each once and
/// in the order they are drawn in.
pub proof fn the_traced_file_is_named_first(count: int, traced: Option<usize>, k: int)
    requires
        0 <= k < count <= usize::MAX,
        traced matches Some(t) ==> t < count,
    ensures
        label_order(count, traced).len() == count,
        traced matches Some(t) ==> label_order(count, traced)[0] == t,
        match traced {
            Some(t) => if k < t {
                label_order(count, traced)[k + 1] == k
            } else if k > t {
                label_order(count, traced)[k] == k
            } else {
                true
            },
            None => label_order(count, traced)[k] == k,
        },
{
    match traced {
        Some(t) => {
            others_count(count, t as int);
            if k != t {
                others_are(count, t as int, k);
            }
        },
        None => {
            others_count(count, -1);
            others_are(count, -1, k);
        },
    }
}

/// A label whose cells are free, and the one to each side of them, is written
/// there; one for which any of these is taken writes nothing at all.
pub proof fn a_label_is_written_where_it_has_room(
    grid: Seq<Seq<char>>,
    stamp: Stamp,
    columns: int,
)
    requires
        0 <= stamp.row < grid.len(),
        0 <= stamp.column,
        stamp.column + stamp.text@.len() <= columns,
    ensures
        ({
            let old_row = grid[stamp.row as int];
            let new_row = stamped(grid, stamp, columns)[stamp.row as int];
            let from = stamp.column as int;
            let to = from + stamp.text@.len();
            let free = forall|k: int|
                0 <= k < old_row.len() && from - 1 <= k <= to ==> #[trigger] old_row[k] == ' ';
            &&& stamped(grid, stamp, columns).len() == grid.len()
            &&& forall|r: int|
                0 <= r < grid.len() && r != stamp.row ==> #[trigger] stamped(
                    grid,
                    stamp,
                    columns,
                )[r] == grid[r]
            &&& new_row.len() == (if old_row.len() < to {
                to
            } else {
                old_row.len() as int
            })
            &&& free ==> new_row.subrange(from, to) == stamp.text@
            &&& forall|k: int|
                0 <= k < new_row.len() && (!free || k < from || k >= to) ==> #[trigger] new_row[k]
                    == (if k < old_row.len() {
                    old_row[k]
                } else {
                    ' '
                })
        }),
{
    let old_row = grid[stamp.row as int];
    let from = stamp.column as int;
    let to = from + stamp.text@.len();
    let wide = widened(old_row, to);
    let new_row = stamped(grid, stamp, columns)[stamp.row as int];
    let free = forall|k: int|
        0 <= k < old_row.len() && from - 1 <= k <= to ==> #[trigger] old_row[k] == ' ';
    if free {
        assert(has_room(wide, from, stamp.text@.len() as int)) by {
            assert forall|k: int| 0 <= k < wide.len() && from - 1 <= k < to + 1 implies #[trigger] wide[k]
                == ' ' by {
                if k < old_row.len() {
                    assert(old_row[k] == ' ');
                }
            }
        }
        assert(new_row.subrange(from, to) =~= stamp.text@);
    } else {
        let k = choose|k: int|
            0 <= k < old_row.len() && from - 1 <= k <= to && #[trigger] old_row[k] != ' ';
        assert(wide[k] != ' ');
        assert(!has_room(wide, from, stamp.text@.len() as int));
    }
}

/// A label that does not lie in the pane is not drawn at all.
pub proof fn a_label_outside_the_pane_is_left_out(
    grid: Seq<Seq<char>>,
    stamp: Stamp,
    columns: int,
)
    requires
        stamp.row < 0 || stamp.row >= grid.len() || stamp.column < 0 || stamp.column
            + stamp.text@.len() > columns,
    ensures
        stamped(grid, stamp, columns) == grid,
{
}

/// The scene shows the settled files and nothing else: every file is a node
/// with its own path and name, marked as imported exactly when an import leads
/// to it, and every import joins the nodes of its two files.
pub proof fn the_scene_shows_the_settled_graph(
    plan: Plan,
    names: Seq<Seq<char>>,
    nodes: Seq<NodeText>,
    edges: Seq<(usize, usize)>,
    p: int,
    i: int,
)
    requires
        plan.files.len() <= usize::MAX,
        plan.edges.len() <= usize::MAX,
        names.len() == plan.files.len(),
        edges_within(plan.edges, plan.files.len() as int),
        nodes == Seq::new(plan.files.len(), |p: int| scene_node(plan, names, p)),
        edges.len() == plan.edges.len(),
        forall|i: int|
            0 <= i < edges.len() ==> renumbered(
                drawing_order(plan_degrees(plan)),
                plan.edges[i],
                #[trigger] edges[i],
            ),
        0 <= p < nodes.len(),
        0 <= i < edges.len(),
    ensures
        nodes[p].at < plan.files.len(),
        nodes[p].path == plan.files[nodes[p].at as int],
        nodes[p].name == names[nodes[p].at as int],
        nodes[p].imported <==> exists|j: int|
            0 <= j < plan.edges.len() && (#[trigger] plan.edges[j]).1 == nodes[p].at,
        nodes[p].degree == plan.edges.filter(|e: (usize, usize)| e.0 == nodes[p].at).len()
            + plan.edges.filter(|e: (usize, usize)| e.1 == nodes[p].at).len(),
        edges[i].0 < nodes.len(),
        edges[i].1 < nodes.len(),
        nodes[edges[i].0 as int].path == plan.files[plan.edges[i].0 as int],
        nodes[edges[i].1 as int].path == plan.files[plan.edges[i].1 as int],
{
    every_file_is_drawn_once(plan_degrees(plan));
    let at = drawing_order(plan_degrees(plan))[p];
    connections_are_counted_by_their_ends(plan.edges, at);
    degree_is_bounded(plan.edges, at as int);
    assert(renumbered(drawing_order(plan_degrees(plan)), plan.edges[i], edges[i]));
    assert(plan.edges[i].0 < plan.files.len());
}

/// A node is read as it stands.
pub proof fn a_node_is_read_as_it_stands(nodes: Seq<Node>, i: int)
    requires
        0 <= i < nodes.len(),
    ensures
        node_texts(nodes).len() == nodes.len(),
        node_texts(nodes)[i].at == nodes[i].at,
        node_texts(nodes)[i].path == nodes[i].path@,
        node_texts(nodes)[i].name == nodes[i].name@,
        node_texts(nodes)[i].imported == nodes[i].imported,
        node_texts(nodes)[i].degree == nodes[i].degree,
{
}

/// A pane without a label is blank, and has as many rows as it is tall
/// however many labels are written.
pub proof fn the_pane_is_blank_before_it_is_written(rows: int, columns: int, stamps: Seq<Stamp>)
    requires
        0 <= rows,
    ensures
        stamped_all(rows, columns, stamps).len() == rows,
        stamps.len() == 0 ==> forall|i: int|
            0 <= i < rows ==> (#[trigger] stamped_all(rows, columns, stamps)[i]).len() == 0,
{
    stamping_keeps_rows(rows, columns, stamps);
}

} // verus!
