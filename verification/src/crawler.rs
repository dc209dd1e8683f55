//! Breadth-first crawling of the citation network around a seed paper.
//!
//! The crawl is a state machine: the caller asks it for the next step, does
//! the lookup that the step names (the citations or the references of a
//! paper), and hands the answer back, until the crawl is done.

use vstd::prelude::*;
use std::collections::VecDeque;
use crate::graph::{CitationGraph, GraphView, graph_with, outgoing};
use crate::models::{Author, AuthorView, Paper, PaperView, authors_view};
use crate::output::citation_views;

verus! {

broadcast use vstd::std_specs::vecdeque::group_vec_dequeue_axioms;

/// Which links of each paper the crawl follows.
#[derive(Debug, Clone, Copy, PartialEq, Eq, Structural)]
pub enum CrawlDirection {
    /// The papers that cite it.
    Citations,
    /// The papers it cites.
    References,
    /// Both.
    Both,
}

/// The crawl follows citing papers.
pub open spec fn follows_citations(d: CrawlDirection) -> bool {
    d == CrawlDirection::Citations || d == CrawlDirection::Both
}

/// What the crawl asks for next.
#[derive(Debug, PartialEq, Eq)]
pub enum CrawlStep {
    /// The papers citing the paper with this id.
    FetchCitations(String),
    /// The papers cited by the paper with this id.
    FetchReferences(String),
    /// Nothing: the crawl is over.
    Done,
}

/// A step as a value of the model.
pub ghost enum StepView {
    FetchCitations(Seq<char>),
    FetchReferences(Seq<char>),
    Done,
}

impl View for CrawlStep {
    type V = StepView;

    open spec fn view(&self) -> StepView {
        match self {
            CrawlStep::FetchCitations(id) => StepView::FetchCitations(id@),
            CrawlStep::FetchReferences(id) => StepView::FetchReferences(id@),
            CrawlStep::Done => StepView::Done,
        }
    }
}

/// A paper waiting in the queue: the paper, its Semantic Scholar id and its
/// distance from the seed.
pub type QueuedView = (PaperView, Seq<char>, usize);

/// What a crawl holds: the graph built so far, the ids seen, the queue, the
/// limits, the paper whose links are being fetched (its Semantic Scholar
/// id, its depth and its paper id), and whether the crawl has ended.
pub ghost struct CrawlView {
    pub graph: GraphView,
    pub visited: Seq<Seq<char>>,
    pub queue: Seq<QueuedView>,
    pub max_depth: usize,
    pub max_papers: usize,
    pub direction: CrawlDirection,
    pub current: Option<(Seq<char>, usize, Option<i64>)>,
    pub done: bool,
}

/// Takes papers from the head of the queue into the graph until one has to
/// be expanded (the step is then a lookup), the queue is empty, or the
/// graph is full (the crawl is then done).
pub open spec fn scan(v: CrawlView) -> (CrawlView, StepView)
    decreases v.queue.len(),
{
    if v.done || v.queue.len() == 0 {
        (CrawlView { done: true, current: None, ..v }, StepView::Done)
    } else if v.graph.order.len() >= v.max_papers {
        (CrawlView { done: true, current: None, queue: v.queue.drop_first(), ..v }, StepView::Done)
    } else {
        let (p, id, d) = v.queue[0];
        let v1 = CrawlView { graph: graph_with(v.graph, p), queue: v.queue.drop_first(), ..v };
        if d >= v.max_depth {
            scan(v1)
        } else if follows_citations(v.direction) {
            (CrawlView { current: Some((id, d, p.id)), ..v1 }, StepView::FetchCitations(id))
        } else {
            (CrawlView { current: Some((id, d, p.id)), ..v1 }, StepView::FetchReferences(id))
        }
    }
}

/// A found paper, carrying the authors listed with it.
pub open spec fn with_authors(p: PaperView, a: Seq<AuthorView>) -> PaperView {
    PaperView { authors: a, ..p }
}

/// Queues each found paper that has a Semantic Scholar id not seen before,
/// one level deeper than `depth`, and marks its id seen.
pub open spec fn enqueue(v: CrawlView, found: Seq<(PaperView, Seq<AuthorView>)>, depth: usize) -> CrawlView
    decreases found.len(),
{
    if found.len() == 0 {
        v
    } else {
        let w = enqueue(v, found.drop_last(), depth);
        let (p, a) = found.last();
        match p.semantic_scholar_id {
            Some(sid) => if w.visited.contains(sid) {
                w
            } else {
                CrawlView {
                    visited: w.visited.push(sid),
                    queue: w.queue.push((with_authors(p, a), sid, (depth + 1) as usize)),
                    ..w
                }
            },
            None => w,
        }
    }
}

/// The citation `e` recorded, unless it is recorded already.
pub open spec fn add_edge(edges: Seq<(i64, i64)>, e: (i64, i64)) -> Seq<(i64, i64)> {
    if outgoing(edges, e.0).contains(e.1) {
        edges
    } else {
        edges.push(e)
    }
}

/// The citations between the paper with id `x` and the found papers that
/// have an id, in the order found: from the found paper to `x` when the
/// found papers cite it (`citing`), else from `x` to the found paper.
pub open spec fn link_found(
    edges: Seq<(i64, i64)>,
    found: Seq<(PaperView, Seq<AuthorView>)>,
    x: Option<i64>,
    citing: bool,
) -> Seq<(i64, i64)>
    decreases found.len(),
{
    if found.len() == 0 {
        edges
    } else {
        let e = link_found(edges, found.drop_last(), x, citing);
        match (x, found.last().0.id) {
            (Some(a), Some(c)) => add_edge(e, if citing { (c, a) } else { (a, c) }),
            _ => e,
        }
    }
}

/// The paper id of the paper being expanded.
pub open spec fn current_paper(v: CrawlView) -> Option<i64> {
    match v.current {
        Some((_, _, x)) => x,
        None => None,
    }
}

/// The crawl with the citations of a fetch result recorded between the
/// paper being expanded and the papers found.
pub open spec fn with_links(v: CrawlView, found: Seq<(PaperView, Seq<AuthorView>)>, citing: bool) -> CrawlView {
    CrawlView {
        graph: GraphView { edges: link_found(v.graph.edges, found, current_paper(v), citing), ..v.graph },
        ..v
    }
}

/// What the crawl holds at every step: the graph has at most `max_papers`
/// papers; every citation in it touches a paper of the graph (the one whose
/// links were fetched), and none is recorded twice; no id is seen twice;
/// every queued paper was seen and lies at most `max_depth` from the seed;
/// no id waits in the queue twice; and the paper being expanded was seen,
/// does not wait in the queue, lies closer than `max_depth` and, where it
/// has a paper id, is in the graph. Since only unseen ids are queued and
/// seen ids stay seen, the links of each id are fetched at most once.
pub open spec fn crawl_inv(v: CrawlView) -> bool {
    &&& v.graph.order.len() <= v.max_papers
    &&& v.graph.order.no_duplicates()
    &&& v.graph.edges.no_duplicates()
    &&& forall|i: int|
        0 <= i < v.graph.edges.len() ==> v.graph.order.contains(#[trigger] v.graph.edges[i].0)
            || v.graph.order.contains(v.graph.edges[i].1)
    &&& v.visited.no_duplicates()
    &&& forall|i: int| 0 <= i < v.queue.len() ==> v.visited.contains(#[trigger] v.queue[i].1)
    &&& forall|i: int| 0 <= i < v.queue.len() ==> (#[trigger] v.queue[i]).2 <= v.max_depth
    &&& forall|i: int, j: int| 0 <= i < j < v.queue.len() ==> #[trigger] v.queue[i].1 != #[trigger] v.queue[j].1
    &&& (v.current matches Some((id, d, x)) ==> {
        &&& d < v.max_depth
        &&& (x matches Some(k) ==> v.graph.order.contains(k))
        &&& v.visited.contains(id)
        &&& forall|i: int| 0 <= i < v.queue.len() ==> #[trigger] v.queue[i].1 != id
    })
}

/// A crawl starts out keeping its invariant.
pub proof fn lemma_start_inv(seed: Option<PaperView>, max_depth: usize, max_papers: usize, direction: CrawlDirection)
    ensures
        crawl_inv(start_view(seed, max_depth, max_papers, direction)),
{
    let v = start_view(seed, max_depth, max_papers, direction);
    if v.queue.len() > 0 {
        assert(v.visited.contains(v.queue[0].1)) by {
            assert(v.visited[0] == v.queue[0].1);
        }
    }
}

/// Adding a paper to a graph adds at most one id, and keeps the ids
/// distinct and the edges as they were.
pub proof fn lemma_graph_with(g: GraphView, p: PaperView)
    requires
        g.order.no_duplicates(),
    ensures
        graph_with(g, p).order.no_duplicates(),
        graph_with(g, p).order.len() <= g.order.len() + 1,
        graph_with(g, p).edges == g.edges,
        forall|k: i64| g.order.contains(k) ==> graph_with(g, p).order.contains(k),
        p.id matches Some(k) ==> graph_with(g, p).order.contains(k),
{
    if let Some(id) = p.id {
        if !g.order.contains(id) {
            let o = g.order.push(id);
            assert forall|i: int, j: int| 0 <= i < j < o.len() implies o[i] != o[j] by {
                if j == o.len() - 1 {
                    assert(g.order[i] == o[i]);
                }
            }
            assert forall|k: i64| g.order.contains(k) implies o.contains(k) by {
                let j = choose|j: int| 0 <= j < g.order.len() && g.order[j] == k;
                assert(o[j] == k);
            }
            assert(o[o.len() - 1] == id);
        }
    }
}

/// A sequence with one more item contains what it contained and the item.
pub proof fn lemma_push_has<A>(s: Seq<A>, a: A, x: A)
    ensures
        s.push(a).contains(x) <==> (s.contains(x) || x == a),
{
    if s.contains(x) {
        let j = choose|j: int| 0 <= j < s.len() && s[j] == x;
        assert(s.push(a)[j] == x);
    }
    if x == a {
        assert(s.push(a)[s.len() as int] == x);
    }
    if s.push(a).contains(x) && x != a {
        let j = choose|j: int| 0 <= j < s.len() + 1 && s.push(a)[j] == x;
        assert(s[j] == x);
    }
}

/// A paper cites an id in the recorded edges exactly when that citation is
/// one of the edges.
pub proof fn lemma_outgoing_has(edges: Seq<(i64, i64)>, a: i64, b: i64)
    ensures
        outgoing(edges, a).contains(b) <==> edges.contains((a, b)),
    decreases edges.len(),
{
    if edges.len() > 0 {
        let prev = edges.drop_last();
        lemma_outgoing_has(prev, a, b);
        lemma_push_has(prev, edges.last(), (a, b));
        assert(prev.push(edges.last()) == edges);
        if edges.last().0 == a {
            lemma_push_has(outgoing(prev, a), edges.last().1, b);
        }
    }
}

/// Recording the citations of a fetch result keeps the recorded citations
/// distinct and each touching a paper of the graph, where the expanded
/// paper is in the graph; it records at most one citation per found paper.
pub proof fn lemma_link_found(
    edges: Seq<(i64, i64)>,
    found: Seq<(PaperView, Seq<AuthorView>)>,
    x: Option<i64>,
    citing: bool,
    order: Seq<i64>,
)
    requires
        edges.no_duplicates(),
        forall|i: int| 0 <= i < edges.len() ==> order.contains(#[trigger] edges[i].0) || order.contains(edges[i].1),
        x matches Some(k) ==> order.contains(k),
    ensures
        link_found(edges, found, x, citing).no_duplicates(),
        forall|i: int|
            0 <= i < link_found(edges, found, x, citing).len() ==> order.contains(
                #[trigger] link_found(edges, found, x, citing)[i].0,
            ) || order.contains(link_found(edges, found, x, citing)[i].1),
        link_found(edges, found, x, citing).len() <= edges.len() + found.len(),
    decreases found.len(),
{
    if found.len() > 0 {
        lemma_link_found(edges, found.drop_last(), x, citing, order);
        let e = link_found(edges, found.drop_last(), x, citing);
        if let (Some(a), Some(c)) = (x, found.last().0.id) {
            let d = if citing { (c, a) } else { (a, c) };
            lemma_outgoing_has(e, d.0, d.1);
            if !outgoing(e, d.0).contains(d.1) {
                let f = e.push(d);
                assert forall|i: int, j: int| 0 <= i < j < f.len() implies f[i] != f[j] by {
                    if j == f.len() - 1 {
                        assert(e[i] == f[i]);
                        assert(e.contains(e[i]));
                    }
                }
                assert forall|i: int| 0 <= i < f.len() implies order.contains(#[trigger] f[i].0) || order.contains(f[i].1) by {
                    if i < e.len() {
                        assert(f[i] == e[i]);
                    }
                }
            }
        }
    }
}

/// Recording the citations of a fetch result keeps the invariant.
pub proof fn lemma_links_inv(v: CrawlView, found: Seq<(PaperView, Seq<AuthorView>)>, citing: bool)
    requires
        crawl_inv(v),
    ensures
        crawl_inv(with_links(v, found, citing)),
        with_links(v, found, citing).graph.edges.len() <= v.graph.edges.len() + found.len(),
{
    lemma_link_found(v.graph.edges, found, current_paper(v), citing, v.graph.order);
}

/// Taking papers from the queue keeps the invariant: the graph never holds
/// more than `max_papers` papers, and a lookup is asked for only for a
/// paper closer to the seed than `max_depth`.
pub proof fn lemma_scan_inv(v: CrawlView)
    requires
        crawl_inv(v),
    ensures
        crawl_inv(scan(v).0),
        scan(v).1 is Done <==> scan(v).0.current is None,
        scan(v).1 matches StepView::FetchCitations(id) ==> scan(v).0.current == Some(
            (id, current_depth(scan(v).0), current_paper(scan(v).0)),
        ),
        scan(v).1 matches StepView::FetchReferences(id) ==> scan(v).0.current == Some(
            (id, current_depth(scan(v).0), current_paper(scan(v).0)),
        ),
    decreases v.queue.len(),
{
    if v.done || v.queue.len() == 0 {
    } else if v.graph.order.len() >= v.max_papers {
        let w = scan(v).0;
        assert forall|i: int| 0 <= i < w.queue.len() implies w.visited.contains(#[trigger] w.queue[i].1) by {
            assert(w.queue[i] == v.queue[i + 1]);
        }
        assert forall|i: int| 0 <= i < w.queue.len() implies (#[trigger] w.queue[i]).2 <= w.max_depth by {
            assert(w.queue[i] == v.queue[i + 1]);
        }
        assert forall|i: int, j: int| 0 <= i < j < w.queue.len() implies #[trigger] w.queue[i].1
            != #[trigger] w.queue[j].1 by {
            assert(w.queue[i] == v.queue[i + 1] && w.queue[j] == v.queue[j + 1]);
        }
    } else {
        let (p, id, d) = v.queue[0];
        lemma_graph_with(v.graph, p);
        let v1 = CrawlView { graph: graph_with(v.graph, p), queue: v.queue.drop_first(), ..v };
        assert forall|i: int| 0 <= i < v1.queue.len() implies v1.visited.contains(#[trigger] v1.queue[i].1) by {
            assert(v1.queue[i] == v.queue[i + 1]);
        }
        assert forall|i: int| 0 <= i < v1.queue.len() implies (#[trigger] v1.queue[i]).2 <= v1.max_depth by {
            assert(v1.queue[i] == v.queue[i + 1]);
        }
        assert forall|i: int, j: int| 0 <= i < j < v1.queue.len() implies #[trigger] v1.queue[i].1
            != #[trigger] v1.queue[j].1 by {
            assert(v1.queue[i] == v.queue[i + 1] && v1.queue[j] == v.queue[j + 1]);
        }
        assert forall|i: int| 0 <= i < v1.queue.len() implies #[trigger] v1.queue[i].1 != id by {
            assert(v1.queue[i] == v.queue[i + 1]);
            assert(v.queue[0].1 != v.queue[i + 1].1);
        }
        assert(v.visited.contains(v.queue[0].1));
        if let Some((cid, cd, cx)) = v.current {
            assert forall|i: int| 0 <= i < v1.queue.len() implies #[trigger] v1.queue[i].1 != cid by {
                assert(v1.queue[i] == v.queue[i + 1]);
            }
        }
        if d >= v.max_depth {
            lemma_scan_inv(v1);
        }
    }
}

/// Seen ids stay seen, and only unseen ids are queued: taking papers from
/// the queue leaves the seen ids as they were, and queueing found papers
/// keeps every seen id seen and adds to the queue only ids that were not
/// seen. With the invariant (the paper being expanded was seen and no id
/// waits twice) the links of each id are fetched at most once.
pub proof fn law_seen_stay_seen(v: CrawlView, found: Seq<(PaperView, Seq<AuthorView>)>, depth: usize)
    ensures
        scan(v).0.visited == v.visited,
        forall|s: Seq<char>| v.visited.contains(s) ==> #[trigger] enqueue(v, found, depth).visited.contains(s),
        enqueue(v, found, depth).queue.len() >= v.queue.len(),
        forall|i: int|
            0 <= i < v.queue.len() ==> #[trigger] enqueue(v, found, depth).queue[i] == v.queue[i],
        forall|i: int|
            v.queue.len() <= i < enqueue(v, found, depth).queue.len() ==> !v.visited.contains(
                #[trigger] enqueue(v, found, depth).queue[i].1,
            ),
    decreases found.len(),
{
    lemma_scan_visited(v);
    if found.len() > 0 {
        law_seen_stay_seen(v, found.drop_last(), depth);
        let w = enqueue(v, found.drop_last(), depth);
        let (p, a) = found.last();
        if let Some(sid) = p.semantic_scholar_id {
            if !w.visited.contains(sid) {
                let x = enqueue(v, found, depth);
                assert forall|t: Seq<char>| v.visited.contains(t) implies #[trigger] x.visited.contains(t) by {
                    lemma_push_has(w.visited, sid, t);
                }
                assert forall|i: int| v.queue.len() <= i < x.queue.len() implies !v.visited.contains(
                    #[trigger] x.queue[i].1,
                ) by {
                    if i < x.queue.len() - 1 {
                        assert(x.queue[i] == w.queue[i]);
                    }
                }
                assert forall|i: int| 0 <= i < v.queue.len() implies #[trigger] x.queue[i] == v.queue[i] by {
                    assert(x.queue[i] == w.queue[i]);
                }
            }
        }
    }
}

proof fn lemma_scan_visited(v: CrawlView)
    ensures
        scan(v).0.visited == v.visited,
    decreases v.queue.len(),
{
    if !(v.done || v.queue.len() == 0) && v.graph.order.len() < v.max_papers {
        let (p, id, d) = v.queue[0];
        if d >= v.max_depth {
            lemma_scan_visited(CrawlView { graph: graph_with(v.graph, p), queue: v.queue.drop_first(), ..v });
        }
    }
}

/// Queueing found papers keeps the invariant: only new ids are queued, one
/// level deeper than a paper that lies closer than `max_depth`.
pub proof fn lemma_enqueue_inv(v: CrawlView, found: Seq<(PaperView, Seq<AuthorView>)>, depth: usize)
    requires
        crawl_inv(v),
        depth < v.max_depth,
    ensures
        crawl_inv(enqueue(v, found, depth)),
        enqueue(v, found, depth).graph == v.graph,
        enqueue(v, found, depth).current == v.current,
        enqueue(v, found, depth).done == v.done,
        enqueue(v, found, depth).max_depth == v.max_depth,
        enqueue(v, found, depth).max_papers == v.max_papers,
        enqueue(v, found, depth).direction == v.direction,
    decreases found.len(),
{
    if found.len() > 0 {
        lemma_enqueue_inv(v, found.drop_last(), depth);
        let w = enqueue(v, found.drop_last(), depth);
        let (p, a) = found.last();
        if let Some(sid) = p.semantic_scholar_id {
            if !w.visited.contains(sid) {
                let x = enqueue(v, found, depth);
                assert forall|i: int, j: int| 0 <= i < j < x.visited.len() implies x.visited[i] != x.visited[j] by {
                    if j == x.visited.len() - 1 {
                        assert(w.visited[i] == x.visited[i]);
                    }
                }
                assert forall|i: int| 0 <= i < x.queue.len() implies x.visited.contains(#[trigger] x.queue[i].1) by {
                    if i == x.queue.len() - 1 {
                        assert(x.visited[x.visited.len() - 1] == sid);
                    } else {
                        assert(x.queue[i] == w.queue[i]);
                        let k = choose|k: int| 0 <= k < w.visited.len() && w.visited[k] == w.queue[i].1;
                        assert(x.visited[k] == w.visited[k]);
                    }
                }
                assert forall|i: int| 0 <= i < x.queue.len() implies (#[trigger] x.queue[i]).2 <= x.max_depth by {
                    if i < x.queue.len() - 1 {
                        assert(x.queue[i] == w.queue[i]);
                    }
                }
                assert forall|i: int| 0 <= i < w.queue.len() implies #[trigger] w.queue[i].1 != sid by {
                    assert(w.visited.contains(w.queue[i].1));
                }
                assert forall|i: int, j: int| 0 <= i < j < x.queue.len() implies #[trigger] x.queue[i].1
                    != #[trigger] x.queue[j].1 by {
                    assert(x.queue[i] == w.queue[i]);
                    if j < x.queue.len() - 1 {
                        assert(x.queue[j] == w.queue[j]);
                    }
                }
                if let Some((cid, cd, cx)) = w.current {
                    assert(w.visited.contains(cid));
                    lemma_push_has(w.visited, sid, cid);
                    assert forall|i: int| 0 <= i < x.queue.len() implies #[trigger] x.queue[i].1 != cid by {
                        if i < x.queue.len() - 1 {
                            assert(x.queue[i] == w.queue[i]);
                        }
                    }
                }
            }
        }
    }
}

/// A crawl in progress.
pub struct Crawl {
    graph: CitationGraph,
    visited: Vec<String>,
    queue: VecDeque<(Paper, String, usize)>,
    max_depth: usize,
    max_papers: usize,
    direction: CrawlDirection,
    current: Option<(String, usize, Option<i64>)>,
    done: bool,
}

/// The views of queued entries.
pub open spec fn queue_view(q: Seq<(Paper, String, usize)>) -> Seq<QueuedView> {
    q.map_values(|e: (Paper, String, usize)| (e.0@, e.1@, e.2))
}

impl View for Crawl {
    type V = CrawlView;

    closed spec fn view(&self) -> CrawlView {
        CrawlView {
            graph: self.graph@,
            visited: self.visited@.map_values(|s: String| s@),
            queue: queue_view(self.queue@),
            max_depth: self.max_depth,
            max_papers: self.max_papers,
            direction: self.direction,
            current: match self.current {
                Some((id, d, x)) => Some((id@, d, x)),
                None => None,
            },
            done: self.done,
        }
    }
}

/// The crawl as it starts from a seed paper (none where the seed was not
/// found): the seed queued at depth 0 under its Semantic Scholar id (empty
/// when it has none), and that id seen.
pub open spec fn start_view(seed: Option<PaperView>, max_depth: usize, max_papers: usize, direction: CrawlDirection) -> CrawlView {
    let base = CrawlView {
        graph: GraphView { papers: Map::empty(), order: Seq::empty(), edges: Seq::empty() },
        visited: Seq::empty(),
        queue: Seq::empty(),
        max_depth,
        max_papers,
        direction,
        current: None,
        done: false,
    };
    match seed {
        Some(p) => {
            let sid = match p.semantic_scholar_id {
                Some(s) => s,
                None => Seq::empty(),
            };
            CrawlView { visited: seq![sid], queue: seq![(p, sid, 0usize)], ..base }
        },
        None => base,
    }
}

/// The id of the paper being expanded.
pub open spec fn current_id(v: CrawlView) -> Seq<char> {
    match v.current {
        Some((id, _, _)) => id,
        None => Seq::empty(),
    }
}

/// The depth of the paper being expanded.
pub open spec fn current_depth(v: CrawlView) -> usize {
    match v.current {
        Some((_, d, _)) => d,
        None => 0,
    }
}

/// Recording the citations of some found papers adds at most one citation
/// per found paper.
pub proof fn lemma_link_len(
    edges: Seq<(i64, i64)>,
    found: Seq<(PaperView, Seq<AuthorView>)>,
    x: Option<i64>,
    citing: bool,
)
    ensures
        link_found(edges, found, x, citing).len() <= edges.len() + found.len(),
    decreases found.len(),
{
    if found.len() > 0 {
        lemma_link_len(edges, found.drop_last(), x, citing);
    }
}

/// Records the citation `a` cites `b`, unless it is recorded already.
fn link(graph: &mut CitationGraph, a: i64, b: i64)
    requires
        old(graph).wf(),
        old(graph)@.edges.len() < usize::MAX,
    ensures
        final(graph).wf(),
        final(graph)@ == (GraphView { edges: add_edge(old(graph)@.edges, (a, b)), ..old(graph)@ }),
{
    let present = match graph.get_citations(a) {
        Some(outs) => {
            let mut found = false;
            let mut j: usize = 0;
            while j < outs.len()
                invariant
                    0 <= j <= outs@.len(),
                    found <==> outs@.take(j as int).contains(b),
                decreases outs@.len() - j,
            {
                proof {
                    lemma_push_has(outs@.take(j as int), outs@[j as int], b);
                    assert(outs@.take(j + 1) == outs@.take(j as int).push(outs@[j as int]));
                }
                if outs[j] == b {
                    found = true;
                }
                j = j + 1;
            }
            assert(outs@.take(outs@.len() as int) == outs@);
            found
        },
        None => false,
    };
    if !present {
        graph.add_citation(a, b);
    }
    assert(graph@ == (GraphView { edges: add_edge(old(graph)@.edges, (a, b)), ..old(graph)@ }));
}

/// The view of an optional paper.
pub open spec fn paper_opt_view(p: Option<Paper>) -> Option<PaperView> {
    match p {
        Some(x) => Some(x@),
        None => None,
    }
}

/// Whether `id` is among the seen ids.
fn seen(visited: &Vec<String>, id: &String) -> (r: bool)
    ensures
        r == visited@.map_values(|s: String| s@).contains(id@),
{
    let ghost vs = visited@.map_values(|s: String| s@);
    let mut i: usize = 0;
    while i < visited.len()
        invariant
            0 <= i <= visited.len(),
            vs == visited@.map_values(|s: String| s@),
            forall|k: int| 0 <= k < i ==> vs[k] != id@,
        decreases visited.len() - i,
    {
        if visited[i] == *id {
            assert(vs[i as int] == id@);
            return true;
        }
        i = i + 1;
    }
    false
}

impl Crawl {
    /// The crawl's parts agree with each other.
    pub closed spec fn wf(&self) -> bool {
        self.graph.wf()
    }

    /// Starts a crawl from a seed paper (none where it was not found).
    pub fn start(seed: Option<Paper>, max_depth: usize, max_papers: usize, direction: CrawlDirection) -> (r: Self)
        ensures
            r.wf(),
            r@ == start_view(paper_opt_view(seed), max_depth, max_papers, direction),
            crawl_inv(r@),
    {
        proof {
            lemma_start_inv(paper_opt_view(seed), max_depth, max_papers, direction);
        }
        let ghost sv = paper_opt_view(seed);
        let mut r = Crawl {
            graph: CitationGraph::new(),
            visited: Vec::new(),
            queue: VecDeque::new(),
            max_depth,
            max_papers,
            direction,
            current: None,
            done: false,
        };
        match seed {
            Some(p) => {
                let sid = match &p.semantic_scholar_id {
                    Some(s) => s.clone(),
                    None => String::new(),
                };
                r.visited.push(sid.clone());
                r.queue.push_back((p, sid, 0));
            },
            None => {},
        }
        assert(r@.visited =~= start_view(sv, max_depth, max_papers, direction).visited);
        assert(r@.queue =~= start_view(sv, max_depth, max_papers, direction).queue);
        r
    }

    /// The next step: the papers at the head of the queue go into the graph
    /// until one is to be expanded, or the crawl ends.
    pub fn step(&mut self) -> (r: CrawlStep)
        requires
            old(self).wf(),
            old(self)@.current is None,
        ensures
            final(self).wf(),
            (final(self)@, r@) == scan(old(self)@),
            crawl_inv(old(self)@) ==> crawl_inv(final(self)@),
    {
        proof {
            if crawl_inv(old(self)@) {
                lemma_scan_inv(old(self)@);
            }
        }
        loop
            invariant
                self.wf(),
                self@.current is None,
                scan(self@) == scan(old(self)@),
                crawl_inv(old(self)@) ==> crawl_inv(scan(old(self)@).0),
            decreases self@.queue.len(),
        {
            if self.done {
                return CrawlStep::Done;
            }
            let ghost before = self@;
            match self.queue.pop_front() {
                None => {
                    self.done = true;
                    assert(self@ =~= scan(before).0);
                    return CrawlStep::Done;
                },
                Some(entry) => {
                    let (paper, id, depth) = entry;
                    let pid = paper.id;
                    assert(before.queue.drop_first() =~= self@.queue);
                    if self.graph.paper_count() >= self.max_papers {
                        self.done = true;
                        return CrawlStep::Done;
                    }
                    self.graph.add_paper(paper);
                    assert(self@.graph == graph_with(before.graph, before.queue[0].0));
                    if depth >= self.max_depth {
                        continue;
                    }
                    self.current = Some((id.clone(), depth, pid));
                    match self.direction {
                        CrawlDirection::References => {
                            return CrawlStep::FetchReferences(id);
                        },
                        _ => {
                            return CrawlStep::FetchCitations(id);
                        },
                    }
                },
            }
        }
    }

    /// Queues the found papers that are new, one level below `depth`.
    fn enqueue_found(&mut self, found: Vec<(Paper, Vec<Author>)>, depth: usize)
        requires
            old(self).wf(),
            depth < old(self)@.max_depth,
        ensures
            final(self).wf(),
            final(self)@ == enqueue(old(self)@, citation_views(found@), depth),
    {
        let ghost all = citation_views(found@);
        let mut rest = found;
        let mut i: usize = 0;
        let n = rest.len();
        while i < n
            invariant
                self.wf(),
                0 <= i <= n,
                n == all.len(),
                rest@.len() == n - i,
                depth < self@.max_depth,
                citation_views(rest@) == all.skip(i as int),
                self@ == enqueue(old(self)@, all.take(i as int), depth),
            decreases n - i,
        {
            assert(all.take(i + 1).drop_last() == all.take(i as int));
            let ghost before = self@;
            let ghost old_rest = rest@;
            let (mut paper, authors) = rest.remove(0);
            assert(all[i as int] == (paper@, authors_view(authors@))) by {
                assert(citation_views(old_rest)[0] == all.skip(i as int)[0]);
            }
            assert(citation_views(rest@) =~= all.skip(i + 1)) by {
                assert forall|k: int| 0 <= k < rest@.len() implies #[trigger] citation_views(rest@)[k] == all.skip(i + 1)[k] by {
                    assert(rest@[k] == old_rest[k + 1]);
                    assert(citation_views(old_rest)[k + 1] == all.skip(i as int)[k + 1]);
                }
            }
            assert(all.take(i + 1).last() == all[i as int]);
            let ghost found_paper = paper@;
            let ghost found_authors = authors_view(authors@);
            paper.authors = authors;
            assert(paper@ == with_authors(found_paper, found_authors));
            let sid_opt: Option<String> = match &paper.semantic_scholar_id {
                Some(s) => Some(s.clone()),
                None => None,
            };
            match sid_opt {
                Some(sid) => {
                    if !seen(&self.visited, &sid) {
                        self.visited.push(sid.clone());
                        self.queue.push_back((paper, sid, depth + 1));
                        assert(self@.visited =~= before.visited.push(sid@));
                        assert(self@.queue =~= before.queue.push((paper@, sid@, (depth + 1) as usize)));
                    }
                },
                None => {},
            }
            i = i + 1;
        }
        assert(all.take(n as int) == all);
    }

    /// Records the citations between the paper being expanded and the found
    /// papers (`citing`: the found papers cite it; else it cites them).
    fn link_found_papers(&mut self, found: &Vec<(Paper, Vec<Author>)>, citing: bool)
        requires
            old(self).wf(),
            old(self)@.graph.edges.len() + found@.len() <= usize::MAX,
        ensures
            final(self).wf(),
            final(self)@ == with_links(old(self)@, citation_views(found@), citing),
    {
        let ghost all = citation_views(found@);
        let x: Option<i64> = match &self.current {
            Some((_, _, x)) => *x,
            None => None,
        };
        assert(x == current_paper(old(self)@));
        let mut i: usize = 0;
        while i < found.len()
            invariant
                self.wf(),
                0 <= i <= found@.len(),
                all == citation_views(found@),
                x == current_paper(old(self)@),
                old(self)@.graph.edges.len() + found@.len() <= usize::MAX,
                self@ == with_links(old(self)@, all.take(i as int), citing),
            decreases found@.len() - i,
        {
            assert(all.take(i + 1).drop_last() == all.take(i as int));
            assert(all.take(i + 1).last().0.id == found@[i as int].0.id);
            proof {
                lemma_link_len(old(self)@.graph.edges, all.take(i as int), x, citing);
            }
            let ghost before = self@;
            match (x, found[i].0.id) {
                (Some(a), Some(c)) => {
                    if citing {
                        link(&mut self.graph, c, a);
                    } else {
                        link(&mut self.graph, a, c);
                    }
                },
                _ => {},
            }
            assert(self@ == with_links(old(self)@, all.take(i + 1), citing));
            i = i + 1;
        }
        assert(all.take(found@.len() as int) == all);
    }

    /// Takes in the papers citing the paper being expanded: records that
    /// each found paper with a paper id cites it (where it has one), and
    /// queues the new ones. When the crawl also follows references, their
    /// lookup comes next; else the crawl goes on with the queue.
    pub fn take_citations(&mut self, found: Vec<(Paper, Vec<Author>)>) -> (r: CrawlStep)
        requires
            old(self).wf(),
            old(self)@.current matches Some((id, d, x)) && d < old(self)@.max_depth,
            old(self)@.graph.edges.len() + found@.len() <= usize::MAX,
        ensures
            final(self).wf(),
            old(self)@.direction == CrawlDirection::Both ==> {
                &&& final(self)@ == enqueue(
                    with_links(old(self)@, citation_views(found@), true),
                    citation_views(found@),
                    current_depth(old(self)@),
                )
                &&& r@ == StepView::FetchReferences(current_id(old(self)@))
            },
            old(self)@.direction != CrawlDirection::Both ==> (final(self)@, r@) == scan(
                CrawlView {
                    current: None,
                    ..enqueue(
                        with_links(old(self)@, citation_views(found@), true),
                        citation_views(found@),
                        current_depth(old(self)@),
                    )
                },
            ),
            crawl_inv(old(self)@) ==> crawl_inv(final(self)@),
    {
        proof {
            if crawl_inv(old(self)@) {
                let w = with_links(old(self)@, citation_views(found@), true);
                lemma_links_inv(old(self)@, citation_views(found@), true);
                let v1 = enqueue(w, citation_views(found@), current_depth(old(self)@));
                lemma_enqueue_inv(w, citation_views(found@), current_depth(old(self)@));
                lemma_scan_inv(CrawlView { current: None, ..v1 });
            }
        }
        let (id, depth) = match &self.current {
            Some((id, d, _)) => (id.clone(), *d),
            None => (String::new(), 0),
        };
        assert(id@ == current_id(old(self)@) && depth == current_depth(old(self)@));
        let direction = self.direction;
        self.link_found_papers(&found, true);
        self.enqueue_found(found, depth);
        match direction {
            CrawlDirection::Both => CrawlStep::FetchReferences(id),
            _ => {
                self.current = None;
                self.step()
            },
        }
    }

    /// Takes in the papers cited by the paper being expanded: records that
    /// it cites each found paper with a paper id (where it has one), queues
    /// the new ones, and goes on with the queue.
    pub fn take_references(&mut self, found: Vec<(Paper, Vec<Author>)>) -> (r: CrawlStep)
        requires
            old(self).wf(),
            old(self)@.current matches Some((id, d, x)) && d < old(self)@.max_depth,
            old(self)@.graph.edges.len() + found@.len() <= usize::MAX,
        ensures
            final(self).wf(),
            (final(self)@, r@) == scan(
                CrawlView {
                    current: None,
                    ..enqueue(
                        with_links(old(self)@, citation_views(found@), false),
                        citation_views(found@),
                        current_depth(old(self)@),
                    )
                },
            ),
            crawl_inv(old(self)@) ==> crawl_inv(final(self)@),
    {
        proof {
            if crawl_inv(old(self)@) {
                let w = with_links(old(self)@, citation_views(found@), false);
                lemma_links_inv(old(self)@, citation_views(found@), false);
                let v1 = enqueue(w, citation_views(found@), current_depth(old(self)@));
                lemma_enqueue_inv(w, citation_views(found@), current_depth(old(self)@));
                lemma_scan_inv(CrawlView { current: None, ..v1 });
            }
        }
        let depth = match &self.current {
            Some((_, d, _)) => *d,
            None => 0,
        };
        self.link_found_papers(&found, false);
        self.enqueue_found(found, depth);
        self.current = None;
        self.step()
    }

    /// The graph built so far.
    pub fn graph(&self) -> (r: &CitationGraph)
        requires
            self.wf(),
        ensures
            r.wf(),
            r@ == self@.graph,
    {
        &self.graph
    }

    /// Ends the crawl with its graph.
    pub fn finish(self) -> (r: CitationGraph)
        requires
            self.wf(),
        ensures
            r.wf(),
            r@ == self@.graph,
            crawl_inv(self@) ==> {
                &&& r@.order.len() <= self@.max_papers
                &&& r@.edges.no_duplicates()
                &&& forall|i: int|
                    0 <= i < r@.edges.len() ==> r@.order.contains(#[trigger] r@.edges[i].0) || r@.order.contains(
                        r@.edges[i].1,
                    )
            },
    {
        self.graph
    }
}

/// How many citing or cited papers the crawl asks for per paper.
pub const FETCH_LIMIT: usize = 50;

/// Crawls the citation network around a seed paper, up to a depth and a
/// number of papers.
pub struct CitationCrawler {
    /// How far from the seed papers are expanded.
    pub max_depth: usize,
    /// The largest number of papers in the graph.
    pub max_papers: usize,
}

impl CitationCrawler {
    pub fn new(max_depth: usize, max_papers: usize) -> (r: Self)
        ensures
            r.max_depth == max_depth,
            r.max_papers == max_papers,
    {
        CitationCrawler { max_depth, max_papers }
    }

    pub fn with_depth(self, depth: usize) -> (r: Self)
        ensures
            r.max_depth == depth,
            r.max_papers == self.max_papers,
    {
        CitationCrawler { max_depth: depth, ..self }
    }

    pub fn with_max_papers(self, max: usize) -> (r: Self)
        ensures
            r.max_depth == self.max_depth,
            r.max_papers == max,
    {
        CitationCrawler { max_papers: max, ..self }
    }

    /// A crawl with this crawler's limits from the seed paper (none where
    /// the seed was not found).
    pub fn start(&self, seed: Option<Paper>, direction: CrawlDirection) -> (r: Crawl)
        ensures
            r.wf(),
            r@ == start_view(paper_opt_view(seed), self.max_depth, self.max_papers, direction),
            crawl_inv(r@),
    {
        Crawl::start(seed, self.max_depth, self.max_papers, direction)
    }
}

} // verus!
