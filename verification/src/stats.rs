//! Statistics of a citation graph.

use vstd::prelude::*;
use crate::graph::{CitationGraph, GraphView, incoming, outgoing, incoming_total, lemma_incoming_total_bound};
use crate::models::{Paper, PaperView};
use crate::sort::{sort_desc, stable_sort_desc, lemma_sort_desc, keys_desc};

verus! {

/// How many times each paper is cited, in the order of the papers.
pub open spec fn citation_keys(g: GraphView) -> Seq<((), i128)> {
    g.order.map_values(|id: i64| ((), incoming(g.edges, id).len() as i128))
}

/// The number of leading places `i` (from `from` on) of a list sorted from
/// the largest down whose key is at least `i + 1`.
pub open spec fn h_run(s: Seq<((), i128)>, from: int) -> int
    decreases s.len() - from,
{
    if 0 <= from < s.len() && s[from].1 >= from + 1 {
        h_run(s, from + 1)
    } else {
        from
    }
}

/// The h-index of the graph: the largest `h` such that `h` papers are each
/// cited at least `h` times, found on the citation counts sorted from the
/// largest down.
pub open spec fn h_index_of(g: GraphView) -> int {
    h_run(sort_desc(citation_keys(g)), 0)
}

/// The largest citation count, or 0.
pub open spec fn max_count(g: GraphView) -> int
    decreases g.order.len(),
{
    if g.order.len() == 0 {
        0
    } else {
        let rest = max_count(GraphView { order: g.order.drop_last(), ..g });
        let c = incoming(g.edges, g.order.last()).len() as int;
        if c > rest {
            c
        } else {
            rest
        }
    }
}

/// The papers with their citation counts, in the order of the papers.
pub open spec fn counted_papers(g: GraphView) -> Seq<(PaperView, i128)> {
    g.order.map_values(|id: i64| (g.papers[id], (incoming(g.edges, id).len() as i64) as i128))
}

/// The most cited papers: the papers sorted by citation count from the
/// largest down (ties in the order of the papers), at most ten.
pub open spec fn most_cited_of(g: GraphView) -> Seq<(PaperView, i64)> {
    let sorted = sort_desc(counted_papers(g));
    let top = if sorted.len() <= 10 { sorted } else { sorted.take(10) };
    top.map_values(|e: (PaperView, i128)| (e.0, e.1 as i64))
}

/// A paper that neither cites nor is cited.
pub open spec fn isolated_pred(edges: Seq<(i64, i64)>) -> spec_fn(i64) -> bool {
    |id: i64| outgoing(edges, id).len() == 0 && incoming(edges, id).len() == 0
}

/// The papers that neither cite nor are cited, in the order of the papers.
pub open spec fn isolated_ids(g: GraphView) -> Seq<i64> {
    g.order.filter(isolated_pred(g.edges))
}

/// The paper with an id.
pub open spec fn paper_by_id(papers: Map<i64, PaperView>) -> spec_fn(i64) -> PaperView {
    |id: i64| papers[id]
}

/// Statistics of a citation graph. The average number of citations per
/// paper is `citation_sum / total_papers` (0 without papers).
pub struct CitationStats {
    pub total_papers: usize,
    pub total_citation_edges: usize,
    pub citation_sum: usize,
    pub h_index: i32,
    pub max_citations: i64,
    pub most_cited_papers: Vec<(Paper, i64)>,
    pub isolated_papers: Vec<Paper>,
}

/// The views of a list of (paper, count) pairs.
pub open spec fn ranked_view(v: Seq<(Paper, i64)>) -> Seq<(PaperView, i64)> {
    v.map_values(|e: (Paper, i64)| (e.0@, e.1))
}

/// The views of a list of papers.
pub open spec fn papers_view(v: Seq<Paper>) -> Seq<PaperView> {
    v.map_values(|p: Paper| p@)
}

impl Default for CitationStats {
    /// No papers, no edges.
    fn default() -> (r: Self)
        ensures
            r.total_papers == 0,
            r.total_citation_edges == 0,
            r.citation_sum == 0,
            r.h_index == 0,
            r.max_citations == 0,
            r.most_cited_papers@.len() == 0,
            r.isolated_papers@.len() == 0,
    {
        CitationStats {
            total_papers: 0,
            total_citation_edges: 0,
            citation_sum: 0,
            h_index: 0,
            max_citations: 0,
            most_cited_papers: Vec::new(),
            isolated_papers: Vec::new(),
        }
    }
}

impl CitationStats {

    /// The statistics of a graph.
    pub fn from_graph(graph: &CitationGraph) -> (r: Self)
        requires
            graph.wf(),
        ensures
            r.total_papers == graph@.order.len(),
            r.total_citation_edges == graph@.edges.len(),
            r.citation_sum == incoming_total(graph@.edges, graph@.order),
            r.h_index == h_index_of(graph@) as i32,
            r.max_citations == max_count(graph@) as i64,
            ranked_view(r.most_cited_papers@) == most_cited_of(graph@),
            papers_view(r.isolated_papers@) == isolated_ids(graph@).map_values(paper_by_id(graph@.papers)),
    {
        let ghost g = graph@;
        let total_papers = graph.paper_count();
        let total_edges = graph.edge_count();
        let papers = graph.papers();
        let mut keys: Vec<((), i128)> = Vec::new();
        let mut pairs: Vec<(Paper, i128)> = Vec::new();
        let mut isolated: Vec<Paper> = Vec::new();
        let mut sum: usize = 0;
        let mut max: usize = 0;
        let mut i: usize = 0;
        proof {
            lemma_incoming_total_bound(g.edges, g.order);
        }
        while i < papers.len()
            invariant
                graph.wf(),
                g == graph@,
                0 <= i <= papers@.len(),
                papers@.len() == g.order.len(),
                g.order.no_duplicates(),
                forall|k: int| 0 <= k < papers@.len() ==> (#[trigger] papers@[k])@ == g.papers[g.order[k]],
                forall|k: int| 0 <= k < papers@.len() ==> (#[trigger] papers@[k]).id == Some(g.order[k]),
                keys@ == citation_keys(g).take(i as int),
                pairs@.len() == i,
                forall|k: int| 0 <= k < i ==> ((#[trigger] pairs@[k]).0@, pairs@[k].1) == counted_papers(g)[k],
                papers_view(isolated@) == g.order.take(i as int).filter(isolated_pred(g.edges)).map_values(paper_by_id(g.papers)),
                total_edges == g.edges.len(),
                sum == incoming_total(g.edges, g.order.take(i as int)),
                incoming_total(g.edges, g.order) <= g.edges.len(),
                max == max_count(GraphView { order: g.order.take(i as int), ..g }),
            decreases papers@.len() - i,
        {
            let p = &papers[i];
            let id = match p.id {
                Some(id) => id,
                None => {
                    assert(false);
                    0
                },
            };
            let c = graph.citation_count(id);
            let ghost pre = g.order.take(i as int);
            let ghost post = g.order.take(i + 1);
            assert(post.drop_last() == pre);
            assert(post.last() == id);
            keys.push(((), c as i128));
            assert(keys@ =~= citation_keys(g).take(i + 1));
            pairs.push((p.duplicate(), (c as i64) as i128));
            proof {
                lemma_incoming_total_prefix(g.edges, g.order, i as int);
            }
            sum = sum + c;
            assert(GraphView { order: post, ..g }.order.drop_last() == pre);
            if c > max {
                max = c;
            }
            let no_out = graph.get_citations(id).is_none();
            let no_in = graph.get_cited_by(id).is_none();
            let ghost before = papers_view(isolated@);
            if no_out && no_in {
                isolated.push(p.duplicate());
                assert(papers_view(isolated@) =~= before.push(g.papers[id]));
            }
            proof {
                let f = isolated_pred(g.edges);
                assert(post.filter(f) == if f(id) { pre.filter(f).push(id) } else { pre.filter(f) }) by {
                    reveal_with_fuel(Seq::<_>::filter, 1);
                    assert(post.len() > 0);
                }
                let m = paper_by_id(g.papers);
                if f(id) {
                    assert(pre.filter(f).push(id).map_values(m) =~= pre.filter(f).map_values(m).push(g.papers[id]));
                }
            }
            i = i + 1;
        }
        assert(g.order.take(g.order.len() as int) == g.order);
        assert(GraphView { order: g.order, ..g } == g);
        assert(citation_keys(g).take(g.order.len() as int) == citation_keys(g));
        let sorted_keys = stable_sort_desc(keys);
        let mut h: usize = 0;
        proof {
            lemma_sort_desc(citation_keys(g));
        }
        while h < sorted_keys.len() && sorted_keys[h].1 >= (h as i128) + 1
            invariant
                0 <= h <= sorted_keys@.len(),
                h_run(sorted_keys@, 0) == h_run(sorted_keys@, h as int),
            decreases sorted_keys@.len() - h,
        {
            h = h + 1;
        }
        let sorted_pairs = stable_sort_desc(pairs);
        proof {
            lemma_sort_desc(counted_papers(g));
        }
        let ghost ranked = sort_desc(counted_papers(g));
        assert(pairs@.map_values(|e: (Paper, i128)| (e.0@, e.1)) =~= counted_papers(g));
        let mut top: Vec<(Paper, i64)> = Vec::new();
        let mut k: usize = 0;
        let n = if sorted_pairs.len() <= 10 { sorted_pairs.len() } else { 10 };
        while k < n
            invariant
                0 <= k <= n,
                n <= sorted_pairs@.len(),
                top@.len() == k,
                forall|j: int| 0 <= j < k ==> ((#[trigger] top@[j]).0@, top@[j].1) == ((sorted_pairs@[j].0)@, sorted_pairs@[j].1 as i64),
            decreases n - k,
        {
            let e = &sorted_pairs[k];
            top.push((e.0.duplicate(), e.1 as i64));
            k = k + 1;
        }
        proof {
            lemma_sort_view(pairs@);
        }
        assert(ranked_view(top@) =~= most_cited_of(g));
        CitationStats {
            total_papers,
            total_citation_edges: total_edges,
            citation_sum: sum,
            h_index: h as i32,
            max_citations: max as i64,
            most_cited_papers: top,
            isolated_papers: isolated,
        }
    }
}

/// The citations of a prefix of the papers add up one paper at a time.
proof fn lemma_incoming_total_prefix(edges: Seq<(i64, i64)>, ids: Seq<i64>, i: int)
    requires
        0 <= i < ids.len(),
    ensures
        incoming_total(edges, ids.take(i + 1)) == incoming_total(edges, ids.take(i)) + incoming(edges, ids[i]).len(),
        incoming_total(edges, ids.take(i + 1)) <= incoming_total(edges, ids),
{
    assert(ids.take(i + 1).drop_last() == ids.take(i));
    lemma_incoming_total_mono(edges, ids, i + 1);
}

proof fn lemma_incoming_total_mono(edges: Seq<(i64, i64)>, ids: Seq<i64>, i: int)
    requires
        0 <= i <= ids.len(),
    ensures
        incoming_total(edges, ids.take(i)) <= incoming_total(edges, ids),
    decreases ids.len() - i,
{
    if i < ids.len() {
        lemma_incoming_total_mono(edges, ids, i + 1);
        assert(ids.take(i + 1).drop_last() == ids.take(i));
    } else {
        assert(ids.take(i) == ids);
    }
}

/// Sorting the pairs and then taking their views is sorting their views.
proof fn lemma_sort_view(s: Seq<(Paper, i128)>)
    ensures
        sort_desc(s).map_values(|e: (Paper, i128)| (e.0@, e.1)) == sort_desc(s.map_values(|e: (Paper, i128)| (e.0@, e.1))),
    decreases s.len(),
{
    let f = |e: (Paper, i128)| (e.0@, e.1);
    if s.len() > 0 {
        let t = s.drop_last();
        let x = s.last();
        lemma_sort_view(t);
        let r = sort_desc(t);
        lemma_sort_desc(t);
        crate::sort::lemma_insert_pos(r, x.1);
        let rv = r.map_values(f);
        lemma_insert_pos_view(r, x.1);
        let p = crate::sort::insert_pos(r, x.1);
        assert(s.map_values(f).drop_last() =~= t.map_values(f));
        assert(s.map_values(f).last() == f(x));
        assert((r.take(p).push(x) + r.skip(p)).map_values(f) =~= rv.take(p).push(f(x)) + rv.skip(p));
    } else {
        assert(sort_desc(s).map_values(f) =~= sort_desc(s.map_values(f)));
    }
}

/// Where an item goes depends on the keys only.
proof fn lemma_insert_pos_view(r: Seq<(Paper, i128)>, k: i128)
    ensures
        crate::sort::insert_pos(r.map_values(|e: (Paper, i128)| (e.0@, e.1)), k) == crate::sort::insert_pos(r, k),
    decreases r.len(),
{
    let f = |e: (Paper, i128)| (e.0@, e.1);
    if r.len() > 0 {
        lemma_insert_pos_view(r.drop_last(), k);
        assert(r.map_values(f).drop_last() =~= r.drop_last().map_values(f));
    }
}

/// How many of the keys are at least `t`.
pub open spec fn count_ge<T>(s: Seq<(T, i128)>, t: int) -> nat
    decreases s.len(),
{
    if s.len() == 0 {
        0
    } else {
        count_ge(s.drop_last(), t) + if s.last().1 >= t { 1nat } else { 0nat }
    }
}

/// Counting over two parts adds up.
pub proof fn lemma_count_concat<T>(a: Seq<(T, i128)>, b: Seq<(T, i128)>, t: int)
    ensures
        count_ge(a + b, t) == count_ge(a, t) + count_ge(b, t),
    decreases b.len(),
{
    if b.len() == 0 {
        assert(a + b == a);
    } else {
        lemma_count_concat(a, b.drop_last(), t);
        assert((a + b).drop_last() == a + b.drop_last());
        assert((a + b).last() == b.last());
    }
}

/// Sorting does not change how many keys are at least `t`.
pub proof fn lemma_count_sort<T>(s: Seq<(T, i128)>, t: int)
    ensures
        count_ge(sort_desc(s), t) == count_ge(s, t),
    decreases s.len(),
{
    if s.len() > 0 {
        let r = sort_desc(s.drop_last());
        let x = s.last();
        lemma_count_sort(s.drop_last(), t);
        lemma_sort_desc(s.drop_last());
        crate::sort::lemma_insert_pos(r, x.1);
        let p = crate::sort::insert_pos(r, x.1);
        lemma_count_concat(r.take(p).push(x), r.skip(p), t);
        lemma_count_concat(r.take(p), r.skip(p), t);
        assert(r.take(p).push(x).drop_last() == r.take(p));
        assert(r.take(p) + r.skip(p) == r);
    }
}

/// At most every key is counted; all of them when all are at least `t`,
/// none when all are below.
pub proof fn lemma_count_bounds<T>(s: Seq<(T, i128)>, t: int)
    ensures
        count_ge(s, t) <= s.len(),
        (forall|i: int| 0 <= i < s.len() ==> s[i].1 >= t) ==> count_ge(s, t) == s.len(),
        (forall|i: int| 0 <= i < s.len() ==> s[i].1 < t) ==> count_ge(s, t) == 0,
    decreases s.len(),
{
    if s.len() > 0 {
        lemma_count_bounds(s.drop_last(), t);
        if forall|i: int| 0 <= i < s.len() ==> s[i].1 >= t {
            assert forall|i: int| 0 <= i < s.drop_last().len() implies s.drop_last()[i].1 >= t by {
                assert(s.drop_last()[i] == s[i]);
            }
        }
        if forall|i: int| 0 <= i < s.len() ==> s[i].1 < t {
            assert forall|i: int| 0 <= i < s.drop_last().len() implies s.drop_last()[i].1 < t by {
                assert(s.drop_last()[i] == s[i]);
            }
        }
    }
}

/// What `h_run` finds: from `from` on, each place `i` before it holds a key
/// of at least `i + 1`, and the place it stops at does not.
pub proof fn lemma_h_run(s: Seq<((), i128)>, from: int)
    requires
        0 <= from <= s.len(),
    ensures
        from <= h_run(s, from) <= s.len(),
        forall|i: int| from <= i < h_run(s, from) ==> s[i].1 >= i + 1,
        h_run(s, from) < s.len() ==> s[h_run(s, from)].1 < h_run(s, from) + 1,
    decreases s.len() - from,
{
    if from < s.len() && s[from].1 >= from + 1 {
        lemma_h_run(s, from + 1);
    }
}

/// The h-index is the largest `h` such that `h` papers are each cited at
/// least `h` times: at least `h` papers are cited `h` times or more, and
/// fewer than `h + 1` papers are cited `h + 1` times or more.
pub proof fn law_h_index(g: GraphView)
    ensures
        count_ge(citation_keys(g), h_index_of(g)) >= h_index_of(g),
        count_ge(citation_keys(g), h_index_of(g) + 1) < h_index_of(g) + 1,
{
    let keys = citation_keys(g);
    let s = sort_desc(keys);
    lemma_sort_desc(keys);
    lemma_h_run(s, 0);
    let h = h_run(s, 0);
    lemma_count_sort(keys, h);
    lemma_count_sort(keys, h + 1);
    assert(s == s.take(h) + s.skip(h));
    lemma_count_concat(s.take(h), s.skip(h), h);
    lemma_count_concat(s.take(h), s.skip(h), h + 1);
    assert forall|i: int| 0 <= i < s.take(h).len() implies s.take(h)[i].1 >= h by {
        assert(s[i].1 >= s[h - 1].1);
    }
    lemma_count_bounds(s.take(h), h);
    lemma_count_bounds(s.take(h), h + 1);
    if h < s.len() {
        assert forall|i: int| 0 <= i < s.skip(h).len() implies s.skip(h)[i].1 < h + 1 by {
            assert(s[h].1 >= s[h + i].1);
        }
    }
    lemma_count_bounds(s.skip(h), h + 1);
}

/// The most cited papers are at most ten (fewer only when the graph has
/// fewer papers), ranked from the most cited down, and each is a paper of
/// the graph with its citation count.
pub proof fn law_most_cited(g: GraphView)
    ensures
        most_cited_of(g).len() == if g.order.len() <= 10 { g.order.len() } else { 10 },
        forall|i: int, j: int|
            0 <= i < j < most_cited_of(g).len() ==> #[trigger] most_cited_of(g)[i].1 >= #[trigger] most_cited_of(g)[j].1,
        forall|i: int|
            0 <= i < most_cited_of(g).len() ==> exists|k: int|
                0 <= k < g.order.len() && #[trigger] most_cited_of(g)[i] == (
                    g.papers[g.order[k]],
                    incoming(g.edges, g.order[k]).len() as i64,
                ),
{
    let c = counted_papers(g);
    let sorted = sort_desc(c);
    lemma_sort_desc(c);
    let top = if sorted.len() <= 10 { sorted } else { sorted.take(10) };
    assert forall|i: int| 0 <= i < top.len() implies exists|k: int|
        0 <= k < c.len() && #[trigger] top[i] == c[k] by {
        assert(top[i] == sorted[i]);
        assert(sorted.contains(sorted[i]));
        vstd::seq_lib::to_multiset_contains(sorted, sorted[i]);
        vstd::seq_lib::to_multiset_contains(c, sorted[i]);
    }
    let r = most_cited_of(g);
    assert forall|i: int, j: int| 0 <= i < j < r.len() implies #[trigger] r[i].1 >= #[trigger] r[j].1 by {
        let ki = choose|k: int| 0 <= k < c.len() && top[i] == c[k];
        let kj = choose|k: int| 0 <= k < c.len() && top[j] == c[k];
        assert(top[i].1 >= top[j].1);
    }
    assert forall|i: int| 0 <= i < r.len() implies exists|k: int|
        0 <= k < g.order.len() && #[trigger] r[i] == (
            g.papers[g.order[k]],
            incoming(g.edges, g.order[k]).len() as i64,
        ) by {
        let k = choose|k: int| 0 <= k < c.len() && top[i] == c[k];
        assert(r[i] == (g.papers[g.order[k]], incoming(g.edges, g.order[k]).len() as i64));
    }
}

/// The isolated papers are exactly the papers of the graph that neither
/// cite nor are cited.
pub proof fn law_isolated(g: GraphView, id: i64)
    ensures
        isolated_ids(g).contains(id) <==> (g.order.contains(id) && outgoing(g.edges, id).len() == 0 && incoming(
            g.edges,
            id,
        ).len() == 0),
{
    broadcast use vstd::seq_lib::group_filter_ensures;

    let p = isolated_pred(g.edges);
    if isolated_ids(g).contains(id) {
        g.order.lemma_filter_contains_rev(p, id);
        let i = choose|i: int| 0 <= i < isolated_ids(g).len() && isolated_ids(g)[i] == id;
        g.order.lemma_filter_pred(p, i);
    }
    if g.order.contains(id) && outgoing(g.edges, id).len() == 0 && incoming(g.edges, id).len() == 0 {
        let i = choose|i: int| 0 <= i < g.order.len() && g.order[i] == id;
        g.order.lemma_filter_contains(p, i);
    }
}

/// The largest citation count is the number of times some paper of the
/// graph is cited (0 without papers), and no paper of the graph is cited
/// more often.
pub proof fn law_max_count(g: GraphView)
    ensures
        forall|k: int| 0 <= k < g.order.len() ==> #[trigger] incoming(g.edges, g.order[k]).len() <= max_count(g),
        g.order.len() == 0 ==> max_count(g) == 0,
        g.order.len() > 0 ==> exists|k: int|
            0 <= k < g.order.len() && #[trigger] incoming(g.edges, g.order[k]).len() == max_count(g),
    decreases g.order.len(),
{
    if g.order.len() > 0 {
        let h = GraphView { order: g.order.drop_last(), ..g };
        law_max_count(h);
        let n = g.order.len() - 1;
        assert forall|k: int| 0 <= k < g.order.len() implies #[trigger] incoming(g.edges, g.order[k]).len() <= max_count(g) by {
            if k < n {
                assert(h.order[k] == g.order[k]);
            }
        }
        let c = incoming(g.edges, g.order[n]).len() as int;
        if c > max_count(h) || h.order.len() == 0 {
            assert(incoming(g.edges, g.order[n]).len() == max_count(g));
        } else {
            let k = choose|k: int| 0 <= k < h.order.len() && #[trigger] incoming(h.edges, h.order[k]).len() == max_count(h);
            assert(h.order[k] == g.order[k]);
            assert(incoming(g.edges, g.order[k]).len() == max_count(g));
        }
    }
}

} // verus!
