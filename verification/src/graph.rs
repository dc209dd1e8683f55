//! The citation graph: papers by id and the citation edges between them.

use vstd::prelude::*;
use std::collections::HashMap;
use crate::models::{Paper, PaperView};
use crate::text::{push_char, push_signed, push_str, signed_decimal, string_of, to_chars, to_string};

verus! {

broadcast use vstd::std_specs::hash::group_hash_axioms;

/// The ids that `a` cites, in the order the citations were added.
pub open spec fn outgoing(edges: Seq<(i64, i64)>, a: i64) -> Seq<i64>
    decreases edges.len(),
{
    if edges.len() == 0 {
        Seq::empty()
    } else if edges.last().0 == a {
        outgoing(edges.drop_last(), a).push(edges.last().1)
    } else {
        outgoing(edges.drop_last(), a)
    }
}

/// The ids that cite `b`, in the order the citations were added.
pub open spec fn incoming(edges: Seq<(i64, i64)>, b: i64) -> Seq<i64>
    decreases edges.len(),
{
    if edges.len() == 0 {
        Seq::empty()
    } else if edges.last().1 == b {
        incoming(edges.drop_last(), b).push(edges.last().0)
    } else {
        incoming(edges.drop_last(), b)
    }
}

/// The citing ids, each once, in the order they first cited.
pub open spec fn citers(edges: Seq<(i64, i64)>) -> Seq<i64>
    decreases edges.len(),
{
    if edges.len() == 0 {
        Seq::empty()
    } else if citers(edges.drop_last()).contains(edges.last().0) {
        citers(edges.drop_last())
    } else {
        citers(edges.drop_last()).push(edges.last().0)
    }
}

/// What a citation graph holds: the papers by id, the ids in the order
/// they were first added, and the citation edges `(citing, cited)` in the
/// order they were added.
pub ghost struct GraphView {
    pub papers: Map<i64, PaperView>,
    pub order: Seq<i64>,
    pub edges: Seq<(i64, i64)>,
}

/// The graph with a paper added: under its id, where it has one.
pub open spec fn graph_with(g: GraphView, p: PaperView) -> GraphView {
    match p.id {
        Some(id) => GraphView {
            papers: g.papers.insert(id, p),
            order: if g.order.contains(id) { g.order } else { g.order.push(id) },
            edges: g.edges,
        },
        None => g,
    }
}

/// A citation graph.
pub struct CitationGraph {
    papers: HashMap<i64, Paper>,
    paper_order: Vec<i64>,
    citations: HashMap<i64, Vec<i64>>,
    citing_order: Vec<i64>,
    cited_by: HashMap<i64, Vec<i64>>,
    edge_total: usize,
    edges: Ghost<Seq<(i64, i64)>>,
}

impl View for CitationGraph {
    type V = GraphView;

    closed spec fn view(&self) -> GraphView {
        GraphView {
            papers: self.papers@.map_values(|p: Paper| p@),
            order: self.paper_order@,
            edges: self.edges@,
        }
    }
}

impl CitationGraph {
    /// The graph's parts agree with each other.
    pub closed spec fn wf(&self) -> bool {
        &&& self.paper_order@.no_duplicates()
        &&& forall|k: i64| self.papers@.contains_key(k) <==> self.paper_order@.contains(k)
        &&& forall|k: i64| #[trigger] self.papers@.contains_key(k) ==> self.papers@[k].id == Some(k)
        &&& self.citing_order@ == citers(self.edges@)
        &&& forall|a: i64| #[trigger] self.citations@.contains_key(a) <==> outgoing(self.edges@, a).len() > 0
        &&& forall|a: i64| #[trigger] self.citations@.contains_key(a) ==> self.citations@[a]@ == outgoing(self.edges@, a)
        &&& forall|b: i64| #[trigger] self.cited_by@.contains_key(b) <==> incoming(self.edges@, b).len() > 0
        &&& forall|b: i64| #[trigger] self.cited_by@.contains_key(b) ==> self.cited_by@[b]@ == incoming(self.edges@, b)
        &&& self.edge_total == self.edges@.len()
    }

    /// An empty graph.
    pub fn new() -> (r: Self)
        ensures
            r.wf(),
            r@.papers == Map::<i64, PaperView>::empty(),
            r@.order == Seq::<i64>::empty(),
            r@.edges == Seq::<(i64, i64)>::empty(),
    {
        let r = CitationGraph {
            papers: HashMap::new(),
            paper_order: Vec::new(),
            citations: HashMap::new(),
            citing_order: Vec::new(),
            cited_by: HashMap::new(),
            edge_total: 0,
            edges: Ghost(Seq::empty()),
        };
        assert(r@.papers =~= Map::<i64, PaperView>::empty());
        r
    }

    /// Adds a paper under its id; a paper without an id is not added, and a
    /// paper with an id already present replaces the earlier one.
    pub fn add_paper(&mut self, paper: Paper)
        requires
            old(self).wf(),
            old(self)@.order.len() < usize::MAX,
        ensures
            final(self).wf(),
            final(self)@.edges == old(self)@.edges,
            match paper.id {
                Some(id) => {
                    &&& final(self)@.papers == old(self)@.papers.insert(id, paper@)
                    &&& final(self)@.order == if old(self)@.order.contains(id) {
                        old(self)@.order
                    } else {
                        old(self)@.order.push(id)
                    }
                },
                None => final(self)@.papers == old(self)@.papers && final(self)@.order == old(self)@.order,
            },
    {
        match paper.id {
            Some(id) => {
                let ghost pv = paper@;
                let present = self.papers.contains_key(&id);
                self.papers.insert(id, paper);
                if !present {
                    self.paper_order.push(id);
                }
                assert(self@.papers =~= old(self)@.papers.insert(id, pv));
                if !present {
                    assert(!old(self).paper_order@.contains(id));
                    assert forall|i: int, j: int| 0 <= i < j < self.paper_order@.len() implies self.paper_order@[i] != self.paper_order@[j] by {
                        if j == self.paper_order@.len() - 1 {
                            assert(old(self).paper_order@[i] == self.paper_order@[i]);
                        }
                    }
                }
                assert forall|k: i64| self.papers@.contains_key(k) <==> self.paper_order@.contains(k) by {
                    if k == id && !present {
                        assert(self.paper_order@[self.paper_order@.len() - 1] == id);
                    }
                    if k != id && self.paper_order@.contains(k) && !present {
                        let j = choose|j: int| 0 <= j < self.paper_order@.len() && self.paper_order@[j] == k;
                        assert(old(self).paper_order@[j] == k);
                    }
                    if k != id && old(self).paper_order@.contains(k) && !present {
                        let j = choose|j: int| 0 <= j < old(self).paper_order@.len() && old(self).paper_order@[j] == k;
                        assert(self.paper_order@[j] == k);
                    }
                }
            },
            None => {},
        }
    }

    /// Adds the citation `citing_id` cites `cited_id`.
    pub fn add_citation(&mut self, citing_id: i64, cited_id: i64)
        requires
            old(self).wf(),
            old(self)@.edges.len() < usize::MAX,
        ensures
            final(self).wf(),
            final(self)@.papers == old(self)@.papers,
            final(self)@.order == old(self)@.order,
            final(self)@.edges == old(self)@.edges.push((citing_id, cited_id)),
    {
        let ghost old_edges = self.edges@;
        let ghost new_edges = old_edges.push((citing_id, cited_id));
        proof {
            lemma_citers_contains(old_edges, citing_id);
            assert(new_edges.drop_last() == old_edges);
        }
        let mut outs: Vec<i64> = match self.citations.remove(&citing_id) {
            Some(v) => v,
            None => Vec::new(),
        };
        let first_citation = outs.len() == 0;
        outs.push(cited_id);
        self.citations.insert(citing_id, outs);
        if first_citation {
            self.citing_order.push(citing_id);
        }
        let mut ins: Vec<i64> = match self.cited_by.remove(&cited_id) {
            Some(v) => v,
            None => Vec::new(),
        };
        ins.push(citing_id);
        self.cited_by.insert(cited_id, ins);
        self.edge_total = self.edge_total + 1;
        self.edges = Ghost(new_edges);
        assert forall|a: i64| #[trigger] self.citations@.contains_key(a) <==> outgoing(self.edges@, a).len() > 0 by {
            assert(outgoing(new_edges, a) == if a == citing_id { outgoing(old_edges, a).push(cited_id) } else { outgoing(old_edges, a) });
        }
        assert forall|a: i64| #[trigger] self.citations@.contains_key(a) implies self.citations@[a]@ == outgoing(self.edges@, a) by {
            assert(outgoing(new_edges, a) == if a == citing_id { outgoing(old_edges, a).push(cited_id) } else { outgoing(old_edges, a) });
        }
        assert forall|b: i64| #[trigger] self.cited_by@.contains_key(b) <==> incoming(self.edges@, b).len() > 0 by {
            assert(incoming(new_edges, b) == if b == cited_id { incoming(old_edges, b).push(citing_id) } else { incoming(old_edges, b) });
        }
        assert forall|b: i64| #[trigger] self.cited_by@.contains_key(b) implies self.cited_by@[b]@ == incoming(self.edges@, b) by {
            assert(incoming(new_edges, b) == if b == cited_id { incoming(old_edges, b).push(citing_id) } else { incoming(old_edges, b) });
        }
        assert(self@.papers == old(self)@.papers);
    }

    /// The ids the paper cites, in the order the citations were added, when
    /// it cites any.
    pub fn get_citations(&self, paper_id: i64) -> (r: Option<&[i64]>)
        requires
            self.wf(),
        ensures
            match r {
                Some(s) => s@ == outgoing(self@.edges, paper_id) && s@.len() > 0,
                None => outgoing(self@.edges, paper_id).len() == 0,
            },
    {
        match self.citations.get(&paper_id) {
            Some(v) => Some(v.as_slice()),
            None => None,
        }
    }

    /// The ids that cite the paper, in the order the citations were added,
    /// when any does.
    pub fn get_cited_by(&self, paper_id: i64) -> (r: Option<&[i64]>)
        requires
            self.wf(),
        ensures
            match r {
                Some(s) => s@ == incoming(self@.edges, paper_id) && s@.len() > 0,
                None => incoming(self@.edges, paper_id).len() == 0,
            },
    {
        match self.cited_by.get(&paper_id) {
            Some(v) => Some(v.as_slice()),
            None => None,
        }
    }

    /// How many times the paper is cited.
    pub fn citation_count(&self, paper_id: i64) -> (r: usize)
        requires
            self.wf(),
        ensures
            r == incoming(self@.edges, paper_id).len(),
    {
        match self.cited_by.get(&paper_id) {
            Some(v) => v.len(),
            None => 0,
        }
    }

    /// The number of papers.
    pub fn paper_count(&self) -> (r: usize)
        requires
            self.wf(),
        ensures
            r == self@.order.len(),
            r == self@.papers.dom().len(),
    {
        proof {
            lemma_keys_listed(self.papers@, self.paper_order@);
            assert(self@.papers.dom() =~= self.papers@.dom());
        }
        self.paper_order.len()
    }

    /// The number of citation edges.
    pub fn edge_count(&self) -> (r: usize)
        requires
            self.wf(),
        ensures
            r == self@.edges.len(),
    {
        self.edge_total
    }

    /// Copies of the papers, in the order their ids were first added.
    pub fn papers(&self) -> (r: Vec<Paper>)
        requires
            self.wf(),
        ensures
            r@.len() == self@.order.len(),
            forall|i: int| 0 <= i < r@.len() ==> (#[trigger] r@[i])@ == self@.papers[self@.order[i]],
            forall|i: int| 0 <= i < r@.len() ==> (#[trigger] r@[i]).id == Some(self@.order[i]),
            self@.order.no_duplicates(),
    {
        let mut r: Vec<Paper> = Vec::new();
        let mut i: usize = 0;
        while i < self.paper_order.len()
            invariant
                0 <= i <= self.paper_order@.len(),
                self.wf(),
                r@.len() == i,
                forall|k: int| 0 <= k < i ==> (#[trigger] r@[k])@ == self@.papers[self@.order[k]],
                forall|k: int| 0 <= k < i ==> (#[trigger] r@[k]).id == Some(self@.order[k]),
            decreases self.paper_order@.len() - i,
        {
            let id = self.paper_order[i];
            assert(self.paper_order@.contains(id));
            match self.papers.get(&id) {
                Some(p) => {
                    let d = p.duplicate();
                    assert(d.id == d@.id);
                    r.push(d);
                },
                None => {
                    assert(false);
                },
            }
            i = i + 1;
        }
        r
    }
}

impl Default for CitationGraph {
    /// An empty graph.
    fn default() -> (r: Self)
        ensures
            r.wf(),
            r@.papers == Map::<i64, PaperView>::empty(),
            r@.order == Seq::<i64>::empty(),
            r@.edges == Seq::<(i64, i64)>::empty(),
    {
        CitationGraph::new()
    }
}

/// A paper id is listed among the citers exactly when it cites something.
pub proof fn lemma_citers_contains(edges: Seq<(i64, i64)>, a: i64)
    ensures
        citers(edges).contains(a) <==> outgoing(edges, a).len() > 0,
    decreases edges.len(),
{
    if edges.len() > 0 {
        lemma_citers_contains(edges.drop_last(), a);
        let prev = citers(edges.drop_last());
        if !prev.contains(edges.last().0) {
            let now = prev.push(edges.last().0);
            if prev.contains(a) {
                let j = choose|j: int| 0 <= j < prev.len() && prev[j] == a;
                assert(now[j] == a);
            }
            if now.contains(a) && a != edges.last().0 {
                let j = choose|j: int| 0 <= j < now.len() && now[j] == a;
                assert(prev[j] == a);
            }
            assert(now[now.len() - 1] == edges.last().0);
        }
    }
}

/// The cited ids, each once, in the order they were first cited.
pub open spec fn cited_ids(edges: Seq<(i64, i64)>) -> Seq<i64>
    decreases edges.len(),
{
    if edges.len() == 0 {
        Seq::empty()
    } else if cited_ids(edges.drop_last()).contains(edges.last().1) {
        cited_ids(edges.drop_last())
    } else {
        cited_ids(edges.drop_last()).push(edges.last().1)
    }
}

/// A paper id is listed among the cited ids exactly when something cites it.
pub proof fn lemma_cited_contains(edges: Seq<(i64, i64)>, b: i64)
    ensures
        cited_ids(edges).contains(b) <==> incoming(edges, b).len() > 0,
    decreases edges.len(),
{
    if edges.len() > 0 {
        lemma_cited_contains(edges.drop_last(), b);
        let prev = cited_ids(edges.drop_last());
        if !prev.contains(edges.last().1) {
            let now = prev.push(edges.last().1);
            if prev.contains(b) {
                let j = choose|j: int| 0 <= j < prev.len() && prev[j] == b;
                assert(now[j] == b);
            }
            if now.contains(b) && b != edges.last().1 {
                let j = choose|j: int| 0 <= j < now.len() && now[j] == b;
                assert(prev[j] == b);
            }
            assert(now[now.len() - 1] == edges.last().1);
        }
    }
}

/// The cited ids are listed once each.
pub proof fn lemma_cited_unique(edges: Seq<(i64, i64)>)
    ensures
        cited_ids(edges).no_duplicates(),
    decreases edges.len(),
{
    if edges.len() > 0 {
        lemma_cited_unique(edges.drop_last());
        let prev = cited_ids(edges.drop_last());
        if !prev.contains(edges.last().1) {
            let now = prev.push(edges.last().1);
            assert forall|i: int, j: int| 0 <= i < j < now.len() implies now[i] != now[j] by {
                if j == now.len() - 1 {
                    assert(prev[i] == now[i]);
                }
            }
        }
    }
}

/// A list of the keys of a map, each once, has the map's size.
pub proof fn lemma_keys_listed(m: Map<i64, Paper>, order: Seq<i64>)
    requires
        order.no_duplicates(),
        forall|k: i64| m.contains_key(k) <==> order.contains(k),
    ensures
        m.dom().len() == order.len(),
{
    assert(m.dom() =~= order.to_set());
    order.unique_seq_to_set();
}

} // verus!

verus! {

/// At most the first 50 chars of a title.
pub open spec fn label_of(title: Seq<char>) -> Seq<char> {
    if title.len() <= 50 {
        title
    } else {
        title.take(50)
    }
}

/// The DOT line of a node.
pub open spec fn dot_node(id: i64, title: Seq<char>) -> Seq<char> {
    "  "@ + signed_decimal(id as int) + " [label=\""@ + label_of(title) + "\"];\n"@
}

/// The DOT lines of the papers, in order.
pub open spec fn dot_nodes(order: Seq<i64>, papers: Map<i64, PaperView>) -> Seq<char>
    decreases order.len(),
{
    if order.len() == 0 {
        Seq::empty()
    } else {
        dot_nodes(order.drop_last(), papers) + dot_node(order.last(), papers[order.last()].title)
    }
}

/// The DOT line of an edge.
pub open spec fn dot_edge(a: i64, b: i64) -> Seq<char> {
    "  "@ + signed_decimal(a as int) + " -> "@ + signed_decimal(b as int) + ";\n"@
}

/// The DOT lines of the edges from `a` to each of `outs`.
pub open spec fn dot_edges_from(a: i64, outs: Seq<i64>) -> Seq<char>
    decreases outs.len(),
{
    if outs.len() == 0 {
        Seq::empty()
    } else {
        dot_edges_from(a, outs.drop_last()) + dot_edge(a, outs.last())
    }
}

/// The DOT lines of all edges, grouped by citing paper.
pub open spec fn dot_edges(cs: Seq<i64>, edges: Seq<(i64, i64)>) -> Seq<char>
    decreases cs.len(),
{
    if cs.len() == 0 {
        Seq::empty()
    } else {
        dot_edges(cs.drop_last(), edges) + dot_edges_from(cs.last(), outgoing(edges, cs.last()))
    }
}

/// The graph in Graphviz DOT: a left-to-right digraph of boxes, one node
/// per paper labelled with the start of its title, then one line per
/// citation.
pub open spec fn dot_text(g: GraphView) -> Seq<char> {
    "digraph citations {\n"@ + "  rankdir=LR;\n"@ + "  node [shape=box];\n\n"@ + dot_nodes(g.order, g.papers) + "\n"@
        + dot_edges(citers(g.edges), g.edges) + "}\n"@
}

impl CitationGraph {
    /// The graph in Graphviz DOT.
    pub fn to_dot(&self) -> (r: String)
        requires
            self.wf(),
        ensures
            r@ == dot_text(self@),
    {
        let mut out = to_string("digraph citations {\n");
        push_str(&mut out, "  rankdir=LR;\n");
        push_str(&mut out, "  node [shape=box];\n\n");
        let ghost head = out@;
        let ghost g = self@;
        let mut i: usize = 0;
        while i < self.paper_order.len()
            invariant
                0 <= i <= self.paper_order@.len(),
                self.wf(),
                g == self@,
                out@ == head + dot_nodes(g.order.take(i as int), g.papers),
            decreases self.paper_order@.len() - i,
        {
            let id = self.paper_order[i];
            assert(self.paper_order@.contains(id));
            assert(g.order.take(i + 1).drop_last() == g.order.take(i as int));
            match self.papers.get(&id) {
                Some(p) => {
                    let ghost before = out@;
                    let title = to_chars(p.title.as_str());
                    let n = if title.len() <= 50 { title.len() } else { 50 };
                    let label = string_of(crate::text::slice_chars(title.as_slice(), 0, n).as_slice());
                    assert(label@ == label_of(p.title@));
                    push_str(&mut out, "  ");
                    push_signed(&mut out, id);
                    push_str(&mut out, " [label=\"");
                    push_str(&mut out, label.as_str());
                    push_str(&mut out, "\"];\n");
                    assert(out@ == before + dot_node(id, g.papers[id].title));
                },
                None => {
                    assert(false);
                },
            }
            i = i + 1;
        }
        assert(g.order.take(g.order.len() as int) == g.order);
        push_str(&mut out, "\n");
        let ghost mid = out@;
        let ghost cs = citers(g.edges);
        let mut c: usize = 0;
        while c < self.citing_order.len()
            invariant
                0 <= c <= self.citing_order@.len(),
                self.wf(),
                g == self@,
                cs == citers(g.edges),
                self.citing_order@ == cs,
                out@ == mid + dot_edges(cs.take(c as int), g.edges),
            decreases self.citing_order@.len() - c,
        {
            let a = self.citing_order[c];
            assert(cs.take(c + 1).drop_last() == cs.take(c as int));
            proof {
                assert(cs.contains(a));
                lemma_citers_contains(g.edges, a);
            }
            match self.citations.get(&a) {
                Some(outs) => {
                    let ghost before = out@;
                    let mut j: usize = 0;
                    while j < outs.len()
                        invariant
                            0 <= j <= outs@.len(),
                            out@ == before + dot_edges_from(a, outs@.take(j as int)),
                        decreases outs@.len() - j,
                    {
                        let ghost prev = out@;
                        assert(outs@.take(j + 1).drop_last() == outs@.take(j as int));
                        push_str(&mut out, "  ");
                        push_signed(&mut out, a);
                        push_str(&mut out, " -> ");
                        push_signed(&mut out, outs[j]);
                        push_str(&mut out, ";\n");
                        assert(out@ == prev + dot_edge(a, outs@[j as int]));
                        j = j + 1;
                    }
                    assert(outs@.take(outs@.len() as int) == outs@);
                },
                None => {
                    assert(false);
                },
            }
            c = c + 1;
        }
        assert(cs.take(cs.len() as int) == cs);
        push_str(&mut out, "}\n");
        out
    }
}


/// The edges grouped by citing paper, the citing papers in the order they
/// first cited.
pub open spec fn grouped_edges(cs: Seq<i64>, edges: Seq<(i64, i64)>) -> Seq<(i64, i64)>
    decreases cs.len(),
{
    if cs.len() == 0 {
        Seq::empty()
    } else {
        grouped_edges(cs.drop_last(), edges) + outgoing(edges, cs.last()).map_values(|b: i64| (cs.last(), b))
    }
}

impl CitationGraph {
    /// The citation edges `(citing, cited)`, grouped by citing paper.
    pub fn edge_list(&self) -> (r: Vec<(i64, i64)>)
        requires
            self.wf(),
        ensures
            r@ == grouped_edges(citers(self@.edges), self@.edges),
    {
        let ghost g = self@;
        let ghost cs = citers(g.edges);
        let mut r: Vec<(i64, i64)> = Vec::new();
        let mut c: usize = 0;
        while c < self.citing_order.len()
            invariant
                0 <= c <= self.citing_order@.len(),
                self.wf(),
                g == self@,
                cs == citers(g.edges),
                self.citing_order@ == cs,
                r@ == grouped_edges(cs.take(c as int), g.edges),
            decreases self.citing_order@.len() - c,
        {
            let a = self.citing_order[c];
            assert(cs.take(c + 1).drop_last() == cs.take(c as int));
            proof {
                assert(cs.contains(a));
                lemma_citers_contains(g.edges, a);
            }
            match self.citations.get(&a) {
                Some(outs) => {
                    let ghost before = r@;
                    let mut j: usize = 0;
                    while j < outs.len()
                        invariant
                            0 <= j <= outs@.len(),
                            r@ == before + outs@.take(j as int).map_values(|b: i64| (a, b)),
                        decreases outs@.len() - j,
                    {
                        r.push((a, outs[j]));
                        assert(outs@.take(j + 1).map_values(|b: i64| (a, b)) =~= outs@.take(j as int).map_values(|b: i64| (a, b)).push((a, outs@[j as int])));
                        j = j + 1;
                    }
                    assert(outs@.take(outs@.len() as int) == outs@);
                },
                None => {
                    assert(false);
                },
            }
            c = c + 1;
        }
        assert(cs.take(cs.len() as int) == cs);
        r
    }
}

/// How many times the listed papers are cited, in all.
pub open spec fn incoming_total(edges: Seq<(i64, i64)>, ids: Seq<i64>) -> nat
    decreases ids.len(),
{
    if ids.len() == 0 {
        0
    } else {
        incoming_total(edges, ids.drop_last()) + incoming(edges, ids.last()).len()
    }
}

/// One more edge adds one citation to the total when its cited paper is listed.
pub proof fn lemma_incoming_total_push(edges: Seq<(i64, i64)>, e: (i64, i64), ids: Seq<i64>)
    requires
        ids.no_duplicates(),
    ensures
        incoming_total(edges.push(e), ids) == incoming_total(edges, ids) + if ids.contains(e.1) { 1nat } else { 0nat },
    decreases ids.len(),
{
    if ids.len() > 0 {
        let t = ids.drop_last();
        assert forall|i: int, j: int| 0 <= i < j < t.len() implies t[i] != t[j] by {
            assert(t[i] == ids[i] && t[j] == ids[j]);
        }
        lemma_incoming_total_push(edges, e, t);
        assert(edges.push(e).drop_last() == edges);
        if t.contains(e.1) {
            let k = choose|k: int| 0 <= k < t.len() && t[k] == e.1;
            assert(ids[k] == e.1);
            assert(ids.last() != e.1);
            assert(ids.contains(e.1));
        } else if ids.last() == e.1 {
            assert(ids[ids.len() - 1] == e.1);
        } else {
            assert(!ids.contains(e.1)) by {
                if ids.contains(e.1) {
                    let k = choose|k: int| 0 <= k < ids.len() && ids[k] == e.1;
                    if k < ids.len() - 1 {
                        assert(t[k] == e.1);
                    }
                }
            }
        }
    }
}

/// Distinct papers are cited at most as many times as there are edges.
pub proof fn lemma_incoming_total_bound(edges: Seq<(i64, i64)>, ids: Seq<i64>)
    requires
        ids.no_duplicates(),
    ensures
        incoming_total(edges, ids) <= edges.len(),
    decreases edges.len(),
{
    if edges.len() == 0 {
        lemma_incoming_total_empty(edges, ids);
    } else {
        lemma_incoming_total_bound(edges.drop_last(), ids);
        lemma_incoming_total_push(edges.drop_last(), edges.last(), ids);
        assert(edges.drop_last().push(edges.last()) == edges);
    }
}

proof fn lemma_incoming_total_empty(edges: Seq<(i64, i64)>, ids: Seq<i64>)
    requires
        edges.len() == 0,
    ensures
        incoming_total(edges, ids) == 0,
    decreases ids.len(),
{
    if ids.len() > 0 {
        lemma_incoming_total_empty(edges, ids.drop_last());
    }
}

/// What recording the citation `a` cites `b` changes: `a`'s list of cited
/// ids gets `b` at its end, `b`'s list of citing ids gets `a` at its end,
/// and no other paper's lists change.
pub proof fn law_citation_recorded(edges: Seq<(i64, i64)>, a: i64, b: i64, x: i64)
    ensures
        outgoing(edges.push((a, b)), x) == if x == a { outgoing(edges, x).push(b) } else { outgoing(edges, x) },
        incoming(edges.push((a, b)), x) == if x == b { incoming(edges, x).push(a) } else { incoming(edges, x) },
{
    assert(edges.push((a, b)).drop_last() == edges);
}

/// How many ids the listed papers cite, in all.
pub open spec fn outgoing_total(edges: Seq<(i64, i64)>, ids: Seq<i64>) -> nat
    decreases ids.len(),
{
    if ids.len() == 0 {
        0
    } else {
        outgoing_total(edges, ids.drop_last()) + outgoing(edges, ids.last()).len()
    }
}

/// The citing ids are listed once each.
pub proof fn lemma_citers_unique(edges: Seq<(i64, i64)>)
    ensures
        citers(edges).no_duplicates(),
    decreases edges.len(),
{
    if edges.len() > 0 {
        lemma_citers_unique(edges.drop_last());
        let prev = citers(edges.drop_last());
        if !prev.contains(edges.last().0) {
            let now = prev.push(edges.last().0);
            assert forall|i: int, j: int| 0 <= i < j < now.len() implies now[i] != now[j] by {
                if j == now.len() - 1 {
                    assert(prev[i] == now[i]);
                }
            }
        }
    }
}

/// One more edge adds one to the total of the listed papers when its citing
/// paper is listed, and nothing otherwise.
pub proof fn lemma_outgoing_total_push(edges: Seq<(i64, i64)>, e: (i64, i64), ids: Seq<i64>)
    requires
        ids.no_duplicates(),
    ensures
        outgoing_total(edges.push(e), ids) == outgoing_total(edges, ids) + if ids.contains(e.0) { 1nat } else { 0nat },
    decreases ids.len(),
{
    if ids.len() > 0 {
        let t = ids.drop_last();
        assert forall|i: int, j: int| 0 <= i < j < t.len() implies t[i] != t[j] by {
            assert(t[i] == ids[i] && t[j] == ids[j]);
        }
        lemma_outgoing_total_push(edges, e, t);
        assert(edges.push(e).drop_last() == edges);
        if t.contains(e.0) {
            let k = choose|k: int| 0 <= k < t.len() && t[k] == e.0;
            assert(ids[k] == e.0);
            assert(ids.contains(e.0));
        } else if ids.last() == e.0 {
            assert(ids[ids.len() - 1] == e.0);
        } else {
            assert(!ids.contains(e.0)) by {
                if ids.contains(e.0) {
                    let k = choose|k: int| 0 <= k < ids.len() && ids[k] == e.0;
                    if k < ids.len() - 1 {
                        assert(t[k] == e.0);
                    }
                }
            }
        }
    }
}

/// The citation counts of a graph sum to its edge count: every paper id
/// with a citation count above 0 is listed once among the cited ids, every
/// other id has a count of 0, and the counts of the listed ids
/// (`citation_count` is `incoming(edges, id).len()`) add up to the number
/// of edges.
pub proof fn law_citations_counted(edges: Seq<(i64, i64)>)
    ensures
        edges.len() == incoming_total(edges, cited_ids(edges)),
        cited_ids(edges).no_duplicates(),
        forall|x: i64| !cited_ids(edges).contains(x) ==> #[trigger] incoming(edges, x).len() == 0,
    decreases edges.len(),
{
    lemma_cited_unique(edges);
    assert forall|x: i64| !cited_ids(edges).contains(x) implies #[trigger] incoming(edges, x).len() == 0 by {
        lemma_cited_contains(edges, x);
    }
    if edges.len() > 0 {
        let old_edges = edges.drop_last();
        let e = edges.last();
        law_citations_counted(old_edges);
        lemma_cited_unique(old_edges);
        lemma_incoming_total_push(old_edges, e, cited_ids(old_edges));
        assert(old_edges.push(e) == edges);
        let prev = cited_ids(old_edges);
        if !prev.contains(e.1) {
            lemma_cited_contains(old_edges, e.1);
            assert(prev.push(e.1).drop_last() == prev);
            assert(incoming(old_edges, e.1).len() == 0);
            assert(incoming(edges, e.1).len() == 1);
        }
    }
}

/// Every recorded citation is counted once: the number of edges is the
/// sum, over the citing papers, of how many ids each cites.
pub proof fn law_edges_counted(edges: Seq<(i64, i64)>)
    ensures
        edges.len() == outgoing_total(edges, citers(edges)),
    decreases edges.len(),
{
    if edges.len() > 0 {
        let old_edges = edges.drop_last();
        let e = edges.last();
        law_edges_counted(old_edges);
        lemma_citers_unique(old_edges);
        lemma_outgoing_total_push(old_edges, e, citers(old_edges));
        assert(old_edges.push(e) == edges);
        let prev = citers(old_edges);
        if !prev.contains(e.0) {
            lemma_citers_contains(old_edges, e.0);
            assert(prev.push(e.0).drop_last() == prev);
        }
    }
}

} // verus!
