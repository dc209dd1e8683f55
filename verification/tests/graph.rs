use crabref::crawler::{CitationCrawler, CrawlDirection, CrawlStep, FETCH_LIMIT};
use crabref::{Author, CitationGraph, CitationStats, Paper};

fn paper(id: i64, title: &str) -> Paper {
    let mut p = Paper::new(title.to_string());
    p.id = Some(id);
    p
}

#[test]
fn graph_read_after_write() {
    let mut g = CitationGraph::new();
    g.add_paper(paper(1, "A"));
    g.add_paper(paper(2, "B"));
    g.add_citation(1, 2);
    g.add_citation(1, 3);
    assert_eq!(g.get_citations(1), Some(&[2i64, 3][..]));
    assert_eq!(g.get_cited_by(2), Some(&[1i64][..]));
    assert_eq!(g.get_cited_by(1), None);
    assert_eq!(g.citation_count(2), 1);
    assert_eq!(g.citation_count(9), 0);
    assert_eq!(g.edge_count(), 2);
    assert_eq!(g.paper_count(), 2);
}

#[test]
fn graph_ignores_papers_without_id_and_replaces_same_id() {
    let mut g = CitationGraph::default();
    g.add_paper(Paper::new("no id".to_string()));
    assert_eq!(g.paper_count(), 0);
    g.add_paper(paper(4, "first"));
    g.add_paper(paper(4, "second"));
    assert_eq!(g.paper_count(), 1);
    let ps = g.papers();
    assert_eq!(ps.len(), 1);
    assert_eq!(ps[0].title, "second");
}

#[test]
fn graph_edges_counted_once() {
    let mut g = CitationGraph::new();
    g.add_citation(1, 2);
    g.add_citation(3, 2);
    g.add_citation(1, 4);
    let total = [1i64, 3].iter().map(|a| g.get_citations(*a).map(|s| s.len()).unwrap_or(0)).sum::<usize>();
    assert_eq!(g.edge_count(), total);
}

#[test]
fn graph_to_dot() {
    let mut g = CitationGraph::new();
    g.add_paper(paper(1, "A"));
    g.add_paper(paper(2, "B"));
    g.add_citation(1, 2);
    assert_eq!(
        g.to_dot(),
        "digraph citations {\n  rankdir=LR;\n  node [shape=box];\n\n  1 [label=\"A\"];\n  2 [label=\"B\"];\n\n  1 -> 2;\n}\n"
    );
}

#[test]
fn stats_of_a_small_graph() {
    let mut g = CitationGraph::new();
    g.add_paper(paper(1, "A"));
    g.add_paper(paper(2, "B"));
    g.add_paper(paper(3, "C"));
    g.add_paper(paper(4, "D"));
    g.add_citation(1, 2);
    g.add_citation(3, 2);
    g.add_citation(1, 3);
    let s = CitationStats::from_graph(&g);
    assert_eq!(s.total_papers, 4);
    assert_eq!(s.total_citation_edges, 3);
    assert_eq!(s.citation_sum, 3);
    assert_eq!(s.h_index, 1);
    assert_eq!(s.max_citations, 2);
    let ranked: Vec<(String, i64)> = s.most_cited_papers.iter().map(|(p, c)| (p.title.clone(), *c)).collect();
    assert_eq!(
        ranked,
        vec![("B".to_string(), 2), ("C".to_string(), 1), ("A".to_string(), 0), ("D".to_string(), 0)]
    );
    assert_eq!(s.isolated_papers.len(), 1);
    assert_eq!(s.isolated_papers[0].title, "D");
}

#[test]
fn h_index_is_largest_h_with_h_papers_cited_h_times() {
    let mut g = CitationGraph::new();
    for id in 1..=5 {
        g.add_paper(paper(id, "P"));
    }
    // Paper 1 cited 3 times, paper 2 cited 3 times, paper 3 twice, paper 4 once.
    for (a, b) in [(2, 1), (3, 1), (4, 1), (1, 2), (3, 2), (4, 2), (1, 3), (2, 3), (1, 4)] {
        g.add_citation(a, b);
    }
    let s = CitationStats::from_graph(&g);
    assert_eq!(s.h_index, 2);
}

#[test]
fn stats_default_is_empty() {
    let s = CitationStats::default();
    assert_eq!(s.total_papers, 0);
    assert_eq!(s.h_index, 0);
    assert!(s.most_cited_papers.is_empty());
}

#[test]
fn most_cited_keeps_at_most_ten() {
    let mut g = CitationGraph::new();
    for id in 1..=12 {
        g.add_paper(paper(id, "P"));
    }
    let s = CitationStats::from_graph(&g);
    assert_eq!(s.most_cited_papers.len(), 10);
    assert_eq!(s.isolated_papers.len(), 12);
}

fn found(id: i64, ss: Option<&str>) -> (Paper, Vec<Author>) {
    let mut p = paper(id, "found");
    p.semantic_scholar_id = ss.map(|s| s.to_string());
    (p, vec![Author::new("X".to_string())])
}

#[test]
fn crawl_follows_new_citing_papers_once() {
    let crawler = CitationCrawler::new(1, 10);
    let seed = paper(1, "seed").with_semantic_scholar_id("S0".to_string());
    let mut crawl = crawler.start(Some(seed), CrawlDirection::Citations);
    let step = crawl.step();
    assert_eq!(step, CrawlStep::FetchCitations("S0".to_string()));
    let step = crawl.take_citations(vec![found(2, Some("S1")), found(3, None), found(4, Some("S0")), found(5, Some("S1"))]);
    assert_eq!(step, CrawlStep::Done);
    let g = crawl.finish();
    assert_eq!(g.paper_count(), 2);
    assert_eq!(g.edge_count(), 4);
    assert_eq!(g.get_cited_by(1), Some(&[2i64, 3, 4, 5][..]));
    let ps = g.papers();
    assert_eq!(ps[1].id, Some(2));
    assert_eq!(ps[1].authors.len(), 1);
    assert_eq!(FETCH_LIMIT, 50);
}

#[test]
fn crawl_in_both_directions_asks_for_references_next() {
    let crawler = CitationCrawler::new(2, 10);
    let seed = paper(1, "seed").with_semantic_scholar_id("S0".to_string());
    let mut crawl = crawler.start(Some(seed), CrawlDirection::Both);
    assert_eq!(crawl.step(), CrawlStep::FetchCitations("S0".to_string()));
    assert_eq!(crawl.take_citations(vec![found(2, Some("S1"))]), CrawlStep::FetchReferences("S0".to_string()));
    assert_eq!(crawl.take_references(vec![]), CrawlStep::FetchCitations("S1".to_string()));
}

#[test]
fn crawl_stops_at_max_papers() {
    let crawler = CitationCrawler::new(5, 1);
    let seed = paper(1, "seed").with_semantic_scholar_id("S0".to_string());
    let mut crawl = crawler.start(Some(seed), CrawlDirection::References);
    assert_eq!(crawl.step(), CrawlStep::FetchReferences("S0".to_string()));
    assert_eq!(crawl.take_references(vec![found(2, Some("S1")), found(3, Some("S2"))]), CrawlStep::Done);
    assert_eq!(crawl.graph().paper_count(), 1);
}

#[test]
fn crawl_without_seed_is_done_at_once() {
    let crawler = CitationCrawler::new(1, 10).with_depth(3).with_max_papers(4);
    assert_eq!(crawler.max_depth, 3);
    assert_eq!(crawler.max_papers, 4);
    let mut crawl = crawler.start(None, CrawlDirection::Both);
    assert_eq!(crawl.step(), CrawlStep::Done);
    assert_eq!(crawl.finish().paper_count(), 0);
}

#[test]
fn crawl_records_the_citing_paper() {
    let crawler = CitationCrawler::new(1, 10);
    let seed = paper(1, "S").with_semantic_scholar_id("s".to_string());
    let mut crawl = crawler.start(Some(seed), CrawlDirection::Citations);
    assert_eq!(crawl.step(), CrawlStep::FetchCitations("s".to_string()));
    assert_eq!(crawl.take_citations(vec![found(2, Some("c"))]), CrawlStep::Done);
    let g = crawl.finish();
    assert_eq!(g.paper_count(), 2);
    assert_eq!(g.get_cited_by(1), Some(&[2i64][..]));
    assert_eq!(g.get_citations(2), Some(&[1i64][..]));
    assert_eq!(g.edge_count(), 1);
}

#[test]
fn crawl_records_the_cited_paper() {
    let crawler = CitationCrawler::new(1, 10);
    let seed = paper(1, "S").with_semantic_scholar_id("s".to_string());
    let mut crawl = crawler.start(Some(seed), CrawlDirection::References);
    assert_eq!(crawl.step(), CrawlStep::FetchReferences("s".to_string()));
    assert_eq!(crawl.take_references(vec![found(7, Some("r")), found(8, None)]), CrawlStep::Done);
    let g = crawl.finish();
    assert_eq!(g.get_citations(1), Some(&[7i64, 8][..]));
    assert_eq!(g.get_cited_by(7), Some(&[1i64][..]));
    assert_eq!(g.edge_count(), 2);
}

#[test]
fn crawl_records_each_citation_once() {
    let crawler = CitationCrawler::new(1, 10);
    let seed = paper(1, "S").with_semantic_scholar_id("s".to_string());
    let mut crawl = crawler.start(Some(seed), CrawlDirection::Both);
    assert_eq!(crawl.step(), CrawlStep::FetchCitations("s".to_string()));
    assert_eq!(
        crawl.take_citations(vec![found(2, Some("c")), found(2, Some("c"))]),
        CrawlStep::FetchReferences("s".to_string())
    );
    assert_eq!(crawl.take_references(vec![found(2, Some("c"))]), CrawlStep::Done);
    let g = crawl.finish();
    assert_eq!(g.get_cited_by(1), Some(&[2i64][..]));
    assert_eq!(g.get_citations(1), Some(&[2i64][..]));
    assert_eq!(g.edge_count(), 2);
}

#[test]
fn crawl_seed_without_paper_id_records_nothing() {
    let crawler = CitationCrawler::new(1, 10);
    let seed = Paper::new("S".to_string()).with_semantic_scholar_id("s".to_string());
    let mut crawl = crawler.start(Some(seed), CrawlDirection::Citations);
    assert_eq!(crawl.step(), CrawlStep::FetchCitations("s".to_string()));
    assert_eq!(crawl.take_citations(vec![found(2, Some("c"))]), CrawlStep::Done);
    let g = crawl.finish();
    assert_eq!(g.edge_count(), 0);
    assert_eq!(g.paper_count(), 1);
}

#[test]
fn citation_counts_add_up_to_the_edges() {
    let mut g = CitationGraph::new();
    g.add_citation(1, 2);
    g.add_citation(1, 3);
    g.add_citation(4, 2);
    assert_eq!(g.citation_count(2) + g.citation_count(3), g.edge_count());
}

#[test]
fn stats_rank_and_isolate() {
    let mut g = CitationGraph::new();
    for id in 1..=4 {
        g.add_paper(paper(id, "P"));
    }
    g.add_citation(1, 2);
    g.add_citation(3, 2);
    g.add_citation(2, 3);
    let s = CitationStats::from_graph(&g);
    let counts: Vec<i64> = s.most_cited_papers.iter().map(|e| e.1).collect();
    assert_eq!(counts, vec![2, 1, 0, 0]);
    assert_eq!(s.most_cited_papers[0].0.id, Some(2));
    assert_eq!(s.isolated_papers.len(), 1);
    assert_eq!(s.isolated_papers[0].id, Some(4));
}

#[test]
fn crawl_fetches_each_id_once() {
    let crawler = CitationCrawler::new(2, 10);
    let seed = paper(1, "S").with_semantic_scholar_id("S0".to_string());
    let mut crawl = crawler.start(Some(seed), CrawlDirection::Both);
    assert_eq!(crawl.step(), CrawlStep::FetchCitations("S0".to_string()));
    assert_eq!(crawl.take_citations(vec![found(2, Some("S1"))]), CrawlStep::FetchReferences("S0".to_string()));
    assert_eq!(crawl.take_references(vec![]), CrawlStep::FetchCitations("S1".to_string()));
    assert_eq!(crawl.take_citations(vec![found(1, Some("S0"))]), CrawlStep::FetchReferences("S1".to_string()));
    assert_eq!(crawl.take_references(vec![]), CrawlStep::Done);
    let g = crawl.finish();
    assert_eq!(g.paper_count(), 2);
    assert_eq!(g.get_cited_by(1), Some(&[2i64][..]));
    assert_eq!(g.get_cited_by(2), Some(&[1i64][..]));
}

#[test]
fn papers_listed_by_title() {
    let ps = vec![paper(1, "beta"), paper(2, "Alpha"), paper(3, "alpha"), paper(4, "beta"), paper(5, "al")];
    let sorted = crabref::title_order::sort_by_title(ps.clone());
    let ids: Vec<Option<i64>> = sorted.iter().map(|p| p.id).collect();
    assert_eq!(ids, vec![Some(2), Some(5), Some(3), Some(1), Some(4)]);
    let first = crabref::title_order::first_by_title(ps, 2);
    assert_eq!(first.len(), 2);
    assert_eq!(first[1].title, "al");
    assert!(crabref::title_order::text_le_chars(&['a', 'b'], &['a', 'b', 'c']));
    assert!(!crabref::title_order::text_le_chars(&['b'], &['a', 'z']));
}
