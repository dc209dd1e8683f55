use crabref::cli::{
    checkmark, found_papers_text, graph_format_name, listing, matched_papers_text, paper_detail_text, relations,
    sort_by_name, source_summary, stats_summary, with_prefix,
};
use crabref::manager::{fallback_plan, lookup_plan, merge_search, no_relation_source, relation_outcome, LookupCall};
use crabref::pdf::{download_target, PdfDownloader, PdfError};
use crabref::records::{first_distinct, record_to_paper, stored_author, PaperRecord};
use crabref::retry::{parse_failure, Attempt, Retry, RetryAction};
use crabref::setup::{
    assemble_graph, build_sources, refreshed, save_lookups, sync_target, Config, CrabRefBuilder, GraphFormat, SortBy,
    StoredLookup,
};
use crabref::{Author, CitationStats, Paper, SearchResult, SourceCapabilities, SourceError, SourceKind, Timestamp};

#[test]
fn retry_gives_up_with_the_last_error() {
    let mut r = Retry::new(3, true);
    assert!(matches!(r.next(), RetryAction::Send));
    assert!(matches!(r.record(Attempt::Status { code: 429, text: "429 Too Many Requests".to_string() }), RetryAction::Wait { pauses: 2 }));
    assert!(matches!(r.next(), RetryAction::Send));
    assert!(matches!(r.record(Attempt::Failed("reset".to_string())), RetryAction::Wait { pauses: 1 }));
    assert!(matches!(r.next(), RetryAction::Send));
    assert!(matches!(
        r.record(Attempt::Status { code: 500, text: "500 Internal Server Error".to_string() }),
        RetryAction::Wait { pauses: 1 }
    ));
    match r.next() {
        RetryAction::Fail(SourceError::Network(m)) => assert_eq!(m, "HTTP 500 Internal Server Error"),
        other => panic!("unexpected {:?}", other),
    }
}

#[test]
fn retry_rate_limit_is_remembered() {
    let mut r = Retry::new(1, false);
    assert!(matches!(r.next(), RetryAction::Send));
    r.record(Attempt::Status { code: 429, text: "429 Too Many Requests".to_string() });
    assert!(matches!(r.next(), RetryAction::Fail(SourceError::RateLimit { retry_after: None })));
}

#[test]
fn retry_not_found_ends_at_once_where_asked() {
    let mut r = Retry::new(3, true);
    r.next();
    assert!(matches!(r.record(Attempt::Status { code: 404, text: "404 Not Found".to_string() }), RetryAction::Fail(SourceError::NotFound)));
    let mut q = Retry::new(3, false);
    q.next();
    assert!(matches!(q.record(Attempt::Status { code: 404, text: "404 Not Found".to_string() }), RetryAction::Wait { pauses: 1 }));
}

#[test]
fn retry_success_is_read_and_zero_attempts_fail() {
    let mut r = Retry::new(2, true);
    r.next();
    assert!(matches!(r.record(Attempt::Success), RetryAction::Read));
    let mut z = Retry::new(0, true);
    match z.next() {
        RetryAction::Fail(SourceError::Network(m)) => assert_eq!(m, "Max retries exceeded"),
        other => panic!("unexpected {:?}", other),
    }
}

#[test]
fn parse_failure_shows_the_head_of_the_body() {
    let body = "x".repeat(250);
    match parse_failure("bad json", &body) {
        SourceError::Parse(m) => assert_eq!(m, format!("bad json (response: {}...)", "x".repeat(200))),
        other => panic!("unexpected {:?}", other),
    }
    match parse_failure("e", "{}") {
        SourceError::Parse(m) => assert_eq!(m, "e (response: {}...)"),
        other => panic!("unexpected {:?}", other),
    }
}

#[test]
fn parse_failure_counts_the_head_in_bytes() {
    let body = "é".repeat(150);
    match parse_failure("bad", &body) {
        SourceError::Parse(m) => assert_eq!(m, format!("bad (response: {}...)", "é".repeat(100))),
        other => panic!("unexpected {:?}", other),
    }
    let body = format!("{}é", "x".repeat(199));
    match parse_failure("bad", &body) {
        SourceError::Parse(m) => assert_eq!(m, format!("bad (response: {}...)", "x".repeat(199))),
        other => panic!("unexpected {:?}", other),
    }
}

#[test]
fn lookup_plans_by_identifier_kind() {
    let plan = lookup_plan("arxiv:2301.00001");
    assert_eq!(plan.len(), 2);
    assert_eq!(plan[0].kind, SourceKind::Arxiv);
    assert!(matches!(&plan[0].call, LookupCall::ById(id) if id == "2301.00001"));
    assert_eq!(plan[1].kind, SourceKind::SemanticScholar);
    assert!(matches!(&plan[1].call, LookupCall::ByIdentifier(id) if id == "arxiv:2301.00001"));

    let plan = lookup_plan("10.1234/x");
    assert_eq!(plan.len(), 1);
    assert!(matches!(&plan[0].call, LookupCall::ByIdentifier(id) if id == "doi:10.1234/x"));

    let plan = lookup_plan("ss:abc");
    assert!(matches!(&plan[0].call, LookupCall::ById(id) if id == "abc"));

    let plan = lookup_plan("https://arxiv.org/abs/2301.00001");
    assert_eq!(plan[0].kind, SourceKind::Arxiv);
    assert!(lookup_plan("https://example.com/x").is_empty());
    assert!(lookup_plan("pmid:123").is_empty());
}

#[test]
fn fallback_plan_keeps_sources_that_fetch_by_id() {
    let yes = SourceCapabilities { search: true, get_by_id: true, citations: false, references: false, authors: false, pdf_download: false };
    let no = SourceCapabilities { get_by_id: false, ..yes };
    let plan = fallback_plan(&[(SourceKind::Arxiv, yes), (SourceKind::Crossref, no), (SourceKind::OpenAlex, yes)], "x");
    assert_eq!(plan.len(), 2);
    assert_eq!(plan[0].kind, SourceKind::Arxiv);
    assert_eq!(plan[1].kind, SourceKind::OpenAlex);
}

#[test]
fn relation_outcomes() {
    assert!(relation_outcome(Err(SourceError::NotFound)).is_none());
    assert!(matches!(relation_outcome(Err(SourceError::Other("x".to_string()))), Some(Err(SourceError::Other(_)))));
    assert!(matches!(relation_outcome(Ok(vec![])), Some(Ok(v)) if v.is_empty()));
    match no_relation_source(true) {
        SourceError::Other(m) => assert_eq!(m, "没有支持获取参考文献的论文源"),
        other => panic!("unexpected {:?}", other),
    }
    match no_relation_source(false) {
        SourceError::Other(m) => assert_eq!(m, "没有支持获取引用关系的论文源"),
        other => panic!("unexpected {:?}", other),
    }
}

#[test]
fn merged_search_tags_papers() {
    let mut results = Vec::new();
    let found = SearchResult { papers: vec![Paper::new("A".to_string()), Paper::new("B".to_string())], total: None, has_more: false };
    merge_search(&mut results, SourceKind::OpenAlex, Ok(found));
    merge_search(&mut results, SourceKind::Arxiv, Err(SourceError::RateLimit { retry_after: None }));
    assert_eq!(results.len(), 2);
    assert_eq!(results[1].0, SourceKind::OpenAlex);
    assert_eq!(results[1].1.title, "B");
}

#[test]
fn config_and_builder() {
    let c = Config::default();
    assert_eq!(c.citation_depth, 1);
    assert!(c.proxy.is_none());
    assert_eq!(Config::pdf_file_name("2301.00001"), "2301.00001.pdf");
    assert!(c.pdf_path("2301.00001").ends_with("2301.00001.pdf"));
    let b = CrabRefBuilder::new().proxy("http://127.0.0.1:7890").api_key("k").pdf_dir(std::path::PathBuf::from("/tmp/p"));
    assert_eq!(b.config.proxy, Some("http://127.0.0.1:7890".to_string()));
    assert_eq!(b.config.semantic_scholar_api_key, Some("k".to_string()));
    assert_eq!(b.config.pdf_storage_path, std::path::PathBuf::from("/tmp/p"));
    assert_eq!(SortBy::default(), SortBy::Created);
    assert_eq!(GraphFormat::default(), GraphFormat::Dot);
}

#[test]
fn sources_are_built_with_their_attempts() {
    let mut c = Config::default();
    c.semantic_scholar_api_key = Some("key".to_string());
    let (a, s, o) = build_sources(&c).unwrap();
    assert_eq!(a.get_config().max_retries, 3);
    assert_eq!(s.get_config().max_retries, 5);
    assert_eq!(s.get_config().api_key, Some("key".to_string()));
    assert_eq!(o.get_config().max_retries, 3);
    assert_eq!(a.get_config().timeout, 30);
    c.semantic_scholar_api_key = Some(String::new());
    c.proxy = Some(String::new());
    let (_, s, o) = build_sources(&c).unwrap();
    assert_eq!(s.get_config().api_key, None);
    assert_eq!(o.get_config().proxy, None);
    c.proxy = Some("not a proxy".to_string());
    assert!(matches!(build_sources(&c), Err(SourceError::Network(_))));
}

#[test]
fn save_lookups_skip_empty_ids() {
    let p = Paper::new("T".to_string()).with_arxiv_id(String::new()).with_semantic_scholar_id("S".to_string());
    let l = save_lookups(&p);
    assert_eq!(l.len(), 1);
    assert!(matches!(&l[0], StoredLookup::BySemanticScholarId(s) if s == "S"));
    let q = Paper::new("T".to_string()).with_arxiv_id("1".to_string()).with_semantic_scholar_id("S".to_string());
    let l = save_lookups(&q);
    assert!(matches!(&l[0], StoredLookup::ByArxivId(s) if s == "1"));
    assert_eq!(l.len(), 2);
}

#[test]
fn refreshed_and_sync_target() {
    let mut p = Paper::new("T".to_string()).with_semantic_scholar_id("S".to_string());
    assert_eq!(sync_target(&p), None);
    p.id = Some(3);
    assert_eq!(sync_target(&p), Some("S".to_string()));
    let t = Timestamp { secs: 100, nanos: 5 };
    let r = refreshed(&p, 42, t);
    assert_eq!(r.citation_count, 42);
    assert_eq!(r.updated_at, t);
    assert_eq!(r.title, "T");
    assert_eq!(r.created_at, p.created_at);
}

#[test]
fn stored_graph_is_assembled() {
    let mut a = Paper::new("A".to_string());
    a.id = Some(1);
    let mut b = Paper::new("B".to_string());
    b.id = Some(2);
    let c = Paper::new("no id".to_string());
    let g = assemble_graph(&[a, b, c], &vec![Some(vec![2]), None, None], &vec![None, Some(vec![1, 5]), None]);
    assert_eq!(g.paper_count(), 2);
    assert_eq!(g.edge_count(), 3);
    assert_eq!(g.get_cited_by(2), Some(&[1i64, 1, 5][..]));
    assert_eq!(g.get_citations(5), Some(&[2i64][..]));
}

#[test]
fn pdf_urls_and_names() {
    assert!(PdfDownloader::is_pdf_url("http://x/a.pdf"));
    assert!(PdfDownloader::is_pdf_url("http://x/pdfs/1"));
    assert!(!PdfDownloader::is_pdf_url("http://x/paper"));
    assert_eq!(PdfDownloader::extract_filename("https://arxiv.org/pdf/2301.00001"), Some("2301.00001.pdf".to_string()));
    assert_eq!(PdfDownloader::extract_filename("http://x/a.pdf"), Some("a.pdf".to_string()));
    assert_eq!(PdfDownloader::arxiv_pdf_url("2301.00001"), "https://arxiv.org/pdf/2301.00001");
    let t = download_target("2301.00001");
    assert_eq!(t.url, "https://arxiv.org/pdf/2301.00001");
    assert_eq!(t.file_name, "2301.00001.pdf");
    let t = download_target("https://example.org/files/paper");
    assert_eq!(t.url, "https://example.org/files/paper");
    assert_eq!(t.file_name, "paper.pdf");
}

#[test]
fn pdf_downloader_proxy() {
    assert!(PdfDownloader::new().is_ok());
    assert!(PdfDownloader::new_with_proxy(Some("")).is_ok());
    assert!(PdfDownloader::new_with_proxy(Some("http://127.0.0.1:7890")).is_ok());
    assert!(matches!(PdfDownloader::new_with_proxy(Some("not a proxy")), Err(PdfError::Proxy(_))));
}

#[test]
fn records_become_papers() {
    let rec = PaperRecord {
        id: 9,
        title: "T".to_string(),
        abstract_text: None,
        arxiv_id: Some("1".to_string()),
        semantic_scholar_id: None,
        doi: None,
        pdf_url: None,
        local_pdf_path: None,
        publication_date: None,
        venue: None,
        citation_count: 4,
        created_at: "2024-01-02T03:04:05Z".to_string(),
        updated_at: "2024-01-02T04:04:05+01:00".to_string(),
    };
    let p = record_to_paper(rec, vec![stored_author(2, "A".to_string(), None)]);
    assert_eq!(p.id, Some(9));
    assert_eq!(p.created_at, Timestamp { secs: 1704164645, nanos: 0 });
    assert_eq!(p.updated_at, Timestamp { secs: 1704164645, nanos: 0 });
    assert_eq!(p.authors[0].id, Some(2));
    assert_eq!(p.authors[0].orcid, None);
}

#[test]
fn distinct_ids_in_first_order() {
    assert_eq!(first_distinct(&[3, 1, 3, 2, 1], 10), vec![3, 1, 2]);
    assert_eq!(first_distinct(&[3, 1, 3, 2, 1], 2), vec![3, 1]);
    assert_eq!(first_distinct(&[], 2), Vec::<i64>::new());
}

#[test]
fn cli_options() {
    assert_eq!(checkmark(true), "✓");
    assert_eq!(checkmark(false), "✗");
    assert_eq!(sort_by_name("citation"), SortBy::Citation);
    assert_eq!(sort_by_name("title"), SortBy::Title);
    assert_eq!(sort_by_name("whatever"), SortBy::Created);
    assert_eq!(graph_format_name("json"), GraphFormat::Json);
    assert_eq!(graph_format_name("svg"), GraphFormat::Dot);
    assert_eq!(with_prefix("2301.1", "arxiv:"), "arxiv:2301.1");
    assert_eq!(with_prefix("arxiv:2301.1", "arxiv:"), "arxiv:2301.1");
}

#[test]
fn cli_texts() {
    let mut p = Paper::new("T".to_string()).with_arxiv_id("1".to_string()).with_authors(vec![Author::new("A".to_string()), Author::new("B".to_string())]);
    assert_eq!(found_papers_text(&[p.duplicate()]), "Found 1 papers:\n\n---\nTitle: T\narXiv ID: 1\nAuthors: A, B\nCitations: 0\nPDF: N/A\n");
    assert_eq!(paper_detail_text(&p), "Title: T\narXiv ID: 1\nAuthors: A, B\nCitations: 0\nPDF: N/A\n");
    assert_eq!(listing(&[p.duplicate()]), "1 papers in database:\n\nID: -1\nTitle: T\narXiv: 1\nSS: N/A\nCitations: 0\n");
    p.id = Some(4);
    assert_eq!(matched_papers_text(&[p.duplicate()]), "Found 1 papers:\n\nID: 4\nTitle: T\nCitations: 0\n");
    assert_eq!(relations(&[(p.duplicate(), vec![])], true), "References 1 papers:\n\n---\nTitle: T\n");
    assert_eq!(stats_summary(&CitationStats::default(), "0.00"), "=== Citation Statistics ===\nTotal papers: 0\nTotal citation edges: 0\nAverage citations: 0.00\nH-index: 0\nMax citations: 0\n");
    let caps = SourceCapabilities { search: true, get_by_id: false, citations: false, references: false, authors: false, pdf_download: true };
    assert_eq!(
        source_summary("arXiv", SourceKind::Arxiv, caps),
        "\narXiv (arxiv)\n  Search: ✓\n  Get by ID: ✗\n  Citations: ✗\n  References: ✗\n  PDF download: ✓\n"
    );
}

#[test]
fn default_storage_is_under_the_data_directory() {
    let c = crabref::setup::config_under(Some(std::path::PathBuf::from("/data")));
    assert_eq!(c.pdf_storage_path, std::path::PathBuf::from("/data/crabref/papers"));
    assert_eq!(c.citation_depth, 1);
    assert_eq!(c.semantic_scholar_api_key, None);
    assert_eq!(c.proxy, None);
    let c = crabref::setup::config_under(None);
    assert_eq!(c.pdf_storage_path, std::path::PathBuf::from("./crabref/papers"));
}
