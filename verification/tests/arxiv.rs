use crabref::{ArxivSource, SearchParams, SourceConfig, SourceKind};

fn create_test_source() -> ArxivSource {
    ArxivSource::new(SourceConfig::default()).unwrap()
}

#[test]
fn arxiv_test_url_encode() {
    assert_eq!(ArxivSource::url_encode("hello"), "hello");
    assert_eq!(ArxivSource::url_encode("hello world"), "hello%20world");
    assert_eq!(ArxivSource::url_encode("machine+learning"), "machine%2Blearning");
    assert_eq!(ArxivSource::url_encode("test-123"), "test-123");
    assert_eq!(ArxivSource::url_encode("test_abc"), "test_abc");
}

#[test]
fn test_build_search_url() {
    let source = create_test_source();
    let params = SearchParams {
        query: "machine learning".to_string(),
        offset: 0,
        limit: 10,
        sort_by: Some("relevance".to_string()),
        sort_order: Some("descending".to_string()),
    };

    let url = source.build_search_url(&params);
    assert!(url.contains("search_query=machine%20learning"));
    assert!(url.contains("start=0"));
    assert!(url.contains("max_results=10"));
    assert!(url.contains("sortBy=relevance"));
    assert!(url.contains("sortOrder=descending"));
}

#[test]
fn test_parse_empty_response() {
    let source = create_test_source();
    let xml = "";
    let papers = source.parse_response(xml).unwrap();
    assert_eq!(papers.len(), 0);
}

#[test]
fn test_parse_single_entry() {
    let source = create_test_source();
    let xml = r#"
<entry>
    <title>Test Paper Title</title>
    <summary>This is a test abstract.</summary>
    <id>http://arxiv.org/abs/2301.00001</id>
    <link href="https://arxiv.org/pdf/2301.00001" title="pdf"/>
    <arxiv:doi>10.1234/test</arxiv:doi>
</entry>
"#;
    let papers = source.parse_response(xml).unwrap();
    assert_eq!(papers.len(), 1);
    assert_eq!(papers[0].title, "Test Paper Title");
    assert_eq!(papers[0].abstract_text, Some("This is a test abstract.".to_string()));
    assert_eq!(papers[0].arxiv_id, Some("2301.00001".to_string()));
    assert_eq!(papers[0].pdf_url, Some("https://arxiv.org/pdf/2301.00001".to_string()));
}

#[test]
fn test_parse_multiple_entries() {
    let source = create_test_source();
    let xml = r#"
<entry>
    <title>Paper 1</title>
    <id>http://arxiv.org/abs/2301.00001</id>
</entry>
<entry>
    <title>Paper 2</title>
    <id>http://arxiv.org/abs/2301.00002</id>
</entry>
"#;
    let papers = source.parse_response(xml).unwrap();
    assert_eq!(papers.len(), 2);
    assert_eq!(papers[0].title, "Paper 1");
    assert_eq!(papers[1].title, "Paper 2");
}

#[test]
fn test_extract_tag() {
    let source = create_test_source();
    let xml = "<title>Test Title</title>";
    assert_eq!(source.extract_tag(xml, "title"), Some("Test Title".to_string()));
    assert_eq!(source.extract_tag(xml, "summary"), None);
}

#[test]
fn test_extract_pdf_link() {
    let source = create_test_source();
    let xml1 = r#"<link href="https://arxiv.org/pdf/2301.00001" title="pdf"/>"#;
    assert_eq!(source.extract_pdf_link(xml1), Some("https://arxiv.org/pdf/2301.00001".to_string()));

    let xml2 = r#"<link href="https://arxiv.org/pdf/2301.00002" type="application/pdf"/>"#;
    assert_eq!(source.extract_pdf_link(xml2), Some("https://arxiv.org/pdf/2301.00002".to_string()));

    let xml3 = r#"<link href="https://arxiv.org/abs/2301.00003"/>"#;
    assert_eq!(source.extract_pdf_link(xml3), None);
}

#[test]
fn arxiv_test_capabilities() {
    let source = create_test_source();
    let caps = source.capabilities();
    assert!(caps.search);
    assert!(caps.get_by_id);
    assert!(!caps.citations);
    assert!(!caps.references);
    assert!(caps.pdf_download);
}

#[test]
fn arxiv_test_source_kind() {
    let source = create_test_source();
    assert_eq!(source.kind(), SourceKind::Arxiv);
    assert_eq!(source.name(), "arXiv");
}

#[test]
fn test_new_with_proxy() {
    let config = SourceConfig {
        proxy: Some("http://127.0.0.1:7890".to_string()),
        ..SourceConfig::default()
    };
    let source = ArxivSource::new(config);
    assert!(source.is_ok());
}

#[test]
fn arxiv_entry_without_title_is_skipped() {
    let source = create_test_source();
    let xml = "<entry><id>http://arxiv.org/abs/2301.00009</id></entry>";
    let papers = source.parse_response(xml).unwrap();
    assert_eq!(papers.len(), 0);
}

#[test]
fn arxiv_authors_are_read_in_order() {
    let source = create_test_source();
    let xml = "<author><name>Ada Lovelace</name></author><author><name>Alan Turing</name></author>";
    let authors = source.extract_authors(xml);
    assert_eq!(authors.len(), 2);
    assert_eq!(authors[0].name, "Ada Lovelace");
    assert_eq!(authors[1].name, "Alan Turing");
}

#[test]
fn arxiv_lookup_of_an_abstract_page_url() {
    let params = ArxivSource::lookup_params("https://arxiv.org/abs/2301.00001");
    assert_eq!(params.query, "id:2301.00001");
    assert_eq!(params.limit, 1);
}

#[test]
fn arxiv_has_no_citation_lists() {
    let source = create_test_source();
    match source.get_citations("x", 5) {
        Err(crabref::SourceError::Other(m)) => assert_eq!(m, "arXiv 不支持获取引用关系"),
        _ => panic!("expected an error"),
    }
    match source.get_references("x", 5) {
        Err(crabref::SourceError::Other(m)) => assert_eq!(m, "arXiv 不支持获取参考文献"),
        _ => panic!("expected an error"),
    }
}
