use crabref::{OpenAlexSource, SourceConfig, SourceKind};
use std::collections::HashMap;

fn create_test_source() -> OpenAlexSource {
    OpenAlexSource::new(SourceConfig::default()).unwrap()
}

#[test]
fn openalex_test_url_encode() {
    assert_eq!(OpenAlexSource::url_encode("hello"), "hello");
    assert_eq!(OpenAlexSource::url_encode("hello world"), "hello%20world");
    assert_eq!(OpenAlexSource::url_encode("machine learning"), "machine%20learning");
}

#[test]
fn test_extract_work_id() {
    assert_eq!(OpenAlexSource::extract_work_id("https://openalex.org/W2101234009"), "W2101234009");
    assert_eq!(OpenAlexSource::extract_work_id("W2101234009"), "W2101234009");
}

#[test]
fn test_reconstruct_abstract() {
    let mut inverted = HashMap::new();
    inverted.insert("Hello".to_string(), vec![0]);
    inverted.insert("world".to_string(), vec![1]);
    let inverted: Vec<(String, Vec<i32>)> = inverted.into_iter().collect();

    let result = OpenAlexSource::reconstruct_abstract(&inverted);
    assert_eq!(result, Some("Hello world".to_string()));
}

#[test]
fn test_reconstruct_abstract_empty() {
    let inverted: HashMap<String, Vec<i32>> = HashMap::new();
    let inverted: Vec<(String, Vec<i32>)> = inverted.into_iter().collect();
    let result = OpenAlexSource::reconstruct_abstract(&inverted);
    assert_eq!(result, None);
}

#[test]
fn openalex_test_capabilities() {
    let source = create_test_source();
    let caps = source.capabilities();
    assert!(caps.search);
    assert!(caps.get_by_id);
    assert!(!caps.citations);
    assert!(!caps.references);
    assert!(caps.authors);
    assert!(!caps.pdf_download);
}

#[test]
fn openalex_test_source_kind() {
    let source = create_test_source();
    assert_eq!(source.kind(), SourceKind::OpenAlex);
    assert_eq!(source.name(), "OpenAlex");
}

#[test]
fn openalex_abstract_with_repeated_words() {
    let inverted = vec![
        ("the".to_string(), vec![0, 2]),
        ("cat".to_string(), vec![1]),
        ("hat".to_string(), vec![3]),
    ];
    let result = OpenAlexSource::reconstruct_abstract(&inverted);
    assert_eq!(result, Some("the cat the hat".to_string()));
}

#[test]
fn openalex_work_url_with_email() {
    let source = OpenAlexSource::with_email(SourceConfig::default(), Some("me@example.org".to_string())).unwrap();
    let url = source.work_url("42");
    assert_eq!(url, "https://api.openalex.org/works/W42?mailto=me@example.org");
}
