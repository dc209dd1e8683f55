use crabref::{SourceBuilder, SourceConfig, SourceError};

#[test]
fn test_source_builder_new() {
    let builder = SourceBuilder::new();
    assert_eq!(builder.config.api_key, None);
    assert_eq!(builder.config.proxy, None);
    assert_eq!(builder.config.timeout, 30);
}

#[test]
fn test_source_builder_api_key() {
    let builder = SourceBuilder::new().api_key("test-key");
    assert_eq!(builder.config.api_key, Some("test-key".to_string()));
}

#[test]
fn test_source_builder_proxy() {
    let builder = SourceBuilder::new().proxy("http://127.0.0.1:7890");
    assert_eq!(builder.config.proxy, Some("http://127.0.0.1:7890".to_string()));
}

#[test]
fn test_source_builder_timeout() {
    let builder = SourceBuilder::new().timeout(60);
    assert_eq!(builder.config.timeout, 60);
}

#[test]
fn test_source_builder_max_retries() {
    let builder = SourceBuilder::new().max_retries(5);
    assert_eq!(builder.config.max_retries, 5);
}

#[test]
fn test_source_builder_build_arxiv() {
    let source = SourceBuilder::new().build_arxiv();
    assert!(source.is_ok());
}

#[test]
fn test_source_builder_build_semantic_scholar() {
    let source = SourceBuilder::new().build_semantic_scholar();
    assert!(source.is_ok());
}

#[test]
fn test_source_builder_chained() {
    let source = SourceBuilder::new()
        .api_key("test-key")
        .proxy("http://127.0.0.1:7890")
        .timeout(60)
        .max_retries(5)
        .build_arxiv();

    assert!(source.is_ok());
}

#[test]
fn builder_refuses_a_bad_proxy() {
    let source = SourceBuilder::new().proxy("not a proxy address").build_openalex();
    assert!(matches!(source, Err(SourceError::Network(_))));
}

#[test]
fn empty_proxy_is_ignored() {
    let config = SourceConfig { proxy: Some(String::new()), ..SourceConfig::default() };
    assert!(crabref::ArxivSource::new(config).is_ok());
}

#[test]
fn source_client_uses_the_configured_timeout_and_proxy() {
    let config = SourceConfig { timeout: 7, proxy: Some("http://127.0.0.1:3128".to_string()), ..SourceConfig::default() };
    let s = crabref::ArxivSource::new(config).unwrap();
    let d = format!("{:?}", s.client());
    assert!(d.contains("7s"));
    assert!(d.contains("127.0.0.1"));
}

#[test]
fn downloader_client_uses_its_timeouts_and_proxy() {
    let dl = crabref::pdf::PdfDownloader::new_with_proxy(Some("http://127.0.0.1:3128")).unwrap();
    let d = format!("{:?}", dl.client());
    assert!(d.contains("300s"));
    assert!(d.contains("120s"));
    assert!(d.contains("127.0.0.1"));
}
