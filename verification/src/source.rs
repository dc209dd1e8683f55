//! Common types of the paper sources: errors, search parameters and
//! results, source kinds and capabilities, configuration, identifiers.

use vstd::prelude::*;
use crate::models::Paper;
use crate::text::{decimal, push_decimal, push_str, to_string};

verus! {

broadcast use vstd::string::group_string_axioms;

/// An error reported by a paper source.
#[derive(Debug)]
pub enum SourceError {
    /// A network request failed.
    Network(String),
    /// A response could not be parsed.
    Parse(String),
    /// The source limits the request rate.
    RateLimit { retry_after: Option<u64> },
    /// No paper was found.
    NotFound,
    /// Any other error.
    Other(String),
}

/// The message of an error.
pub open spec fn error_message(e: SourceError) -> Seq<char> {
    match e {
        SourceError::Network(m) => "网络错误: "@ + m@,
        SourceError::Parse(m) => "解析错误: "@ + m@,
        SourceError::RateLimit { retry_after } => match retry_after {
            Some(s) => "速率限制，"@ + ("请等待 "@ + decimal(s as nat) + " 秒后重试"@),
            None => "速率限制，"@ + "请稍后重试"@,
        },
        SourceError::NotFound => "未找到论文"@,
        SourceError::Other(m) => "错误: "@ + m@,
    }
}

impl SourceError {
    /// The message shown for this error.
    pub fn to_string(&self) -> (r: String)
        ensures
            r@ == error_message(*self),
    {
        match self {
            SourceError::Network(m) => {
                let mut r = to_string("网络错误: ");
                push_str(&mut r, m.as_str());
                r
            },
            SourceError::Parse(m) => {
                let mut r = to_string("解析错误: ");
                push_str(&mut r, m.as_str());
                r
            },
            SourceError::RateLimit { retry_after } => {
                let mut r = to_string("速率限制，");
                match retry_after {
                    Some(s) => {
                        push_str(&mut r, "请等待 ");
                        push_decimal(&mut r, *s);
                        push_str(&mut r, " 秒后重试");
                        assert(r@ == "速率限制，"@ + ("请等待 "@ + decimal(*s as nat) + " 秒后重试"@));
                    },
                    None => {
                        push_str(&mut r, "请稍后重试");
                    },
                }
                r
            },
            SourceError::NotFound => to_string("未找到论文"),
            SourceError::Other(m) => {
                let mut r = to_string("错误: ");
                push_str(&mut r, m.as_str());
                r
            },
        }
    }
}

/// The papers a search returned.
#[derive(Debug, Clone)]
pub struct SearchResult {
    pub papers: Vec<Paper>,
    pub total: Option<usize>,
    pub has_more: bool,
}

/// The parameters of a search.
#[derive(Debug, Clone)]
pub struct SearchParams {
    /// The words searched for.
    pub query: String,
    /// Where the results start.
    pub offset: usize,
    /// The largest number of results.
    pub limit: usize,
    /// The field to sort by.
    pub sort_by: Option<String>,
    /// The sort order (ascending or descending).
    pub sort_order: Option<String>,
}

impl Default for SearchParams {
    /// An empty query from offset 0 with at most 10 results, unsorted.
    fn default() -> (r: Self)
        ensures
            r.query@ == Seq::<char>::empty(),
            r.offset == 0,
            r.limit == 10,
            r.sort_by is None,
            r.sort_order is None,
    {
        SearchParams { query: String::new(), offset: 0, limit: 10, sort_by: None, sort_order: None }
    }
}

impl SearchParams {

    /// A query for `query` with at most `limit` results, the rest as in `default`.
    pub fn for_query(query: String, limit: usize) -> (r: Self)
        ensures
            r.query@ == query@,
            r.offset == 0,
            r.limit == limit,
            r.sort_by is None,
            r.sort_order is None,
    {
        SearchParams { query, offset: 0, limit, sort_by: None, sort_order: None }
    }
}

/// Which service a paper source talks to.
#[derive(Debug, Clone, Copy, PartialEq, Eq, Hash)]
pub enum SourceKind {
    Arxiv,
    SemanticScholar,
    Crossref,
    OpenAlex,
    Pubmed,
    GoogleScholar,
    Custom(&'static str),
}

/// The name of a source kind.
pub open spec fn kind_name(k: SourceKind) -> Seq<char> {
    match k {
        SourceKind::Arxiv => "arxiv"@,
        SourceKind::SemanticScholar => "semantic_scholar"@,
        SourceKind::Crossref => "crossref"@,
        SourceKind::OpenAlex => "openalex"@,
        SourceKind::Pubmed => "pubmed"@,
        SourceKind::GoogleScholar => "google_scholar"@,
        SourceKind::Custom(name) => name@,
    }
}

impl SourceKind {
    pub fn as_str(&self) -> (r: &'static str)
        ensures
            r@ == kind_name(*self),
    {
        match self {
            SourceKind::Arxiv => "arxiv",
            SourceKind::SemanticScholar => "semantic_scholar",
            SourceKind::Crossref => "crossref",
            SourceKind::OpenAlex => "openalex",
            SourceKind::Pubmed => "pubmed",
            SourceKind::GoogleScholar => "google_scholar",
            SourceKind::Custom(name) => name,
        }
    }

    /// The name of the kind as an owned string (what the kind displays as).
    pub fn to_string(&self) -> (r: String)
        ensures
            r@ == kind_name(*self),
    {
        to_string(self.as_str())
    }
}

/// What a paper source can do.
#[derive(Debug, Clone, Copy, PartialEq, Eq)]
pub struct SourceCapabilities {
    /// It can search.
    pub search: bool,
    /// It can fetch a paper by its id.
    pub get_by_id: bool,
    /// It can list the papers that cite a paper.
    pub citations: bool,
    /// It can list the papers a paper cites.
    pub references: bool,
    /// It can list authors.
    pub authors: bool,
    /// It can download PDFs.
    pub pdf_download: bool,
}

/// The configuration of a paper source.
#[derive(Debug, Clone)]
pub struct SourceConfig {
    /// The API key.
    pub api_key: Option<String>,
    /// The proxy address.
    pub proxy: Option<String>,
    /// The request timeout in seconds.
    pub timeout: u64,
    /// The largest number of attempts for one request.
    pub max_retries: usize,
    /// The pause between attempts in milliseconds.
    pub retry_delay: u64,
}

impl Default for SourceConfig {
    /// No key, no proxy, 30 s timeout, 3 attempts, 1000 ms between them.
    fn default() -> (r: Self)
        ensures
            r.api_key is None,
            r.proxy is None,
            r.timeout == 30,
            r.max_retries == 3,
            r.retry_delay == 1000,
    {
        SourceConfig { api_key: None, proxy: None, timeout: 30, max_retries: 3, retry_delay: 1000 }
    }
}

impl Default for SearchResult {
    /// No papers, no total, nothing more.
    fn default() -> (r: Self)
        ensures
            r.papers@.len() == 0,
            r.total is None,
            !r.has_more,
    {
        SearchResult { papers: Vec::new(), total: None, has_more: false }
    }
}

} // verus!
