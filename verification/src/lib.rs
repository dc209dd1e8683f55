//! Paper reference management: identifiers, source records, citation graphs
//! and the text formats that the tool reads and writes.

pub mod text;
pub mod models;
pub mod source;
pub mod identifier;
pub mod http;
pub mod arxiv;
pub mod openalex;
pub mod graph;
pub mod sort;
pub mod title_order;
pub mod stats;
pub mod manager;
pub mod output;
pub mod bibtex;
pub mod markdown;
pub mod terminal;
pub mod crawler;
pub mod retry;
pub mod setup;
pub mod pdf;
pub mod records;
pub mod cli;

pub use arxiv::ArxivSource;
pub use graph::CitationGraph;
pub use identifier::Identifier;
pub use manager::{SemanticScholarSource, SourceBuilder};
pub use models::{Author, Citation, Paper, PaperAuthor, Timestamp};
pub use openalex::OpenAlexSource;
pub use source::{SearchParams, SearchResult, SourceCapabilities, SourceConfig, SourceError, SourceKind};
pub use stats::CitationStats;
