//! Output formats: the kinds of output and what every formatter provides.

use vstd::prelude::*;
use crate::models::{Author, AuthorView, Paper, PaperView, authors_view};
use crate::stats::CitationStats;
use crate::text::{push_str, to_chars, to_lowercase, to_string, unicode_lowercase};

verus! {

broadcast use vstd::string::group_string_axioms;

/// Which way a list of citations goes.
#[derive(Debug, Clone, Copy, PartialEq, Eq)]
pub enum CitationDirection {
    /// The papers that cite a paper.
    Citing,
    /// The papers a paper cites.
    Cited,
}

/// A paper's database id, or 0 where it has none.
pub open spec fn id_or_zero(id: Option<i64>) -> int {
    match id {
        Some(i) => i as int,
        None => 0,
    }
}

/// The views of citation pairs: a paper and the authors listed with it.
pub open spec fn citation_views(cs: Seq<(Paper, Vec<Author>)>) -> Seq<(PaperView, Seq<AuthorView>)> {
    cs.map_values(|c: (Paper, Vec<Author>)| (c.0@, authors_view(c.1@)))
}

/// The output formats.
#[derive(Debug, Clone, Copy, Default, PartialEq, Eq)]
pub enum OutputFormat {
    #[default]
    Terminal,
    Json,
    Bibtex,
    Markdown,
}

/// The file extension of a format.
pub open spec fn format_extension(f: OutputFormat) -> Seq<char> {
    match f {
        OutputFormat::Terminal => "txt"@,
        OutputFormat::Json => "json"@,
        OutputFormat::Bibtex => "bib"@,
        OutputFormat::Markdown => "md"@,
    }
}

/// The format a name stands for, ignoring case; an unknown name gives the
/// message `Unknown format: ` and the name.
pub open spec fn format_named(s: Seq<char>) -> Result<OutputFormat, Seq<char>> {
    let l = unicode_lowercase(s);
    if l == "terminal"@ || l == "text"@ {
        Ok(OutputFormat::Terminal)
    } else if l == "json"@ {
        Ok(OutputFormat::Json)
    } else if l == "bibtex"@ || l == "bib"@ {
        Ok(OutputFormat::Bibtex)
    } else if l == "markdown"@ || l == "md"@ {
        Ok(OutputFormat::Markdown)
    } else {
        Err("Unknown format: "@ + s)
    }
}

fn same_text(a: &String, b: &str) -> (r: bool)
    ensures
        r == (a@ == b@),
{
    let x = to_chars(a.as_str());
    let y = to_chars(b);
    crate::text::chars_eq(x.as_slice(), y.as_slice())
}

impl OutputFormat {
    pub fn extension(&self) -> (r: &'static str)
        ensures
            r@ == format_extension(*self),
    {
        match self {
            OutputFormat::Terminal => "txt",
            OutputFormat::Json => "json",
            OutputFormat::Bibtex => "bib",
            OutputFormat::Markdown => "md",
        }
    }

    /// The format a name stands for.
    pub fn parse_name(s: &str) -> (r: Result<Self, String>)
        ensures
            match (r, format_named(s@)) {
                (Ok(a), Ok(b)) => a == b,
                (Err(m), Err(n)) => m@ == n,
                _ => false,
            },
    {
        let l = to_lowercase(s);
        if same_text(&l, "terminal") || same_text(&l, "text") {
            Ok(OutputFormat::Terminal)
        } else if same_text(&l, "json") {
            Ok(OutputFormat::Json)
        } else if same_text(&l, "bibtex") || same_text(&l, "bib") {
            Ok(OutputFormat::Bibtex)
        } else if same_text(&l, "markdown") || same_text(&l, "md") {
            Ok(OutputFormat::Markdown)
        } else {
            let mut m = to_string("Unknown format: ");
            push_str(&mut m, s);
            Err(m)
        }
    }
}

impl std::str::FromStr for OutputFormat {
    type Err = String;

    fn from_str(s: &str) -> (r: Result<Self, Self::Err>)
        ensures
            match (r, format_named(s@)) {
                (Ok(a), Ok(b)) => a == b,
                (Err(m), Err(n)) => m@ == n,
                _ => false,
            },
    {
        OutputFormat::parse_name(s)
    }
}

/// What every output formatter provides. The average number of citations
/// of the statistics is handed in already written out.
pub trait OutputFormatter {
    /// A list of papers.
    fn format_papers(&self, papers: &[Paper]) -> String;

    /// One paper in detail.
    fn format_paper_detail(&self, paper: &Paper) -> String;

    /// A list of citations.
    fn format_citations(&self, citations: &[(Paper, Vec<Author>)], direction: CitationDirection) -> String;

    /// Citation statistics.
    fn format_stats(&self, stats: &CitationStats, average: &str) -> String;

    /// The file extension of the format.
    fn extension(&self) -> &'static str;
}

} // verus!
