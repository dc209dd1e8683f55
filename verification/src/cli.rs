//! What the command-line tool prints, and how it reads its options.

use vstd::prelude::*;
use crate::markdown::{nonempty_line, opt_line};
use crate::models::{Author, AuthorView, Paper, PaperView, author_names, authors_view, names_of};
use crate::output::citation_views;
use crate::setup::{GraphFormat, SortBy};
use crate::source::{SourceCapabilities, SourceKind, kind_name};
use crate::stats::{CitationStats, ranked_view};
use crate::terminal::or_na;
use crate::text::{
    chars_eq, concat, decimal, has_prefix, join, join_strings, lemma_concat_step, push_decimal,
    push_signed, push_str, signed_decimal, starts_with, to_chars, to_string,
};

verus! {

broadcast use vstd::string::group_string_axioms;

/// A check mark for a capability that is there, a cross for one that is not.
pub fn checkmark(b: bool) -> (r: &'static str)
    ensures
        r@ == (if b { "✓"@ } else { "✗"@ }),
{
    if b { "✓" } else { "✗" }
}

fn same(a: &str, b: &str) -> (r: bool)
    ensures
        r == (a@ == b@),
{
    let x = to_chars(a);
    let y = to_chars(b);
    chars_eq(x.as_slice(), y.as_slice())
}

/// The order a name asks for: `citation`, `title`, or else by creation.
pub fn sort_by_name(name: &str) -> (r: SortBy)
    ensures
        r == (if name@ == "citation"@ {
            SortBy::Citation
        } else if name@ == "title"@ {
            SortBy::Title
        } else {
            SortBy::Created
        }),
{
    if same(name, "citation") {
        SortBy::Citation
    } else if same(name, "title") {
        SortBy::Title
    } else {
        SortBy::Created
    }
}

/// The graph format a name asks for: `json`, or else DOT.
pub fn graph_format_name(name: &str) -> (r: GraphFormat)
    ensures
        r == (if name@ == "json"@ { GraphFormat::Json } else { GraphFormat::Dot }),
{
    if same(name, "json") {
        GraphFormat::Json
    } else {
        GraphFormat::Dot
    }
}

/// An id with a prefix, where it does not start with it already.
pub fn with_prefix(id: &str, prefix: &str) -> (r: String)
    ensures
        r@ == (if has_prefix(id@, prefix@) { id@ } else { prefix@ + id@ }),
{
    let cs = to_chars(id);
    let ps = to_chars(prefix);
    if starts_with(cs.as_slice(), ps.as_slice()) {
        to_string(id)
    } else {
        let mut r = to_string(prefix);
        push_str(&mut r, id);
        r
    }
}

/// The authors line: `Authors: ` and the names joined by `, `; nothing
/// without authors.
pub open spec fn author_list_line(a: Seq<AuthorView>) -> Seq<char> {
    if a.len() > 0 { "Authors: "@ + join(author_names(a), ", "@) + "\n"@ } else { Seq::empty() }
}

/// Appends the authors line.
pub fn push_author_list(out: &mut String, authors: &[Author])
    ensures
        final(out)@ == old(out)@ + author_list_line(authors_view(authors@)),
{
    if authors.len() > 0 {
        push_str(out, "Authors: ");
        let names = names_of(authors);
        push_str(out, join_strings(&names, ", ").as_str());
        push_str(out, "\n");
    }
}

/// The block of a found paper.
pub open spec fn found_block(p: PaperView) -> Seq<char> {
    "\n---\nTitle: "@ + p.title + "\n"@
        + nonempty_line("arXiv ID: "@, p.arxiv_id)
        + nonempty_line("SS ID: "@, p.semantic_scholar_id)
        + author_list_line(p.authors)
        + "Citations: "@ + signed_decimal(p.citation_count as int)
        + "\nPDF: "@ + or_na(p.pdf_url) + "\n"@
}

/// What a search prints: the number of papers found, then each.
pub open spec fn found_text(ps: Seq<PaperView>) -> Seq<char> {
    "Found "@ + decimal(ps.len()) + " papers:\n"@ + concat(ps.map_values(|p: PaperView| found_block(p)))
}

/// What a lookup prints of a paper.
pub open spec fn detail_text(p: PaperView) -> Seq<char> {
    "Title: "@ + p.title + "\n"@
        + opt_line("arXiv ID: "@, p.arxiv_id)
        + opt_line("SS ID: "@, p.semantic_scholar_id)
        + opt_line("DOI: "@, p.doi)
        + author_list_line(p.authors)
        + "Citations: "@ + signed_decimal(p.citation_count as int)
        + "\nPDF: "@ + or_na(p.pdf_url) + "\n"@
        + match p.abstract_text {
            Some(a) => "\nAbstract:\n"@ + a + "\n"@,
            None => Seq::empty(),
        }
}

/// The block of a citing or cited paper.
pub open spec fn relation_block(c: (PaperView, Seq<AuthorView>)) -> Seq<char> {
    "\n---\nTitle: "@ + c.0.title + "\n"@ + author_list_line(c.1)
}

/// What the citations (or, with `references`, the references) of a paper
/// print.
pub open spec fn relations_text(cs: Seq<(PaperView, Seq<AuthorView>)>, references: bool) -> Seq<char> {
    (if references { "References "@ } else { "Cited by "@ }) + decimal(cs.len()) + " papers:\n"@
        + concat(cs.map_values(|c: (PaperView, Seq<AuthorView>)| relation_block(c)))
}

/// A stored paper's id, or -1 where it has none.
pub open spec fn id_or_minus_one(id: Option<i64>) -> int {
    match id {
        Some(i) => i as int,
        None => -1,
    }
}

/// The block of a stored paper in a listing.
pub open spec fn listed_block(p: PaperView) -> Seq<char> {
    "\nID: "@ + signed_decimal(id_or_minus_one(p.id)) + "\nTitle: "@ + p.title
        + "\narXiv: "@ + or_na(p.arxiv_id) + "\nSS: "@ + or_na(p.semantic_scholar_id)
        + "\nCitations: "@ + signed_decimal(p.citation_count as int) + "\n"@
}

/// What listing the stored papers prints.
pub open spec fn listing_text(ps: Seq<PaperView>) -> Seq<char> {
    decimal(ps.len()) + " papers in database:\n"@ + concat(ps.map_values(|p: PaperView| listed_block(p)))
}

/// The block of a stored paper a search found.
pub open spec fn matched_block(p: PaperView) -> Seq<char> {
    "\nID: "@ + signed_decimal(id_or_minus_one(p.id)) + "\nTitle: "@ + p.title
        + "\nCitations: "@ + signed_decimal(p.citation_count as int) + "\n"@
}

/// What a search of the stored papers prints.
pub open spec fn matched_text(ps: Seq<PaperView>) -> Seq<char> {
    "Found "@ + decimal(ps.len()) + " papers:\n"@ + concat(ps.map_values(|p: PaperView| matched_block(p)))
}

/// The line of one of the most cited papers.
pub open spec fn top_line(r: (PaperView, i64)) -> Seq<char> {
    "  "@ + r.0.title + " (citations: "@ + signed_decimal(r.1 as int) + ")\n"@
}

/// What the statistics command prints; `average` is the average number of
/// citations, already written out. At most five most cited papers follow.
pub open spec fn stats_text(s: CitationStats, average: Seq<char>) -> Seq<char> {
    let r = ranked_view(s.most_cited_papers@);
    let top = if r.len() <= 5 { r } else { r.take(5) };
    "=== Citation Statistics ===\nTotal papers: "@ + decimal(s.total_papers as nat)
        + "\nTotal citation edges: "@ + decimal(s.total_citation_edges as nat)
        + "\nAverage citations: "@ + average
        + "\nH-index: "@ + signed_decimal(s.h_index as int)
        + "\nMax citations: "@ + signed_decimal(s.max_citations as int) + "\n"@
        + if r.len() > 0 {
            "\nMost cited papers:\n"@ + concat(top.map_values(|x: (PaperView, i64)| top_line(x)))
        } else {
            Seq::empty()
        }
}

/// What the sources command prints of one source.
pub open spec fn source_text(name: Seq<char>, kind: SourceKind, c: SourceCapabilities) -> Seq<char> {
    let mark = |b: bool| if b { "✓"@ } else { "✗"@ };
    "\n"@ + name + " ("@ + kind_name(kind) + ")\n  Search: "@ + mark(c.search)
        + "\n  Get by ID: "@ + mark(c.get_by_id)
        + "\n  Citations: "@ + mark(c.citations)
        + "\n  References: "@ + mark(c.references)
        + "\n  PDF download: "@ + mark(c.pdf_download) + "\n"@
}

fn push_opt_line(out: &mut String, label: &str, v: &Option<String>)
    ensures
        final(out)@ == old(out)@ + opt_line(label@, crate::models::opt_view(*v)),
{
    match v {
        Some(x) => {
            push_str(out, label);
            push_str(out, x.as_str());
            push_str(out, "\n");
        },
        None => {},
    }
}

fn push_nonempty_line(out: &mut String, label: &str, v: &Option<String>)
    ensures
        final(out)@ == old(out)@ + nonempty_line(label@, crate::models::opt_view(*v)),
{
    match v {
        Some(x) => {
            if !x.as_str().is_empty() {
                push_str(out, label);
                push_str(out, x.as_str());
                push_str(out, "\n");
            }
        },
        None => {},
    }
}

fn push_or_na(out: &mut String, v: &Option<String>)
    ensures
        final(out)@ == old(out)@ + or_na(crate::models::opt_view(*v)),
{
    match v {
        Some(x) => push_str(out, x.as_str()),
        None => push_str(out, "N/A"),
    }
}

fn found_block_of(p: &Paper) -> (r: String)
    ensures
        r@ == found_block(p@),
{
    let mut out = to_string("\n---\nTitle: ");
    push_str(&mut out, p.title.as_str());
    push_str(&mut out, "\n");
    push_nonempty_line(&mut out, "arXiv ID: ", &p.arxiv_id);
    push_nonempty_line(&mut out, "SS ID: ", &p.semantic_scholar_id);
    push_author_list(&mut out, p.authors.as_slice());
    push_str(&mut out, "Citations: ");
    push_signed(&mut out, p.citation_count);
    push_str(&mut out, "\nPDF: ");
    push_or_na(&mut out, &p.pdf_url);
    push_str(&mut out, "\n");
    out
}

fn listed_block_of(p: &Paper) -> (r: String)
    ensures
        r@ == listed_block(p@),
{
    let mut out = to_string("\nID: ");
    push_signed(&mut out, match p.id { Some(i) => i, None => -1 });
    push_str(&mut out, "\nTitle: ");
    push_str(&mut out, p.title.as_str());
    push_str(&mut out, "\narXiv: ");
    push_or_na(&mut out, &p.arxiv_id);
    push_str(&mut out, "\nSS: ");
    push_or_na(&mut out, &p.semantic_scholar_id);
    push_str(&mut out, "\nCitations: ");
    push_signed(&mut out, p.citation_count);
    push_str(&mut out, "\n");
    out
}

fn matched_block_of(p: &Paper) -> (r: String)
    ensures
        r@ == matched_block(p@),
{
    let mut out = to_string("\nID: ");
    push_signed(&mut out, match p.id { Some(i) => i, None => -1 });
    push_str(&mut out, "\nTitle: ");
    push_str(&mut out, p.title.as_str());
    push_str(&mut out, "\nCitations: ");
    push_signed(&mut out, p.citation_count);
    push_str(&mut out, "\n");
    out
}

/// Which block a paper listing is made of.
#[derive(Clone, Copy)]
enum Block {
    Found,
    Listed,
    Matched,
}

spec fn block_spec(b: Block, p: PaperView) -> Seq<char> {
    match b {
        Block::Found => found_block(p),
        Block::Listed => listed_block(p),
        Block::Matched => matched_block(p),
    }
}

/// Appends the blocks of the papers.
fn push_blocks(out: &mut String, papers: &[Paper], b: Block)
    ensures
        final(out)@ == old(out)@ + concat(crate::bibtex::paper_views(papers@).map_values(|p: PaperView| block_spec(b, p))),
{
    let ghost blocks = crate::bibtex::paper_views(papers@).map_values(|p: PaperView| block_spec(b, p));
    let mut i: usize = 0;
    while i < papers.len()
        invariant
            0 <= i <= papers.len(),
            blocks == crate::bibtex::paper_views(papers@).map_values(|p: PaperView| block_spec(b, p)),
            out@ == old(out)@ + concat(blocks.take(i as int)),
        decreases papers.len() - i,
    {
        proof {
            lemma_concat_step(blocks, i as int);
        }
        let block = match b {
            Block::Found => found_block_of(&papers[i]),
            Block::Listed => listed_block_of(&papers[i]),
            Block::Matched => matched_block_of(&papers[i]),
        };
        push_str(out, block.as_str());
        i = i + 1;
    }
    assert(blocks.take(papers@.len() as int) == blocks);
}

/// What a search prints.
pub fn found_papers_text(papers: &[Paper]) -> (r: String)
    ensures
        r@ == found_text(crate::bibtex::paper_views(papers@)),
{
    let mut out = to_string("Found ");
    push_decimal(&mut out, papers.len() as u64);
    push_str(&mut out, " papers:\n");
    push_blocks(&mut out, papers, Block::Found);
    assert(crate::bibtex::paper_views(papers@).map_values(|p: PaperView| block_spec(Block::Found, p))
        =~= crate::bibtex::paper_views(papers@).map_values(|p: PaperView| found_block(p)));
    out
}

/// What listing the stored papers prints.
pub fn listing(papers: &[Paper]) -> (r: String)
    ensures
        r@ == listing_text(crate::bibtex::paper_views(papers@)),
{
    let mut out = String::new();
    push_decimal(&mut out, papers.len() as u64);
    push_str(&mut out, " papers in database:\n");
    push_blocks(&mut out, papers, Block::Listed);
    assert(crate::bibtex::paper_views(papers@).map_values(|p: PaperView| block_spec(Block::Listed, p))
        =~= crate::bibtex::paper_views(papers@).map_values(|p: PaperView| listed_block(p)));
    out
}

/// What a search of the stored papers prints.
pub fn matched_papers_text(papers: &[Paper]) -> (r: String)
    ensures
        r@ == matched_text(crate::bibtex::paper_views(papers@)),
{
    let mut out = to_string("Found ");
    push_decimal(&mut out, papers.len() as u64);
    push_str(&mut out, " papers:\n");
    push_blocks(&mut out, papers, Block::Matched);
    assert(crate::bibtex::paper_views(papers@).map_values(|p: PaperView| block_spec(Block::Matched, p))
        =~= crate::bibtex::paper_views(papers@).map_values(|p: PaperView| matched_block(p)));
    out
}

/// What a lookup prints of a paper.
pub fn paper_detail_text(p: &Paper) -> (r: String)
    ensures
        r@ == detail_text(p@),
{
    let mut out = to_string("Title: ");
    push_str(&mut out, p.title.as_str());
    push_str(&mut out, "\n");
    push_opt_line(&mut out, "arXiv ID: ", &p.arxiv_id);
    push_opt_line(&mut out, "SS ID: ", &p.semantic_scholar_id);
    push_opt_line(&mut out, "DOI: ", &p.doi);
    push_author_list(&mut out, p.authors.as_slice());
    push_str(&mut out, "Citations: ");
    push_signed(&mut out, p.citation_count);
    push_str(&mut out, "\nPDF: ");
    push_or_na(&mut out, &p.pdf_url);
    push_str(&mut out, "\n");
    match &p.abstract_text {
        Some(a) => {
            push_str(&mut out, "\nAbstract:\n");
            push_str(&mut out, a.as_str());
            push_str(&mut out, "\n");
        },
        None => {},
    }
    out
}

/// What the citations (or, with `references`, the references) of a paper
/// print.
pub fn relations(citations: &[(Paper, Vec<Author>)], references: bool) -> (r: String)
    ensures
        r@ == relations_text(citation_views(citations@), references),
{
    let mut out = if references { to_string("References ") } else { to_string("Cited by ") };
    push_decimal(&mut out, citations.len() as u64);
    push_str(&mut out, " papers:\n");
    let ghost head = out@;
    let ghost blocks = citation_views(citations@).map_values(
        |c: (PaperView, Seq<AuthorView>)| relation_block(c),
    );
    let mut i: usize = 0;
    while i < citations.len()
        invariant
            0 <= i <= citations.len(),
            blocks == citation_views(citations@).map_values(
                |c: (PaperView, Seq<AuthorView>)| relation_block(c),
            ),
            out@ == head + concat(blocks.take(i as int)),
        decreases citations.len() - i,
    {
        proof {
            lemma_concat_step(blocks, i as int);
        }
        let ghost before = out@;
        push_str(&mut out, "\n---\nTitle: ");
        push_str(&mut out, citations[i].0.title.as_str());
        push_str(&mut out, "\n");
        push_author_list(&mut out, citations[i].1.as_slice());
        assert(out@ == before + relation_block(citation_views(citations@)[i as int]));
        i = i + 1;
    }
    assert(blocks.take(citations@.len() as int) == blocks);
    out
}

/// What the statistics command prints.
pub fn stats_summary(stats: &CitationStats, average: &str) -> (r: String)
    ensures
        r@ == stats_text(*stats, average@),
{
    let mut out = to_string("=== Citation Statistics ===\nTotal papers: ");
    push_decimal(&mut out, stats.total_papers as u64);
    push_str(&mut out, "\nTotal citation edges: ");
    push_decimal(&mut out, stats.total_citation_edges as u64);
    push_str(&mut out, "\nAverage citations: ");
    push_str(&mut out, average);
    push_str(&mut out, "\nH-index: ");
    push_signed(&mut out, stats.h_index as i64);
    push_str(&mut out, "\nMax citations: ");
    push_signed(&mut out, stats.max_citations);
    push_str(&mut out, "\n");
    let ranked = &stats.most_cited_papers;
    if ranked.len() > 0 {
        push_str(&mut out, "\nMost cited papers:\n");
        let ghost r = ranked_view(stats.most_cited_papers@);
        let ghost top = if r.len() <= 5 { r } else { r.take(5) };
        let ghost lines = top.map_values(|x: (PaperView, i64)| top_line(x));
        let ghost head = out@;
        let n: usize = if ranked.len() <= 5 { ranked.len() } else { 5 };
        let mut i: usize = 0;
        while i < n
            invariant
                0 <= i <= n,
                n <= ranked@.len(),
                ranked == &stats.most_cited_papers,
                r == ranked_view(stats.most_cited_papers@),
                n == top.len(),
                top == (if r.len() <= 5 { r } else { r.take(5) }),
                lines == top.map_values(|x: (PaperView, i64)| top_line(x)),
                out@ == head + concat(lines.take(i as int)),
            decreases n - i,
        {
            proof {
                lemma_concat_step(lines, i as int);
            }
            let ghost before = out@;
            push_str(&mut out, "  ");
            push_str(&mut out, ranked[i].0.title.as_str());
            push_str(&mut out, " (citations: ");
            push_signed(&mut out, ranked[i].1);
            push_str(&mut out, ")\n");
            assert(top[i as int] == (ranked@[i as int].0@, ranked@[i as int].1));
            i = i + 1;
        }
        assert(lines.take(n as int) == lines);
    }
    out
}

/// What the sources command prints of one source.
pub fn source_summary(name: &str, kind: SourceKind, caps: SourceCapabilities) -> (r: String)
    ensures
        r@ == source_text(name@, kind, caps),
{
    let mut out = to_string("\n");
    push_str(&mut out, name);
    push_str(&mut out, " (");
    push_str(&mut out, kind.as_str());
    push_str(&mut out, ")\n  Search: ");
    push_str(&mut out, checkmark(caps.search));
    push_str(&mut out, "\n  Get by ID: ");
    push_str(&mut out, checkmark(caps.get_by_id));
    push_str(&mut out, "\n  Citations: ");
    push_str(&mut out, checkmark(caps.citations));
    push_str(&mut out, "\n  References: ");
    push_str(&mut out, checkmark(caps.references));
    push_str(&mut out, "\n  PDF download: ");
    push_str(&mut out, checkmark(caps.pdf_download));
    push_str(&mut out, "\n");
    out
}

} // verus!
