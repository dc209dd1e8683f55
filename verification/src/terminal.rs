//! Plain text output for the terminal.

use vstd::prelude::*;
use crate::markdown::{md_authors, nonempty_line};
use crate::models::{Author, AuthorView, Paper, PaperView, author_names, authors_view, names_of};
use crate::output::{CitationDirection, OutputFormatter, citation_views, id_or_zero};
use crate::stats::{CitationStats, ranked_view};
use crate::text::{
    concat, decimal, join, join_strings, lemma_concat_step, push_decimal, push_signed, push_str,
    signed_decimal, to_chars, to_string,
};

verus! {

broadcast use vstd::string::group_string_axioms;

/// The identifier parts of a paper: its arXiv id and its Semantic Scholar
/// id, each where it is there and not empty.
pub open spec fn identifier_parts(p: PaperView) -> Seq<Seq<char>> {
    let a: Seq<Seq<char>> = match p.arxiv_id {
        Some(x) => if x.len() > 0 { seq!["arXiv: "@ + x] } else { Seq::empty() },
        None => Seq::empty(),
    };
    let s: Seq<Seq<char>> = match p.semantic_scholar_id {
        Some(x) => if x.len() > 0 { seq!["SS: "@ + x] } else { Seq::empty() },
        None => Seq::empty(),
    };
    a + s
}

/// The identifier line of a paper, its parts joined by ` | `.
pub open spec fn term_identifier(p: PaperView) -> Seq<char> {
    join(identifier_parts(p), " | "@)
}

/// The identifier line and a line break, where there is one.
pub open spec fn identifier_line(p: PaperView) -> Seq<char> {
    if term_identifier(p).len() > 0 { term_identifier(p) + "\n"@ } else { Seq::empty() }
}

/// Up to three authors' names joined by `, `; for more, the first name and
/// `, et al.`; `N/A` without authors.
pub open spec fn term_authors(a: Seq<AuthorView>) -> Seq<char> {
    if a.len() == 0 {
        "N/A"@
    } else if a.len() <= 3 {
        join(author_names(a), ", "@)
    } else {
        a[0].name + ", et al."@
    }
}

/// The text of an optional value, or `N/A`.
pub open spec fn or_na(v: Option<Seq<char>>) -> Seq<char> {
    match v {
        Some(x) => x,
        None => "N/A"@,
    }
}

/// The block of a paper in a list.
pub open spec fn term_paper_block(p: PaperView) -> Seq<char> {
    "\n---\nID: "@ + signed_decimal(id_or_zero(p.id)) + "\n标题："@ + p.title + "\n"@
        + identifier_line(p)
        + "作者："@ + term_authors(p.authors)
        + "\n引用数："@ + signed_decimal(p.citation_count as int) + "\n"@
}

/// A list of papers: their number, then a block for each.
pub open spec fn term_papers(ps: Seq<PaperView>) -> Seq<char> {
    "共 "@ + decimal(ps.len()) + " 篇论文:\n"@
        + concat(ps.map_values(|p: PaperView| term_paper_block(p)))
}

/// The detail page of a paper.
pub open spec fn term_detail(p: PaperView) -> Seq<char> {
    "[DB ID: "@ + signed_decimal(id_or_zero(p.id)) + "]\n标题："@ + p.title + "\n"@
        + identifier_line(p)
        + "作者："@ + term_authors(p.authors)
        + "\nDOI: "@ + or_na(p.doi)
        + "\n引用数："@ + signed_decimal(p.citation_count as int)
        + "\nPDF: "@ + or_na(p.pdf_url)
        + "\n\n摘要:\n"@ + or_na(p.abstract_text) + "\n"@
}

/// The block of a citation in a list.
pub open spec fn term_citation_block(c: (PaperView, Seq<AuthorView>)) -> Seq<char> {
    "\n---\n标题："@ + c.0.title + "\n"@
        + nonempty_line("SS ID: "@, c.0.semantic_scholar_id)
        + "作者："@ + term_authors(c.1) + "\n"@
}

/// A list of citations: a header with their number, then a block for each.
pub open spec fn term_citations(cs: Seq<(PaperView, Seq<AuthorView>)>, d: CitationDirection) -> Seq<char> {
    (match d {
        CitationDirection::Citing => "该论文被以下 "@ + decimal(cs.len()) + " 篇论文引用:"@,
        CitationDirection::Cited => "该论文引用了以下 "@ + decimal(cs.len()) + " 篇论文:"@,
    }) + concat(cs.map_values(|c: (PaperView, Seq<AuthorView>)| term_citation_block(c)))
}

/// The line of the paper ranked `i + 1`.
pub open spec fn term_rank_row(i: int, r: (PaperView, i64)) -> Seq<char> {
    "\n"@ + decimal((i + 1) as nat) + ". "@ + r.0.title + " (引用："@ + signed_decimal(r.1 as int)
        + ")\n"@
}

/// The lines of the (at most ten) most cited papers.
pub open spec fn term_rank_rows(r: Seq<(PaperView, i64)>) -> Seq<Seq<char>> {
    let top = if r.len() <= 10 { r } else { r.take(10) };
    Seq::new(top.len(), |i: int| term_rank_row(i, top[i]))
}

/// The statistics page; `average` is the average number of citations,
/// already written out.
pub open spec fn term_stats(s: CitationStats, average: Seq<char>) -> Seq<char> {
    "=== 引用统计 ===\n\n论文总数："@ + decimal(s.total_papers as nat)
        + "\n引用关系数："@ + decimal(s.total_citation_edges as nat)
        + "\n平均引用数："@ + average
        + "\nH-Index: "@ + signed_decimal(s.h_index as int)
        + "\n最大引用数："@ + signed_decimal(s.max_citations as int)
        + "\n\n=== 引用最多论文 Top 10 ===\n"@
        + concat(term_rank_rows(ranked_view(s.most_cited_papers@)))
        + (if s.isolated_papers@.len() > 0 {
            "\n孤立节点（无引用关系）: "@ + decimal(s.isolated_papers@.len()) + " 篇\n"@
        } else {
            Seq::empty()
        })
}

/// The terminal formatter.
pub struct TerminalFormatter;

impl TerminalFormatter {
    pub fn new() -> (r: Self) {
        TerminalFormatter
    }

    /// The identifier line of a paper.
    pub fn format_identifier(paper: &Paper) -> (r: String)
        ensures
            r@ == term_identifier(paper@),
    {
        let mut parts: Vec<String> = Vec::new();
        match &paper.arxiv_id {
            Some(a) => {
                if to_chars(a.as_str()).len() > 0 {
                    let mut part = to_string("arXiv: ");
                    push_str(&mut part, a.as_str());
                    parts.push(part);
                }
            },
            None => {},
        }
        let ghost first = parts@;
        match &paper.semantic_scholar_id {
            Some(s) => {
                if to_chars(s.as_str()).len() > 0 {
                    let mut part = to_string("SS: ");
                    push_str(&mut part, s.as_str());
                    parts.push(part);
                }
            },
            None => {},
        }
        assert(crate::text::strings_view(parts@) =~= identifier_parts(paper@));
        join_strings(&parts, " | ")
    }

    /// Up to three authors' names, or the first and `et al.`, or `N/A`.
    pub fn format_authors(authors: &[Author]) -> (r: String)
        ensures
            r@ == term_authors(authors_view(authors@)),
    {
        if authors.len() == 0 {
            to_string("N/A")
        } else if authors.len() <= 3 {
            let names = names_of(authors);
            join_strings(&names, ", ")
        } else {
            let mut r = authors[0].name.clone();
            push_str(&mut r, ", et al.");
            r
        }
    }

    fn push_identifier_line(out: &mut String, paper: &Paper)
        ensures
            final(out)@ == old(out)@ + identifier_line(paper@),
    {
        let identifier = Self::format_identifier(paper);
        if to_chars(identifier.as_str()).len() > 0 {
            push_str(out, identifier.as_str());
            push_str(out, "\n");
        }
    }

    fn paper_block(p: &Paper) -> (r: String)
        ensures
            r@ == term_paper_block(p@),
    {
        let mut out = to_string("\n---\nID: ");
        push_signed(&mut out, match p.id { Some(i) => i, None => 0 });
        push_str(&mut out, "\n标题：");
        push_str(&mut out, p.title.as_str());
        push_str(&mut out, "\n");
        Self::push_identifier_line(&mut out, p);
        push_str(&mut out, "作者：");
        push_str(&mut out, Self::format_authors(p.authors.as_slice()).as_str());
        push_str(&mut out, "\n引用数：");
        push_signed(&mut out, p.citation_count);
        push_str(&mut out, "\n");
        out
    }

    fn citation_block(paper: &Paper, authors: &Vec<Author>) -> (r: String)
        ensures
            r@ == term_citation_block((paper@, authors_view(authors@))),
    {
        let mut out = to_string("\n---\n标题：");
        push_str(&mut out, paper.title.as_str());
        push_str(&mut out, "\n");
        match &paper.semantic_scholar_id {
            Some(s) => {
                if to_chars(s.as_str()).len() > 0 {
                    push_str(&mut out, "SS ID: ");
                    push_str(&mut out, s.as_str());
                    push_str(&mut out, "\n");
                }
            },
            None => {},
        }
        push_str(&mut out, "作者：");
        push_str(&mut out, Self::format_authors(authors.as_slice()).as_str());
        push_str(&mut out, "\n");
        out
    }

    fn rank_row(i: usize, paper: &Paper, count: i64) -> (r: String)
        requires
            i < 10,
        ensures
            r@ == term_rank_row(i as int, (paper@, count)),
    {
        let mut out = to_string("\n");
        push_decimal(&mut out, (i + 1) as u64);
        push_str(&mut out, ". ");
        push_str(&mut out, paper.title.as_str());
        push_str(&mut out, " (引用：");
        push_signed(&mut out, count);
        push_str(&mut out, ")\n");
        out
    }
}

impl OutputFormatter for TerminalFormatter {
    fn format_papers(&self, papers: &[Paper]) -> (r: String)
        ensures
            r@ == term_papers(crate::bibtex::paper_views(papers@)),
    {
        let mut out = to_string("共 ");
        push_decimal(&mut out, papers.len() as u64);
        push_str(&mut out, " 篇论文:\n");
        let ghost head = out@;
        let ghost blocks = crate::bibtex::paper_views(papers@).map_values(
            |p: PaperView| term_paper_block(p),
        );
        let mut i: usize = 0;
        while i < papers.len()
            invariant
                0 <= i <= papers.len(),
                blocks == crate::bibtex::paper_views(papers@).map_values(
                    |p: PaperView| term_paper_block(p),
                ),
                out@ == head + concat(blocks.take(i as int)),
            decreases papers.len() - i,
        {
            proof {
                lemma_concat_step(blocks, i as int);
            }
            let block = Self::paper_block(&papers[i]);
            push_str(&mut out, block.as_str());
            i = i + 1;
        }
        assert(blocks.take(papers@.len() as int) == blocks);
        out
    }

    fn format_paper_detail(&self, paper: &Paper) -> (r: String)
        ensures
            r@ == term_detail(paper@),
    {
        let p = paper;
        let mut out = to_string("[DB ID: ");
        push_signed(&mut out, match p.id { Some(i) => i, None => 0 });
        push_str(&mut out, "]\n标题：");
        push_str(&mut out, p.title.as_str());
        push_str(&mut out, "\n");
        Self::push_identifier_line(&mut out, p);
        push_str(&mut out, "作者：");
        push_str(&mut out, Self::format_authors(p.authors.as_slice()).as_str());
        push_str(&mut out, "\nDOI: ");
        match &p.doi {
            Some(d) => push_str(&mut out, d.as_str()),
            None => push_str(&mut out, "N/A"),
        }
        push_str(&mut out, "\n引用数：");
        push_signed(&mut out, p.citation_count);
        push_str(&mut out, "\nPDF: ");
        match &p.pdf_url {
            Some(u) => push_str(&mut out, u.as_str()),
            None => push_str(&mut out, "N/A"),
        }
        push_str(&mut out, "\n\n摘要:\n");
        match &p.abstract_text {
            Some(a) => push_str(&mut out, a.as_str()),
            None => push_str(&mut out, "N/A"),
        }
        push_str(&mut out, "\n");
        out
    }

    fn format_citations(&self, citations: &[(Paper, Vec<Author>)], direction: CitationDirection) -> (r: String)
        ensures
            r@ == term_citations(citation_views(citations@), direction),
    {
        let mut out = match direction {
            CitationDirection::Citing => {
                let mut h = to_string("该论文被以下 ");
                push_decimal(&mut h, citations.len() as u64);
                push_str(&mut h, " 篇论文引用:");
                h
            },
            CitationDirection::Cited => {
                let mut h = to_string("该论文引用了以下 ");
                push_decimal(&mut h, citations.len() as u64);
                push_str(&mut h, " 篇论文:");
                h
            },
        };
        let ghost head = out@;
        let ghost blocks = citation_views(citations@).map_values(
            |c: (PaperView, Seq<AuthorView>)| term_citation_block(c),
        );
        let mut i: usize = 0;
        while i < citations.len()
            invariant
                0 <= i <= citations.len(),
                blocks == citation_views(citations@).map_values(
                    |c: (PaperView, Seq<AuthorView>)| term_citation_block(c),
                ),
                out@ == head + concat(blocks.take(i as int)),
            decreases citations.len() - i,
        {
            proof {
                lemma_concat_step(blocks, i as int);
            }
            let block = Self::citation_block(&citations[i].0, &citations[i].1);
            push_str(&mut out, block.as_str());
            i = i + 1;
        }
        assert(blocks.take(citations@.len() as int) == blocks);
        out
    }

    fn format_stats(&self, stats: &CitationStats, average: &str) -> (r: String)
        ensures
            r@ == term_stats(*stats, average@),
    {
        let mut out = to_string("=== 引用统计 ===\n\n论文总数：");
        push_decimal(&mut out, stats.total_papers as u64);
        push_str(&mut out, "\n引用关系数：");
        push_decimal(&mut out, stats.total_citation_edges as u64);
        push_str(&mut out, "\n平均引用数：");
        push_str(&mut out, average);
        push_str(&mut out, "\nH-Index: ");
        push_signed(&mut out, stats.h_index as i64);
        push_str(&mut out, "\n最大引用数：");
        push_signed(&mut out, stats.max_citations);
        push_str(&mut out, "\n\n=== 引用最多论文 Top 10 ===\n");
        let ghost head = out@;
        let ghost rows = term_rank_rows(ranked_view(stats.most_cited_papers@));
        let ranked = &stats.most_cited_papers;
        let n: usize = if ranked.len() <= 10 { ranked.len() } else { 10 };
        let mut i: usize = 0;
        while i < n
            invariant
                0 <= i <= n,
                n <= 10,
                n <= ranked@.len(),
                n == rows.len(),
                ranked == &stats.most_cited_papers,
                rows == term_rank_rows(ranked_view(stats.most_cited_papers@)),
                out@ == head + concat(rows.take(i as int)),
            decreases n - i,
        {
            proof {
                lemma_concat_step(rows, i as int);
            }
            let row = Self::rank_row(i, &ranked[i].0, ranked[i].1);
            push_str(&mut out, row.as_str());
            i = i + 1;
        }
        assert(rows.take(n as int) == rows);
        if stats.isolated_papers.len() > 0 {
            push_str(&mut out, "\n孤立节点（无引用关系）: ");
            push_decimal(&mut out, stats.isolated_papers.len() as u64);
            push_str(&mut out, " 篇\n");
        }
        out
    }

    fn extension(&self) -> (r: &'static str)
        ensures
            r@ == "txt"@,
    {
        "txt"
    }
}

impl Default for TerminalFormatter {
    fn default() -> (r: Self) {
        TerminalFormatter::new()
    }
}

} // verus!
