//! Markdown output: tables of papers and citations, a detail page and a
//! statistics page.

use vstd::prelude::*;
use crate::models::{Author, AuthorView, Paper, PaperView, author_names, authors_view, names_of};
use crate::output::{CitationDirection, OutputFormatter, citation_views, id_or_zero};
use crate::stats::{CitationStats, ranked_view};
use crate::text::{
    concat, decimal, join, join_strings, lemma_concat_step, push_char, push_decimal, push_signed,
    push_str, signed_decimal, to_chars, to_string,
};

verus! {

broadcast use vstd::string::group_string_axioms;

/// The escape of one char in a table cell: `|` gets a backslash, a line
/// break becomes a space.
pub open spec fn md_escape_char(c: char) -> Seq<char> {
    if c == '|' {
        seq!['\\', '|']
    } else if c == '\n' {
        seq![' ']
    } else {
        seq![c]
    }
}

/// A text made fit for a table cell.
pub open spec fn md_escaped(s: Seq<char>) -> Seq<char>
    decreases s.len(),
{
    if s.len() == 0 {
        Seq::empty()
    } else {
        md_escaped(s.drop_last()) + md_escape_char(s.last())
    }
}

/// The authors' names joined by `, `, or `N/A` without authors.
pub open spec fn md_authors(a: Seq<AuthorView>) -> Seq<char> {
    if a.len() == 0 {
        "N/A"@
    } else {
        join(author_names(a), ", "@)
    }
}

/// The table row of a paper.
pub open spec fn md_paper_row(p: PaperView) -> Seq<char> {
    "| "@ + signed_decimal(id_or_zero(p.id)) + " | "@ + md_escaped(p.title) + " | "@
        + md_escaped(md_authors(p.authors)) + " | "@ + signed_decimal(p.citation_count as int)
        + " |\n"@
}

/// The table of papers.
pub open spec fn md_papers(ps: Seq<PaperView>) -> Seq<char> {
    "# Paper List\n\n| ID | Title | Authors | Citations |\n|----|-------|---------|----------|\n"@
        + concat(ps.map_values(|p: PaperView| md_paper_row(p)))
}

/// A line `label value` for a value that is there.
pub open spec fn opt_line(label: Seq<char>, v: Option<Seq<char>>) -> Seq<char> {
    match v {
        Some(x) => label + x + "\n"@,
        None => Seq::empty(),
    }
}

/// A line `label value` for a value that is there and not empty.
pub open spec fn nonempty_line(label: Seq<char>, v: Option<Seq<char>>) -> Seq<char> {
    match v {
        Some(x) => if x.len() > 0 { label + x + "\n"@ } else { Seq::empty() },
        None => Seq::empty(),
    }
}

/// The detail page of a paper.
pub open spec fn md_detail(p: PaperView) -> Seq<char> {
    "# "@ + p.title + "\n\n## Metadata\n\n- **ID:** "@ + signed_decimal(id_or_zero(p.id)) + "\n"@
        + nonempty_line("- **arXiv:** "@, p.arxiv_id)
        + nonempty_line("- **Semantic Scholar:** "@, p.semantic_scholar_id)
        + opt_line("- **DOI:** "@, p.doi)
        + "- **Authors:** "@ + md_authors(p.authors)
        + "\n- **Citations:** "@ + signed_decimal(p.citation_count as int) + "\n"@
        + opt_line("- **Venue:** "@, p.venue)
        + opt_line("- **PDF:** "@, p.pdf_url)
        + match p.abstract_text {
            Some(a) => "\n## Abstract\n\n"@ + a + "\n"@,
            None => Seq::empty(),
        }
}

/// The table row of a citation.
pub open spec fn md_citation_row(c: (PaperView, Seq<AuthorView>)) -> Seq<char> {
    "| "@ + md_escaped(c.0.title) + " | "@ + md_escaped(md_authors(c.1)) + " |\n"@
}

/// The table of citations under a heading for their direction.
pub open spec fn md_citations(cs: Seq<(PaperView, Seq<AuthorView>)>, d: CitationDirection) -> Seq<char> {
    (match d {
        CitationDirection::Citing => "# Citing Papers"@,
        CitationDirection::Cited => "# Cited Papers"@,
    }) + "\n\n| Title | Authors |\n|-------|--------|\n"@
        + concat(cs.map_values(|c: (PaperView, Seq<AuthorView>)| md_citation_row(c)))
}

/// The row of the paper ranked `i + 1`.
pub open spec fn md_rank_row(i: int, r: (PaperView, i64)) -> Seq<char> {
    "| "@ + decimal((i + 1) as nat) + " | "@ + md_escaped(r.0.title) + " | "@
        + signed_decimal(r.1 as int) + " |\n"@
}

/// The rows of the (at most ten) most cited papers.
pub open spec fn md_rank_rows(r: Seq<(PaperView, i64)>) -> Seq<Seq<char>> {
    let top = if r.len() <= 10 { r } else { r.take(10) };
    Seq::new(top.len(), |i: int| md_rank_row(i, top[i]))
}

/// The statistics page; `average` is the average number of citations,
/// already written out.
pub open spec fn md_stats(s: CitationStats, average: Seq<char>) -> Seq<char> {
    "# Citation Statistics\n\n## Overview\n\n- **Total Papers:** "@ + decimal(s.total_papers as nat)
        + "\n- **Total Citation Edges:** "@ + decimal(s.total_citation_edges as nat)
        + "\n- **Average Citations:** "@ + average
        + "\n- **H-Index:** "@ + signed_decimal(s.h_index as int)
        + "\n- **Max Citations:** "@ + signed_decimal(s.max_citations as int)
        + "\n\n## Most Cited Papers\n\n| Rank | Title | Citations |\n|------|-------|----------|\n"@
        + concat(md_rank_rows(ranked_view(s.most_cited_papers@)))
}

/// The Markdown formatter.
pub struct MarkdownFormatter;

impl MarkdownFormatter {
    /// The authors' names joined by `, `, or `N/A`.
    pub fn format_authors(authors: &[Author]) -> (r: String)
        ensures
            r@ == md_authors(authors_view(authors@)),
    {
        if authors.len() == 0 {
            to_string("N/A")
        } else {
            let names = names_of(authors);
            join_strings(&names, ", ")
        }
    }

    /// Makes a text fit for a table cell.
    pub fn escape_markdown(s: &str) -> (r: String)
        ensures
            r@ == md_escaped(s@),
    {
        let cs = to_chars(s);
        let mut r = String::new();
        let mut i: usize = 0;
        while i < cs.len()
            invariant
                0 <= i <= cs.len(),
                cs@ == s@,
                r@ == md_escaped(cs@.take(i as int)),
            decreases cs.len() - i,
        {
            let c = cs[i];
            assert(cs@.take(i + 1).drop_last() == cs@.take(i as int));
            if c == '|' {
                push_char(&mut r, '\\');
                push_char(&mut r, '|');
                assert(r@ == md_escaped(cs@.take(i as int)) + seq!['\\', '|']);
            } else if c == '\n' {
                push_char(&mut r, ' ');
                assert(r@ == md_escaped(cs@.take(i as int)) + seq![' ']);
            } else {
                push_char(&mut r, c);
                assert(r@ == md_escaped(cs@.take(i as int)) + seq![c]);
            }
            i = i + 1;
        }
        assert(cs@.take(cs@.len() as int) == cs@);
        r
    }

    fn paper_row(p: &Paper) -> (r: String)
        ensures
            r@ == md_paper_row(p@),
    {
        let mut out = to_string("| ");
        push_signed(&mut out, match p.id { Some(i) => i, None => 0 });
        push_str(&mut out, " | ");
        push_str(&mut out, Self::escape_markdown(p.title.as_str()).as_str());
        push_str(&mut out, " | ");
        let authors = Self::format_authors(p.authors.as_slice());
        push_str(&mut out, Self::escape_markdown(authors.as_str()).as_str());
        push_str(&mut out, " | ");
        push_signed(&mut out, p.citation_count);
        push_str(&mut out, " |\n");
        out
    }

    fn citation_row(paper: &Paper, authors: &Vec<Author>) -> (r: String)
        ensures
            r@ == md_citation_row((paper@, authors_view(authors@))),
    {
        let mut out = to_string("| ");
        push_str(&mut out, Self::escape_markdown(paper.title.as_str()).as_str());
        push_str(&mut out, " | ");
        let names = Self::format_authors(authors.as_slice());
        push_str(&mut out, Self::escape_markdown(names.as_str()).as_str());
        push_str(&mut out, " |\n");
        out
    }

    fn rank_row(i: usize, paper: &Paper, count: i64) -> (r: String)
        requires
            i < 10,
        ensures
            r@ == md_rank_row(i as int, (paper@, count)),
    {
        let mut out = to_string("| ");
        push_decimal(&mut out, (i + 1) as u64);
        push_str(&mut out, " | ");
        push_str(&mut out, Self::escape_markdown(paper.title.as_str()).as_str());
        push_str(&mut out, " | ");
        push_signed(&mut out, count);
        push_str(&mut out, " |\n");
        out
    }
}

/// Appends `label value` and a line break where the value is there.
fn push_opt_line(out: &mut String, label: &str, v: &Option<String>)
    ensures
        final(out)@ == old(out)@ + opt_line(label@, crate::models::opt_view(*v)),
{
    match v {
        Some(x) => {
            push_str(out, label);
            push_str(out, x.as_str());
            push_str(out, "\n");
        },
        None => {},
    }
}

/// Appends `label value` and a line break where the value is there and not
/// empty.
fn push_nonempty_line(out: &mut String, label: &str, v: &Option<String>)
    ensures
        final(out)@ == old(out)@ + nonempty_line(label@, crate::models::opt_view(*v)),
{
    match v {
        Some(x) => {
            if to_chars(x.as_str()).len() > 0 {
                push_str(out, label);
                push_str(out, x.as_str());
                push_str(out, "\n");
            }
        },
        None => {},
    }
}

impl OutputFormatter for MarkdownFormatter {
    fn format_papers(&self, papers: &[Paper]) -> (r: String)
        ensures
            r@ == md_papers(crate::bibtex::paper_views(papers@)),
    {
        let mut out = to_string(
            "# Paper List\n\n| ID | Title | Authors | Citations |\n|----|-------|---------|----------|\n",
        );
        let ghost head = out@;
        let ghost rows = crate::bibtex::paper_views(papers@).map_values(|p: PaperView| md_paper_row(p));
        let mut i: usize = 0;
        while i < papers.len()
            invariant
                0 <= i <= papers.len(),
                rows == crate::bibtex::paper_views(papers@).map_values(|p: PaperView| md_paper_row(p)),
                out@ == head + concat(rows.take(i as int)),
            decreases papers.len() - i,
        {
            proof {
                lemma_concat_step(rows, i as int);
            }
            let row = Self::paper_row(&papers[i]);
            push_str(&mut out, row.as_str());
            i = i + 1;
        }
        assert(rows.take(papers@.len() as int) == rows);
        out
    }

    fn format_paper_detail(&self, paper: &Paper) -> (r: String)
        ensures
            r@ == md_detail(paper@),
    {
        let p = paper;
        let mut out = to_string("# ");
        push_str(&mut out, p.title.as_str());
        push_str(&mut out, "\n\n## Metadata\n\n- **ID:** ");
        push_signed(&mut out, match p.id { Some(i) => i, None => 0 });
        push_str(&mut out, "\n");
        push_nonempty_line(&mut out, "- **arXiv:** ", &p.arxiv_id);
        push_nonempty_line(&mut out, "- **Semantic Scholar:** ", &p.semantic_scholar_id);
        push_opt_line(&mut out, "- **DOI:** ", &p.doi);
        push_str(&mut out, "- **Authors:** ");
        push_str(&mut out, Self::format_authors(p.authors.as_slice()).as_str());
        push_str(&mut out, "\n- **Citations:** ");
        push_signed(&mut out, p.citation_count);
        push_str(&mut out, "\n");
        push_opt_line(&mut out, "- **Venue:** ", &p.venue);
        push_opt_line(&mut out, "- **PDF:** ", &p.pdf_url);
        match &p.abstract_text {
            Some(a) => {
                push_str(&mut out, "\n## Abstract\n\n");
                push_str(&mut out, a.as_str());
                push_str(&mut out, "\n");
            },
            None => {},
        }
        out
    }

    fn format_citations(&self, citations: &[(Paper, Vec<Author>)], direction: CitationDirection) -> (r: String)
        ensures
            r@ == md_citations(citation_views(citations@), direction),
    {
        let mut out = match direction {
            CitationDirection::Citing => to_string("# Citing Papers"),
            CitationDirection::Cited => to_string("# Cited Papers"),
        };
        push_str(&mut out, "\n\n| Title | Authors |\n|-------|--------|\n");
        let ghost head = out@;
        let ghost rows = citation_views(citations@).map_values(
            |c: (PaperView, Seq<AuthorView>)| md_citation_row(c),
        );
        let mut i: usize = 0;
        while i < citations.len()
            invariant
                0 <= i <= citations.len(),
                rows == citation_views(citations@).map_values(
                    |c: (PaperView, Seq<AuthorView>)| md_citation_row(c),
                ),
                out@ == head + concat(rows.take(i as int)),
            decreases citations.len() - i,
        {
            proof {
                lemma_concat_step(rows, i as int);
            }
            let row = Self::citation_row(&citations[i].0, &citations[i].1);
            push_str(&mut out, row.as_str());
            i = i + 1;
        }
        assert(rows.take(citations@.len() as int) == rows);
        out
    }

    fn format_stats(&self, stats: &CitationStats, average: &str) -> (r: String)
        ensures
            r@ == md_stats(*stats, average@),
    {
        let mut out = to_string("# Citation Statistics\n\n## Overview\n\n- **Total Papers:** ");
        push_decimal(&mut out, stats.total_papers as u64);
        push_str(&mut out, "\n- **Total Citation Edges:** ");
        push_decimal(&mut out, stats.total_citation_edges as u64);
        push_str(&mut out, "\n- **Average Citations:** ");
        push_str(&mut out, average);
        push_str(&mut out, "\n- **H-Index:** ");
        push_signed(&mut out, stats.h_index as i64);
        push_str(&mut out, "\n- **Max Citations:** ");
        push_signed(&mut out, stats.max_citations);
        push_str(
            &mut out,
            "\n\n## Most Cited Papers\n\n| Rank | Title | Citations |\n|------|-------|----------|\n",
        );
        let ghost head = out@;
        let ghost rows = md_rank_rows(ranked_view(stats.most_cited_papers@));
        let ranked = &stats.most_cited_papers;
        let n: usize = if ranked.len() <= 10 { ranked.len() } else { 10 };
        let mut i: usize = 0;
        while i < n
            invariant
                0 <= i <= n,
                n <= 10,
                n <= ranked@.len(),
                n == rows.len(),
                ranked == &stats.most_cited_papers,
                rows == md_rank_rows(ranked_view(stats.most_cited_papers@)),
                out@ == head + concat(rows.take(i as int)),
            decreases n - i,
        {
            proof {
                lemma_concat_step(rows, i as int);
            }
            let row = Self::rank_row(i, &ranked[i].0, ranked[i].1);
            push_str(&mut out, row.as_str());
            i = i + 1;
        }
        assert(rows.take(n as int) == rows);
        out
    }

    fn extension(&self) -> (r: &'static str)
        ensures
            r@ == "md"@,
    {
        "md"
    }
}

/// The statistics page shows the h-index on its own line, labelled
/// `H-Index`, and the largest citation count on the line after it,
/// labelled `Max Citations`.
pub proof fn law_stats_lines(s: CitationStats, average: Seq<char>)
    ensures
        exists|a: Seq<char>, b: Seq<char>|
            md_stats(s, average) == a + "\n- **H-Index:** "@ + signed_decimal(s.h_index as int)
                + "\n- **Max Citations:** "@ + signed_decimal(s.max_citations as int) + "\n"@ + b,
{
    reveal_strlit("\n\n## Most Cited Papers\n\n| Rank | Title | Citations |\n|------|-------|----------|\n");
    reveal_strlit("\n");
    let tail = "\n\n## Most Cited Papers\n\n| Rank | Title | Citations |\n|------|-------|----------|\n"@;
    let a = "# Citation Statistics\n\n## Overview\n\n- **Total Papers:** "@ + decimal(s.total_papers as nat)
        + "\n- **Total Citation Edges:** "@ + decimal(s.total_citation_edges as nat)
        + "\n- **Average Citations:** "@ + average;
    let b = tail.drop_first() + concat(md_rank_rows(ranked_view(s.most_cited_papers@)));
    assert(tail == "\n"@ + tail.drop_first());
    let h = "\n- **H-Index:** "@ + signed_decimal(s.h_index as int);
    let m = "\n- **Max Citations:** "@ + signed_decimal(s.max_citations as int);
    let c = concat(md_rank_rows(ranked_view(s.most_cited_papers@)));
    assert(md_stats(s, average) == a + h + m + tail + c);
    assert(a + h + m + tail + c == a + h + m + "\n"@ + b);
    assert(a + h + m == a + "\n- **H-Index:** "@ + signed_decimal(s.h_index as int)
        + "\n- **Max Citations:** "@ + signed_decimal(s.max_citations as int));
}

} // verus!
