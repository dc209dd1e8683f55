//! BibTeX output.

use vstd::prelude::*;
use crate::models::{Author, Paper, PaperView, author_names, authors_view, names_of};
use crate::output::{CitationDirection, OutputFormatter};
use crate::stats::CitationStats;
use crate::text::{
    alphanumerics, alphanumerics_chars, before_first, before_first_chars, join, last_word,
    last_word_chars, push_char, push_str, string_of, to_chars, to_lowercase, to_string,
    unicode_lowercase, join_strings, strings_view,
};

verus! {

broadcast use vstd::string::group_string_axioms;

/// The author part of a citation key: the last word of the first author's
/// name (or the whole name), lower-cased, without the chars that are not
/// alphanumeric; `unknown` without authors.
pub open spec fn key_author(p: PaperView) -> Seq<char> {
    if p.authors.len() > 0 {
        let name = p.authors[0].name;
        let word = match last_word(name) {
            Some(w) => w,
            None => name,
        };
        alphanumerics(unicode_lowercase(word))
    } else {
        "unknown"@
    }
}

/// The year part of a citation key: the publication date up to the first
/// `-`, or `nodate`.
pub open spec fn key_year(p: PaperView) -> Seq<char> {
    match p.publication_date {
        Some(d) => before_first(d, '-'),
        None => "nodate"@,
    }
}

/// The citation key of a paper.
pub open spec fn citation_key(p: PaperView) -> Seq<char> {
    key_author(p) + key_year(p)
}

/// The escape of one char: BibTeX's special chars get a backslash.
pub open spec fn bibtex_escape_char(c: char) -> Seq<char> {
    if c == '&' || c == '%' || c == '$' || c == '#' || c == '_' || c == '{' || c == '}' {
        seq!['\\', c]
    } else {
        seq![c]
    }
}

/// A text with BibTeX's special chars escaped.
pub open spec fn bibtex_escaped(s: Seq<char>) -> Seq<char>
    decreases s.len(),
{
    if s.len() == 0 {
        Seq::empty()
    } else {
        bibtex_escaped(s.drop_last()) + bibtex_escape_char(s.last())
    }
}

/// A field line, `  name = {value},`.
pub open spec fn field(name: Seq<char>, value: Seq<char>) -> Seq<char> {
    "  "@ + name + " = {"@ + value + "},\n"@
}

/// The line for an optional field.
pub open spec fn opt_field(name: Seq<char>, value: Option<Seq<char>>) -> Seq<char> {
    match value {
        Some(v) => field(name, v),
        None => Seq::empty(),
    }
}

/// The BibTeX entry of a paper: `@misc` for an arXiv paper, else
/// `@article`, then the title, authors, year, journal, DOI, eprint and URL
/// that it has.
pub open spec fn bibtex_entry(p: PaperView) -> Seq<char> {
    let entry_type = if p.arxiv_id is Some { "misc"@ } else { "article"@ };
    "@"@ + entry_type + "{"@ + citation_key(p) + ",\n"@
        + field("title"@, bibtex_escaped(p.title))
        + (if p.authors.len() > 0 { field("author"@, join(author_names(p.authors), " and "@)) } else { Seq::empty() })
        + (match p.publication_date { Some(d) => field("year"@, before_first(d, '-')), None => Seq::empty() })
        + opt_field("journal"@, p.venue)
        + opt_field("doi"@, p.doi)
        + (match p.arxiv_id { Some(a) => field("eprint"@, a) + "  archiveprefix = {arXiv},\n"@, None => Seq::empty() })
        + opt_field("url"@, p.pdf_url)
        + "}"@
}

/// The entries of papers, separated by blank lines.
pub open spec fn bibtex_entries(ps: Seq<PaperView>) -> Seq<char> {
    join(ps.map_values(|p: PaperView| bibtex_entry(p)), "\n\n"@)
}

/// What the BibTeX format says of statistics.
pub open spec fn bibtex_stats_text() -> Seq<char> {
    "% Citation statistics not available in BibTeX format\n"@
}

/// The views of papers.
pub open spec fn paper_views(ps: Seq<Paper>) -> Seq<PaperView> {
    ps.map_values(|p: Paper| p@)
}

/// The views of the papers of citation pairs.
pub open spec fn cited_papers(cs: Seq<(Paper, Vec<Author>)>) -> Seq<PaperView> {
    cs.map_values(|c: (Paper, Vec<Author>)| c.0@)
}

/// The BibTeX formatter.
pub struct BibtexFormatter;

fn push_field(out: &mut String, name: &str, value: &str)
    ensures
        final(out)@ == old(out)@ + field(name@, value@),
{
    push_str(out, "  ");
    push_str(out, name);
    push_str(out, " = {");
    push_str(out, value);
    push_str(out, "},\n");
}

impl BibtexFormatter {
    /// The citation key: first author's surname and the year.
    pub fn generate_key(paper: &Paper) -> (r: String)
        ensures
            r@ == citation_key(paper@),
    {
        let mut key = if paper.authors.len() > 0 {
            let name = &paper.authors[0].name;
            assert(paper@.authors[0].name == name@);
            let cs = to_chars(name.as_str());
            let word = match last_word_chars(cs.as_slice()) {
                Some(w) => string_of(w.as_slice()),
                None => name.clone(),
            };
            let lowered = to_lowercase(word.as_str());
            let lc = to_chars(lowered.as_str());
            string_of(alphanumerics_chars(lc.as_slice()).as_slice())
        } else {
            to_string("unknown")
        };
        match &paper.publication_date {
            Some(d) => {
                let dc = to_chars(d.as_str());
                let y = before_first_chars(dc.as_slice(), '-');
                push_str(&mut key, string_of(y.as_slice()).as_str());
            },
            None => push_str(&mut key, "nodate"),
        }
        key
    }

    /// Escapes BibTeX's special chars.
    pub fn escape_bibtex(s: &str) -> (r: String)
        ensures
            r@ == bibtex_escaped(s@),
    {
        let cs = to_chars(s);
        let mut r = String::new();
        let mut i: usize = 0;
        while i < cs.len()
            invariant
                0 <= i <= cs.len(),
                cs@ == s@,
                r@ == bibtex_escaped(cs@.take(i as int)),
            decreases cs.len() - i,
        {
            let c = cs[i];
            assert(cs@.take(i + 1).drop_last() == cs@.take(i as int));
            if c == '&' || c == '%' || c == '$' || c == '#' || c == '_' || c == '{' || c == '}' {
                push_char(&mut r, '\\');
                push_char(&mut r, c);
                assert(r@ == bibtex_escaped(cs@.take(i as int)) + seq!['\\', c]);
            } else {
                push_char(&mut r, c);
                assert(r@ == bibtex_escaped(cs@.take(i as int)) + seq![c]);
            }
            i = i + 1;
        }
        assert(cs@.take(cs@.len() as int) == cs@);
        r
    }

    /// The authors' names joined by ` and `.
    pub fn format_authors(authors: &[Author]) -> (r: String)
        ensures
            r@ == join(author_names(authors_view(authors@)), " and "@),
    {
        let names = names_of(authors);
        join_strings(&names, " and ")
    }

    /// The BibTeX entry of a paper.
    pub fn entry(paper: &Paper) -> (r: String)
        ensures
            r@ == bibtex_entry(paper@),
    {
        let p = paper;
        let mut out = to_string("@");
        if p.arxiv_id.is_some() {
            push_str(&mut out, "misc");
        } else {
            push_str(&mut out, "article");
        }
        push_str(&mut out, "{");
        let key = Self::generate_key(p);
        push_str(&mut out, key.as_str());
        push_str(&mut out, ",\n");
        let ghost head = out@;
        let title = Self::escape_bibtex(p.title.as_str());
        push_field(&mut out, "title", title.as_str());
        let ghost a0 = out@;
        if p.authors.len() > 0 {
            let names = Self::format_authors(p.authors.as_slice());
            push_field(&mut out, "author", names.as_str());
        }
        let ghost a1 = out@;
        match &p.publication_date {
            Some(d) => {
                let dc = to_chars(d.as_str());
                let y = string_of(before_first_chars(dc.as_slice(), '-').as_slice());
                push_field(&mut out, "year", y.as_str());
            },
            None => {},
        }
        let ghost a2 = out@;
        match &p.venue {
            Some(v) => push_field(&mut out, "journal", v.as_str()),
            None => {},
        }
        let ghost a3 = out@;
        match &p.doi {
            Some(d) => push_field(&mut out, "doi", d.as_str()),
            None => {},
        }
        let ghost a4 = out@;
        match &p.arxiv_id {
            Some(a) => {
                push_field(&mut out, "eprint", a.as_str());
                push_str(&mut out, "  archiveprefix = {arXiv},\n");
            },
            None => {},
        }
        let ghost a5 = out@;
        match &p.pdf_url {
            Some(u) => push_field(&mut out, "url", u.as_str()),
            None => {},
        }
        push_str(&mut out, "}");
        out
    }

    /// Entries of papers separated by blank lines.
    fn entries(list: &[Paper]) -> (r: String)
        ensures
            r@ == bibtex_entries(paper_views(list@)),
    {
        let ghost papers = paper_views(list@);
        let mut texts: Vec<String> = Vec::new();
        let mut i: usize = 0;
        while i < list.len()
            invariant
                0 <= i <= list.len(),
                papers == paper_views(list@),
                texts@.len() == i,
                forall|k: int| 0 <= k < i ==> (#[trigger] texts@[k])@ == bibtex_entry(papers[k]),
            decreases list.len() - i,
        {
            texts.push(Self::entry(&list[i]));
            i = i + 1;
        }
        assert(strings_view(texts@) =~= papers.map_values(|p: PaperView| bibtex_entry(p)));
        join_strings(&texts, "\n\n")
    }
}

impl OutputFormatter for BibtexFormatter {
    fn format_papers(&self, papers: &[Paper]) -> (r: String)
        ensures
            r@ == bibtex_entries(paper_views(papers@)),
    {
        Self::entries(papers)
    }

    fn format_paper_detail(&self, paper: &Paper) -> (r: String)
        ensures
            r@ == bibtex_entry(paper@),
    {
        Self::entry(paper)
    }

    fn format_citations(&self, citations: &[(Paper, Vec<Author>)], _direction: CitationDirection) -> (r: String)
        ensures
            r@ == bibtex_entries(cited_papers(citations@)),
    {
        let mut texts: Vec<String> = Vec::new();
        let ghost ps = cited_papers(citations@);
        let mut i: usize = 0;
        while i < citations.len()
            invariant
                0 <= i <= citations.len(),
                ps == cited_papers(citations@),
                texts@.len() == i,
                forall|k: int| 0 <= k < i ==> (#[trigger] texts@[k])@ == bibtex_entry(ps[k]),
            decreases citations.len() - i,
        {
            texts.push(Self::entry(&citations[i].0));
            i = i + 1;
        }
        assert(strings_view(texts@) =~= ps.map_values(|p: PaperView| bibtex_entry(p)));
        join_strings(&texts, "\n\n")
    }

    fn format_stats(&self, _stats: &CitationStats, _average: &str) -> (r: String)
        ensures
            r@ == bibtex_stats_text(),
    {
        to_string("% Citation statistics not available in BibTeX format\n")
    }

    fn extension(&self) -> (r: &'static str)
        ensures
            r@ == "bib"@,
    {
        "bib"
    }
}

} // verus!
