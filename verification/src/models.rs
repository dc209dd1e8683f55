//! Paper, author and citation records.

use vstd::prelude::*;
use crate::text::strings_view;

verus! {

/// The text of an optional string.
pub open spec fn opt_view(o: Option<String>) -> Option<Seq<char>> {
    match o {
        Some(s) => Some(s@),
        None => None,
    }
}

/// A copy of an optional string.
pub fn clone_opt(o: &Option<String>) -> (r: Option<String>)
    ensures
        r == *o,
        opt_view(r) == opt_view(*o),
{
    match o {
        Some(s) => Some(s.clone()),
        None => None,
    }
}

/// A point in time: whole seconds and nanoseconds since the Unix epoch (UTC).
#[derive(Clone, Copy, Debug, PartialEq, Eq)]
pub struct Timestamp {
    pub secs: i64,
    pub nanos: u32,
}

/// `chrono::Utc::now()`, as seconds and nanoseconds since the epoch. The
/// value depends on the clock: nothing is promised of it.
#[verifier::external_body]
pub(crate) fn now() -> (t: Timestamp) {
    let t = chrono::Utc::now();
    Timestamp { secs: t.timestamp(), nanos: t.timestamp_subsec_nanos() }
}

/// What an author record holds.
pub ghost struct AuthorView {
    pub id: Option<i64>,
    pub name: Seq<char>,
    pub semantic_scholar_id: Option<Seq<char>>,
    pub orcid: Option<Seq<char>>,
}

#[derive(Debug, Clone)]
pub struct Author {
    pub id: Option<i64>,
    pub name: String,
    pub semantic_scholar_id: Option<String>,
    pub orcid: Option<String>,
}

impl View for Author {
    type V = AuthorView;

    open spec fn view(&self) -> AuthorView {
        AuthorView {
            id: self.id,
            name: self.name@,
            semantic_scholar_id: opt_view(self.semantic_scholar_id),
            orcid: opt_view(self.orcid),
        }
    }
}

/// The views of a list of authors.
pub open spec fn authors_view(v: Seq<Author>) -> Seq<AuthorView> {
    v.map_values(|a: Author| a@)
}

/// The names of authors.
pub open spec fn author_names(a: Seq<AuthorView>) -> Seq<Seq<char>> {
    a.map_values(|x: AuthorView| x.name)
}

/// The names of authors, in order.
pub fn names_of(authors: &[Author]) -> (r: Vec<String>)
    ensures
        r@.len() == authors@.len(),
        strings_view(r@) == author_names(authors_view(authors@)),
{
    let mut names: Vec<String> = Vec::new();
    let mut i: usize = 0;
    while i < authors.len()
        invariant
            0 <= i <= authors.len(),
            names@.len() == i,
            forall|k: int| 0 <= k < i ==> (#[trigger] names@[k])@ == authors@[k].name@,
        decreases authors.len() - i,
    {
        names.push(authors[i].name.clone());
        i = i + 1;
    }
    assert(strings_view(names@) =~= author_names(authors_view(authors@)));
    names
}

impl Author {
    pub fn new(name: String) -> (r: Self)
        ensures
            r@ == (AuthorView { id: None, name: name@, semantic_scholar_id: None, orcid: None }),
    {
        Author { id: None, name, semantic_scholar_id: None, orcid: None }
    }

    pub fn with_semantic_scholar_id(self, ss_id: String) -> (r: Self)
        ensures
            r@ == (AuthorView { semantic_scholar_id: Some(ss_id@), ..self@ }),
    {
        let mut a = self;
        a.semantic_scholar_id = Some(ss_id);
        a
    }

    pub fn with_orcid(self, orcid: String) -> (r: Self)
        ensures
            r@ == (AuthorView { orcid: Some(orcid@), ..self@ }),
    {
        let mut a = self;
        a.orcid = Some(orcid);
        a
    }

    /// A field-by-field copy.
    pub fn duplicate(&self) -> (r: Self)
        ensures
            r@ == self@,
    {
        Author {
            id: self.id,
            name: self.name.clone(),
            semantic_scholar_id: clone_opt(&self.semantic_scholar_id),
            orcid: clone_opt(&self.orcid),
        }
    }
}

/// A copy of a list of authors.
pub fn duplicate_authors(v: &Vec<Author>) -> (r: Vec<Author>)
    ensures
        authors_view(r@) == authors_view(v@),
        r@.len() == v@.len(),
{
    let mut r: Vec<Author> = Vec::new();
    let mut i: usize = 0;
    while i < v.len()
        invariant
            0 <= i <= v.len(),
            r@.len() == i,
            forall|k: int| 0 <= k < i ==> (#[trigger] r@[k])@ == v@[k]@,
        decreases v.len() - i,
    {
        r.push(v[i].duplicate());
        i = i + 1;
    }
    assert(authors_view(r@) =~= authors_view(v@));
    r
}

#[derive(Debug, Clone, Copy, PartialEq, Eq)]
pub struct PaperAuthor {
    pub paper_id: i64,
    pub author_id: i64,
    pub author_order: i32,
}

impl PaperAuthor {
    pub fn new(paper_id: i64, author_id: i64, order: i32) -> (r: Self)
        ensures
            r.paper_id == paper_id,
            r.author_id == author_id,
            r.author_order == order,
    {
        PaperAuthor { paper_id, author_id, author_order: order }
    }
}

/// What a paper record holds.
pub ghost struct PaperView {
    pub id: Option<i64>,
    pub title: Seq<char>,
    pub abstract_text: Option<Seq<char>>,
    pub arxiv_id: Option<Seq<char>>,
    pub semantic_scholar_id: Option<Seq<char>>,
    pub doi: Option<Seq<char>>,
    pub pdf_url: Option<Seq<char>>,
    pub local_pdf_path: Option<Seq<char>>,
    pub publication_date: Option<Seq<char>>,
    pub venue: Option<Seq<char>>,
    pub citation_count: i64,
    pub authors: Seq<AuthorView>,
    pub created_at: Timestamp,
    pub updated_at: Timestamp,
}

#[derive(Debug, Clone)]
pub struct Paper {
    pub id: Option<i64>,
    pub title: String,
    pub abstract_text: Option<String>,
    pub arxiv_id: Option<String>,
    pub semantic_scholar_id: Option<String>,
    pub doi: Option<String>,
    pub pdf_url: Option<String>,
    pub local_pdf_path: Option<String>,
    pub publication_date: Option<String>,
    pub venue: Option<String>,
    pub citation_count: i64,
    pub authors: Vec<Author>,
    pub created_at: Timestamp,
    pub updated_at: Timestamp,
}

impl View for Paper {
    type V = PaperView;

    open spec fn view(&self) -> PaperView {
        PaperView {
            id: self.id,
            title: self.title@,
            abstract_text: opt_view(self.abstract_text),
            arxiv_id: opt_view(self.arxiv_id),
            semantic_scholar_id: opt_view(self.semantic_scholar_id),
            doi: opt_view(self.doi),
            pdf_url: opt_view(self.pdf_url),
            local_pdf_path: opt_view(self.local_pdf_path),
            publication_date: opt_view(self.publication_date),
            venue: opt_view(self.venue),
            citation_count: self.citation_count,
            authors: authors_view(self.authors@),
            created_at: self.created_at,
            updated_at: self.updated_at,
        }
    }
}

/// A new paper record with the given title, created at `t`.
pub open spec fn fresh_paper(title: Seq<char>, t: Timestamp) -> PaperView {
    PaperView {
        id: None,
        title,
        abstract_text: None,
        arxiv_id: None,
        semantic_scholar_id: None,
        doi: None,
        pdf_url: None,
        local_pdf_path: None,
        publication_date: None,
        venue: None,
        citation_count: 0,
        authors: Seq::empty(),
        created_at: t,
        updated_at: t,
    }
}

impl Paper {
    /// A paper with only a title, stamped with the current time.
    pub fn new(title: String) -> (r: Self)
        ensures
            r@ == fresh_paper(title@, r@.created_at),
    {
        let t = now();
        let authors: Vec<Author> = Vec::new();
        assert(authors_view(authors@) =~= Seq::empty());
        Paper {
            id: None,
            title,
            abstract_text: None,
            arxiv_id: None,
            semantic_scholar_id: None,
            doi: None,
            pdf_url: None,
            local_pdf_path: None,
            publication_date: None,
            venue: None,
            citation_count: 0,
            authors,
            created_at: t,
            updated_at: t,
        }
    }

    pub fn with_arxiv_id(self, arxiv_id: String) -> (r: Self)
        ensures
            r@ == (PaperView { arxiv_id: Some(arxiv_id@), updated_at: r@.updated_at, ..self@ }),
    {
        let mut p = self;
        p.arxiv_id = Some(arxiv_id);
        p.updated_at = now();
        p
    }

    pub fn with_semantic_scholar_id(self, ss_id: String) -> (r: Self)
        ensures
            r@ == (PaperView { semantic_scholar_id: Some(ss_id@), updated_at: r@.updated_at, ..self@ }),
    {
        let mut p = self;
        p.semantic_scholar_id = Some(ss_id);
        p.updated_at = now();
        p
    }

    pub fn with_doi(self, doi: String) -> (r: Self)
        ensures
            r@ == (PaperView { doi: Some(doi@), updated_at: r@.updated_at, ..self@ }),
    {
        let mut p = self;
        p.doi = Some(doi);
        p.updated_at = now();
        p
    }

    pub fn with_abstract(self, abstract_text: String) -> (r: Self)
        ensures
            r@ == (PaperView { abstract_text: Some(abstract_text@), updated_at: r@.updated_at, ..self@ }),
    {
        let mut p = self;
        p.abstract_text = Some(abstract_text);
        p.updated_at = now();
        p
    }

    pub fn with_pdf_url(self, pdf_url: String) -> (r: Self)
        ensures
            r@ == (PaperView { pdf_url: Some(pdf_url@), updated_at: r@.updated_at, ..self@ }),
    {
        let mut p = self;
        p.pdf_url = Some(pdf_url);
        p.updated_at = now();
        p
    }

    pub fn with_local_pdf(self, path: String) -> (r: Self)
        ensures
            r@ == (PaperView { local_pdf_path: Some(path@), updated_at: r@.updated_at, ..self@ }),
    {
        let mut p = self;
        p.local_pdf_path = Some(path);
        p.updated_at = now();
        p
    }

    pub fn with_citation_count(self, count: i64) -> (r: Self)
        ensures
            r@ == (PaperView { citation_count: count, updated_at: r@.updated_at, ..self@ }),
    {
        let mut p = self;
        p.citation_count = count;
        p.updated_at = now();
        p
    }

    pub fn with_venue(self, venue: String) -> (r: Self)
        ensures
            r@ == (PaperView { venue: Some(venue@), updated_at: r@.updated_at, ..self@ }),
    {
        let mut p = self;
        p.venue = Some(venue);
        p.updated_at = now();
        p
    }

    pub fn with_publication_date(self, date: String) -> (r: Self)
        ensures
            r@ == (PaperView { publication_date: Some(date@), updated_at: r@.updated_at, ..self@ }),
    {
        let mut p = self;
        p.publication_date = Some(date);
        p.updated_at = now();
        p
    }

    pub fn with_authors(self, authors: Vec<Author>) -> (r: Self)
        ensures
            r@ == (PaperView { authors: authors_view(authors@), updated_at: r@.updated_at, ..self@ }),
    {
        let mut p = self;
        p.authors = authors;
        p.updated_at = now();
        p
    }

    /// A field-by-field copy.
    pub fn duplicate(&self) -> (r: Self)
        ensures
            r@ == self@,
    {
        Paper {
            id: self.id,
            title: self.title.clone(),
            abstract_text: clone_opt(&self.abstract_text),
            arxiv_id: clone_opt(&self.arxiv_id),
            semantic_scholar_id: clone_opt(&self.semantic_scholar_id),
            doi: clone_opt(&self.doi),
            pdf_url: clone_opt(&self.pdf_url),
            local_pdf_path: clone_opt(&self.local_pdf_path),
            publication_date: clone_opt(&self.publication_date),
            venue: clone_opt(&self.venue),
            citation_count: self.citation_count,
            authors: duplicate_authors(&self.authors),
            created_at: self.created_at,
            updated_at: self.updated_at,
        }
    }
}

#[derive(Debug, Clone, Copy, PartialEq, Eq)]
pub struct Citation {
    pub citing_paper_id: i64,
    pub cited_paper_id: i64,
}

impl Citation {
    pub fn new(citing: i64, cited: i64) -> (r: Self)
        ensures
            r.citing_paper_id == citing,
            r.cited_paper_id == cited,
    {
        Citation { citing_paper_id: citing, cited_paper_id: cited }
    }
}

} // verus!
