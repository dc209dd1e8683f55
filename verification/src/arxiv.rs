//! The arXiv source: query URLs and the reading of arXiv's Atom responses.

use vstd::prelude::*;
use crate::http::{client_setup, make_client, proxy_refusal, source_setup};
use crate::identifier::{Identifier, IdentifierView, parse_identifier};
use crate::models::{Author, AuthorView, Paper, PaperView, Timestamp, authors_view};
use crate::source::{SearchParams, SearchResult, SourceCapabilities, SourceConfig, SourceError, SourceKind};
use crate::text::{
    decimal, find_chars, find_from, has_infix, has_prefix, lemma_find_from, match_at,
    pieces_view, push_decimal, push_str, slice_chars, split, split_chars, starts_with, string_of,
    to_chars, to_string, trim, trim_chars, url_encode, url_encoded, contains,
};

verus! {

broadcast use vstd::string::group_string_axioms;

/// The address of arXiv's query API.
pub open spec fn arxiv_api_url() -> Seq<char> {
    "http://export.arxiv.org/api/query"@
}

/// The text between `<tag>` and the next `</tag>` after it.
pub open spec fn tag_content(xml: Seq<char>, tag: Seq<char>) -> Option<Seq<char>> {
    let open = seq!['<'] + tag + seq!['>'];
    let close = seq!['<', '/'] + tag + seq!['>'];
    match find_from(xml, open, 0) {
        None => None,
        Some(start) => {
            let content_start = start + open.len();
            match find_from(xml, close, content_start) {
                None => None,
                Some(end) => Some(xml.subrange(content_start, end)),
            }
        },
    }
}

/// The `href` of a `<link ` piece marked as a PDF link.
pub open spec fn pdf_href(piece: Seq<char>) -> Option<Seq<char>> {
    if has_infix(piece, "title=\"pdf\""@) || has_infix(piece, "type=\"application/pdf\""@) {
        match find_from(piece, "href=\""@, 0) {
            Some(h) => {
                let rest = piece.skip(h + "href=\""@.len());
                match find_from(rest, seq!['"'], 0) {
                    Some(e) => Some(rest.take(e)),
                    None => None,
                }
            },
            None => None,
        }
    } else {
        None
    }
}

/// The first PDF link among the pieces.
pub open spec fn first_pdf_href(pieces: Seq<Seq<char>>) -> Option<Seq<char>>
    decreases pieces.len(),
{
    if pieces.len() == 0 {
        None
    } else {
        match pdf_href(pieces[0]) {
            Some(h) => Some(h),
            None => first_pdf_href(pieces.drop_first()),
        }
    }
}

/// The PDF link of an entry: the first `<link ` element marked as a PDF.
pub open spec fn pdf_link(xml: Seq<char>) -> Option<Seq<char>> {
    first_pdf_href(split(xml, "<link "@))
}

/// The trimmed names of the `<author>` elements from char index `pos` on,
/// in order; an `<author>` without a `<name>` gives no name, and an
/// `<author>` that is never closed ends the list.
pub open spec fn author_names_from(xml: Seq<char>, pos: int) -> Seq<Seq<char>>
    decreases xml.len() + 1 - pos,
{
    match find_from(xml, "<author>"@, pos) {
        None => Seq::empty(),
        Some(start) => {
            let body_start = start + "<author>"@.len();
            match find_from(xml, "</author>"@, body_start) {
                None => Seq::empty(),
                Some(end) => {
                    proof {
                        lemma_find_from(xml, "<author>"@, pos);
                        lemma_find_from(xml, "</author>"@, body_start);
                        reveal_strlit("<author>");
                        reveal_strlit("</author>");
                    }
                    let rest = author_names_from(xml, end + "</author>"@.len());
                    match tag_content(xml.subrange(body_start, end), "name"@) {
                        Some(n) => seq![trim(n)] + rest,
                        None => rest,
                    }
                },
            }
        },
    }
}

/// Authors known by name only.
pub open spec fn named_authors(names: Seq<Seq<char>>) -> Seq<AuthorView> {
    names.map_values(|n: Seq<char>| AuthorView { id: None, name: n, semantic_scholar_id: None, orcid: None })
}

/// The text of an optional field, or nothing.
pub open spec fn or_empty(o: Option<Seq<char>>) -> Seq<char> {
    match o {
        Some(s) => s,
        None => Seq::empty(),
    }
}

/// The arXiv id in an entry's `<id>`: what follows the abstract page
/// address, or nothing.
pub open spec fn abs_page_id(id: Seq<char>) -> Seq<char> {
    if has_prefix(id, "http://arxiv.org/abs/"@) {
        id.skip("http://arxiv.org/abs/"@.len() as int)
    } else if has_prefix(id, "https://arxiv.org/abs/"@) {
        id.skip("https://arxiv.org/abs/"@.len() as int)
    } else {
        Seq::empty()
    }
}

/// What an arXiv entry provides.
pub ghost struct EntryFields {
    pub title: Seq<char>,
    pub summary: Seq<char>,
    pub arxiv_id: Seq<char>,
    pub doi: Seq<char>,
    pub pdf_url: Seq<char>,
    pub authors: Seq<Seq<char>>,
}

/// The fields of an entry; an entry needs a `<title>` and an `<id>`.
pub open spec fn entry_fields(xml: Seq<char>) -> Option<EntryFields> {
    match (tag_content(xml, "title"@), tag_content(xml, "id"@)) {
        (Some(title), Some(id)) => Some(
            EntryFields {
                title: trim(title),
                summary: trim(or_empty(tag_content(xml, "summary"@))),
                arxiv_id: abs_page_id(id),
                doi: or_empty(tag_content(xml, "arxiv:doi"@)),
                pdf_url: or_empty(pdf_link(xml)),
                authors: author_names_from(xml, 0),
            },
        ),
        _ => None,
    }
}

/// The paper record made from an entry's fields.
pub open spec fn entry_paper(f: EntryFields, created: Timestamp, updated: Timestamp) -> PaperView {
    PaperView {
        id: None,
        title: f.title,
        abstract_text: Some(f.summary),
        arxiv_id: Some(f.arxiv_id),
        semantic_scholar_id: None,
        doi: Some(f.doi),
        pdf_url: Some(f.pdf_url),
        local_pdf_path: None,
        publication_date: None,
        venue: None,
        citation_count: 0,
        authors: named_authors(f.authors),
        created_at: created,
        updated_at: updated,
    }
}

/// The entries of the pieces after each `<entry>`: a piece with a closing
/// `</entry>` and a title and id gives an entry, any other piece none.
pub open spec fn response_entries(pieces: Seq<Seq<char>>) -> Seq<EntryFields>
    decreases pieces.len(),
{
    if pieces.len() == 0 {
        Seq::empty()
    } else {
        let rest = response_entries(pieces.drop_first());
        match find_from(pieces[0], "</entry>"@, 0) {
            Some(end) => match entry_fields(pieces[0].take(end)) {
                Some(f) => seq![f] + rest,
                None => rest,
            },
            None => rest,
        }
    }
}

/// The entries of an arXiv response, in order.
pub open spec fn response_papers(xml: Seq<char>) -> Seq<EntryFields> {
    response_entries(split(xml, "<entry>"@).drop_first())
}

/// The search URL for the given parameters.
pub open spec fn search_url(params: SearchParams) -> Seq<char> {
    let sort_by = match params.sort_by {
        Some(s) => s@,
        None => "relevance"@,
    };
    let sort_order = match params.sort_order {
        Some(s) => s@,
        None => "descending"@,
    };
    arxiv_api_url() + "?search_query="@ + url_encoded(params.query@) + "&start="@ + decimal(
        params.offset as nat,
    ) + "&max_results="@ + decimal(params.limit as nat) + "&sortBy="@ + sort_by + "&sortOrder="@
        + sort_order
}

/// The id searched for when a paper is looked up by an identifier: an arXiv
/// id as it is, the id in an arXiv abstract URL (or the URL itself), or the
/// raw text for any other identifier.
pub open spec fn lookup_id(identifier: Seq<char>) -> Seq<char> {
    match parse_identifier(identifier) {
        IdentifierView::Arxiv(id) => id,
        IdentifierView::Url(url) => if has_prefix(url, "https://arxiv.org/abs/"@) {
            url.skip("https://arxiv.org/abs/"@.len() as int)
        } else if has_prefix(url, "http://arxiv.org/abs/"@) {
            url.skip("http://arxiv.org/abs/"@.len() as int)
        } else {
            url
        },
        _ => identifier,
    }
}

/// The arXiv paper source.
pub struct ArxivSource {
    client: reqwest::Client,
    config: SourceConfig,
}

impl ArxivSource {
    /// A source with an HTTP client built from the configuration.
    pub fn new(config: SourceConfig) -> (r: Result<Self, SourceError>)
        ensures
            proxy_refusal(config) matches Some(m) ==> (r matches Err(SourceError::Network(t)) && t@ == m),
            r is Ok || r matches Err(SourceError::Network(_)),
            r matches Ok(s) ==> client_setup(s.http_client()) == source_setup(config),
            r matches Ok(s) ==> s.config() == config,
    {
        match make_client(&config) {
            Ok(client) => Ok(ArxivSource { client, config }),
            Err(e) => Err(e),
        }
    }

    pub closed spec fn config(&self) -> SourceConfig {
        self.config
    }

    /// The configuration the source was built with.
    pub fn get_config(&self) -> (r: &SourceConfig)
        ensures
            *r == self.config(),
    {
        &self.config
    }

    /// The HTTP client this value was built with.
    pub closed spec fn http_client(&self) -> reqwest::Client {
        self.client
    }

    /// The HTTP client of the source.
    pub fn client(&self) -> (r: &reqwest::Client)
        ensures
            *r == self.http_client(),
    {
        &self.client
    }

    pub fn kind(&self) -> (r: SourceKind)
        ensures
            r == SourceKind::Arxiv,
    {
        SourceKind::Arxiv
    }

    pub fn name(&self) -> (r: &str)
        ensures
            r@ == "arXiv"@,
    {
        "arXiv"
    }

    /// arXiv can search, fetch by id and download PDFs, but does not list
    /// citations, references or authors.
    pub fn capabilities(&self) -> (r: SourceCapabilities)
        ensures
            r == (SourceCapabilities {
                search: true,
                get_by_id: true,
                citations: false,
                references: false,
                authors: false,
                pdf_download: true,
            }),
    {
        SourceCapabilities {
            search: true,
            get_by_id: true,
            citations: false,
            references: false,
            authors: false,
            pdf_download: true,
        }
    }

    /// Percent-encodes a query text.
    pub fn url_encode(s: &str) -> (r: String)
        ensures
            r@ == url_encoded(s@),
    {
        url_encode(s)
    }

    /// The query URL for a search.
    pub fn build_search_url(&self, params: &SearchParams) -> (r: String)
        ensures
            r@ == search_url(*params),
    {
        let mut url = to_string("http://export.arxiv.org/api/query");
        push_str(&mut url, "?search_query=");
        let q = url_encode(params.query.as_str());
        push_str(&mut url, q.as_str());
        push_str(&mut url, "&start=");
        push_decimal(&mut url, params.offset as u64);
        push_str(&mut url, "&max_results=");
        push_decimal(&mut url, params.limit as u64);
        push_str(&mut url, "&sortBy=");
        match &params.sort_by {
            Some(s) => push_str(&mut url, s.as_str()),
            None => push_str(&mut url, "relevance"),
        }
        push_str(&mut url, "&sortOrder=");
        match &params.sort_order {
            Some(s) => push_str(&mut url, s.as_str()),
            None => push_str(&mut url, "descending"),
        }
        url
    }

    /// The parameters that look a paper up by an identifier: `id:` and the
    /// id, at most one result.
    pub fn lookup_params(identifier: &str) -> (r: SearchParams)
        ensures
            r.query@ == "id:"@ + lookup_id(identifier@),
            r.offset == 0,
            r.limit == 1,
            r.sort_by is None,
            r.sort_order is None,
    {
        let id: String = match Identifier::parse(identifier) {
            Identifier::Arxiv(id) => id,
            Identifier::Url(url) => {
                let cs = to_chars(url.as_str());
                let https = to_chars("https://arxiv.org/abs/");
                let http = to_chars("http://arxiv.org/abs/");
                if starts_with(cs.as_slice(), https.as_slice()) {
                    string_of(slice_chars(cs.as_slice(), https.len(), cs.len()).as_slice())
                } else if starts_with(cs.as_slice(), http.as_slice()) {
                    string_of(slice_chars(cs.as_slice(), http.len(), cs.len()).as_slice())
                } else {
                    url
                }
            },
            _ => to_string(identifier),
        };
        let mut q = to_string("id:");
        push_str(&mut q, id.as_str());
        SearchParams { query: q, offset: 0, limit: 1, sort_by: None, sort_order: None }
    }

    /// The result of a search that returned `papers`: all of them, their
    /// number as the total, and more when the limit was reached.
    pub fn search_result(papers: Vec<Paper>, params: &SearchParams) -> (r: SearchResult)
        ensures
            r.papers@ == papers@,
            r.total == Some(papers@.len() as usize),
            r.has_more == (papers@.len() == params.limit),
    {
        let n = papers.len();
        SearchResult { total: Some(n), has_more: n == params.limit, papers }
    }

    /// arXiv does not list the papers that cite a paper.
    pub fn get_citations(&self, _paper_id: &str, _limit: usize) -> (r: Result<Vec<(Paper, Vec<Author>)>, SourceError>)
        ensures
            r matches Err(SourceError::Other(m)) && m@ == "arXiv 不支持获取引用关系"@,
    {
        Err(SourceError::Other(to_string("arXiv 不支持获取引用关系")))
    }

    /// arXiv does not list the papers a paper cites.
    pub fn get_references(&self, _paper_id: &str, _limit: usize) -> (r: Result<Vec<(Paper, Vec<Author>)>, SourceError>)
        ensures
            r matches Err(SourceError::Other(m)) && m@ == "arXiv 不支持获取参考文献"@,
    {
        Err(SourceError::Other(to_string("arXiv 不支持获取参考文献")))
    }

    /// The URL that checks whether arXiv answers.
    pub fn health_check_url(&self) -> (r: String)
        ensures
            r@ == arxiv_api_url() + "?search_query=test&max_results=1"@,
    {
        let mut url = to_string("http://export.arxiv.org/api/query");
        push_str(&mut url, "?search_query=test&max_results=1");
        url
    }
}

} // verus!

verus! {

/// The chars of `<tag>` and of `</tag>`.
fn tag_marks(tag: &[char]) -> (r: (Vec<char>, Vec<char>))
    ensures
        r.0@ == seq!['<'] + tag@ + seq!['>'],
        r.1@ == seq!['<', '/'] + tag@ + seq!['>'],
{
    let mut open: Vec<char> = Vec::new();
    let mut close: Vec<char> = Vec::new();
    open.push('<');
    close.push('<');
    close.push('/');
    let mut i: usize = 0;
    while i < tag.len()
        invariant
            0 <= i <= tag.len(),
            open@ == seq!['<'] + tag@.take(i as int),
            close@ == seq!['<', '/'] + tag@.take(i as int),
        decreases tag.len() - i,
    {
        open.push(tag[i]);
        close.push(tag[i]);
        assert(tag@.take(i + 1) == tag@.take(i as int).push(tag@[i as int]));
        i = i + 1;
    }
    open.push('>');
    close.push('>');
    assert(tag@.take(tag@.len() as int) == tag@);
    (open, close)
}

/// The chars between `<tag>` and the next `</tag>`.
pub fn tag_content_chars(xml: &[char], tag: &[char]) -> (r: Option<Vec<char>>)
    ensures
        r matches Some(v) ==> tag_content(xml@, tag@) == Some(v@),
        r is None ==> tag_content(xml@, tag@) is None,
{
    let (open, close) = tag_marks(tag);
    let start = match find_chars(xml, open.as_slice(), 0) {
        Some(s) => s,
        None => return None,
    };
    assert(match_at(xml@, open@, start as int));
    let n = xml.len();
    assert(match_at(xml@, open@, start as int));
    let content_start = start + open.len();
    let end = match find_chars(xml, close.as_slice(), content_start) {
        Some(e) => e,
        None => return None,
    };
    Some(slice_chars(xml, content_start, end))
}

/// The `href` of a PDF link piece.
fn pdf_href_chars(piece: &[char]) -> (r: Option<Vec<char>>)
    ensures
        r matches Some(v) ==> pdf_href(piece@) == Some(v@),
        r is None ==> pdf_href(piece@) is None,
{
    let title_pdf = to_chars("title=\"pdf\"");
    let type_pdf = to_chars("type=\"application/pdf\"");
    if contains(piece, title_pdf.as_slice()) || contains(piece, type_pdf.as_slice()) {
        let href = to_chars("href=\"");
        match find_chars(piece, href.as_slice(), 0) {
            Some(h) => {
                let n = piece.len();
                assert(match_at(piece@, href@, h as int));
                let rest = slice_chars(piece, h + href.len(), piece.len());
                assert(rest@ == piece@.skip(h + href@.len()));
                let quote = vec!['"'];
                assert(quote@ =~= seq!['"']);
                match find_chars(rest.as_slice(), quote.as_slice(), 0) {
                    Some(e) => {
                        let v = slice_chars(rest.as_slice(), 0, e);
                        assert(v@ == rest@.take(e as int));
                        Some(v)
                    },
                    None => None,
                }
            },
            None => None,
        }
    } else {
        None
    }
}

/// The PDF link of an entry's chars.
fn pdf_link_chars(xml: &[char]) -> (r: Option<Vec<char>>)
    ensures
        r matches Some(v) ==> pdf_link(xml@) == Some(v@),
        r is None ==> pdf_link(xml@) is None,
{
    let sep = to_chars("<link ");
    proof { reveal_strlit("<link "); }
    let pieces = split_chars(xml, sep.as_slice());
    let ghost all = pieces_view(pieces@);
    let mut i: usize = 0;
    assert(all.skip(0) == all);
    while i < pieces.len()
        invariant
            0 <= i <= pieces.len(),
            all == pieces_view(pieces@),
            all == split(xml@, sep@),
            sep@ == "<link "@,
            first_pdf_href(all) == first_pdf_href(all.skip(i as int)),
        decreases pieces.len() - i,
    {
        assert(all.skip(i as int)[0] == pieces@[i as int]@);
        assert(all.skip(i as int).drop_first() == all.skip(i + 1));
        match pdf_href_chars(pieces[i].as_slice()) {
            Some(h) => return Some(h),
            None => {},
        }
        i = i + 1;
    }
    None
}

/// The author names of an entry's chars.
fn author_names_chars(xml: &[char]) -> (r: Vec<Vec<char>>)
    ensures
        pieces_view(r@) == author_names_from(xml@, 0),
{
    let open = to_chars("<author>");
    let close = to_chars("</author>");
    let name_tag = to_chars("name");
    proof {
        reveal_strlit("<author>");
        reveal_strlit("</author>");
    }
    let mut names: Vec<Vec<char>> = Vec::new();
    let mut pos: usize = 0;
    assert(pieces_view(names@) =~= Seq::<Seq<char>>::empty());
    loop
        invariant
            0 <= pos <= xml.len(),
            open@ == "<author>"@,
            close@ == "</author>"@,
            name_tag@ == "name"@,
            pieces_view(names@) + author_names_from(xml@, pos as int) == author_names_from(xml@, 0),
        decreases xml.len() + 1 - pos,
    {
        let ghost before = pieces_view(names@);
        proof {
            reveal_strlit("<author>");
            reveal_strlit("</author>");
        }
        let start = match find_chars(xml, open.as_slice(), pos) {
            Some(s) => s,
            None => {
                assert(before + author_names_from(xml@, pos as int) == before);
                return names;
            },
        };
        let body_start = start + open.len();
        let end = match find_chars(xml, close.as_slice(), body_start) {
            Some(e) => e,
            None => {
                assert(before + author_names_from(xml@, pos as int) == before);
                return names;
            },
        };
        let body = slice_chars(xml, body_start, end);
        let ghost rest = author_names_from(xml@, end + close@.len());
        match tag_content_chars(body.as_slice(), name_tag.as_slice()) {
            Some(n) => {
                let t = trim_chars(n.as_slice());
                names.push(t);
                assert(pieces_view(names@) =~= before.push(t@));
                assert(before.push(t@) + rest == before + (seq![t@] + rest));
            },
            None => {},
        }
        pos = end + close.len();
    }
}

/// Authors known by name only, from their names.
fn authors_of(names: &Vec<Vec<char>>) -> (r: Vec<Author>)
    ensures
        authors_view(r@) == named_authors(pieces_view(names@)),
{
    let mut r: Vec<Author> = Vec::new();
    let mut i: usize = 0;
    while i < names.len()
        invariant
            0 <= i <= names.len(),
            r@.len() == i,
            forall|k: int| 0 <= k < i ==> (#[trigger] r@[k])@ == (AuthorView {
                id: None,
                name: names@[k]@,
                semantic_scholar_id: None,
                orcid: None,
            }),
        decreases names.len() - i,
    {
        r.push(Author::new(string_of(names[i].as_slice())));
        i = i + 1;
    }
    assert(authors_view(r@) =~= named_authors(pieces_view(names@)));
    r
}

/// The arXiv id in an entry's id.
fn abs_page_id_chars(id: &[char]) -> (r: Vec<char>)
    ensures
        r@ == abs_page_id(id@),
{
    let http = to_chars("http://arxiv.org/abs/");
    let https = to_chars("https://arxiv.org/abs/");
    if starts_with(id, http.as_slice()) {
        slice_chars(id, http.len(), id.len())
    } else if starts_with(id, https.as_slice()) {
        slice_chars(id, https.len(), id.len())
    } else {
        Vec::new()
    }
}

fn text_or_empty(o: Option<Vec<char>>) -> (r: String)
    ensures
        r@ == or_empty(match o {
            Some(v) => Some(v@),
            None => None,
        }),
{
    match o {
        Some(v) => string_of(v.as_slice()),
        None => String::new(),
    }
}

/// The paper of an entry's chars.
fn entry_chars(xml: &[char]) -> (r: Option<Paper>)
    ensures
        r matches Some(p) ==> (entry_fields(xml@) matches Some(f) && p@ == entry_paper(f, p@.created_at, p@.updated_at)),
        r is None ==> entry_fields(xml@) is None,
{
    let title_tag = to_chars("title");
    let summary_tag = to_chars("summary");
    let id_tag = to_chars("id");
    let doi_tag = to_chars("arxiv:doi");
    let title = match tag_content_chars(xml, title_tag.as_slice()) {
        Some(t) => t,
        None => return None,
    };
    let summary = tag_content_chars(xml, summary_tag.as_slice());
    let id = match tag_content_chars(xml, id_tag.as_slice()) {
        Some(i) => i,
        None => return None,
    };
    let doi = tag_content_chars(xml, doi_tag.as_slice());
    let arxiv_id = abs_page_id_chars(id.as_slice());
    let pdf_url = pdf_link_chars(xml);
    let names = author_names_chars(xml);
    let authors = authors_of(&names);
    let summary_text = match summary {
        Some(s) => trim_chars(s.as_slice()),
        None => Vec::new(),
    };
    let title_text = trim_chars(title.as_slice());
    let p = Paper::new(string_of(title_text.as_slice()))
        .with_abstract(string_of(summary_text.as_slice()))
        .with_arxiv_id(string_of(arxiv_id.as_slice()))
        .with_doi(text_or_empty(doi))
        .with_pdf_url(text_or_empty(pdf_url))
        .with_authors(authors);
    proof {
        let f = entry_fields(xml@).unwrap();
        assert(summary_text@ == f.summary);
    }
    Some(p)
}

/// The entries of a response's pieces after the first `<entry>`.
fn entries_chars(pieces: &Vec<Vec<char>>) -> (r: Vec<Paper>)
    requires
        pieces@.len() >= 1,
    ensures
        ({
            let e = response_entries(pieces_view(pieces@).drop_first());
            &&& r@.len() == e.len()
            &&& forall|i: int| 0 <= i < e.len() ==> (#[trigger] r@[i])@ == entry_paper(e[i], r@[i]@.created_at, r@[i]@.updated_at)
        }),
{
    let end_mark = to_chars("</entry>");
    let mut papers: Vec<Paper> = Vec::new();
    let ghost all = pieces_view(pieces@).drop_first();
    let ghost e = response_entries(all);
    let mut i: usize = 1;
    assert(pieces_view(pieces@).skip(1) == all);
    assert(e.take(0) + e == e);
    loop
        invariant
            1 <= i <= pieces.len(),
            all == pieces_view(pieces@).drop_first(),
            e == response_entries(all),
            end_mark@ == "</entry>"@,
            papers@.len() <= e.len(),
            e == e.take(papers@.len() as int) + response_entries(pieces_view(pieces@).skip(i as int)),
            forall|k: int| 0 <= k < papers@.len() ==> (#[trigger] papers@[k])@ == entry_paper(e[k], papers@[k]@.created_at, papers@[k]@.updated_at),
        decreases pieces.len() - i,
    {
        let ghost rest = pieces_view(pieces@).skip(i as int);
        let ghost n = papers@.len() as int;
        if i == pieces.len() {
            assert(rest.len() == 0);
            assert(e.take(n) + Seq::<EntryFields>::empty() == e.take(n));
            return papers;
        }
        assert(rest[0] == pieces@[i as int]@);
        assert(rest.drop_first() == pieces_view(pieces@).skip(i + 1));
        let piece = &pieces[i];
        match find_chars(piece.as_slice(), end_mark.as_slice(), 0) {
            Some(end) => {
                let body = slice_chars(piece.as_slice(), 0, end);
                assert(body@ == piece@.take(end as int));
                match entry_chars(body.as_slice()) {
                    Some(p) => {
                        let ghost f = entry_fields(body@).unwrap();
                        let ghost later = response_entries(pieces_view(pieces@).skip(i + 1));
                        assert(response_entries(rest) == seq![f] + later);
                        assert(e == e.take(n) + (seq![f] + later));
                        assert(e[n] == f);
                        assert(e.take(n + 1) =~= e.take(n).push(f));
                        assert(e.take(n).push(f) + later =~= e.take(n) + (seq![f] + later));
                        papers.push(p);
                    },
                    None => {
                        assert(response_entries(rest) == response_entries(pieces_view(pieces@).skip(i + 1)));
                    },
                }
            },
            None => {
                assert(response_entries(rest) == response_entries(pieces_view(pieces@).skip(i + 1)));
            },
        }
        i = i + 1;
    }
}

impl ArxivSource {
    /// The text between `<tag>` and the next `</tag>`.
    pub fn extract_tag(&self, xml: &str, tag: &str) -> (r: Option<String>)
        ensures
            r matches Some(s) ==> tag_content(xml@, tag@) == Some(s@),
            r is None ==> tag_content(xml@, tag@) is None,
    {
        let x = to_chars(xml);
        let t = to_chars(tag);
        match tag_content_chars(x.as_slice(), t.as_slice()) {
            Some(v) => Some(string_of(v.as_slice())),
            None => None,
        }
    }

    /// The first link of an entry marked as a PDF.
    pub fn extract_pdf_link(&self, xml: &str) -> (r: Option<String>)
        ensures
            r matches Some(s) ==> pdf_link(xml@) == Some(s@),
            r is None ==> pdf_link(xml@) is None,
    {
        let x = to_chars(xml);
        match pdf_link_chars(x.as_slice()) {
            Some(v) => Some(string_of(v.as_slice())),
            None => None,
        }
    }

    /// The authors of an entry, by name.
    pub fn extract_authors(&self, xml: &str) -> (r: Vec<Author>)
        ensures
            authors_view(r@) == named_authors(author_names_from(xml@, 0)),
    {
        let x = to_chars(xml);
        let names = author_names_chars(x.as_slice());
        authors_of(&names)
    }

    /// The paper of one entry, when it has a title and an id.
    pub fn parse_entry(&self, xml: &str) -> (r: Option<Paper>)
        ensures
            r matches Some(p) ==> (entry_fields(xml@) matches Some(f) && p@ == entry_paper(f, p@.created_at, p@.updated_at)),
            r is None ==> entry_fields(xml@) is None,
    {
        let x = to_chars(xml);
        entry_chars(x.as_slice())
    }

    /// The papers of an arXiv response, one per complete entry, in order.
    pub fn parse_response(&self, xml: &str) -> (r: Result<Vec<Paper>, SourceError>)
        ensures
            r matches Ok(papers) && ({
                let e = response_papers(xml@);
                &&& papers@.len() == e.len()
                &&& forall|i: int| 0 <= i < e.len() ==> (#[trigger] papers@[i])@ == entry_paper(e[i], papers@[i]@.created_at, papers@[i]@.updated_at)
            }),
    {
        let x = to_chars(xml);
        let sep = to_chars("<entry>");
        proof { reveal_strlit("<entry>"); }
        let pieces = split_chars(x.as_slice(), sep.as_slice());
        Ok(entries_chars(&pieces))
    }
}

/// `find_from` finds the first match at or after `from`.
proof fn lemma_find_first(hay: Seq<char>, pat: Seq<char>, from: int, k: int)
    requires
        0 <= from <= k,
        match_at(hay, pat, k),
        forall|j: int| from <= j < k ==> !#[trigger] match_at(hay, pat, j),
    ensures
        find_from(hay, pat, from) == Some(k),
    decreases k - from,
{
    if from < k {
        lemma_find_first(hay, pat, from + 1, k);
    }
}

/// A match at or after `from` is found.
proof fn lemma_find_some(hay: Seq<char>, pat: Seq<char>, from: int, k: int)
    requires
        0 <= from <= k,
        match_at(hay, pat, k),
    ensures
        find_from(hay, pat, from) is Some,
    decreases k - from,
{
    if from < k && !match_at(hay, pat, from) {
        lemma_find_some(hay, pat, from + 1, k);
    }
}

/// Searching the back part of a text from inside it is searching that part.
proof fn lemma_find_shift(a: Seq<char>, b: Seq<char>, pat: Seq<char>, j: int)
    requires
        0 <= j,
    ensures
        find_from(a + b, pat, a.len() + j) == match find_from(b, pat, j) {
            Some(i) => Some(i + a.len()),
            None => None::<int>,
        },
    decreases b.len() + 1 - j,
{
    let x = a + b;
    if j + pat.len() <= b.len() {
        assert(x.subrange(a.len() + j, a.len() + j + pat.len()) == b.subrange(j, j + pat.len()));
        if !match_at(b, pat, j) {
            lemma_find_shift(a, b, pat, j + 1);
        }
    }
}

/// Reading authors from inside the back part of a text is reading them
/// from that part.
proof fn lemma_authors_shift(a: Seq<char>, b: Seq<char>, j: int)
    requires
        0 <= j,
    ensures
        author_names_from(a + b, a.len() + j) == author_names_from(b, j),
    decreases b.len() + 1 - j,
{
    reveal_strlit("<author>");
    reveal_strlit("</author>");
    let x = a + b;
    lemma_find_shift(a, b, "<author>"@, j);
    if let Some(start) = find_from(b, "<author>"@, j) {
        lemma_find_from(b, "<author>"@, j);
        let bs = start + 8;
        lemma_find_shift(a, b, "</author>"@, bs);
        if let Some(end) = find_from(b, "</author>"@, bs) {
            lemma_find_from(b, "</author>"@, bs);
            assert(x.subrange(a.len() + bs, a.len() + end) == b.subrange(bs, end));
            assert(a.len() + end + 9 == a.len() + (end + 9));
            lemma_authors_shift(a, b, end + 9);
        }
    }
}

/// An `<author>` element naming `n`.
pub open spec fn author_element(n: Seq<char>) -> Seq<char> {
    "<author><name>"@ + n + "</name></author>"@
}

/// A text without an `<author>` element names no author.
pub proof fn law_no_authors(s: Seq<char>)
    requires
        !has_infix(s, "<author>"@),
    ensures
        author_names_from(s, 0) == Seq::<Seq<char>>::empty(),
{
}

/// The first `<author>` element of a text gives the first author: its
/// name, trimmed, followed by the authors of the text after the element.
pub proof fn law_first_author(pre: Seq<char>, n: Seq<char>, post: Seq<char>)
    requires
        !has_infix(pre, "<author>"@),
        forall|i: int| 0 <= i < n.len() ==> n[i] != '<',
    ensures
        author_names_from(pre + author_element(n) + post, 0) == seq![trim(n)] + author_names_from(post, 0),
{
    reveal_strlit("<author>");
    reveal_strlit("</author>");
    reveal_strlit("<author><name>");
    reveal_strlit("</name></author>");
    reveal_strlit("<name>");
    reveal_strlit("</name>");
    reveal_strlit("name");
    let oa = "<author>"@;
    let ca = "</author>"@;
    let body = "<name>"@ + n + "</name>"@;
    let x = pre + author_element(n) + post;
    let p = pre.len() as int;
    let bl = body.len() as int;
    let nl = n.len() as int;
    assert(author_element(n) == oa + body + ca);
    assert(x == pre + (oa + body + ca + post));
    assert forall|t: int| 0 <= t < bl implies #[trigger] x[p + 8 + t] == body[t] by {}
    assert forall|t: int| 0 <= t < 9 implies #[trigger] x[p + 8 + bl + t] == ca[t] by {}
    assert forall|t: int| 0 <= t < 8 implies #[trigger] x[p + t] == oa[t] by {}
    // The first `<author>` is the element's.
    assert forall|j: int| 0 <= j < p implies !#[trigger] match_at(x, oa, j) by {
        if match_at(x, oa, j) {
            if j + 8 <= p {
                assert(pre.subrange(j, j + 8) == x.subrange(j, j + 8));
                lemma_find_some(pre, oa, 0, j);
            } else {
                assert(x.subrange(j, j + 8)[p - j] == x[p]);
                assert(oa[p - j] != '<');
            }
        }
    }
    assert(x.subrange(p, p + 8) == oa);
    lemma_find_first(x, oa, 0, p);
    // The first `</author>` after it closes the element.
    let bs = p + 8;
    assert forall|j: int| bs <= j < bs + bl implies !#[trigger] match_at(x, ca, j) by {
        if match_at(x, ca, j) {
            let t = j - bs;
            assert(x.subrange(j, j + 9)[0] == x[j]);
            assert(x.subrange(j, j + 9)[1] == x[j + 1]);
            assert(x.subrange(j, j + 9)[2] == x[j + 2]);
            if t < 6 {
                assert(x[j] == body[t]);
                if t == 0 {
                    assert(x[j + 1] == body[1]);
                }
            } else if t < 6 + n.len() {
                assert(x[j] == body[t] && body[t] == n[t - 6]);
            } else {
                assert(x[j] == body[t]);
                if t == 6 + n.len() {
                    assert(x[j + 2] == body[t + 2]);
                }
            }
        }
    }
    assert(x.subrange(bs + bl, bs + bl + 9) == ca);
    lemma_find_first(x, ca, bs, bs + bl);
    // The element's name.
    assert(x.subrange(bs, bs + bl) == body);
    let on = seq!['<'] + "name"@ + seq!['>'];
    let cn = seq!['<', '/'] + "name"@ + seq!['>'];
    assert(on == "<name>"@);
    assert(cn == "</name>"@);
    assert(body.subrange(0, 6) == on);
    lemma_find_first(body, on, 0, 0);
    assert forall|j: int| 6 <= j < 6 + n.len() implies !#[trigger] match_at(body, cn, j) by {
        assert(body.subrange(j, j + 7)[0] == body[j]);
        assert(body[j] == n[j - 6]);
    }
    assert(body.subrange(6 + nl, 6 + nl + 7) == cn);
    lemma_find_first(body, cn, 6, 6 + nl);
    assert(body.subrange(6, 6 + nl) == n);
    assert(tag_content(body, "name"@) == Some(n));
    // The rest of the authors.
    assert(x == (pre + author_element(n)) + post);
    assert(bs + bl + 9 == (pre + author_element(n)).len());
    lemma_authors_shift(pre + author_element(n), post, 0);
}

/// The authors of a parsed entry are the names read from its `<author>`
/// elements, in order.
pub proof fn law_entry_authors(xml: Seq<char>, created: Timestamp, updated: Timestamp)
    ensures
        entry_fields(xml) matches Some(f) ==> entry_paper(f, created, updated).authors == named_authors(
            author_names_from(xml, 0),
        ),
{
}

/// An entry whose first `<author>` element names `n` is parsed with `n`,
/// trimmed, as its first author, followed by the authors named after it.
pub proof fn law_entry_first_author(
    pre: Seq<char>,
    n: Seq<char>,
    post: Seq<char>,
    created: Timestamp,
    updated: Timestamp,
)
    requires
        !has_infix(pre, "<author>"@),
        forall|i: int| 0 <= i < n.len() ==> n[i] != '<',
    ensures
        entry_fields(pre + author_element(n) + post) matches Some(f) ==> {
            let authors = entry_paper(f, created, updated).authors;
            &&& authors.len() == 1 + author_names_from(post, 0).len()
            &&& authors[0].name == trim(n)
            &&& authors.drop_first() == named_authors(author_names_from(post, 0))
        },
{
    law_first_author(pre, n, post);
    law_entry_authors(pre + author_element(n) + post, created, updated);
    let rest = author_names_from(post, 0);
    assert((seq![trim(n)] + rest).drop_first() == rest);
    assert(named_authors(seq![trim(n)] + rest).drop_first() == named_authors(rest));
}

} // verus!
