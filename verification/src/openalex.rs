//! The OpenAlex source: request URLs and the conversion of OpenAlex works
//! into paper records.

use vstd::prelude::*;
use crate::http::{client_setup, make_client, proxy_refusal, source_setup};
use crate::identifier::{Identifier, IdentifierView, parse_identifier};
use crate::models::{Author, AuthorView, Paper, PaperView, Timestamp, authors_view, opt_view, clone_opt};
use crate::source::{SearchParams, SearchResult, SourceCapabilities, SourceConfig, SourceError, SourceKind};
use crate::text::{
    after_last, after_last_chars, decimal, find_from, has_infix, join, join_strings, push_decimal, push_signed, push_str,
    replace_all, replace_chars, signed_decimal, push_char, string_of, strings_view, to_chars, to_string,
    u64_text, url_encode, url_encoded,
};

verus! {

broadcast use vstd::string::group_string_axioms;

/// The summary of an OpenAlex search response.
#[derive(Debug, Clone, Copy)]
pub struct OaMeta {
    pub count: i64,
    pub per_page: i64,
}

/// An OpenAlex search response.
#[derive(Debug)]
pub struct OaSearchResponse {
    pub meta: OaMeta,
    pub results: Vec<OaWork>,
}

/// An OpenAlex work. The inverted index of the abstract lists each word
/// with the positions where it occurs.
#[derive(Debug)]
pub struct OaWork {
    pub id: String,
    pub doi: Option<String>,
    pub title: Option<String>,
    pub display_name: Option<String>,
    pub publication_year: Option<i64>,
    pub publication_date: Option<String>,
    pub cited_by_count: i64,
    pub authorships: Vec<OaAuthorship>,
    pub abstract_inverted_index: Option<Vec<(String, Vec<i32>)>>,
    pub primary_location: Option<OaLocation>,
    pub open_access: Option<OaOpenAccess>,
    pub work_type: Option<String>,
}

#[derive(Debug)]
pub struct OaAuthorship {
    pub author: OaAuthorInfo,
}

#[derive(Debug)]
pub struct OaAuthorInfo {
    pub id: Option<String>,
    pub display_name: Option<String>,
    pub orcid: Option<String>,
}

#[derive(Debug)]
pub struct OaLocation {
    pub landing_page_url: Option<String>,
    pub pdf_url: Option<String>,
    pub source: Option<OaSource>,
}

#[derive(Debug)]
pub struct OaSource {
    pub display_name: Option<String>,
    pub issn: Option<Vec<String>>,
}

#[derive(Debug)]
pub struct OaOpenAccess {
    pub is_oa: bool,
    pub oa_url: Option<String>,
}

/// The words of an inverted index with their positions.
pub open spec fn index_view(ix: Seq<(String, Vec<i32>)>) -> Seq<(Seq<char>, Seq<i32>)> {
    ix.map_values(|e: (String, Vec<i32>)| (e.0@, e.1@))
}

/// Some word of the index occurs at position `q`.
pub open spec fn has_position(ix: Seq<(Seq<char>, Seq<i32>)>, q: i32) -> bool {
    exists|k: int, j: int| #![trigger ix[k].1[j]] 0 <= k < ix.len() && 0 <= j < ix[k].1.len() && ix[k].1[j] == q
}

/// The largest position in the index, or 0 when there is none.
pub open spec fn max_position(ix: Seq<(Seq<char>, Seq<i32>)>) -> int {
    if exists|q: i32| has_position(ix, q) {
        (choose|m: i32| has_position(ix, m) && forall|q: i32| has_position(ix, q) ==> q <= m) as int
    } else {
        0
    }
}

/// The word at position `p`: the word of the last entry that lists `p`, or
/// nothing.
pub open spec fn word_at(ix: Seq<(Seq<char>, Seq<i32>)>, p: int) -> Seq<char>
    decreases ix.len(),
{
    if ix.len() == 0 {
        Seq::empty()
    } else if ix.last().1.contains(p as i32) {
        ix.last().0
    } else {
        word_at(ix.drop_last(), p)
    }
}

/// The abstract rebuilt from an inverted index: the words at positions 0 to
/// the largest position, joined by spaces; nothing when the index is empty
/// or the text is empty.
pub open spec fn rebuilt_abstract(ix: Seq<(Seq<char>, Seq<i32>)>) -> Option<Seq<char>> {
    let words = Seq::new((max_position(ix) + 1) as nat, |p: int| word_at(ix, p));
    let text = join(words, seq![' ']);
    if ix.len() == 0 || text.len() == 0 {
        None
    } else {
        Some(text)
    }
}

/// The author record of an authorship: its display name (or `Unknown`),
/// the last segment of its id, and its ORCID.
pub open spec fn authorship_view(a: OaAuthorship) -> AuthorView {
    AuthorView {
        id: None,
        name: match a.author.display_name {
            Some(n) => n@,
            None => "Unknown"@,
        },
        semantic_scholar_id: match a.author.id {
            Some(i) => Some(after_last(i@, '/')),
            None => None,
        },
        orcid: opt_view(a.author.orcid),
    }
}

/// The PDF address of a work: the open-access address, else the PDF
/// address of its primary location.
pub open spec fn work_pdf_url(w: OaWork) -> Option<Seq<char>> {
    let from_location = match w.primary_location {
        Some(l) => opt_view(l.pdf_url),
        None => None,
    };
    match w.open_access {
        Some(oa) => match oa.oa_url {
            Some(u) => Some(u@),
            None => from_location,
        },
        None => from_location,
    }
}

/// The venue of a work: the name of its primary location's source.
pub open spec fn work_venue(w: OaWork) -> Option<Seq<char>> {
    match w.primary_location {
        Some(l) => match l.source {
            Some(s) => opt_view(s.display_name),
            None => None,
        },
        None => None,
    }
}

/// The paper record made from a work.
pub open spec fn work_paper(w: OaWork, created: Timestamp, updated: Timestamp) -> PaperView {
    PaperView {
        id: None,
        title: match w.title {
            Some(t) => t@,
            None => match w.display_name {
                Some(d) => d@,
                None => Seq::empty(),
            },
        },
        abstract_text: match w.abstract_inverted_index {
            Some(ix) => rebuilt_abstract(index_view(ix@)),
            None => None,
        },
        arxiv_id: None,
        semantic_scholar_id: Some(after_last(w.id@, '/')),
        doi: match w.doi {
            Some(d) => Some(replace_all(d@, "https://doi.org/"@, Seq::empty())),
            None => None,
        },
        pdf_url: work_pdf_url(w),
        local_pdf_path: None,
        publication_date: match w.publication_year {
            Some(y) => Some(signed_decimal(y as int)),
            None => None,
        },
        venue: work_venue(w),
        citation_count: w.cited_by_count,
        authors: w.authorships@.map_values(|a: OaAuthorship| authorship_view(a)),
        created_at: created,
        updated_at: updated,
    }
}

/// The largest position of an index, when it is not negative (a negative
/// largest position leaves no room for the abstract).
pub open spec fn index_ok(ix: Seq<(Seq<char>, Seq<i32>)>) -> bool {
    max_position(ix) >= 0
}

/// A work whose abstract index, if any, can be rebuilt.
pub open spec fn work_ok(w: OaWork) -> bool {
    match w.abstract_inverted_index {
        Some(ix) => index_ok(index_view(ix@)),
        None => true,
    }
}

/// The address of OpenAlex's API.
pub open spec fn openalex_api_url() -> Seq<char> {
    "https://api.openalex.org"@
}

/// A query parameter as `key=value`.
pub open spec fn param_text(kv: (Seq<char>, Seq<char>)) -> Seq<char> {
    kv.0 + seq!['='] + kv.1
}

/// An OpenAlex request URL: the endpoint, then the parameters (the contact
/// address first, when there is one).
pub open spec fn request_url(email: Option<Seq<char>>, endpoint: Seq<char>, params: Seq<(Seq<char>, Seq<char>)>) -> Seq<char> {
    let all = match email {
        Some(e) => seq![("mailto"@, e)] + params,
        None => params,
    };
    if all.len() > 0 {
        openalex_api_url() + endpoint + seq!['?'] + join(all.map_values(|kv: (Seq<char>, Seq<char>)| param_text(kv)), seq!['&'])
    } else {
        openalex_api_url() + endpoint
    }
}

/// The texts of a list of parameter pairs.
pub open spec fn pairs_view(ps: Seq<(String, String)>) -> Seq<(Seq<char>, Seq<char>)> {
    ps.map_values(|kv: (String, String)| (kv.0@, kv.1@))
}

/// How a paper is looked up by an identifier.
pub enum Lookup {
    /// By the OpenAlex work id.
    ById(String),
    /// By a DOI filter.
    ByDoi(String),
}

/// The OpenAlex source.
pub struct OpenAlexSource {
    client: reqwest::Client,
    config: SourceConfig,
    email: Option<String>,
}

impl OpenAlexSource {
    pub closed spec fn config(&self) -> SourceConfig {
        self.config
    }

    pub closed spec fn email(&self) -> Option<Seq<char>> {
        opt_view(self.email)
    }

    /// A source without a contact address.
    pub fn new(config: SourceConfig) -> (r: Result<Self, SourceError>)
        ensures
            proxy_refusal(config) matches Some(m) ==> (r matches Err(SourceError::Network(t)) && t@ == m),
            r is Ok || r matches Err(SourceError::Network(_)),
            r matches Ok(s) ==> client_setup(s.http_client()) == source_setup(config),
            r matches Ok(s) ==> s.config() == config && s.email() is None,
    {
        Self::with_email(config, None)
    }

    /// A source that sends a contact address with its requests.
    pub fn with_email(config: SourceConfig, email: Option<String>) -> (r: Result<Self, SourceError>)
        ensures
            proxy_refusal(config) matches Some(m) ==> (r matches Err(SourceError::Network(t)) && t@ == m),
            r is Ok || r matches Err(SourceError::Network(_)),
            r matches Ok(s) ==> client_setup(s.http_client()) == source_setup(config),
            r matches Ok(s) ==> s.config() == config && s.email() == opt_view(email),
    {
        match make_client(&config) {
            Ok(client) => Ok(OpenAlexSource { client, config, email }),
            Err(e) => Err(e),
        }
    }

    /// The configuration the source was built with.
    pub fn get_config(&self) -> (r: &SourceConfig)
        ensures
            *r == self.config(),
    {
        &self.config
    }

    /// The HTTP client this value was built with.
    pub closed spec fn http_client(&self) -> reqwest::Client {
        self.client
    }

    /// The HTTP client of the source.
    pub fn client(&self) -> (r: &reqwest::Client)
        ensures
            *r == self.http_client(),
    {
        &self.client
    }

    pub fn kind(&self) -> (r: SourceKind)
        ensures
            r == SourceKind::OpenAlex,
    {
        SourceKind::OpenAlex
    }

    pub fn name(&self) -> (r: &str)
        ensures
            r@ == "OpenAlex"@,
    {
        "OpenAlex"
    }

    /// OpenAlex can search, fetch by id and list authors.
    pub fn capabilities(&self) -> (r: SourceCapabilities)
        ensures
            r == (SourceCapabilities {
                search: true,
                get_by_id: true,
                citations: false,
                references: false,
                authors: true,
                pdf_download: false,
            }),
    {
        SourceCapabilities {
            search: true,
            get_by_id: true,
            citations: false,
            references: false,
            authors: true,
            pdf_download: false,
        }
    }

    /// Percent-encodes a query text.
    pub fn url_encode(s: &str) -> (r: String)
        ensures
            r@ == url_encoded(s@),
    {
        url_encode(s)
    }

    /// A request URL for an endpoint and its parameters.
    pub fn build_url(&self, endpoint: &str, params: &Vec<(String, String)>) -> (r: String)
        ensures
            r@ == request_url(self.email(), endpoint@, pairs_view(params@)),
    {
        let mut texts: Vec<String> = Vec::new();
        let ghost all = match self.email() {
            Some(e) => seq![("mailto"@, e)] + pairs_view(params@),
            None => pairs_view(params@),
        };
        let ghost want = all.map_values(|kv: (Seq<char>, Seq<char>)| param_text(kv));
        let mut first: usize = 0;
        match &self.email {
            Some(e) => {
                let mut t = to_string("mailto");
                push_char(&mut t, '=');
                push_str(&mut t, e.as_str());
                assert(t@ == param_text(("mailto"@, e@)));
                texts.push(t);
                first = 1;
            },
            None => {},
        }
        let mut i: usize = 0;
        while i < params.len()
            invariant
                0 <= i <= params.len(),
                first == (if self.email() is Some { 1int } else { 0int }),
                all.len() == first + params@.len(),
                want == all.map_values(|kv: (Seq<char>, Seq<char>)| param_text(kv)),
                all == match self.email() {
                    Some(e) => seq![("mailto"@, e)] + pairs_view(params@),
                    None => pairs_view(params@),
                },
                texts@.len() == first + i,
                forall|k: int| 0 <= k < texts@.len() ==> (#[trigger] texts@[k])@ == want[k],
            decreases params.len() - i,
        {
            let mut t = params[i].0.clone();
            push_char(&mut t, '=');
            push_str(&mut t, params[i].1.as_str());
            assert(all[first + i] == pairs_view(params@)[i as int]);
            assert(t@ == param_text(pairs_view(params@)[i as int]));
            texts.push(t);
            i = i + 1;
        }
        assert(strings_view(texts@) =~= want);
        let mut url = to_string("https://api.openalex.org");
        push_str(&mut url, endpoint);
        if texts.len() > 0 {
            push_char(&mut url, '?');
            let q = join_strings(&texts, "&");
            proof { reveal_strlit("&"); }
            assert("&"@ == seq!['&']);
            push_str(&mut url, q.as_str());
        }
        url
    }

    /// The OpenAlex work id in a work URL: its last path segment.
    pub fn extract_work_id(id: &str) -> (r: String)
        ensures
            r@ == after_last(id@, '/'),
    {
        let cs = to_chars(id);
        string_of(after_last_chars(cs.as_slice(), '/').as_slice())
    }

    /// The search URL for the given parameters.
    pub fn search_url(&self, params: &SearchParams) -> (r: String)
        requires
            params.limit > 0,
            params.offset / params.limit < usize::MAX,
        ensures
            r@ == request_url(
                self.email(),
                "/works"@,
                seq![
                    ("search"@, url_encoded(params.query@)),
                    ("per_page"@, decimal(params.limit as nat)),
                    ("page"@, decimal((params.offset / params.limit + 1) as nat)),
                ],
            ),
    {
        let mut ps: Vec<(String, String)> = Vec::new();
        ps.push((to_string("search"), url_encode(params.query.as_str())));
        ps.push((to_string("per_page"), u64_text(params.limit as u64)));
        ps.push((to_string("page"), u64_text((params.offset / params.limit + 1) as u64)));
        let r = self.build_url("/works", &ps);
        assert(pairs_view(ps@) =~= seq![
            ("search"@, url_encoded(params.query@)),
            ("per_page"@, decimal(params.limit as nat)),
            ("page"@, decimal((params.offset / params.limit + 1) as nat)),
        ]);
        r
    }

    /// How a paper is looked up by an identifier: an OpenAlex id or the
    /// raw text by work id, a DOI by the DOI filter.
    pub fn lookup(identifier: &str) -> (r: Lookup)
        ensures
            match parse_identifier(identifier@) {
                IdentifierView::OpenAlex(id) => r matches Lookup::ById(s) && s@ == id,
                IdentifierView::Doi(doi) => r matches Lookup::ByDoi(s) && s@ == doi,
                _ => r matches Lookup::ById(s) && s@ == identifier@,
            },
    {
        match Identifier::parse(identifier) {
            Identifier::OpenAlex(id) => Lookup::ById(id),
            Identifier::Doi(doi) => Lookup::ByDoi(doi),
            _ => Lookup::ById(to_string(identifier)),
        }
    }

    /// The URL of a work by its id; the id gets a `W` in front unless it
    /// starts with one.
    pub fn work_url(&self, work_id: &str) -> (r: String)
        ensures
            r@ == request_url(
                self.email(),
                "/works/"@ + (if work_id@.len() > 0 && work_id@[0] == 'W' { work_id@ } else { seq!['W'] + work_id@ }),
                Seq::empty(),
            ),
    {
        let cs = to_chars(work_id);
        let mut endpoint = to_string("/works/");
        if !(cs.len() > 0 && cs[0] == 'W') {
            push_char(&mut endpoint, 'W');
        }
        push_str(&mut endpoint, work_id);
        proof {
            if !(work_id@.len() > 0 && work_id@[0] == 'W') {
                assert("/works/"@ + seq!['W'] + work_id@ == "/works/"@ + (seq!['W'] + work_id@));
            }
        }
        let ps: Vec<(String, String)> = Vec::new();
        assert(pairs_view(ps@) =~= Seq::<(Seq<char>, Seq<char>)>::empty());
        self.build_url(endpoint.as_str(), &ps)
    }

    /// The URL that finds a work by its DOI.
    pub fn doi_url(&self, doi: &str) -> (r: String)
        ensures
            r@ == request_url(self.email(), "/works"@, seq![("filter"@, "doi:"@ + doi@)]),
    {
        let mut f = to_string("doi:");
        push_str(&mut f, doi);
        let mut ps: Vec<(String, String)> = Vec::new();
        ps.push((to_string("filter"), f));
        assert(pairs_view(ps@) =~= seq![("filter"@, "doi:"@ + doi@)]);
        self.build_url("/works", &ps)
    }

    /// The URL that checks whether OpenAlex answers.
    pub fn health_check_url(&self) -> (r: String)
        ensures
            r@ == request_url(self.email(), "/works?per_page=1"@, Seq::empty()),
    {
        let ps: Vec<(String, String)> = Vec::new();
        assert(pairs_view(ps@) =~= Seq::<(Seq<char>, Seq<char>)>::empty());
        self.build_url("/works?per_page=1", &ps)
    }

    /// OpenAlex does not list the papers that cite a paper.
    pub fn get_citations(&self, _paper_id: &str, _limit: usize) -> (r: Result<Vec<(Paper, Vec<Author>)>, SourceError>)
        ensures
            r matches Err(SourceError::Other(m)) && m@ == "OpenAlex does not support citations API"@,
    {
        Err(SourceError::Other(to_string("OpenAlex does not support citations API")))
    }

    /// OpenAlex does not list the papers a paper cites.
    pub fn get_references(&self, _paper_id: &str, _limit: usize) -> (r: Result<Vec<(Paper, Vec<Author>)>, SourceError>)
        ensures
            r matches Err(SourceError::Other(m)) && m@ == "OpenAlex does not support references API"@,
    {
        Err(SourceError::Other(to_string("OpenAlex does not support references API")))
    }
}

} // verus!

verus! {

/// The largest of a list of positions, when it has any.
fn largest_of(ps: &Vec<i32>) -> (r: Option<i32>)
    ensures
        r matches Some(m) ==> ps@.contains(m) && forall|b: int| 0 <= b < ps@.len() ==> #[trigger] ps@[b] <= m,
        r is None ==> ps@.len() == 0,
{
    if ps.len() == 0 {
        return None;
    }
    let mut best: i32 = ps[0];
    let mut j: usize = 1;
    while j < ps.len()
        invariant
            1 <= j <= ps.len(),
            ps@.contains(best),
            forall|b: int| 0 <= b < j ==> #[trigger] ps@[b] <= best,
        decreases ps.len() - j,
    {
        if ps[j] > best {
            best = ps[j];
        }
        j = j + 1;
    }
    Some(best)
}

/// The largest position of an index, when it has any.
fn largest_position(ix: &Vec<(String, Vec<i32>)>) -> (r: Option<i32>)
    ensures
        r matches Some(m) ==> has_position(index_view(ix@), m) && forall|q: i32| has_position(index_view(ix@), q) ==> q <= m,
        r is None ==> !exists|q: i32| has_position(index_view(ix@), q),
{
    let ghost v = index_view(ix@);
    let mut best: Option<i32> = None;
    let mut k: usize = 0;
    while k < ix.len()
        invariant
            0 <= k <= ix.len(),
            v == index_view(ix@),
            match best {
                Some(m) => (exists|a: int, b: int| #![trigger v[a].1[b]] 0 <= a < k && 0 <= b < v[a].1.len() && v[a].1[b] == m)
                    && (forall|a: int, b: int| #![trigger v[a].1[b]] 0 <= a < k && 0 <= b < v[a].1.len() ==> v[a].1[b] <= m),
                None => forall|a: int| 0 <= a < k ==> (#[trigger] v[a]).1.len() == 0,
            },
        decreases ix.len() - k,
    {
        assert(v[k as int].1 == ix@[k as int].1@);
        match largest_of(&ix[k].1) {
            Some(m) => {
                let ghost w = choose|b: int| 0 <= b < v[k as int].1.len() && #[trigger] v[k as int].1[b] == m;
                match best {
                    Some(old) => {
                        if m > old {
                            best = Some(m);
                            assert(v[k as int].1[w] == m);
                        } else {
                            assert forall|a: int, b: int| #![trigger v[a].1[b]] 0 <= a < k + 1 && 0 <= b < v[a].1.len() implies v[a].1[b] <= old by {
                                if a == k {
                                    assert(v[a].1[b] <= m);
                                }
                            }
                        }
                    },
                    None => {
                        best = Some(m);
                        assert(v[k as int].1[w] == m);
                    },
                }
            },
            None => {},
        }
        k = k + 1;
    }
    proof {
        match best {
            Some(m) => {
                assert forall|q: i32| has_position(v, q) implies q <= m by {
                    let (c, d) = choose|c: int, d: int| #![trigger v[c].1[d]] 0 <= c < v.len() && 0 <= d < v[c].1.len() && v[c].1[d] == q;
                }
            },
            None => {
                assert forall|q: i32| !has_position(v, q) by {
                    if has_position(v, q) {
                        let (c, d) = choose|c: int, d: int| #![trigger v[c].1[d]] 0 <= c < v.len() && 0 <= d < v[c].1.len() && v[c].1[d] == q;
                        assert(v[c].1.len() == 0);
                    }
                }
            },
        }
    }
    best
}

impl OpenAlexSource {
    /// Rebuilds an abstract from its inverted index: the word listed for
    /// each position from 0 to the largest (the later entry wins where two
    /// list the same position, an empty word where none does), joined by
    /// spaces.
    pub fn reconstruct_abstract(inverted_index: &Vec<(String, Vec<i32>)>) -> (r: Option<String>)
        requires
            index_ok(index_view(inverted_index@)),
        ensures
            match r {
                Some(s) => rebuilt_abstract(index_view(inverted_index@)) == Some(s@),
                None => rebuilt_abstract(index_view(inverted_index@)) is None,
            },
    {
        let ghost v = index_view(inverted_index@);
        if inverted_index.len() == 0 {
            return None;
        }
        let max: i32 = match largest_position(inverted_index) {
            Some(m) => m,
            None => 0,
        };
        proof {
            if exists|q: i32| has_position(v, q) {
                let c = choose|m: i32| has_position(v, m) && forall|q: i32| has_position(v, q) ==> q <= m;
                assert(c <= max && max <= c);
            }
        }
        assert(max_position(v) == max as int);
        let len: usize = (max as usize) + 1;
        let mut words: Vec<String> = Vec::new();
        while words.len() < len
            invariant
                words@.len() <= len,
                forall|p: int| 0 <= p < words@.len() ==> (#[trigger] words@[p])@ == Seq::<char>::empty(),
            decreases len - words@.len(),
        {
            words.push(String::new());
        }
        let mut k: usize = 0;
        assert(v.take(0).len() == 0);
        while k < inverted_index.len()
            invariant
                0 <= k <= inverted_index.len(),
                v == index_view(inverted_index@),
                max >= 0,
                len == max as int + 1,
                words@.len() == len,
                forall|p: int| 0 <= p < len ==> (#[trigger] words@[p])@ == word_at(v.take(k as int), p),
            decreases inverted_index.len() - k,
        {
            let word = &inverted_index[k].0;
            let ps = &inverted_index[k].1;
            assert(v[k as int] == (word@, ps@));
            let mut j: usize = 0;
            while j < ps.len()
                invariant
                    0 <= j <= ps.len(),
                    0 <= k < inverted_index.len(),
                    v == index_view(inverted_index@),
                    v[k as int] == (word@, ps@),
                    max >= 0,
                    len == max as int + 1,
                    words@.len() == len,
                    forall|p: int| 0 <= p < len ==> (#[trigger] words@[p])@ == (if ps@.take(j as int).contains(p as i32) {
                        word@
                    } else {
                        word_at(v.take(k as int), p)
                    }),
                decreases ps.len() - j,
            {
                let q = ps[j];
                if q >= 0 && (q as usize) < len {
                    words.set(q as usize, word.clone());
                }
                assert forall|p: int| 0 <= p < len implies (#[trigger] words@[p])@ == (if ps@.take(j + 1).contains(p as i32) {
                    word@
                } else {
                    word_at(v.take(k as int), p)
                }) by {
                    assert(ps@.take(j + 1) == ps@.take(j as int).push(q));
                    if p == q as int {
                        assert(ps@.take(j + 1)[j as int] == q);
                    }
                    let t0 = ps@.take(j as int);
                    let t1 = ps@.take(j + 1);
                    if t0.contains(p as i32) {
                        let w = choose|w: int| 0 <= w < t0.len() && #[trigger] t0[w] == p as i32;
                        assert(t1[w] == p as i32);
                    }
                    assert(t1[j as int] == q);
                    assert(p <= max);
                    if t1.contains(p as i32) && p != q as int {
                        let w = choose|w: int| 0 <= w < t1.len() && #[trigger] t1[w] == p as i32;
                        assert(w < j);
                        assert(t0[w] == p as i32);
                    }
                }
                j = j + 1;
            }
            assert forall|p: int| 0 <= p < len implies (#[trigger] words@[p])@ == word_at(v.take(k + 1), p) by {
                assert(v.take(k + 1).drop_last() == v.take(k as int));
                assert(v.take(k + 1).last() == v[k as int]);
                assert(ps@.take(ps@.len() as int) == ps@);
            }
            k = k + 1;
        }
        assert(v.take(inverted_index@.len() as int) == v);
        let ghost want = Seq::new((max_position(v) + 1) as nat, |p: int| word_at(v, p));
        assert(strings_view(words@) =~= want);
        let text = join_strings(&words, " ");
        proof { reveal_strlit(" "); }
        assert(" "@ == seq![' ']);
        if text.as_str().is_empty() {
            None
        } else {
            Some(text)
        }
    }
}

} // verus!

verus! {

/// The author record of an authorship.
fn authorship_author(a: &OaAuthorship) -> (r: Author)
    ensures
        r@ == authorship_view(*a),
{
    let name = match &a.author.display_name {
        Some(n) => n.clone(),
        None => to_string("Unknown"),
    };
    let mut author = Author::new(name);
    match &a.author.id {
        Some(i) => {
            author = author.with_semantic_scholar_id(OpenAlexSource::extract_work_id(i.as_str()));
        },
        None => {},
    }
    match &a.author.orcid {
        Some(o) => {
            author.orcid = Some(o.clone());
        },
        None => {},
    }
    author
}

impl OpenAlexSource {
    /// The paper record of an OpenAlex work.
    pub fn oa_to_paper(&self, work: OaWork) -> (r: Paper)
        requires
            work_ok(work),
        ensures
            r@ == work_paper(work, r@.created_at, r@.updated_at),
    {
        let title = match &work.title {
            Some(t) => t.clone(),
            None => match &work.display_name {
                Some(d) => d.clone(),
                None => String::new(),
            },
        };
        let doi = match &work.doi {
            Some(d) => {
                let cs = to_chars(d.as_str());
                let pat = to_chars("https://doi.org/");
                proof { reveal_strlit("https://doi.org/"); }
                let empty: Vec<char> = Vec::new();
                let replaced = replace_chars(cs.as_slice(), pat.as_slice(), empty.as_slice());
                assert(empty@ =~= Seq::<char>::empty());
                Some(string_of(replaced.as_slice()))
            },
            None => None,
        };
        let openalex_id = Self::extract_work_id(work.id.as_str());
        let location_pdf = match &work.primary_location {
            Some(l) => clone_opt(&l.pdf_url),
            None => None,
        };
        let pdf_url = match &work.open_access {
            Some(oa) => match &oa.oa_url {
                Some(u) => Some(u.clone()),
                None => location_pdf,
            },
            None => location_pdf,
        };
        let venue = match &work.primary_location {
            Some(l) => match &l.source {
                Some(s) => clone_opt(&s.display_name),
                None => None,
            },
            None => None,
        };
        let abstract_text = match &work.abstract_inverted_index {
            Some(ix) => Self::reconstruct_abstract(ix),
            None => None,
        };
        let mut authors: Vec<Author> = Vec::new();
        let mut i: usize = 0;
        while i < work.authorships.len()
            invariant
                0 <= i <= work.authorships@.len(),
                authors@.len() == i,
                forall|k: int| 0 <= k < i ==> (#[trigger] authors@[k])@ == authorship_view(work.authorships@[k]),
            decreases work.authorships@.len() - i,
        {
            authors.push(authorship_author(&work.authorships[i]));
            i = i + 1;
        }
        assert(authors_view(authors@) =~= work.authorships@.map_values(|a: OaAuthorship| authorship_view(a)));
        let mut paper = Paper::new(title)
            .with_semantic_scholar_id(openalex_id)
            .with_citation_count(work.cited_by_count)
            .with_authors(authors);
        match abstract_text {
            Some(a) => {
                paper = paper.with_abstract(a);
            },
            None => {},
        }
        match doi {
            Some(d) => {
                paper = paper.with_doi(d);
            },
            None => {},
        }
        match pdf_url {
            Some(p) => {
                paper = paper.with_pdf_url(p);
            },
            None => {},
        }
        match work.publication_year {
            Some(y) => {
                let mut t = String::new();
                push_signed(&mut t, y);
                assert(Seq::<char>::empty() + signed_decimal(y as int) == signed_decimal(y as int));
                paper = paper.with_publication_date(t);
            },
            None => {},
        }
        match venue {
            Some(v) => {
                paper = paper.with_venue(v);
            },
            None => {},
        }
        paper
    }

    /// The result of a search: the papers of the works in order, the total
    /// the response reports, and more when the limit was reached.
    pub fn search_result(&self, response: OaSearchResponse, params: &SearchParams) -> (r: SearchResult)
        requires
            forall|i: int| 0 <= i < response.results@.len() ==> work_ok(#[trigger] response.results@[i]),
        ensures
            r.papers@.len() == response.results@.len(),
            forall|i: int| 0 <= i < r.papers@.len() ==> (#[trigger] r.papers@[i])@ == work_paper(response.results@[i], r.papers@[i]@.created_at, r.papers@[i]@.updated_at),
            r.total == Some(response.meta.count as usize),
            r.has_more == (response.results@.len() == params.limit),
    {
        let count = response.meta.count;
        let ghost works = response.results@;
        let mut results = response.results;
        let mut papers: Vec<Paper> = Vec::new();
        let n = results.len();
        // Take the works out from the back, then put the papers in order.
        let mut rev: Vec<Paper> = Vec::new();
        while results.len() > 0
            invariant
                results@ == works.take(results@.len() as int),
                results@.len() + rev@.len() == n,
                n == works.len(),
                forall|i: int| 0 <= i < works.len() ==> work_ok(#[trigger] works[i]),
                forall|k: int| 0 <= k < rev@.len() ==> (#[trigger] rev@[k])@ == work_paper(works[n - 1 - k], rev@[k]@.created_at, rev@[k]@.updated_at),
            decreases results@.len(),
        {
            let w = results.pop().unwrap();
            assert(w == works[n - 1 - rev@.len()]);
            rev.push(self.oa_to_paper(w));
        }
        while rev.len() > 0
            invariant
                rev@.len() + papers@.len() == n,
                n == works.len(),
                forall|k: int| 0 <= k < rev@.len() ==> (#[trigger] rev@[k])@ == work_paper(works[n - 1 - k], rev@[k]@.created_at, rev@[k]@.updated_at),
                forall|i: int| 0 <= i < papers@.len() ==> (#[trigger] papers@[i])@ == work_paper(works[i], papers@[i]@.created_at, papers@[i]@.updated_at),
            decreases rev@.len(),
        {
            let p = rev.pop().unwrap();
            papers.push(p);
        }
        let len = papers.len();
        SearchResult { papers, total: Some(count as usize), has_more: len == params.limit }
    }
}

/// Removing every resolver prefix from a text made of the prefix and a
/// text free of it leaves that text.
proof fn lemma_drop_resolver(d: Seq<char>)
    requires
        !has_infix(d, "https://doi.org/"@),
    ensures
        replace_all("https://doi.org/"@ + d, "https://doi.org/"@, Seq::empty()) == d,
{
    reveal_strlit("https://doi.org/");
    let p = "https://doi.org/"@;
    let s = p + d;
    assert(s.subrange(0, p.len() as int) == p);
    assert(find_from(s, p, 0) == Some(0int));
    assert(s.skip(p.len() as int) == d);
    assert(replace_all(d, p, Seq::empty()) == d);
    assert(s.take(0) + Seq::<char>::empty() + d == d);
}

/// A work's DOI loses the `https://doi.org/` resolver prefix OpenAlex puts
/// before it: a DOI written as the prefix and a text free of it becomes
/// that text, a DOI without the prefix is kept as it is, and a work
/// without a DOI gives a paper without one.
pub proof fn law_work_doi(w: OaWork, created: Timestamp, updated: Timestamp)
    ensures
        w.doi is None ==> work_paper(w, created, updated).doi is None,
        w.doi matches Some(x) ==> (!has_infix(x@, "https://doi.org/"@) ==> work_paper(w, created, updated).doi
            == Some(x@)),
        forall|d: Seq<char>|
            w.doi matches Some(x) ==> (x@ == "https://doi.org/"@ + d && !#[trigger] has_infix(d, "https://doi.org/"@)
                ==> work_paper(w, created, updated).doi == Some(d)),
{
    assert forall|d: Seq<char>|
        w.doi matches Some(x) ==> (x@ == "https://doi.org/"@ + d && !#[trigger] has_infix(d, "https://doi.org/"@)
            ==> work_paper(w, created, updated).doi == Some(d)) by {
        if !has_infix(d, "https://doi.org/"@) {
            lemma_drop_resolver(d);
        }
    }
    reveal_strlit("https://doi.org/");
}

} // verus!
