//! Building the paper sources, and the rules by which the source manager
//! picks sources for a lookup.

use vstd::prelude::*;
use crate::arxiv::ArxivSource;
use crate::http::{client_setup, make_client, proxy_refusal, source_setup};
use crate::openalex::OpenAlexSource;
use crate::identifier::{Identifier, IdentifierView, parse_identifier};
use crate::models::{Author, Paper};
use crate::source::{SearchResult, SourceCapabilities, SourceConfig, SourceError, SourceKind};
use crate::text::{contains, has_infix, push_str, to_chars, to_string};

verus! {

/// The Semantic Scholar paper source.
pub struct SemanticScholarSource {
    client: reqwest::Client,
    config: SourceConfig,
}

impl SemanticScholarSource {
    pub closed spec fn config(&self) -> SourceConfig {
        self.config
    }

    /// A source with an HTTP client built from the configuration.
    pub fn new(config: SourceConfig) -> (r: Result<Self, SourceError>)
        ensures
            proxy_refusal(config) matches Some(m) ==> (r matches Err(SourceError::Network(t)) && t@ == m),
            r is Ok || r matches Err(SourceError::Network(_)),
            r matches Ok(s) ==> client_setup(s.http_client()) == source_setup(config),
            r matches Ok(s) ==> s.config() == config,
    {
        match make_client(&config) {
            Ok(client) => Ok(SemanticScholarSource { client, config }),
            Err(e) => Err(e),
        }
    }

    /// The configuration the source was built with.
    pub fn get_config(&self) -> (r: &SourceConfig)
        ensures
            *r == self.config(),
    {
        &self.config
    }

    /// The HTTP client this value was built with.
    pub closed spec fn http_client(&self) -> reqwest::Client {
        self.client
    }

    /// The HTTP client of the source.
    pub fn client(&self) -> (r: &reqwest::Client)
        ensures
            *r == self.http_client(),
    {
        &self.client
    }

    pub fn kind(&self) -> (r: SourceKind)
        ensures
            r == SourceKind::SemanticScholar,
    {
        SourceKind::SemanticScholar
    }
}

/// Builds paper sources from one configuration.
pub struct SourceBuilder {
    pub config: SourceConfig,
}

impl SourceBuilder {
    /// A builder with the default configuration.
    pub fn new() -> (r: Self)
        ensures
            r.config.api_key is None,
            r.config.proxy is None,
            r.config.timeout == 30,
            r.config.max_retries == 3,
            r.config.retry_delay == 1000,
    {
        SourceBuilder { config: SourceConfig::default() }
    }

    pub fn api_key(self, key: &str) -> (r: Self)
        ensures
            r.config == (SourceConfig { api_key: r.config.api_key, ..self.config }),
            r.config.api_key matches Some(k) && k@ == key@,
    {
        let mut b = self;
        b.config.api_key = Some(to_string(key));
        b
    }

    pub fn proxy(self, proxy: &str) -> (r: Self)
        ensures
            r.config == (SourceConfig { proxy: r.config.proxy, ..self.config }),
            r.config.proxy matches Some(p) && p@ == proxy@,
    {
        let mut b = self;
        b.config.proxy = Some(to_string(proxy));
        b
    }

    pub fn timeout(self, seconds: u64) -> (r: Self)
        ensures
            r.config == (SourceConfig { timeout: seconds, ..self.config }),
    {
        let mut b = self;
        b.config.timeout = seconds;
        b
    }

    pub fn max_retries(self, retries: usize) -> (r: Self)
        ensures
            r.config == (SourceConfig { max_retries: retries, ..self.config }),
    {
        let mut b = self;
        b.config.max_retries = retries;
        b
    }

    pub fn build_arxiv(self) -> (r: Result<ArxivSource, SourceError>)
        ensures
            proxy_refusal(self.config) matches Some(m) ==> (r matches Err(SourceError::Network(t)) && t@ == m),
            r is Ok || r matches Err(SourceError::Network(_)),
            r matches Ok(s) ==> client_setup(s.http_client()) == source_setup(self.config),
            r matches Ok(s) ==> s.config() == self.config,
    {
        ArxivSource::new(self.config)
    }

    pub fn build_semantic_scholar(self) -> (r: Result<SemanticScholarSource, SourceError>)
        ensures
            proxy_refusal(self.config) matches Some(m) ==> (r matches Err(SourceError::Network(t)) && t@ == m),
            r is Ok || r matches Err(SourceError::Network(_)),
            r matches Ok(s) ==> client_setup(s.http_client()) == source_setup(self.config),
            r matches Ok(s) ==> s.config() == self.config,
    {
        SemanticScholarSource::new(self.config)
    }

    pub fn build_openalex(self) -> (r: Result<OpenAlexSource, SourceError>)
        ensures
            proxy_refusal(self.config) matches Some(m) ==> (r matches Err(SourceError::Network(t)) && t@ == m),
            r is Ok || r matches Err(SourceError::Network(_)),
            r matches Ok(s) ==> client_setup(s.http_client()) == source_setup(self.config),
            r matches Ok(s) ==> s.config() == self.config && s.email() is None,
    {
        OpenAlexSource::new(self.config)
    }
}

impl Default for SourceBuilder {
    /// A builder with the default configuration.
    fn default() -> (r: Self)
        ensures
            r.config.api_key is None,
            r.config.proxy is None,
            r.config.timeout == 30,
            r.config.max_retries == 3,
            r.config.retry_delay == 1000,
    {
        SourceBuilder::new()
    }
}

/// How a lookup asks a source for a paper.
#[derive(Debug)]
pub enum LookupCall {
    /// By the source's own id (`get_by_id`).
    ById(String),
    /// By an identifier the source recognises (`get_by_identifier`).
    ByIdentifier(String),
}

/// One lookup tried when resolving an identifier: which source, and how.
#[derive(Debug)]
pub struct LookupStep {
    pub kind: SourceKind,
    pub call: LookupCall,
}

/// A lookup as a value of the model: the source, whether it goes by the
/// source's own id, and the text handed over.
pub type LookupView = (SourceKind, bool, Seq<char>);

/// The views of lookups.
pub open spec fn steps_view(v: Seq<LookupStep>) -> Seq<LookupView> {
    v.map_values(|s: LookupStep| match s.call {
        LookupCall::ById(t) => (s.kind, true, t@),
        LookupCall::ByIdentifier(t) => (s.kind, false, t@),
    })
}

/// The lookups an identifier is first tried with, by its kind: an arXiv id
/// at arXiv by id, then at Semantic Scholar by the identifier as given; a
/// Semantic Scholar id there by id; a DOI at Semantic Scholar as
/// `doi:` and the DOI; an arXiv URL at arXiv as given; nothing else.
pub open spec fn lookup_plan_view(raw: Seq<char>) -> Seq<LookupView> {
    match parse_identifier(raw) {
        IdentifierView::Arxiv(id) => seq![
            (SourceKind::Arxiv, true, id),
            (SourceKind::SemanticScholar, false, raw),
        ],
        IdentifierView::SemanticScholar(id) => seq![(SourceKind::SemanticScholar, true, id)],
        IdentifierView::Doi(doi) => seq![(SourceKind::SemanticScholar, false, "doi:"@ + doi)],
        IdentifierView::Url(url) => if has_infix(url, "arxiv.org"@) {
            seq![(SourceKind::Arxiv, false, url)]
        } else {
            Seq::empty()
        },
        _ => Seq::empty(),
    }
}

/// The lookups tried first for an identifier, in order; each is made where
/// its source is registered, and the first paper found is the answer.
pub fn lookup_plan(identifier: &str) -> (r: Vec<LookupStep>)
    ensures
        steps_view(r@) == lookup_plan_view(identifier@),
{
    let ident = Identifier::parse(identifier);
    let mut plan: Vec<LookupStep> = Vec::new();
    match ident {
        Identifier::Arxiv(id) => {
            plan.push(LookupStep { kind: SourceKind::Arxiv, call: LookupCall::ById(id) });
            plan.push(LookupStep { kind: SourceKind::SemanticScholar, call: LookupCall::ByIdentifier(to_string(identifier)) });
        },
        Identifier::SemanticScholar(id) => {
            plan.push(LookupStep { kind: SourceKind::SemanticScholar, call: LookupCall::ById(id) });
        },
        Identifier::Doi(doi) => {
            let mut t = to_string("doi:");
            push_str(&mut t, doi.as_str());
            plan.push(LookupStep { kind: SourceKind::SemanticScholar, call: LookupCall::ByIdentifier(t) });
        },
        Identifier::Url(url) => {
            let uc = to_chars(url.as_str());
            let pat = to_chars("arxiv.org");
            if contains(uc.as_slice(), pat.as_slice()) {
                plan.push(LookupStep { kind: SourceKind::Arxiv, call: LookupCall::ByIdentifier(url) });
            }
        },
        _ => {},
    }
    assert(steps_view(plan@) =~= lookup_plan_view(identifier@));
    plan
}

/// The lookups tried after the first ones: every registered source that can
/// fetch by id, in the order given, by the identifier as given.
pub open spec fn fallback_plan_view(sources: Seq<(SourceKind, SourceCapabilities)>, raw: Seq<char>) -> Seq<LookupView>
    decreases sources.len(),
{
    if sources.len() == 0 {
        Seq::empty()
    } else {
        let rest = fallback_plan_view(sources.drop_last(), raw);
        if sources.last().1.get_by_id {
            rest.push((sources.last().0, false, raw))
        } else {
            rest
        }
    }
}

/// The lookups tried when the first ones found nothing.
pub fn fallback_plan(sources: &[(SourceKind, SourceCapabilities)], identifier: &str) -> (r: Vec<LookupStep>)
    ensures
        steps_view(r@) == fallback_plan_view(sources@, identifier@),
{
    let mut plan: Vec<LookupStep> = Vec::new();
    let mut i: usize = 0;
    while i < sources.len()
        invariant
            0 <= i <= sources.len(),
            steps_view(plan@) == fallback_plan_view(sources@.take(i as int), identifier@),
        decreases sources.len() - i,
    {
        assert(sources@.take(i + 1).drop_last() == sources@.take(i as int));
        let (kind, caps) = sources[i];
        if caps.get_by_id {
            let ghost before = plan@;
            plan.push(LookupStep { kind, call: LookupCall::ByIdentifier(to_string(identifier)) });
            assert(steps_view(plan@) =~= steps_view(before).push((kind, false, identifier@)));
        }
        i = i + 1;
    }
    assert(sources@.take(sources@.len() as int) == sources@);
    plan
}

/// What the manager makes of one source's answer to a citation or
/// reference lookup: a list is the answer, `NotFound` moves on to the next
/// source (`None`), and another error is the answer.
pub fn relation_outcome(answer: Result<Vec<(Paper, Vec<Author>)>, SourceError>) -> (r: Option<Result<Vec<(Paper, Vec<Author>)>, SourceError>>)
    ensures
        match answer {
            Err(SourceError::NotFound) => r is None,
            _ => r == Some(answer),
        },
{
    match answer {
        Err(SourceError::NotFound) => None,
        other => Some(other),
    }
}

/// The error when no registered source can list citations (or, with
/// `references`, references).
pub fn no_relation_source(references: bool) -> (r: SourceError)
    ensures
        r matches SourceError::Other(m) && m@ == (if references {
            "没有支持获取参考文献的论文源"@
        } else {
            "没有支持获取引用关系的论文源"@
        }),
{
    if references {
        SourceError::Other(to_string("没有支持获取参考文献的论文源"))
    } else {
        SourceError::Other(to_string("没有支持获取引用关系的论文源"))
    }
}

/// The papers of search results tagged with their source.
pub open spec fn tagged(kind: SourceKind, papers: Seq<Paper>) -> Seq<(SourceKind, Paper)> {
    papers.map_values(|p: Paper| (kind, p))
}

/// Adds one source's search answer to the merged results: its papers,
/// tagged with the source, when it succeeded; nothing when it failed.
pub fn merge_search(results: &mut Vec<(SourceKind, Paper)>, kind: SourceKind, answer: Result<SearchResult, SourceError>)
    ensures
        match answer {
            Ok(found) => final(results)@ == old(results)@ + tagged(kind, found.papers@),
            Err(_) => final(results)@ == old(results)@,
        },
{
    match answer {
        Ok(found) => {
            let ghost before = results@;
            let ghost ps = found.papers@;
            let mut rest = found.papers;
            let mut i: usize = 0;
            let n = rest.len();
            while i < n
                invariant
                    0 <= i <= n,
                    n == ps.len(),
                    rest@ == ps.skip(i as int),
                    results@ == before + tagged(kind, ps.take(i as int)),
                decreases n - i,
            {
                let ghost old_rest = rest@;
                let p = rest.remove(0);
                assert(p == ps[i as int]) by {
                    assert(old_rest[0] == ps.skip(i as int)[0]);
                }
                assert(rest@ =~= ps.skip(i + 1)) by {
                    assert forall|k: int| 0 <= k < rest@.len() implies rest@[k] == ps.skip(i + 1)[k] by {
                        assert(rest@[k] == old_rest[k + 1]);
                        assert(old_rest[k + 1] == ps.skip(i as int)[k + 1]);
                    }
                }
                results.push((kind, p));
                assert(tagged(kind, ps.take(i + 1)) =~= tagged(kind, ps.take(i as int)).push((kind, ps[i as int])));
                i = i + 1;
            }
            assert(ps.take(n as int) == ps);
        },
        Err(_) => {},
    }
}

} // verus!
