//! The configuration of the tool, and the rules of its operations: which
//! sources it builds, how it decides that a paper is already stored, how a
//! refreshed paper and the citation graph of the stored papers are made.

use vstd::prelude::*;
use std::path::PathBuf;
use crate::arxiv::ArxivSource;
use crate::graph::{CitationGraph, GraphView, graph_with};
use crate::http::{client_setup, proxy_parse_error, proxy_refusal, source_setup};
use crate::manager::{SemanticScholarSource, SourceBuilder};
use crate::models::{Paper, PaperView, Timestamp, opt_view};
use crate::openalex::OpenAlexSource;
use crate::source::{SourceConfig, SourceError};
use crate::text::{push_str, to_chars, to_string};

verus! {

broadcast use vstd::string::group_string_axioms;

#[verifier::external_type_specification]
#[verifier::external_body]
pub struct ExPathBuf(std::path::PathBuf);

/// `dirs::data_dir()`: the user's data directory, where the system has one.
/// It depends on the system and the environment: nothing is promised.
#[verifier::external_body]
fn data_dir() -> Option<PathBuf> {
    dirs::data_dir()
}

/// Names what `PathBuf::from` makes of a text.
pub uninterp spec fn path_of(s: Seq<char>) -> PathBuf;

/// `PathBuf::from` on a text, as `path_of` names it.
#[verifier::external_body]
fn path_from(s: &str) -> (r: PathBuf)
    ensures
        r == path_of(s@),
{
    PathBuf::from(s)
}

/// Names what `Path::join` makes of a path and a name adjoined to it (as
/// the platform joins paths).
pub uninterp spec fn joined_path(base: PathBuf, name: Seq<char>) -> PathBuf;

/// `Path::join`: the path with `name` adjoined, as `joined_path` names it.
#[verifier::external_body]
fn path_join(base: &PathBuf, name: &str) -> (r: PathBuf)
    ensures
        r == joined_path(*base, name@),
{
    base.join(name)
}

/// The storage path of a configuration: `papers` under `crabref` under a
/// base directory.
pub open spec fn storage_under(base: PathBuf) -> PathBuf {
    joined_path(joined_path(base, "crabref"@), "papers"@)
}

/// The configuration of the tool.
#[derive(Debug)]
pub struct Config {
    /// Where PDFs are stored.
    pub pdf_storage_path: PathBuf,
    /// The Semantic Scholar API key.
    pub semantic_scholar_api_key: Option<String>,
    /// How deep citation graphs are fetched.
    pub citation_depth: usize,
    /// The HTTP/HTTPS proxy.
    pub proxy: Option<String>,
}

/// The file name of a paper's PDF: its id and `.pdf`.
pub open spec fn pdf_file_name(id: Seq<char>) -> Seq<char> {
    id + ".pdf"@
}

/// The base of the default storage path: the user's data directory, or
/// the working directory (`.`) where there is none.
pub open spec fn default_base(data: Option<PathBuf>) -> PathBuf {
    match data {
        Some(d) => d,
        None => path_of("."@),
    }
}

/// The default configuration for a data directory (none where the system
/// has none): `papers` under `crabref` in it (or in `.`), no API key, depth
/// 1, no proxy.
pub fn config_under(data: Option<PathBuf>) -> (r: Config)
    ensures
        r.pdf_storage_path == storage_under(default_base(data)),
        r.semantic_scholar_api_key is None,
        r.citation_depth == 1,
        r.proxy is None,
{
    let base = match data {
        Some(d) => d,
        None => path_from("."),
    };
    let dir = path_join(&base, "crabref");
    Config { pdf_storage_path: path_join(&dir, "papers"), semantic_scholar_api_key: None, citation_depth: 1, proxy: None }
}

impl Default for Config {
    /// The default configuration for the user's data directory, as
    /// `config_under` makes it. Which directory that is depends on the
    /// system and the environment.
    fn default() -> (r: Self)
        ensures
            r.semantic_scholar_api_key is None,
            r.citation_depth == 1,
            r.proxy is None,
            exists|data: Option<PathBuf>| r.pdf_storage_path == storage_under(default_base(data)),
    {
        let data = data_dir();
        let r = config_under(data);
        assert(r.pdf_storage_path == storage_under(default_base(data)));
        r
    }
}

impl Config {

    /// The file name under which a paper's PDF is stored.
    pub fn pdf_file_name(paper_id: &str) -> (r: String)
        ensures
            r@ == pdf_file_name(paper_id@),
    {
        let mut r = to_string(paper_id);
        push_str(&mut r, ".pdf");
        r
    }

    /// The path of a paper's PDF: its file name in the storage directory.
    pub fn pdf_path(&self, paper_id: &str) -> (r: PathBuf)
        ensures
            r == joined_path(self.pdf_storage_path, pdf_file_name(paper_id@)),
    {
        let name = Self::pdf_file_name(paper_id);
        path_join(&self.pdf_storage_path, name.as_str())
    }

    /// The path of a file in the storage directory.
    pub fn storage_file(&self, name: &str) -> (r: PathBuf)
        ensures
            r == joined_path(self.pdf_storage_path, name@),
    {
        path_join(&self.pdf_storage_path, name)
    }
}

/// How a search's papers are listed.
#[derive(Debug, Clone, Copy, Default, PartialEq, Eq, Structural)]
pub enum SortBy {
    #[default]
    Created,
    Citation,
    Title,
}

/// The formats a citation graph is exported in.
#[derive(Debug, Clone, Copy, Default, PartialEq, Eq, Structural)]
pub enum GraphFormat {
    #[default]
    Dot,
    Json,
}

/// Builds the tool from a configuration.
pub struct CrabRefBuilder {
    pub config: Config,
}

impl CrabRefBuilder {
    /// A builder with the default configuration.
    pub fn new() -> (r: Self)
        ensures
            r.config.semantic_scholar_api_key is None,
            r.config.citation_depth == 1,
            r.config.proxy is None,
            exists|data: Option<PathBuf>| r.config.pdf_storage_path == storage_under(default_base(data)),
    {
        CrabRefBuilder { config: Config::default() }
    }

    /// Stores PDFs under `path`.
    pub fn pdf_dir(self, path: PathBuf) -> (r: Self)
        ensures
            r.config == (Config { pdf_storage_path: path, ..self.config }),
    {
        CrabRefBuilder { config: Config { pdf_storage_path: path, ..self.config } }
    }

    /// Uses the proxy.
    pub fn proxy(self, proxy: &str) -> (r: Self)
        ensures
            r.config == (Config { proxy: r.config.proxy, ..self.config }),
            r.config.proxy matches Some(p) && p@ == proxy@,
    {
        CrabRefBuilder { config: Config { proxy: Some(to_string(proxy)), ..self.config } }
    }

    /// Uses the Semantic Scholar API key.
    pub fn api_key(self, key: &str) -> (r: Self)
        ensures
            r.config == (Config { semantic_scholar_api_key: r.config.semantic_scholar_api_key, ..self.config }),
            r.config.semantic_scholar_api_key matches Some(k) && k@ == key@,
    {
        CrabRefBuilder { config: Config { semantic_scholar_api_key: Some(to_string(key)), ..self.config } }
    }
}

impl Default for CrabRefBuilder {
    /// A builder with the default configuration.
    fn default() -> (r: Self)
        ensures
            r.config.semantic_scholar_api_key is None,
            r.config.citation_depth == 1,
            r.config.proxy is None,
            exists|data: Option<PathBuf>| r.config.pdf_storage_path == storage_under(default_base(data)),
    {
        CrabRefBuilder::new()
    }
}

/// The text of an optional setting, where it is there and not empty.
pub open spec fn set_text(o: Option<String>) -> Option<Seq<char>> {
    match o {
        Some(s) => if s@.len() > 0 { Some(s@) } else { None },
        None => None,
    }
}

/// A source configuration as the tool builds it: the given key and proxy,
/// a 30 s timeout, the given number of attempts, 1000 ms between them.
pub open spec fn built_config(c: SourceConfig, api_key: Option<Seq<char>>, proxy: Option<Seq<char>>, max_retries: usize) -> bool {
    &&& opt_view(c.api_key) == api_key
    &&& opt_view(c.proxy) == proxy
    &&& c.timeout == 30
    &&& c.max_retries == max_retries
    &&& c.retry_delay == 1000
}

/// The builder with the proxy, where one is set.
fn with_set_proxy(b: SourceBuilder, proxy: &Option<String>) -> (r: SourceBuilder)
    ensures
        r.config.api_key == b.config.api_key,
        r.config.timeout == b.config.timeout,
        r.config.max_retries == b.config.max_retries,
        r.config.retry_delay == b.config.retry_delay,
        opt_view(r.config.proxy) == match set_text(*proxy) {
            Some(p) => Some(p),
            None => opt_view(b.config.proxy),
        },
{
    match proxy {
        Some(p) => {
            if !p.as_str().is_empty() {
                b.proxy(p.as_str())
            } else {
                b
            }
        },
        None => b,
    }
}

/// The refusal of the proxy a configuration sets.
pub open spec fn set_proxy_refusal(proxy: Option<String>) -> Option<Seq<char>> {
    match set_text(proxy) {
        Some(p) => proxy_parse_error(p),
        None => None,
    }
}

/// A source configuration with the proxy a setting gives is refused as
/// that proxy is.
proof fn lemma_refusal(c: SourceConfig, proxy: Option<String>)
    requires
        opt_view(c.proxy) == set_text(proxy),
    ensures
        proxy_refusal(c) == set_proxy_refusal(proxy),
{
}

/// Builds the three sources the tool uses: arXiv (3 attempts), Semantic
/// Scholar (5 attempts, with the API key where one is set) and OpenAlex (3
/// attempts), each with a 30 s timeout and the proxy where one is set. A
/// proxy that does not parse stops the building with its error.
pub fn build_sources(config: &Config) -> (r: Result<(ArxivSource, SemanticScholarSource, OpenAlexSource), SourceError>)
    ensures
        r matches Ok((a, s, o)) ==> {
            &&& built_config(a.config(), None, set_text(config.proxy), 3)
            &&& built_config(s.config(), set_text(config.semantic_scholar_api_key), set_text(config.proxy), 5)
            &&& built_config(o.config(), None, set_text(config.proxy), 3)
            &&& o.email() is None
            &&& client_setup(a.http_client()) == source_setup(a.config())
            &&& client_setup(s.http_client()) == source_setup(s.config())
            &&& client_setup(o.http_client()) == source_setup(o.config())
        },
        set_proxy_refusal(config.proxy) matches Some(m) ==> (r matches Err(SourceError::Network(t)) && t@ == m),
        set_proxy_refusal(config.proxy) is None ==> (r is Ok || r matches Err(SourceError::Network(_))),
{
    let arxiv_builder = with_set_proxy(SourceBuilder::new().timeout(30).max_retries(3), &config.proxy);
    proof {
        lemma_refusal(arxiv_builder.config, config.proxy);
    }
    let arxiv = match arxiv_builder.build_arxiv() {
        Ok(a) => a,
        Err(e) => {
            return Err(e);
        },
    };
    let mut ss_builder = SourceBuilder::new().timeout(30).max_retries(5);
    match &config.semantic_scholar_api_key {
        Some(k) => {
            if !k.as_str().is_empty() {
                ss_builder = ss_builder.api_key(k.as_str());
            }
        },
        None => {},
    }
    let ss_builder = with_set_proxy(ss_builder, &config.proxy);
    proof {
        lemma_refusal(ss_builder.config, config.proxy);
    }
    let ss = match ss_builder.build_semantic_scholar() {
        Ok(s) => s,
        Err(e) => {
            return Err(e);
        },
    };
    let oa_builder = with_set_proxy(SourceBuilder::new().timeout(30).max_retries(3), &config.proxy);
    proof {
        lemma_refusal(oa_builder.config, config.proxy);
    }
    let oa = match oa_builder.build_openalex() {
        Ok(o) => o,
        Err(e) => {
            return Err(e);
        },
    };
    Ok((arxiv, ss, oa))
}

/// The edges from `id` to each cited id (none where the lookup failed).
pub open spec fn out_edges(id: i64, cited: Option<Seq<i64>>) -> Seq<(i64, i64)> {
    match cited {
        Some(cs) => cs.map_values(|c: i64| (id, c)),
        None => Seq::empty(),
    }
}

/// The edges from each citing id to `id` (none where the lookup failed).
pub open spec fn in_edges(id: i64, citing: Option<Seq<i64>>) -> Seq<(i64, i64)> {
    match citing {
        Some(cs) => cs.map_values(|c: i64| (c, id)),
        None => Seq::empty(),
    }
}

/// The citation graph of stored papers: each paper with an id, in order,
/// then the citations it makes and the citations it receives, as the
/// store listed them (none where that lookup failed).
pub open spec fn stored_graph(
    ps: Seq<PaperView>,
    cited: Seq<Option<Seq<i64>>>,
    citing: Seq<Option<Seq<i64>>>,
) -> GraphView
    decreases ps.len(),
{
    if ps.len() == 0 {
        GraphView { papers: Map::empty(), order: Seq::empty(), edges: Seq::empty() }
    } else {
        let n = ps.len() - 1;
        let g = stored_graph(ps.drop_last(), cited.take(n), citing.take(n));
        match ps.last().id {
            Some(id) => {
                let h = graph_with(g, ps.last());
                GraphView { edges: h.edges + out_edges(id, cited[n]) + in_edges(id, citing[n]), ..h }
            },
            None => g,
        }
    }
}

/// The views of optional id lists.
pub open spec fn id_lists_view(v: Seq<Option<Vec<i64>>>) -> Seq<Option<Seq<i64>>> {
    v.map_values(|o: Option<Vec<i64>>| match o {
        Some(x) => Some(x@),
        None => None,
    })
}

/// The edges of the stored graph of the first papers come first in the
/// edges of the stored graph of more of them.
pub proof fn lemma_stored_edges_grow(
    ps: Seq<PaperView>,
    cited: Seq<Option<Seq<i64>>>,
    citing: Seq<Option<Seq<i64>>>,
    i: int,
)
    requires
        0 <= i <= ps.len(),
        cited.len() == ps.len(),
        citing.len() == ps.len(),
    ensures
        stored_graph(ps.take(i), cited.take(i), citing.take(i)).edges.len() <= stored_graph(ps, cited, citing).edges.len(),
    decreases ps.len() - i,
{
    if i == ps.len() {
        assert(ps.take(i) == ps);
        assert(cited.take(i) == cited);
        assert(citing.take(i) == citing);
    } else {
        let n = ps.len() - 1;
        lemma_stored_edges_grow(ps.drop_last(), cited.take(n), citing.take(n), i);
        assert(ps.drop_last().take(i) == ps.take(i));
        assert(cited.take(n).take(i) == cited.take(i));
        assert(citing.take(n).take(i) == citing.take(i));
        let g = stored_graph(ps.drop_last(), cited.take(n), citing.take(n));
        if let Some(id) = ps.last().id {
            assert(graph_with(g, ps.last()).edges == g.edges);
        }
    }
}

/// Appends the edges `(a, c)` or `(c, a)` for each listed id `c`.
fn add_links(graph: &mut CitationGraph, id: i64, ids: &Option<Vec<i64>>, outward: bool)
    requires
        old(graph).wf(),
        old(graph)@.edges.len() + (if outward { out_edges(id, opt_ids(*ids)) } else { in_edges(id, opt_ids(*ids)) }).len() <= usize::MAX,
    ensures
        final(graph).wf(),
        final(graph)@.papers == old(graph)@.papers,
        final(graph)@.order == old(graph)@.order,
        final(graph)@.edges == old(graph)@.edges + (if outward {
            out_edges(id, opt_ids(*ids))
        } else {
            in_edges(id, opt_ids(*ids))
        }),
{
    match ids {
        Some(cs) => {
            let ghost base = graph@.edges;
            let ghost added = if outward { out_edges(id, opt_ids(*ids)) } else { in_edges(id, opt_ids(*ids)) };
            let mut j: usize = 0;
            while j < cs.len()
                invariant
                    graph.wf(),
                    0 <= j <= cs.len(),
                    *ids == Some(*cs),
                    added == (if outward { out_edges(id, opt_ids(*ids)) } else { in_edges(id, opt_ids(*ids)) }),
                    added.len() == cs@.len(),
                    base.len() + added.len() <= usize::MAX,
                    graph@.papers == old(graph)@.papers,
                    graph@.order == old(graph)@.order,
                    graph@.edges == base + added.take(j as int),
                decreases cs.len() - j,
            {
                let c = cs[j];
                if outward {
                    graph.add_citation(id, c);
                } else {
                    graph.add_citation(c, id);
                }
                assert(added.take(j + 1) == added.take(j as int).push(added[j as int]));
                j = j + 1;
            }
            assert(added.take(cs@.len() as int) == added);
        },
        None => {
            assert(graph@.edges == old(graph)@.edges + Seq::<(i64, i64)>::empty());
        },
    }
}

/// The view of an optional id list.
pub open spec fn opt_ids(o: Option<Vec<i64>>) -> Option<Seq<i64>> {
    match o {
        Some(x) => Some(x@),
        None => None,
    }
}

/// Builds the citation graph of stored papers from the ids each cites and
/// the ids citing each (`None` where that lookup failed), given paper by
/// paper.
pub fn assemble_graph(papers: &[Paper], cited: &Vec<Option<Vec<i64>>>, citing: &Vec<Option<Vec<i64>>>) -> (r: CitationGraph)
    requires
        cited@.len() == papers@.len(),
        citing@.len() == papers@.len(),
        stored_graph(crate::bibtex::paper_views(papers@), id_lists_view(cited@), id_lists_view(citing@)).edges.len()
            <= usize::MAX,
    ensures
        r.wf(),
        r@ == stored_graph(crate::bibtex::paper_views(papers@), id_lists_view(cited@), id_lists_view(citing@)),
{
    let ghost ps = crate::bibtex::paper_views(papers@);
    let ghost cs = id_lists_view(cited@);
    let ghost ins = id_lists_view(citing@);
    let mut graph = CitationGraph::new();
    let mut i: usize = 0;
    while i < papers.len()
        invariant
            0 <= i <= papers.len(),
            graph.wf(),
            ps == crate::bibtex::paper_views(papers@),
            cs == id_lists_view(cited@),
            ins == id_lists_view(citing@),
            cited@.len() == papers@.len(),
            citing@.len() == papers@.len(),
            graph@.order.len() <= i,
            stored_graph(ps, cs, ins).edges.len() <= usize::MAX,
            graph@ == stored_graph(ps.take(i as int), cs.take(i as int), ins.take(i as int)),
        decreases papers.len() - i,
    {
        assert(ps.take(i + 1).drop_last() == ps.take(i as int));
        assert(cs.take(i + 1).take(i as int) == cs.take(i as int));
        assert(ins.take(i + 1).take(i as int) == ins.take(i as int));
        assert(ps.take(i + 1).last() == papers@[i as int]@);
        assert(cs.take(i + 1)[i as int] == opt_ids(cited@[i as int]));
        assert(ins.take(i + 1)[i as int] == opt_ids(citing@[i as int]));
        proof {
            lemma_stored_edges_grow(ps, cs, ins, i + 1);
        }
        match papers[i].id {
            Some(id) => {
                graph.add_paper(papers[i].duplicate());
                add_links(&mut graph, id, &cited[i], true);
                add_links(&mut graph, id, &citing[i], false);
            },
            None => {},
        }
        i = i + 1;
    }
    assert(ps.take(papers@.len() as int) == ps);
    assert(cs.take(papers@.len() as int) == cs);
    assert(ins.take(papers@.len() as int) == ins);
    graph
}

/// How a paper about to be saved is looked for among the stored ones.
#[derive(Debug)]
pub enum StoredLookup {
    /// By its arXiv id.
    ByArxivId(String),
    /// By its Semantic Scholar id.
    BySemanticScholarId(String),
}

/// A stored-paper lookup as a value of the model: whether it goes by the
/// arXiv id, and the id.
pub open spec fn stored_lookup_view(l: StoredLookup) -> (bool, Seq<char>) {
    match l {
        StoredLookup::ByArxivId(s) => (true, s@),
        StoredLookup::BySemanticScholarId(s) => (false, s@),
    }
}

/// The lookups that find a paper already stored: by its arXiv id, then by
/// its Semantic Scholar id, each where it is there and not empty.
pub open spec fn save_lookups_view(p: PaperView) -> Seq<(bool, Seq<char>)> {
    let a: Seq<(bool, Seq<char>)> = match p.arxiv_id {
        Some(x) => if x.len() > 0 { seq![(true, x)] } else { Seq::empty() },
        None => Seq::empty(),
    };
    let s: Seq<(bool, Seq<char>)> = match p.semantic_scholar_id {
        Some(x) => if x.len() > 0 { seq![(false, x)] } else { Seq::empty() },
        None => Seq::empty(),
    };
    a + s
}

/// The lookups made before a paper is saved; the first that finds a stored
/// paper gives its id, and where none does the paper is inserted.
pub fn save_lookups(paper: &Paper) -> (r: Vec<StoredLookup>)
    ensures
        r@.map_values(|l: StoredLookup| stored_lookup_view(l)) == save_lookups_view(paper@),
{
    let mut r: Vec<StoredLookup> = Vec::new();
    match &paper.arxiv_id {
        Some(a) => {
            if !a.as_str().is_empty() {
                r.push(StoredLookup::ByArxivId(a.clone()));
            }
        },
        None => {},
    }
    match &paper.semantic_scholar_id {
        Some(s) => {
            if !s.as_str().is_empty() {
                r.push(StoredLookup::BySemanticScholarId(s.clone()));
            }
        },
        None => {},
    }
    assert(r@.map_values(|l: StoredLookup| stored_lookup_view(l)) =~= save_lookups_view(paper@));
    r
}

/// A stored paper refreshed from its source: the source's citation count,
/// updated now; the rest as stored.
pub fn refreshed(paper: &Paper, citation_count: i64, now: Timestamp) -> (r: Paper)
    ensures
        r@ == (PaperView { citation_count, updated_at: now, ..paper@ }),
{
    let mut p = paper.duplicate();
    p.citation_count = citation_count;
    p.updated_at = now;
    p
}

/// The Semantic Scholar id under which a stored paper's citation count is
/// synchronised: where it has one and has been stored.
pub fn sync_target(paper: &Paper) -> (r: Option<String>)
    ensures
        match r {
            Some(s) => paper.id is Some && paper@.semantic_scholar_id == Some(s@),
            None => paper.id is None || paper.semantic_scholar_id is None,
        },
{
    match (&paper.semantic_scholar_id, paper.id) {
        (Some(s), Some(_)) => Some(s.clone()),
        _ => None,
    }
}

} // verus!
