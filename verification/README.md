# crabref

A paper reference manager: it finds papers on arXiv and OpenAlex, keeps them
in a database, follows citations, and writes papers out as terminal text,
Markdown, BibTeX or JSON.

The library (`src/`) holds the logic, each function with a contract that
Verus proves:

- `identifier`: recognising arXiv ids, DOIs, Semantic Scholar, PubMed and
  OpenAlex ids and URLs;
- `arxiv`, `openalex`: query URLs, the reading of arXiv's Atom entries and the
  conversion of OpenAlex works into papers;
- `retry`: the retry policy of the sources' requests, as a state machine;
- `manager`: which sources an identifier is looked up at, and in what order;
- `graph`, `stats`, `sort`: the citation graph, its statistics (h-index,
  most cited papers, isolated papers) and the stable sort they use;
- `title_order`: the order of titles, and listing papers by title;
- `crawler`: a breadth-first crawl of the citation network, as a state
  machine, with its invariant proved;
- `bibtex`, `markdown`, `terminal`, `cli`: the text formats;
- `setup`, `pdf`, `records`: configuration, the sources the tool builds,
  PDF targets, and stored records;
- `text`, `models`, `source`, `http`: strings, paper records, source types
  and the HTTP client.

`app/` is the command-line tool around it: network and database I/O
(reqwest, toasty), the async source interface, JSON output (serde_json) and
the configuration file (toml).
