//! Stored records: how a paper row of the database becomes a paper, and
//! which stored papers an author search returns.

use vstd::prelude::*;
use crate::models::{Author, AuthorView, Paper, PaperView, Timestamp, authors_view, now, opt_view};

verus! {

/// Names what `chrono::DateTime::parse_from_rfc3339` makes of a text: the
/// instant, as seconds and nanoseconds since the epoch (UTC), or `None`
/// where the text is not an RFC 3339 date and time.
pub uninterp spec fn rfc3339_instant(text: Seq<char>) -> Option<(i64, u32)>;

/// `chrono::DateTime::parse_from_rfc3339`: the instant a text names, as
/// `rfc3339_instant` says.
#[verifier::external_body]
fn parse_rfc3339(text: &str) -> (r: Option<Timestamp>)
    ensures
        match r {
            Some(t) => rfc3339_instant(text@) == Some((t.secs, t.nanos)),
            None => rfc3339_instant(text@) is None,
        },
{
    match chrono::DateTime::parse_from_rfc3339(text) {
        Ok(dt) => Some(Timestamp { secs: dt.timestamp(), nanos: dt.timestamp_subsec_nanos() }),
        Err(_) => None,
    }
}

/// A paper row as the database stores it; the times are RFC 3339 texts.
#[derive(Debug)]
pub struct PaperRecord {
    pub id: i64,
    pub title: String,
    pub abstract_text: Option<String>,
    pub arxiv_id: Option<String>,
    pub semantic_scholar_id: Option<String>,
    pub doi: Option<String>,
    pub pdf_url: Option<String>,
    pub local_pdf_path: Option<String>,
    pub publication_date: Option<String>,
    pub venue: Option<String>,
    pub citation_count: i64,
    pub created_at: String,
    pub updated_at: String,
}

/// A stored time: the instant its text names; where it names none, the
/// time of reading (which is not modelled).
pub open spec fn stored_time(text: Seq<char>, read: Timestamp) -> bool {
    match rfc3339_instant(text) {
        Some((secs, nanos)) => read == (Timestamp { secs, nanos }),
        None => true,
    }
}

/// The time a stored text names, or now where it names none.
fn read_time(text: &String) -> (r: Timestamp)
    ensures
        stored_time(text@, r),
{
    match parse_rfc3339(text.as_str()) {
        Some(t) => t,
        None => now(),
    }
}

/// The paper a stored row holds, with its authors.
pub fn record_to_paper(record: PaperRecord, authors: Vec<Author>) -> (r: Paper)
    ensures
        r@.id == Some(record.id),
        r@.title == record.title@,
        r@.abstract_text == opt_view(record.abstract_text),
        r@.arxiv_id == opt_view(record.arxiv_id),
        r@.semantic_scholar_id == opt_view(record.semantic_scholar_id),
        r@.doi == opt_view(record.doi),
        r@.pdf_url == opt_view(record.pdf_url),
        r@.local_pdf_path == opt_view(record.local_pdf_path),
        r@.publication_date == opt_view(record.publication_date),
        r@.venue == opt_view(record.venue),
        r@.citation_count == record.citation_count,
        r@.authors == authors_view(authors@),
        stored_time(record.created_at@, r@.created_at),
        stored_time(record.updated_at@, r@.updated_at),
{
    let created_at = read_time(&record.created_at);
    let updated_at = read_time(&record.updated_at);
    Paper {
        id: Some(record.id),
        title: record.title,
        abstract_text: record.abstract_text,
        arxiv_id: record.arxiv_id,
        semantic_scholar_id: record.semantic_scholar_id,
        doi: record.doi,
        pdf_url: record.pdf_url,
        local_pdf_path: record.local_pdf_path,
        publication_date: record.publication_date,
        venue: record.venue,
        citation_count: record.citation_count,
        authors,
        created_at,
        updated_at,
    }
}

/// An author as stored: its row id, name and Semantic Scholar id (no ORCID
/// is stored).
pub fn stored_author(id: i64, name: String, semantic_scholar_id: Option<String>) -> (r: Author)
    ensures
        r@ == (AuthorView { id: Some(id), name: name@, semantic_scholar_id: opt_view(semantic_scholar_id), orcid: None }),
{
    Author { id: Some(id), name, semantic_scholar_id, orcid: None }
}

/// The ids, each once, in the order they first occur.
pub open spec fn distinct_ids(ids: Seq<i64>) -> Seq<i64>
    decreases ids.len(),
{
    if ids.len() == 0 {
        Seq::empty()
    } else {
        let d = distinct_ids(ids.drop_last());
        if d.contains(ids.last()) { d } else { d.push(ids.last()) }
    }
}

/// The distinct ids of a prefix come first among the distinct ids of the
/// whole.
pub proof fn lemma_distinct_prefix(ids: Seq<i64>, i: int)
    requires
        0 <= i <= ids.len(),
    ensures
        distinct_ids(ids.take(i)).len() <= distinct_ids(ids).len(),
        distinct_ids(ids).take(distinct_ids(ids.take(i)).len() as int) == distinct_ids(ids.take(i)),
    decreases ids.len() - i,
{
    if i == ids.len() {
        assert(ids.take(i) == ids);
        assert(distinct_ids(ids).take(distinct_ids(ids).len() as int) == distinct_ids(ids));
    } else {
        lemma_distinct_prefix(ids.drop_last(), i);
        assert(ids.drop_last().take(i) == ids.take(i));
        let d = distinct_ids(ids.drop_last());
        let k = distinct_ids(ids.take(i)).len() as int;
        if !d.contains(ids.last()) {
            assert(d.push(ids.last()).take(k) == d.take(k));
        }
    }
}

/// The distinct ids never repeat one.
pub proof fn lemma_distinct_unique(ids: Seq<i64>)
    ensures
        distinct_ids(ids).no_duplicates(),
        forall|x: i64| distinct_ids(ids).contains(x) <==> ids.contains(x),
    decreases ids.len(),
{
    if ids.len() > 0 {
        lemma_distinct_unique(ids.drop_last());
        let d = distinct_ids(ids.drop_last());
        if !d.contains(ids.last()) {
            let e = d.push(ids.last());
            assert forall|i: int, j: int| 0 <= i < j < e.len() implies e[i] != e[j] by {
                if j == e.len() - 1 {
                    assert(d[i] == e[i]);
                }
            }
        }
        assert forall|x: i64| distinct_ids(ids).contains(x) <==> ids.contains(x) by {
            lemma_push_contains(ids.drop_last(), ids.last(), x);
            assert(ids.drop_last().push(ids.last()) == ids);
            lemma_push_contains(d, ids.last(), x);
        }
    }
}

/// What a sequence with one more id contains.
pub proof fn lemma_push_contains(s: Seq<i64>, a: i64, x: i64)
    ensures
        s.push(a).contains(x) <==> (s.contains(x) || x == a),
{
    if s.contains(x) {
        let j = choose|j: int| 0 <= j < s.len() && s[j] == x;
        assert(s.push(a)[j] == x);
    }
    if x == a {
        assert(s.push(a)[s.len() as int] == x);
    }
    if s.push(a).contains(x) && x != a {
        let j = choose|j: int| 0 <= j < s.len() + 1 && s.push(a)[j] == x;
        assert(s[j] == x);
    }
}

/// At most `limit` of the ids, each once, in the order they first occur.
pub fn first_distinct(ids: &[i64], limit: usize) -> (r: Vec<i64>)
    ensures
        r@ == (if distinct_ids(ids@).len() <= limit {
            distinct_ids(ids@)
        } else {
            distinct_ids(ids@).take(limit as int)
        }),
{
    let mut r: Vec<i64> = Vec::new();
    let mut i: usize = 0;
    while i < ids.len() && r.len() < limit
        invariant
            0 <= i <= ids.len(),
            r@.len() <= limit,
            r@ == distinct_ids(ids@.take(i as int)),
        decreases ids.len() - i,
    {
        assert(ids@.take(i + 1).drop_last() == ids@.take(i as int));
        let x = ids[i];
        let mut present = false;
        let mut k: usize = 0;
        while k < r.len()
            invariant
                0 <= k <= r.len(),
                present <==> r@.take(k as int).contains(x),
            decreases r.len() - k,
        {
            if r[k] == x {
                present = true;
            }
            assert(r@.take(k + 1) == r@.take(k as int).push(r@[k as int]));
            proof {
                lemma_push_contains(r@.take(k as int), r@[k as int], x);
            }
            k = k + 1;
        }
        assert(r@.take(r@.len() as int) == r@);
        if !present {
            r.push(x);
        }
        i = i + 1;
    }
    proof {
        lemma_distinct_prefix(ids@, i as int);
        if i == ids.len() {
            assert(ids@.take(i as int) == ids@);
        }
    }
    r
}

} // verus!
