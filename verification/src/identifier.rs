//! Recognising paper identifiers: arXiv ids, DOIs, Semantic Scholar ids,
//! PubMed ids, OpenAlex ids and URLs.

use vstd::prelude::*;
use crate::text::{
    all_digits, has_infix, has_prefix, index_of, index_of_from, is_ascii_digit, is_ascii_lower,
    slice_chars, starts_with, contains, string_of, to_chars, trim, trim_chars, trim_end, trim_start,
    unicode_whitespace,
};

verus! {

broadcast use vstd::string::group_string_axioms;

/// An identifier, by the kind it was recognised as.
#[derive(Debug, Clone)]
pub enum Identifier {
    Arxiv(String),
    Doi(String),
    SemanticScholar(String),
    Pmid(String),
    OpenAlex(String),
    Url(String),
    Unknown(String),
}

/// What an identifier holds.
pub ghost enum IdentifierView {
    Arxiv(Seq<char>),
    Doi(Seq<char>),
    SemanticScholar(Seq<char>),
    Pmid(Seq<char>),
    OpenAlex(Seq<char>),
    Url(Seq<char>),
    Unknown(Seq<char>),
}

impl View for Identifier {
    type V = IdentifierView;

    open spec fn view(&self) -> IdentifierView {
        match self {
            Identifier::Arxiv(s) => IdentifierView::Arxiv(s@),
            Identifier::Doi(s) => IdentifierView::Doi(s@),
            Identifier::SemanticScholar(s) => IdentifierView::SemanticScholar(s@),
            Identifier::Pmid(s) => IdentifierView::Pmid(s@),
            Identifier::OpenAlex(s) => IdentifierView::OpenAlex(s@),
            Identifier::Url(s) => IdentifierView::Url(s@),
            Identifier::Unknown(s) => IdentifierView::Unknown(s@),
        }
    }
}

/// The text an identifier carries.
pub open spec fn identifier_text(v: IdentifierView) -> Seq<char> {
    match v {
        IdentifierView::Arxiv(s) => s,
        IdentifierView::Doi(s) => s,
        IdentifierView::SemanticScholar(s) => s,
        IdentifierView::Pmid(s) => s,
        IdentifierView::OpenAlex(s) => s,
        IdentifierView::Url(s) => s,
        IdentifierView::Unknown(s) => s,
    }
}

/// Every char of `s` is an ASCII digit.
pub open spec fn digits(s: Seq<char>) -> bool {
    forall|i: int| 0 <= i < s.len() ==> is_ascii_digit(#[trigger] s[i])
}

/// The new arXiv form `YYMM.NNNNN`: one dot, four digits before it and
/// four or five digits after it, optionally followed by `v` and a version
/// made of digits.
pub open spec fn new_arxiv_form(s: Seq<char>) -> bool {
    match index_of_from(s, '.', 0) {
        None => false,
        Some(d) => {
            let first = s.take(d);
            let second = s.skip(d + 1);
            &&& index_of_from(second, '.', 0) is None
            &&& first.len() == 4
            &&& digits(first)
            &&& match index_of_from(second, 'v', 0) {
                Some(v) => {
                    let num = second.take(v);
                    let ver = second.skip(v + 1);
                    4 <= num.len() <= 5 && digits(num) && digits(ver)
                },
                None => 4 <= second.len() <= 5 && digits(second),
            }
        },
    }
}

/// The old arXiv form `archive/NNNNNNN`: one slash, lower-case letters and
/// dashes before it and seven digits after it.
pub open spec fn old_arxiv_form(s: Seq<char>) -> bool {
    match index_of_from(s, '/', 0) {
        None => false,
        Some(d) => {
            let first = s.take(d);
            let second = s.skip(d + 1);
            &&& index_of_from(second, '/', 0) is None
            &&& forall|i: int|
                0 <= i < first.len() ==> is_ascii_lower(#[trigger] first[i]) || first[i] == '-'
            &&& second.len() == 7
            &&& digits(second)
        },
    }
}

pub open spec fn arxiv_form(s: Seq<char>) -> bool {
    new_arxiv_form(s) || old_arxiv_form(s)
}

/// How a raw identifier text is recognised: first by a prefix (`arxiv:`,
/// `doi:`, `ss:`, `pmid:`, `openalex:`), then as a URL, then by its form.
pub open spec fn parse_identifier(raw: Seq<char>) -> IdentifierView {
    let s = trim(raw);
    if has_prefix(s, "arxiv:"@) {
        IdentifierView::Arxiv(s.skip("arxiv:"@.len() as int))
    } else if has_prefix(s, "doi:"@) {
        IdentifierView::Doi(s.skip("doi:"@.len() as int))
    } else if has_prefix(s, "ss:"@) {
        IdentifierView::SemanticScholar(s.skip("ss:"@.len() as int))
    } else if has_prefix(s, "pmid:"@) {
        IdentifierView::Pmid(s.skip("pmid:"@.len() as int))
    } else if has_prefix(s, "openalex:"@) {
        IdentifierView::OpenAlex(s.skip("openalex:"@.len() as int))
    } else if has_prefix(s, "http://"@) || has_prefix(s, "https://"@) {
        IdentifierView::Url(s)
    } else if arxiv_form(s) {
        IdentifierView::Arxiv(s)
    } else if has_prefix(s, "10."@) && has_infix(s, seq!['/']) {
        IdentifierView::Doi(s)
    } else {
        IdentifierView::Unknown(s)
    }
}

/// The text after `prefix`, when `s` starts with it.
fn strip_prefix(s: &Vec<char>, prefix: &str) -> (r: Option<String>)
    ensures
        r matches Some(t) ==> has_prefix(s@, prefix@) && t@ == s@.skip(prefix@.len() as int),
        r is None ==> !has_prefix(s@, prefix@),
{
    let p = to_chars(prefix);
    if starts_with(s.as_slice(), p.as_slice()) {
        let v = slice_chars(s.as_slice(), p.len(), s.len());
        assert(v@ == s@.skip(p@.len() as int));
        Some(string_of(v.as_slice()))
    } else {
        None
    }
}

fn dash_or_lower(s: &[char]) -> (r: bool)
    ensures
        r == (forall|i: int| 0 <= i < s@.len() ==> is_ascii_lower(#[trigger] s@[i]) || s@[i] == '-'),
{
    let mut i: usize = 0;
    while i < s.len()
        invariant
            0 <= i <= s.len(),
            forall|k: int| 0 <= k < i ==> is_ascii_lower(#[trigger] s@[k]) || s@[k] == '-',
        decreases s.len() - i,
    {
        let c = s[i];
        if !(('a' <= c && c <= 'z') || c == '-') {
            return false;
        }
        i = i + 1;
    }
    true
}

impl Identifier {
    /// Recognises an identifier.
    pub fn parse(s: &str) -> (r: Self)
        ensures
            r@ == parse_identifier(s@),
    {
        let raw = to_chars(s);
        let t = trim_chars(raw.as_slice());
        if let Some(id) = strip_prefix(&t, "arxiv:") {
            return Identifier::Arxiv(id);
        }
        if let Some(id) = strip_prefix(&t, "doi:") {
            return Identifier::Doi(id);
        }
        if let Some(id) = strip_prefix(&t, "ss:") {
            return Identifier::SemanticScholar(id);
        }
        if let Some(id) = strip_prefix(&t, "pmid:") {
            return Identifier::Pmid(id);
        }
        if let Some(id) = strip_prefix(&t, "openalex:") {
            return Identifier::OpenAlex(id);
        }
        let http = to_chars("http://");
        let https = to_chars("https://");
        if starts_with(t.as_slice(), http.as_slice()) || starts_with(t.as_slice(), https.as_slice()) {
            return Identifier::Url(string_of(t.as_slice()));
        }
        if Self::arxiv_chars(t.as_slice()) {
            return Identifier::Arxiv(string_of(t.as_slice()));
        }
        let ten = to_chars("10.");
        let slash = vec!['/'];
        assert(slash@ =~= seq!['/']);
        if starts_with(t.as_slice(), ten.as_slice()) && contains(t.as_slice(), slash.as_slice()) {
            return Identifier::Doi(string_of(t.as_slice()));
        }
        Identifier::Unknown(string_of(t.as_slice()))
    }

    /// Whether the text has one of the arXiv forms.
    pub fn is_arxiv_id(s: &str) -> (r: bool)
        ensures
            r == arxiv_form(s@),
    {
        let cs = to_chars(s);
        Self::arxiv_chars(cs.as_slice())
    }

    fn arxiv_chars(s: &[char]) -> (r: bool)
        ensures
            r == arxiv_form(s@),
    {
        Self::new_form_chars(s) || Self::old_form_chars(s)
    }

    /// Whether the text has the new arXiv form.
    pub fn is_new_arxiv_format(s: &str) -> (r: bool)
        ensures
            r == new_arxiv_form(s@),
    {
        let cs = to_chars(s);
        Self::new_form_chars(cs.as_slice())
    }

    /// Whether the text has the old arXiv form.
    pub fn is_old_arxiv_format(s: &str) -> (r: bool)
        ensures
            r == old_arxiv_form(s@),
    {
        let cs = to_chars(s);
        Self::old_form_chars(cs.as_slice())
    }

    fn new_form_chars(s: &[char]) -> (r: bool)
        ensures
            r == new_arxiv_form(s@),
    {
        let d = match index_of(s, '.', 0) {
            None => return false,
            Some(d) => d,
        };
        let first = slice_chars(s, 0, d);
        let second = slice_chars(s, d + 1, s.len());
        assert(first@ == s@.take(d as int));
        assert(second@ == s@.skip(d + 1));
        if index_of(second.as_slice(), '.', 0).is_some() {
            return false;
        }
        if first.len() != 4 || !all_digits(first.as_slice()) {
            return false;
        }
        match index_of(second.as_slice(), 'v', 0) {
            Some(v) => {
                let num = slice_chars(second.as_slice(), 0, v);
                let ver = slice_chars(second.as_slice(), v + 1, second.len());
                assert(num@ == second@.take(v as int));
                assert(ver@ == second@.skip(v + 1));
                num.len() >= 4 && num.len() <= 5 && all_digits(num.as_slice()) && all_digits(ver.as_slice())
            },
            None => second.len() >= 4 && second.len() <= 5 && all_digits(second.as_slice()),
        }
    }

    fn old_form_chars(s: &[char]) -> (r: bool)
        ensures
            r == old_arxiv_form(s@),
    {
        let d = match index_of(s, '/', 0) {
            None => return false,
            Some(d) => d,
        };
        let first = slice_chars(s, 0, d);
        let second = slice_chars(s, d + 1, s.len());
        assert(first@ == s@.take(d as int));
        assert(second@ == s@.skip(d + 1));
        if index_of(second.as_slice(), '/', 0).is_some() {
            return false;
        }
        dash_or_lower(first.as_slice()) && second.len() == 7 && all_digits(second.as_slice())
    }

    /// The text the identifier carries.
    pub fn as_str(&self) -> (r: &str)
        ensures
            r@ == identifier_text(self@),
    {
        match self {
            Identifier::Arxiv(s) => s.as_str(),
            Identifier::Doi(s) => s.as_str(),
            Identifier::SemanticScholar(s) => s.as_str(),
            Identifier::Pmid(s) => s.as_str(),
            Identifier::OpenAlex(s) => s.as_str(),
            Identifier::Url(s) => s.as_str(),
            Identifier::Unknown(s) => s.as_str(),
        }
    }
}

/// Trailing whitespace after a text that does not end in whitespace is
/// the whitespace of what follows it.
proof fn lemma_trim_end_after(p: Seq<char>, x: Seq<char>)
    requires
        p.len() > 0,
        !unicode_whitespace(p.last()),
    ensures
        trim_end(p + x) == p + trim_end(x),
    decreases x.len(),
{
    if x.len() > 0 {
        assert((p + x).drop_last() == p + x.drop_last());
        assert((p + x).last() == x.last());
        lemma_trim_end_after(p, x.drop_last());
    } else {
        assert(p + x == p);
        assert(p + trim_end(x) == p);
    }
}

/// An identifier written with its kind's prefix (`arxiv:`, `doi:`, `ss:`,
/// `pmid:`, `openalex:`) is recognised as that kind and carries the text
/// after the prefix, with trailing whitespace removed.
pub proof fn law_prefixed_text(p: Seq<char>, x: Seq<char>)
    requires
        p == "arxiv:"@ || p == "doi:"@ || p == "ss:"@ || p == "pmid:"@ || p == "openalex:"@,
    ensures
        identifier_text(parse_identifier(p + x)) == trim_end(x),
        p == "arxiv:"@ ==> parse_identifier(p + x) == IdentifierView::Arxiv(trim_end(x)),
        p == "doi:"@ ==> parse_identifier(p + x) == IdentifierView::Doi(trim_end(x)),
        p == "ss:"@ ==> parse_identifier(p + x) == IdentifierView::SemanticScholar(trim_end(x)),
        p == "pmid:"@ ==> parse_identifier(p + x) == IdentifierView::Pmid(trim_end(x)),
        p == "openalex:"@ ==> parse_identifier(p + x) == IdentifierView::OpenAlex(trim_end(x)),
{
    reveal_strlit("arxiv:");
    reveal_strlit("doi:");
    reveal_strlit("ss:");
    reveal_strlit("pmid:");
    reveal_strlit("openalex:");
    let t = p + trim_end(x);
    assert((p + x)[0] == p[0]);
    assert(trim_start(p + x) == p + x);
    lemma_trim_end_after(p, x);
    assert(trim(p + x) == t);
    assert(t.take(p.len() as int) == p);
    assert(t.skip(p.len() as int) == trim_end(x));
    assert(t[0] == p[0]);
    if p != "arxiv:"@ {
        if t.len() >= 6 {
            assert(t.take(6)[0] == t[0]);
        }
    }
    if p != "doi:"@ {
        if t.len() >= 4 {
            assert(t.take(4)[0] == t[0]);
        }
    }
    if p != "ss:"@ {
        if t.len() >= 3 {
            assert(t.take(3)[0] == t[0]);
            assert(t.take(3)[1] == t[1]);
        }
    }
    if p != "pmid:"@ {
        if t.len() >= 5 {
            assert(t.take(5)[0] == t[0]);
        }
    }
}

/// An identifier written without a kind's prefix carries its whole text,
/// with surrounding whitespace removed.
pub proof fn law_unprefixed_text(s: Seq<char>)
    requires
        !has_prefix(trim(s), "arxiv:"@),
        !has_prefix(trim(s), "doi:"@),
        !has_prefix(trim(s), "ss:"@),
        !has_prefix(trim(s), "pmid:"@),
        !has_prefix(trim(s), "openalex:"@),
    ensures
        identifier_text(parse_identifier(s)) == trim(s),
{
}

} // verus!
