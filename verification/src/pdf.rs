//! PDF downloads: the HTTP client they use, the URLs and the file names.

use vstd::prelude::*;
use crate::http::{build_with, client_setup, proxy_parse_error, setup_with};
use crate::text::{
    after_last, after_last_chars, contains, ends_with, has_infix, has_prefix, has_suffix, push_str,
    starts_with, string_of, to_chars, to_string,
};

verus! {

broadcast use vstd::string::group_string_axioms;

/// Why a PDF downloader could not be made: the proxy address did not parse,
/// or the HTTP client could not be built (with the cause).
#[derive(Debug)]
pub enum PdfError {
    Proxy(String),
    Client(String),
}

/// Downloads PDFs.
pub struct PdfDownloader {
    client: reqwest::Client,
}

/// The refusal of the proxy a downloader is asked to use.
pub open spec fn downloader_refusal(proxy: Option<Seq<char>>) -> Option<Seq<char>> {
    match proxy {
        Some(p) => if p.len() > 0 { proxy_parse_error(p) } else { None },
        None => None,
    }
}

/// The text of an optional text.
pub open spec fn opt_str(o: Option<&str>) -> Option<Seq<char>> {
    match o {
        Some(s) => Some(s@),
        None => None,
    }
}

impl PdfDownloader {
    /// A downloader without a proxy.
    pub fn new() -> (r: Result<Self, PdfError>)
        ensures
            r is Ok || r matches Err(PdfError::Client(_)),
            r matches Ok(d) ==> client_setup(d.http_client()) == setup_with(Some(300), Some(120), Some(30), None),
    {
        Self::new_with_proxy(None)
    }

    /// A downloader whose client waits up to 300 s for a download, 120 s
    /// for a read and 30 s to connect, through the proxy where one is given
    /// and not empty. A proxy that does not parse gives `Proxy` with the
    /// parser's text; a client that cannot be built gives `Client`.
    pub fn new_with_proxy(proxy: Option<&str>) -> (r: Result<Self, PdfError>)
        ensures
            downloader_refusal(opt_str(proxy)) matches Some(m) ==> (r matches Err(PdfError::Proxy(t)) && t@ == m),
            r matches Err(PdfError::Proxy(_)) ==> downloader_refusal(opt_str(proxy)) is Some,
            r matches Ok(d) ==> client_setup(d.http_client()) == setup_with(
                Some(300),
                Some(120),
                Some(30),
                opt_str(proxy),
            ),
    {
        match build_with(300, Some(120), Some(30), proxy) {
            Ok(client) => Ok(PdfDownloader { client }),
            Err((true, m)) => Err(PdfError::Proxy(m)),
            Err((false, m)) => Err(PdfError::Client(m)),
        }
    }

    /// The HTTP client this value was built with.
    pub closed spec fn http_client(&self) -> reqwest::Client {
        self.client
    }

    /// The HTTP client downloads go through.
    pub fn client(&self) -> (r: &reqwest::Client)
        ensures
            *r == self.http_client(),
    {
        &self.client
    }

    /// Whether a URL looks like a PDF's: it ends with `.pdf` or mentions
    /// `pdf`.
    pub fn is_pdf_url(url: &str) -> (r: bool)
        ensures
            r == (has_suffix(url@, ".pdf"@) || has_infix(url@, "pdf"@)),
    {
        let u = to_chars(url);
        let suffix = to_chars(".pdf");
        let word = to_chars("pdf");
        ends_with(u.as_slice(), suffix.as_slice()) || contains(u.as_slice(), word.as_slice())
    }

    /// The file name for a download: the last part of the URL, with `.pdf`
    /// added where it does not end so.
    pub fn extract_filename(url: &str) -> (r: Option<String>)
        ensures
            r matches Some(f) && f@ == pdf_name_of(url@),
    {
        let u = to_chars(url);
        let last = after_last_chars(u.as_slice(), '/');
        let suffix = to_chars(".pdf");
        let mut name = string_of(last.as_slice());
        if !ends_with(last.as_slice(), suffix.as_slice()) {
            push_str(&mut name, ".pdf");
        }
        Some(name)
    }

    /// The URL of an arXiv paper's PDF.
    pub fn arxiv_pdf_url(arxiv_id: &str) -> (r: String)
        ensures
            r@ == "https://arxiv.org/pdf/"@ + arxiv_id@,
    {
        let mut r = to_string("https://arxiv.org/pdf/");
        push_str(&mut r, arxiv_id);
        r
    }
}

/// The file name taken from a URL: its part after the last `/`, with
/// `.pdf` added where it does not end so.
pub open spec fn pdf_name_of(url: Seq<char>) -> Seq<char> {
    let last = after_last(url, '/');
    if has_suffix(last, ".pdf"@) { last } else { last + ".pdf"@ }
}

/// What a PDF download fetches and under which file name it is stored.
#[derive(Debug)]
pub struct PdfTarget {
    pub url: String,
    pub file_name: String,
}

/// Where a download of `identifier` comes from and goes: a URL (anything
/// starting with `http`) is fetched as it is and named after its last part;
/// anything else is an arXiv id, fetched from arXiv and named after the id.
pub fn download_target(identifier: &str) -> (r: PdfTarget)
    ensures
        has_prefix(identifier@, "http"@) ==> r.url@ == identifier@ && r.file_name@ == pdf_name_of(identifier@),
        !has_prefix(identifier@, "http"@) ==> {
            &&& r.url@ == "https://arxiv.org/pdf/"@ + identifier@
            &&& r.file_name@ == identifier@ + ".pdf"@
        },
{
    let cs = to_chars(identifier);
    let http = to_chars("http");
    if starts_with(cs.as_slice(), http.as_slice()) {
        let name = match PdfDownloader::extract_filename(identifier) {
            Some(n) => n,
            None => to_string("paper.pdf"),
        };
        PdfTarget { url: to_string(identifier), file_name: name }
    } else {
        PdfTarget {
            url: PdfDownloader::arxiv_pdf_url(identifier),
            file_name: crate::setup::Config::pdf_file_name(identifier),
        }
    }
}

} // verus!
