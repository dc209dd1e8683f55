//! The HTTP client the sources and the PDF downloader are built on.

use vstd::prelude::*;
use crate::source::{SourceConfig, SourceError};

verus! {

#[verifier::external_type_specification]
#[verifier::external_body]
pub struct ExHttpClient(reqwest::Client);

#[verifier::external_type_specification]
#[verifier::external_body]
pub struct ExHttpClientBuilder(reqwest::ClientBuilder);

/// How an HTTP client is set up: its total, read and connect timeouts (in
/// whole seconds, where set), the addresses of the proxies set on it, in
/// order, and whether it also looks up the system's proxy settings.
pub ghost struct ClientSetup {
    pub timeout: Option<u64>,
    pub read_timeout: Option<u64>,
    pub connect_timeout: Option<u64>,
    pub proxies: Seq<Seq<char>>,
    pub system_proxy: bool,
}

/// Names what `reqwest::Proxy::all` makes of a proxy URL: the proxy address
/// it parses out of it, or the text of the error when it does not parse.
pub uninterp spec fn proxy_parse(url: Seq<char>) -> Result<Seq<char>, Seq<char>>;

/// Names the setup a `reqwest::ClientBuilder` holds: what the builder calls
/// made on it have set.
pub uninterp spec fn builder_setup(b: reqwest::ClientBuilder) -> ClientSetup;

/// Names the setup a `reqwest::Client` was built with: its timeouts, the
/// proxies set on its builder, and whether it looks up the system's proxies.
pub uninterp spec fn client_setup(c: reqwest::Client) -> ClientSetup;

/// The error text of a proxy URL that does not parse.
pub open spec fn proxy_parse_error(url: Seq<char>) -> Option<Seq<char>> {
    match proxy_parse(url) {
        Ok(_) => None,
        Err(m) => Some(m),
    }
}

/// `reqwest::Client::builder()`: a builder with reqwest's defaults (no
/// timeouts, no proxies set, the system's proxies looked up).
#[verifier::external_body]
pub(crate) fn client_builder() -> (r: reqwest::ClientBuilder)
    ensures
        builder_setup(r) == (ClientSetup {
            timeout: None,
            read_timeout: None,
            connect_timeout: None,
            proxies: Seq::empty(),
            system_proxy: true,
        }),
{
    reqwest::Client::builder()
}

/// `ClientBuilder::timeout` with the given seconds: sets the total timeout.
#[verifier::external_body]
pub(crate) fn with_timeout(b: reqwest::ClientBuilder, secs: u64) -> (r: reqwest::ClientBuilder)
    ensures
        builder_setup(r) == (ClientSetup { timeout: Some(secs), ..builder_setup(b) }),
{
    b.timeout(std::time::Duration::from_secs(secs))
}

/// `ClientBuilder::read_timeout` with the given seconds: sets the read
/// timeout.
#[verifier::external_body]
pub(crate) fn with_read_timeout(b: reqwest::ClientBuilder, secs: u64) -> (r: reqwest::ClientBuilder)
    ensures
        builder_setup(r) == (ClientSetup { read_timeout: Some(secs), ..builder_setup(b) }),
{
    b.read_timeout(std::time::Duration::from_secs(secs))
}

/// `ClientBuilder::connect_timeout` with the given seconds: sets the
/// connect timeout.
#[verifier::external_body]
pub(crate) fn with_connect_timeout(b: reqwest::ClientBuilder, secs: u64) -> (r: reqwest::ClientBuilder)
    ensures
        builder_setup(r) == (ClientSetup { connect_timeout: Some(secs), ..builder_setup(b) }),
{
    b.connect_timeout(std::time::Duration::from_secs(secs))
}

/// `reqwest::Proxy::all(url)` handed to `ClientBuilder::proxy`: where the
/// URL parses, the builder with that proxy added (and the system's proxies
/// no longer looked up); else the text of the error, as `proxy_parse`
/// names both.
#[verifier::external_body]
pub(crate) fn with_proxy(b: reqwest::ClientBuilder, url: &str) -> (r: Result<reqwest::ClientBuilder, String>)
    ensures
        match r {
            Ok(nb) => proxy_parse(url@) matches Ok(a) && builder_setup(nb) == (ClientSetup {
                proxies: builder_setup(b).proxies.push(a),
                system_proxy: false,
                ..builder_setup(b)
            }),
            Err(m) => proxy_parse(url@) == Err::<Seq<char>, Seq<char>>(m@),
        },
{
    match reqwest::Proxy::all(url) {
        Ok(p) => Ok(b.proxy(p)),
        Err(e) => Err(e.to_string()),
    }
}

/// `ClientBuilder::build`: the client, set up as the builder was, or the
/// text of the error. Whether it succeeds depends on the system (the TLS
/// backend): that is not promised.
#[verifier::external_body]
pub(crate) fn build_client(b: reqwest::ClientBuilder) -> (r: Result<reqwest::Client, String>)
    ensures
        r matches Ok(c) ==> client_setup(c) == builder_setup(b),
{
    b.build().map_err(|e| e.to_string())
}

/// The proxy address a configuration asks for, when it refuses to parse:
/// the error text.
pub open spec fn proxy_refusal(config: SourceConfig) -> Option<Seq<char>> {
    match config.proxy {
        Some(p) => if p@.len() > 0 {
            proxy_parse_error(p@)
        } else {
            None
        },
        None => None,
    }
}

/// A setup with the given timeouts and, where a proxy URL is given and not
/// empty, the proxy parsed from it in place of the system's proxies.
pub open spec fn setup_with(
    timeout: Option<u64>,
    read_timeout: Option<u64>,
    connect_timeout: Option<u64>,
    proxy: Option<Seq<char>>,
) -> ClientSetup {
    let base = ClientSetup { timeout, read_timeout, connect_timeout, proxies: Seq::empty(), system_proxy: true };
    match proxy {
        Some(p) => if p.len() > 0 {
            match proxy_parse(p) {
                Ok(a) => ClientSetup { proxies: seq![a], system_proxy: false, ..base },
                Err(_) => base,
            }
        } else {
            base
        },
        None => base,
    }
}

/// The setup of a source's client: the configured timeout, and the
/// configured proxy where one is set.
pub open spec fn source_setup(config: SourceConfig) -> ClientSetup {
    setup_with(
        Some(config.timeout),
        None,
        None,
        match config.proxy {
            Some(p) => Some(p@),
            None => None,
        },
    )
}

/// Builds a client: the builder with the timeouts, and the proxy where one
/// is given and not empty. A proxy that does not parse gives its error.
pub(crate) fn build_with(
    timeout: u64,
    read_timeout: Option<u64>,
    connect_timeout: Option<u64>,
    proxy: Option<&str>,
) -> (r: Result<reqwest::Client, (bool, String)>)
    ensures
        match proxy {
            Some(p) => p@.len() > 0 && proxy_parse(p@) is Err,
            None => false,
        } ==> (r matches Err((true, m)) && proxy_parse(proxy->0@) == Err::<Seq<char>, Seq<char>>(m@)),
        r matches Err((true, _)) ==> proxy matches Some(p) && p@.len() > 0 && proxy_parse(p@) is Err,
        r matches Ok(c) ==> client_setup(c) == setup_with(
            Some(timeout),
            read_timeout,
            connect_timeout,
            match proxy {
                Some(p) => Some(p@),
                None => None,
            },
        ),
{
    let mut builder = with_timeout(client_builder(), timeout);
    match read_timeout {
        Some(t) => {
            builder = with_read_timeout(builder, t);
        },
        None => {},
    }
    match connect_timeout {
        Some(t) => {
            builder = with_connect_timeout(builder, t);
        },
        None => {},
    }
    match proxy {
        Some(url) => {
            if !url.is_empty() {
                match with_proxy(builder, url) {
                    Ok(b) => {
                        builder = b;
                    },
                    Err(m) => {
                        return Err((true, m));
                    },
                }
            }
        },
        None => {},
    }
    match build_client(builder) {
        Ok(c) => Ok(c),
        Err(m) => Err((false, m)),
    }
}

/// An HTTP client with the configured timeout and proxy. A proxy that does
/// not parse gives `Network` with the parser's text; a client that cannot
/// be built gives `Network` with the builder's.
pub fn make_client(config: &SourceConfig) -> (r: Result<reqwest::Client, SourceError>)
    ensures
        proxy_refusal(*config) matches Some(m) ==> (r matches Err(SourceError::Network(t)) && t@ == m),
        r is Ok || r matches Err(SourceError::Network(_)),
        r matches Ok(c) ==> client_setup(c) == source_setup(*config),
{
    let proxy: Option<&str> = match &config.proxy {
        Some(p) => Some(p.as_str()),
        None => None,
    };
    match build_with(config.timeout, None, None, proxy) {
        Ok(c) => Ok(c),
        Err((_, m)) => Err(SourceError::Network(m)),
    }
}

} // verus!
