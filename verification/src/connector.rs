//! Where the HTTP client connects for a request URI, and over what kind of
//! stream.
use hyper::http::uri::InvalidUri;
use hyper::Uri;
use vstd::prelude::*;
use vstd::string::StringExecFns;

verus! {

/// `hyper::Uri` (that is, `http::Uri`), carried through opaquely.
#[verifier::external_type_specification]
#[verifier::external_body]
pub struct ExUri(Uri);

/// `http::uri::InvalidUri`, the error of a URI that does not parse.
#[verifier::external_type_specification]
#[verifier::external_body]
pub struct ExInvalidUri(InvalidUri);

/// The URI that `http`'s parser reads from `url`, if the text is one.
pub uninterp spec fn parsed_uri(url: Seq<char>) -> Option<Uri>;

/// The host part the parser found in `uri`.
pub uninterp spec fn uri_host_of(uri: Uri) -> Option<Seq<char>>;

/// The port the parser found in `uri`.
pub uninterp spec fn uri_port_of(uri: Uri) -> Option<u16>;

/// The scheme the parser found in `uri`.
pub uninterp spec fn uri_scheme_of(uri: Uri) -> Option<Seq<char>>;

/// `<Uri as FromStr>::from_str`: the URI the parser reads from `url`, or the
/// parser's error when the text is not a URI. The claim is only that the
/// result depends on the text alone.
#[verifier::external_body]
fn parse_uri(url: &str) -> (r: Result<Uri, InvalidUri>)
    ensures
        r is Ok <==> parsed_uri(url@) is Some,
        r matches Ok(u) ==> parsed_uri(url@) == Some(u),
{
    url.parse::<Uri>()
}

/// `Uri::host`, copied into a `String`: the host part of `uri`.
#[verifier::external_body]
fn uri_host(uri: &Uri) -> (r: Option<String>)
    ensures
        text_of(r) == uri_host_of(*uri),
{
    match uri.host() {
        Some(h) => Some(h.to_string()),
        None => None,
    }
}

/// `Uri::port_u16`: the port of `uri`.
#[verifier::external_body]
fn uri_port(uri: &Uri) -> (r: Option<u16>)
    ensures
        r == uri_port_of(*uri),
{
    uri.port_u16()
}

/// `Uri::scheme_str`, copied into a `String`: the scheme of `uri`.
#[verifier::external_body]
fn uri_scheme(uri: &Uri) -> (r: Option<String>)
    ensures
        text_of(r) == uri_scheme_of(*uri),
{
    match uri.scheme_str() {
        Some(s) => Some(s.to_string()),
        None => None,
    }
}

/// The text of an optional string.
pub open spec fn text_of(s: Option<String>) -> Option<Seq<char>> {
    match s {
        Some(s) => Some(s@),
        None => None,
    }
}

/// The port used when a URI names none: 443 for `https`, else 80.
pub open spec fn default_port(scheme: Option<Seq<char>>) -> u16 {
    if scheme == Some("https"@) {
        443
    } else {
        80
    }
}

/// Host and port to connect to for a URI with these parts: its host, else
/// `localhost`; its port, else the default port of its scheme.
pub open spec fn address_of(
    host: Option<Seq<char>>,
    port: Option<u16>,
    scheme: Option<Seq<char>>,
) -> (Seq<char>, u16) {
    (
        match host {
            Some(h) => h,
            None => "localhost"@,
        },
        match port {
            Some(p) => p,
            None => default_port(scheme),
        },
    )
}

/// The stream a scheme asks for, if it is one the client speaks.
pub open spec fn kind_of(scheme: Option<Seq<char>>) -> Option<StreamKind> {
    if scheme == Some("http"@) {
        Some(StreamKind::Plain)
    } else if scheme == Some("https"@) {
        Some(StreamKind::Tls)
    } else {
        None
    }
}

/// Host and port to open a TCP connection to.
#[derive(Debug)]
pub struct ConnectAddress {
    pub host: String,
    pub port: u16,
}

/// The kind of stream a scheme asks for.
#[derive(Debug, Clone, Copy, PartialEq, Eq, Structural)]
pub enum StreamKind {
    /// Plain HTTP over TCP.
    Plain,
    /// HTTPS: TLS over TCP.
    Tls,
}

/// Why no stream can be made for a URI.
#[derive(Debug)]
pub enum ConnectError {
    /// The scheme is neither `http` nor `https`; it is kept for the report.
    UnsupportedScheme(Option<String>),
}

/// The address to connect to for a URI with these parts.
pub fn connect_address(host: Option<String>, port: Option<u16>, scheme: &Option<String>) -> (a:
    ConnectAddress)
    ensures
        (a.host@, a.port) == address_of(text_of(host), port, text_of(*scheme)),
        host matches Some(h) ==> a.host@ == h@,
        host is None ==> a.host@ == "localhost"@,
        port matches Some(p) ==> a.port == p,
        port is None && text_of(*scheme) == Some("https"@) ==> a.port == 443,
        port is None && text_of(*scheme) != Some("https"@) ==> a.port == 80,
{
    let host = match host {
        Some(h) => h,
        None => String::from_str("localhost"),
    };
    let port = match port {
        Some(p) => p,
        None => {
            let https = String::from_str("https");
            let is_https = match scheme {
                Some(s) => *s == https,
                None => false,
            };
            if is_https {
                443
            } else {
                80
            }
        },
    };
    ConnectAddress { host, port }
}

/// The stream for a scheme: plain for `http`, TLS for `https`, and an error
/// naming the scheme otherwise.
pub fn stream_kind(scheme: Option<String>) -> (r: Result<StreamKind, ConnectError>)
    ensures
        match kind_of(text_of(scheme)) {
            Some(k) => r matches Ok(k2) && k2 == k,
            None => r matches Err(ConnectError::UnsupportedScheme(s)) && s == scheme,
        },
{
    proof {
        reveal_strlit("http");
        reveal_strlit("https");
        assert("http"@ != "https"@) by {
            assert("http"@.len() != "https"@.len());
        }
    }
    let http = String::from_str("http");
    let https = String::from_str("https");
    let kind = match &scheme {
        Some(s) => if *s == http {
            Some(StreamKind::Plain)
        } else if *s == https {
            Some(StreamKind::Tls)
        } else {
            None
        },
        None => None,
    };
    match kind {
        Some(k) => Ok(k),
        None => Err(ConnectError::UnsupportedScheme(scheme)),
    }
}

/// Where to connect for `uri` and over what stream: the URI's host, else
/// `localhost`; its port, else the default port of its scheme; a plain
/// stream for `http`, TLS for `https`, and an error for other schemes.
pub fn target_for(uri: &Uri) -> (r: (ConnectAddress, Result<StreamKind, ConnectError>))
    ensures
        (r.0.host@, r.0.port) == address_of(
            uri_host_of(*uri),
            uri_port_of(*uri),
            uri_scheme_of(*uri),
        ),
        uri_host_of(*uri) matches Some(h) ==> r.0.host@ == h,
        uri_host_of(*uri) is None ==> r.0.host@ == "localhost"@,
        uri_port_of(*uri) matches Some(p) ==> r.0.port == p,
        uri_port_of(*uri) is None && uri_scheme_of(*uri) == Some("https"@) ==> r.0.port == 443,
        uri_port_of(*uri) is None && uri_scheme_of(*uri) != Some("https"@) ==> r.0.port == 80,
        match kind_of(uri_scheme_of(*uri)) {
            Some(k) => r.1 matches Ok(k2) && k2 == k,
            None => r.1 matches Err(ConnectError::UnsupportedScheme(s)) && text_of(s)
                == uri_scheme_of(*uri),
        },
{
    let host = uri_host(uri);
    let port = uri_port(uri);
    let scheme = uri_scheme(uri);
    let address = connect_address(host, port, &scheme);
    let kind = stream_kind(scheme);
    (address, kind)
}

/// Why a URL cannot be requested.
#[derive(Debug)]
pub enum UrlError {
    /// The text is not a URI; the parser's error is kept for the report.
    Invalid(InvalidUri),
}

/// What requesting `url` means: the URI it parses to, the address to
/// connect to, and the stream to use, as [`target_for`] decides them; or
/// the parser's error when `url` is not a URI.
pub fn request_target(url: &str) -> (r: Result<
    (Uri, ConnectAddress, Result<StreamKind, ConnectError>),
    UrlError,
>)
    ensures
        r is Ok <==> parsed_uri(url@) is Some,
        r matches Ok((u, a, k)) ==> {
            &&& parsed_uri(url@) == Some(u)
            &&& (a.host@, a.port) == address_of(uri_host_of(u), uri_port_of(u), uri_scheme_of(u))
            &&& (uri_port_of(u) matches Some(p) ==> a.port == p)
            &&& (uri_port_of(u) is None && uri_scheme_of(u) == Some("https"@) ==> a.port == 443)
            &&& (uri_port_of(u) is None && uri_scheme_of(u) != Some("https"@) ==> a.port == 80)
            &&& (uri_host_of(u) matches Some(h) ==> a.host@ == h)
            &&& (uri_host_of(u) is None ==> a.host@ == "localhost"@)
            &&& match kind_of(uri_scheme_of(u)) {
                Some(kind) => k matches Ok(k2) && k2 == kind,
                None => k matches Err(ConnectError::UnsupportedScheme(s)) && text_of(s)
                    == uri_scheme_of(u),
            }
        },
{
    match parse_uri(url) {
        Ok(uri) => {
            let (address, kind) = target_for(&uri);
            Ok((uri, address, kind))
        },
        Err(e) => Err(UrlError::Invalid(e)),
    }
}

/// The address for a URI keeps the URI's host and, whenever it names a
/// port, that port, whatever the scheme; only a URI without a port gets the
/// scheme's default: 443 for `https`, 80 for anything else.
pub proof fn law_address_keeps_named_parts(
    host: Seq<char>,
    port: u16,
    scheme: Option<Seq<char>>,
    other_host: Option<Seq<char>>,
)
    ensures
        address_of(Some(host), Some(port), scheme) == (host, port),
        address_of(None, Some(port), scheme).0 == "localhost"@,
        address_of(other_host, Some(port), scheme).1 == port,
        address_of(other_host, None, Some("https"@)).1 == 443,
        scheme != Some("https"@) ==> address_of(other_host, None, scheme).1 == 80,
{
}

} // verus!
