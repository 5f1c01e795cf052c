//! How a connection to the portal is made: the WebSocket request, and whether
//! the agent shows a client certificate or a dev id.
use crate::run::RunConfig;
use crate::text::lower;
use tokio_tungstenite::tungstenite::client::IntoClientRequest;
use tokio_tungstenite::tungstenite::http;
use vstd::prelude::*;
use vstd::utf8::encode_utf8;

verus! {

/// An HTTP request.
#[verifier::external_type_specification]
#[verifier::external_body]
#[verifier::reject_recursive_types(T)]
pub struct ExRequest<T>(http::Request<T>);

/// A parsed URL.
#[verifier::external_type_specification]
#[verifier::external_body]
pub struct ExUri(http::Uri);

/// The value of an HTTP header.
#[verifier::external_type_specification]
#[verifier::external_body]
pub struct ExHeaderValue(http::HeaderValue);

/// The error for text that no header can have as its value.
#[verifier::external_type_specification]
#[verifier::external_body]
pub struct ExInvalidHeaderValue(http::header::InvalidHeaderValue);

/// The error of the WebSocket client.
#[verifier::external_type_specification]
#[verifier::external_body]
pub struct ExWebSocketError(tokio_tungstenite::tungstenite::Error);

/// What the WebSocket client parses a URL to; nothing where it makes no request
/// for the URL, because it cannot be parsed or has no host.
pub uninterp spec fn websocket_uri(url: Seq<char>) -> Option<http::Uri>;

/// The parsed URL that a request goes to.
pub uninterp spec fn request_uri(request: http::Request<()>) -> http::Uri;

/// What the headers of a request say under a name, whose case does not matter.
pub uninterp spec fn request_header(request: http::Request<()>, name: Seq<char>) -> Option<
    Seq<char>,
>;

/// How many headers a request has.
pub uninterp spec fn request_header_count(request: http::Request<()>) -> nat;

/// The text that a header value was made from.
pub uninterp spec fn header_text(value: http::HeaderValue) -> Seq<char>;

/// The header that carries the dev id.
pub const DEV_ID_HEADER: &'static str = "X-Dev-Server-Id";

/// The dev id that a request carries, if it carries one.
pub open spec fn request_dev_id(request: http::Request<()>) -> Option<Seq<char>> {
    request_header(request, DEV_ID_HEADER@)
}

/// Tells whether a text can be the name of a header: letters, digits and
/// hyphens, and not too many.
pub open spec fn header_name(name: Seq<char>) -> bool {
    &&& 0 < name.len() <= 64
    &&& forall|i: int|
        0 <= i < name.len() ==> {
            let c = #[trigger] name[i];
            'a' <= c <= 'z' || 'A' <= c <= 'Z' || '0' <= c <= '9' || c == '-'
        }
}

/// Tells whether a header value can hold this byte.
pub open spec fn header_byte(b: u8) -> bool {
    (b >= 32 && b != 127) || b == 9
}

/// Tells whether this text can be the value of a header.
pub open spec fn header_safe(text: Seq<char>) -> bool {
    forall|i: int| 0 <= i < encode_utf8(text).len() ==> header_byte(#[trigger] encode_utf8(text)[i])
}

/// `IntoClientRequest::into_client_request` on a string: succeeds or fails by
/// the URL alone. The request has the five headers of a WebSocket handshake,
/// one of them with a random key, and no `X-Dev-Server-Id`.
#[verifier::external_body]
fn client_request(url: &str) -> (r: Result<
    http::Request<()>,
    tokio_tungstenite::tungstenite::Error,
>)
    ensures
        match r {
            Ok(request) => {
                &&& websocket_uri(url@) == Some(request_uri(request))
                &&& request_dev_id(request) is None
                &&& request_header_count(request) == 5
            },
            Err(_) => websocket_uri(url@) is None,
        },
{
    url.into_client_request()
}

/// `HeaderValue::from_str`: takes any text without control bytes, the tab
/// excepted.
#[verifier::external_body]
fn header_value(text: &str) -> (r: Result<http::HeaderValue, http::header::InvalidHeaderValue>)
    ensures
        match r {
            Ok(value) => header_safe(text@) && header_text(value) == text@,
            Err(_) => !header_safe(text@),
        },
{
    http::HeaderValue::from_str(text)
}

/// `HeaderMap::insert` on the headers of a request: the header of this name
/// then has this value and no other; the other headers and the URL stay. It
/// panics where the name cannot be one of a header, and where the map has
/// reached its largest size, thousands of headers.
#[verifier::external_body]
fn insert_header(request: &mut http::Request<()>, name: &'static str, value: http::HeaderValue)
    requires
        header_name(name@),
        request_header_count(*old(request)) <= 100,
    ensures
        request_header(*final(request), name@) == Some(header_text(value)),
        forall|other: Seq<char>|
            lower(other) != lower(name@) ==> #[trigger] request_header(*final(request), other)
                == request_header(*old(request), other),
        request_uri(*final(request)) == request_uri(*old(request)),
{
    request.headers_mut().insert(name, value);
}

/// The files that a client certificate is read from.
pub struct CertificatePaths {
    pub cert: String,
    pub key: String,
    pub ca: String,
}

/// How the agent shows the portal who it is.
pub enum Credentials {
    /// Dev mode: the id goes into a header, and there is no client certificate.
    DevId(String),
    /// A client certificate.
    Certificate(CertificatePaths),
}

/// Why no connection is attempted.
#[derive(Clone, Copy, PartialEq, Eq, Structural, Debug)]
pub enum DialError {
    InvalidUrl,
    InvalidDevId,
    MissingCertificate,
}

impl DialError {
    /// The words for the error.
    pub fn message(&self) -> (text: &'static str)
        ensures
            text@ == match *self {
                DialError::InvalidUrl => "invalid portal URL"@,
                DialError::InvalidDevId => "invalid dev id"@,
                DialError::MissingCertificate =>
                    "PORTAL_AGENT_CERT/KEY/CA are required (or --dev-server-id for dev mode)"@,
            },
    {
        match self {
            DialError::InvalidUrl => "invalid portal URL",
            DialError::InvalidDevId => "invalid dev id",
            DialError::MissingCertificate =>
                "PORTAL_AGENT_CERT/KEY/CA are required (or --dev-server-id for dev mode)",
        }
    }
}

/// Tells whether all three files of a client certificate are named.
pub open spec fn certificate_configured(config: RunConfig) -> bool {
    config.cert_path is Some && config.key_path is Some && config.ca_path is Some
}

/// Decides how the agent shows the portal who it is: by its dev id where it
/// has one, by its client certificate otherwise.
pub fn credentials(config: &RunConfig) -> (r: Result<Credentials, DialError>)
    ensures
        match r {
            Ok(Credentials::DevId(id)) => config.dev_server_id matches Some(dev_id) && id@
                == dev_id@,
            Ok(Credentials::Certificate(paths)) => {
                &&& config.dev_server_id is None
                &&& certificate_configured(*config)
                &&& paths.cert@ == config.cert_path->0@
                &&& paths.key@ == config.key_path->0@
                &&& paths.ca@ == config.ca_path->0@
            },
            Err(e) => {
                &&& config.dev_server_id is None
                &&& !certificate_configured(*config)
                &&& e == DialError::MissingCertificate
            },
        },
{
    if let Some(id) = &config.dev_server_id {
        return Ok(Credentials::DevId(id.clone()));
    }
    match (&config.cert_path, &config.key_path, &config.ca_path) {
        (Some(cert), Some(key), Some(ca)) => Ok(
            Credentials::Certificate(
                CertificatePaths { cert: cert.clone(), key: key.clone(), ca: ca.clone() },
            ),
        ),
        _ => Err(DialError::MissingCertificate),
    }
}

/// A connection to be made: the request to open it with, and the files of the
/// client certificate to show, unless in dev mode.
pub struct Dial {
    pub request: http::Request<()>,
    pub certificate: Option<CertificatePaths>,
}

/// Prepares a connection to the portal.
pub fn dial(config: &RunConfig) -> (r: Result<Dial, DialError>)
    ensures
        match r {
            Ok(d) => {
                &&& websocket_uri(config.portal_url@) == Some(request_uri(d.request))
                &&& match config.dev_server_id {
                    Some(id) => {
                        &&& header_safe(id@)
                        &&& request_dev_id(d.request) == Some(id@)
                        &&& d.certificate is None
                    },
                    None => {
                        &&& certificate_configured(*config)
                        &&& request_dev_id(d.request) is None
                        &&& d.certificate matches Some(paths) && {
                            &&& paths.cert@ == config.cert_path->0@
                            &&& paths.key@ == config.key_path->0@
                            &&& paths.ca@ == config.ca_path->0@
                        }
                    },
                }
            },
            Err(DialError::InvalidUrl) => websocket_uri(config.portal_url@) is None,
            Err(DialError::InvalidDevId) => {
                &&& websocket_uri(config.portal_url@) is Some
                &&& config.dev_server_id matches Some(id) && !header_safe(id@)
            },
            Err(DialError::MissingCertificate) => {
                &&& websocket_uri(config.portal_url@) is Some
                &&& config.dev_server_id is None
                &&& !certificate_configured(*config)
            },
        },
{
    let mut request = match client_request(config.portal_url.as_str()) {
        Ok(request) => request,
        Err(_) => return Err(DialError::InvalidUrl),
    };
    match credentials(config) {
        Ok(Credentials::DevId(id)) => {
            match header_value(id.as_str()) {
                Ok(value) => {
                    proof {
                        reveal_strlit("X-Dev-Server-Id");
                    }
                    insert_header(&mut request, DEV_ID_HEADER, value)
                },
                Err(_) => return Err(DialError::InvalidDevId),
            }
            Ok(Dial { request, certificate: None })
        },
        Ok(Credentials::Certificate(paths)) => Ok(Dial { request, certificate: Some(paths) }),
        Err(e) => Err(e),
    }
}

/// A client certificate is configured exactly where its three files are named,
/// and the dev id stands under its header.
pub proof fn law_certificate_takes_all_three_files(
    config: RunConfig,
    request: http::Request<()>,
)
    ensures
        certificate_configured(config) <==> (config.cert_path matches Some(_)
            && config.key_path matches Some(_) && config.ca_path matches Some(_)),
        request_dev_id(request) == request_header(request, "X-Dev-Server-Id"@),
{
}

/// A text can be a header's value exactly where none of its bytes is a control
/// byte other than the tab.
pub proof fn law_header_values_hold_no_control_bytes(text: Seq<char>)
    ensures
        header_safe(text) <==> !(exists|i: int|
            0 <= i < encode_utf8(text).len() && ((#[trigger] encode_utf8(text)[i]) == 127
                || encode_utf8(text)[i] < 32) && encode_utf8(text)[i] != 9),
{
    if !header_safe(text) {
        let i = choose|i: int|
            0 <= i < encode_utf8(text).len() && !header_byte(#[trigger] encode_utf8(text)[i]);
        assert(encode_utf8(text)[i] == 127 || encode_utf8(text)[i] < 32);
    }
}

} // verus!
