//! The header rules of outbound HTTP: what is stripped from a request and
//! from a response, how a client certificate is taken from a header, and
//! how a failure is reported.

use vstd::prelude::*;
use vstd::multiset::Multiset;
use vstd::string::StringExecFns;
use crate::host::{Backend, ConfigError, EnvView, Environment, FromEnv};
use crate::wire::bytes_view;

verus! {

/// `http::HeaderMap`, the headers of a request or a response.
#[verifier::external_type_specification]
#[verifier::external_body]
#[verifier::reject_recursive_types(T)]
pub struct ExHttpHeaderMap<T>(http::HeaderMap<T>);

/// `http::HeaderValue`, the value of one header.
#[verifier::external_type_specification]
#[verifier::external_body]
pub struct ExHttpHeaderValue(http::HeaderValue);

/// The entries of a header map: each a name, in lower case as the map keeps
/// it, and the bytes of one value. A name with several values has several
/// entries.
pub uninterp spec fn header_entries(map: http::HeaderMap<http::HeaderValue>) -> Multiset<
    (Seq<char>, Seq<u8>),
>;

/// The bytes that `base64ct` decodes from a text in standard padded Base64,
/// or the words in which it reports why the text is no such encoding.
pub uninterp spec fn base64_decoded(text: Seq<char>) -> Result<Seq<u8>, Seq<char>>;

/// Whether `name` holds no upper-case letter of ASCII.
pub open spec fn is_lower(name: Seq<char>) -> bool {
    forall|i: int| 0 <= i < name.len() ==> !('A' <= #[trigger] name[i] <= 'Z')
}

/// Whether a header map holds an entry called `name`.
pub open spec fn has_header(entries: Multiset<(Seq<char>, Seq<u8>)>, name: Seq<char>) -> bool {
    exists|e: (Seq<char>, Seq<u8>)| #[trigger] entries.count(e) > 0 && e.0 == name
}

/// The bytes of a text of ASCII characters.
pub open spec fn ascii_bytes(text: Seq<char>) -> Seq<u8> {
    Seq::new(text.len(), |i: int| text[i] as u8)
}

/// Whether a byte is visible ASCII: a printable character or a tab.
pub open spec fn is_visible(b: u8) -> bool {
    32 <= b < 127 || b == 9
}

/// Whether every byte of a header value is visible ASCII.
pub open spec fn visible_bytes(bytes: Seq<u8>) -> bool {
    forall|i: int| 0 <= i < bytes.len() ==> is_visible(#[trigger] bytes[i])
}

/// Whether every character of a text is visible ASCII.
pub open spec fn visible_text(text: Seq<char>) -> bool {
    forall|i: int| 0 <= i < text.len() ==> is_visible_char(#[trigger] text[i])
}

/// Whether a character is visible ASCII: a printable character or a tab.
pub open spec fn is_visible_char(c: char) -> bool {
    ' ' <= c <= '~' || c == '\t'
}

/// Whether the header `name` has the visible text `text` as its value, and
/// no other value.
pub open spec fn sole_text(
    entries: Multiset<(Seq<char>, Seq<u8>)>,
    name: Seq<char>,
    text: Seq<char>,
) -> bool {
    &&& visible_text(text)
    &&& entries.count((name, ascii_bytes(text))) > 0
    &&& forall|e: (Seq<char>, Seq<u8>)|
        #[trigger] entries.count(e) > 0 && e.0 == name ==> e.1 == ascii_bytes(text)
}

/// What taking a header out of a map found.
#[derive(Debug, Clone, PartialEq, Eq)]
pub enum HeaderText {
    /// The map held no such header.
    Absent,
    /// The value of the header that came out, which is visible ASCII.
    Text(String),
    /// The value of the header that came out is no visible ASCII; the
    /// words are those in which `http` says so.
    Opaque(String),
}

/// Calls `http::HeaderMap::remove` with a name in lower case: every entry of
/// that name leaves the map, the others stay. `true` comes back where there
/// was one.
#[verifier::external_body]
fn remove_header(map: &mut http::HeaderMap<http::HeaderValue>, name: &str) -> (found: bool)
    requires
        is_lower(name@),
    ensures
        forall|e: (Seq<char>, Seq<u8>)|
            #[trigger] header_entries(*final(map)).count(e) == if e.0 == name@ {
                0
            } else {
                header_entries(*old(map)).count(e)
            },
        found == has_header(header_entries(*old(map)), name@),
{
    map.remove(name).is_some()
}

/// Whether `taken` can be what taking the header `name` out of a map with
/// these entries finds: nothing exactly when there is no such header; a
/// text only where it is visible ASCII and the value of such a header; and
/// no text only where such a header has a value that is not visible ASCII.
/// Which value of a header with several comes out is left open.
pub open spec fn can_take(
    entries: Multiset<(Seq<char>, Seq<u8>)>,
    name: Seq<char>,
    taken: HeaderText,
) -> bool {
    &&& taken is Absent <==> !has_header(entries, name)
    &&& taken matches HeaderText::Text(text) ==> visible_text(text@) && entries.count(
        (name, ascii_bytes(text@)),
    ) > 0
    &&& taken is Opaque ==> exists|e: (Seq<char>, Seq<u8>)|
        #[trigger] entries.count(e) > 0 && e.0 == name && !visible_bytes(e.1)
}

/// Calls `http::HeaderMap::remove` with a name in lower case and
/// `http::HeaderValue::to_str` on the value that comes out: every entry of
/// that name leaves the map, and one of its values is handed back, as text
/// exactly when each of its bytes is visible ASCII, else with the words of
/// the error of `to_str`, of which the contract says nothing.
#[verifier::external_body]
fn take_header_text(map: &mut http::HeaderMap<http::HeaderValue>, name: &str) -> (r: HeaderText)
    requires
        is_lower(name@),
    ensures
        forall|e: (Seq<char>, Seq<u8>)|
            #[trigger] header_entries(*final(map)).count(e) == if e.0 == name@ {
                0
            } else {
                header_entries(*old(map)).count(e)
            },
        can_take(header_entries(*old(map)), name@, r),
{
    match map.remove(name) {
        None => HeaderText::Absent,
        Some(value) => match value.to_str() {
            Ok(text) => HeaderText::Text(text.to_string()),
            Err(e) => HeaderText::Opaque(e.to_string()),
        },
    }
}

/// Calls `base64ct::Base64::decode_vec`, and `to_string` on its error.
/// What comes back depends on the text alone: the contract names the bytes,
/// or the words of the error.
#[verifier::external_body]
fn base64_decode(text: &str) -> (r: Result<Vec<u8>, String>)
    ensures
        match r {
            Ok(bytes) => base64_decoded(text@) == Ok::<Seq<u8>, Seq<char>>(bytes@),
            Err(words) => base64_decoded(text@) == Err::<Seq<u8>, Seq<char>>(words@),
        },
{
    match <base64ct::Base64 as base64ct::Encoding>::decode_vec(text) {
        Ok(bytes) => Ok(bytes),
        Err(e) => Err(e.to_string()),
    }
}

/// Whether a header may not be handed to a guest: the hop-by-hop headers
/// `connection`, `host`, `proxy-authenticate`, `proxy-authorization`,
/// `transfer-encoding`, `upgrade`, `keep-alive`, `proxy-connection` and
/// `http2-settings`.
pub open spec fn is_forbidden(name: Seq<char>) -> bool {
    name == "connection"@ || name == "host"@ || name == "proxy-authenticate"@ || name
        == "proxy-authorization"@ || name == "transfer-encoding"@ || name == "upgrade"@ || name
        == "keep-alive"@ || name == "proxy-connection"@ || name == "http2-settings"@
}

/// The names of the forbidden headers are in lower case.
proof fn lemma_forbidden_lower()
    ensures
        is_lower("connection"@),
        is_lower("host"@),
        is_lower("proxy-authenticate"@),
        is_lower("proxy-authorization"@),
        is_lower("transfer-encoding"@),
        is_lower("upgrade"@),
        is_lower("keep-alive"@),
        is_lower("proxy-connection"@),
        is_lower("http2-settings"@),
        is_lower("client-cert"@),
{
    reveal_strlit("connection");
    reveal_strlit("host");
    reveal_strlit("proxy-authenticate");
    reveal_strlit("proxy-authorization");
    reveal_strlit("transfer-encoding");
    reveal_strlit("upgrade");
    reveal_strlit("keep-alive");
    reveal_strlit("proxy-connection");
    reveal_strlit("http2-settings");
    reveal_strlit("client-cert");
}

/// The names of the forbidden headers.
#[verifier::rlimit(40)]
pub fn forbidden_headers() -> (r: Vec<&'static str>)
    ensures
        r@.len() == 9,
        forall|name: Seq<char>|
            is_forbidden(name) <==> exists|i: int| 0 <= i < r@.len() && (#[trigger] r@[i])@ == name,
{
    let mut r: Vec<&'static str> = Vec::new();
    r.push("connection");
    r.push("host");
    r.push("proxy-authenticate");
    r.push("proxy-authorization");
    r.push("transfer-encoding");
    r.push("upgrade");
    r.push("keep-alive");
    r.push("proxy-connection");
    r.push("http2-settings");
    proof {
        assert forall|name: Seq<char>| is_forbidden(name) implies exists|i: int|
            0 <= i < r@.len() && (#[trigger] r@[i])@ == name by {
            if name == "connection"@ {
                assert(r@[0]@ == name);
            } else if name == "host"@ {
                assert(r@[1]@ == name);
            } else if name == "proxy-authenticate"@ {
                assert(r@[2]@ == name);
            } else if name == "proxy-authorization"@ {
                assert(r@[3]@ == name);
            } else if name == "transfer-encoding"@ {
                assert(r@[4]@ == name);
            } else if name == "upgrade"@ {
                assert(r@[5]@ == name);
            } else if name == "keep-alive"@ {
                assert(r@[6]@ == name);
            } else if name == "proxy-connection"@ {
                assert(r@[7]@ == name);
            } else {
                assert(r@[8]@ == name);
            }
        }
    }
    r
}

/// Removes the forbidden headers from the headers of a response. Every
/// other entry stays as it is.
#[verifier::rlimit(40)]
pub fn strip_forbidden(headers: &mut http::HeaderMap<http::HeaderValue>)
    ensures
        forall|e: (Seq<char>, Seq<u8>)|
            #[trigger] header_entries(*final(headers)).count(e) == if is_forbidden(e.0) {
                0
            } else {
                header_entries(*old(headers)).count(e)
            },
{
    proof {
        lemma_forbidden_lower();
    }
    remove_header(headers, "connection");
    remove_header(headers, "host");
    remove_header(headers, "proxy-authenticate");
    remove_header(headers, "proxy-authorization");
    remove_header(headers, "transfer-encoding");
    remove_header(headers, "upgrade");
    remove_header(headers, "keep-alive");
    remove_header(headers, "proxy-connection");
    remove_header(headers, "http2-settings");
}

/// A failure of an outbound request, as it is reported to the guest.
#[derive(Debug, Clone, PartialEq, Eq)]
pub enum ErrorCode {
    ConnectionTimeout,
    ConnectionRefused,
    HttpRequestUriInvalid,
    InternalError(Option<String>),
}

/// What an [`ErrorCode`] holds.
pub enum ErrorCodeView {
    ConnectionTimeout,
    ConnectionRefused,
    HttpRequestUriInvalid,
    InternalError(Option<Seq<char>>),
}

impl View for ErrorCode {
    type V = ErrorCodeView;

    open spec fn view(&self) -> ErrorCodeView {
        match *self {
            ErrorCode::ConnectionTimeout => ErrorCodeView::ConnectionTimeout,
            ErrorCode::ConnectionRefused => ErrorCodeView::ConnectionRefused,
            ErrorCode::HttpRequestUriInvalid => ErrorCodeView::HttpRequestUriInvalid,
            ErrorCode::InternalError(detail) => ErrorCodeView::InternalError(
                crate::wire::text_view(detail),
            ),
        }
    }
}

/// An internal error with its detail.
pub fn internal_error(detail: &str) -> (r: ErrorCode)
    ensures
        r@ == ErrorCodeView::InternalError(Some(detail@)),
{
    ErrorCode::InternalError(Some(String::from_str(detail)))
}

/// What the client says of a request that failed.
#[derive(Debug, Clone, PartialEq, Eq)]
pub struct FetchFailure {
    /// The request ran into a timeout.
    pub timeout: bool,
    /// No connection could be made: refused, no address, no socket.
    pub connect: bool,
    /// The request itself was not valid.
    pub request: bool,
    /// The failure in words.
    pub detail: String,
}

/// The code of a failed request: a timeout before a failed connection,
/// that before an invalid request, and an internal error with the detail
/// for anything else.
pub open spec fn failure_code(
    timeout: bool,
    connect: bool,
    request: bool,
    detail: Seq<char>,
) -> ErrorCodeView {
    if timeout {
        ErrorCodeView::ConnectionTimeout
    } else if connect {
        ErrorCodeView::ConnectionRefused
    } else if request {
        ErrorCodeView::HttpRequestUriInvalid
    } else {
        ErrorCodeView::InternalError(Some(detail))
    }
}

/// The code under which a failed request is reported.
pub fn reqwest_error(e: FetchFailure) -> (r: ErrorCode)
    ensures
        r@ == failure_code(e.timeout, e.connect, e.request, e.detail@),
{
    if e.timeout {
        ErrorCode::ConnectionTimeout
    } else if e.connect {
        ErrorCode::ConnectionRefused
    } else if e.request {
        ErrorCode::HttpRequestUriInvalid
    } else {
        ErrorCode::InternalError(Some(e.detail))
    }
}

/// What a certificate header with the text `text` leads to: the bytes that
/// the text encodes, or an internal error with the decoder's words on why
/// it encodes none.
pub open spec fn decoded_outcome(text: Seq<char>, r: Result<Option<Vec<u8>>, ErrorCode>) -> bool {
    match base64_decoded(text) {
        Ok(bytes) => r is Ok && bytes_view(r->Ok_0) == Some(bytes),
        Err(words) => r is Err && r->Err_0@ == ErrorCodeView::InternalError(Some(words)),
    }
}

/// What the certificate header of a request leads to: no certificate
/// where there is no header, what its text decodes to where it has one,
/// and an internal error with the words that came with it where its value
/// is no text.
pub open spec fn certificate_outcome(taken: HeaderText, r: Result<Option<Vec<u8>>, ErrorCode>) -> bool {
    match taken {
        HeaderText::Absent => r is Ok && r->Ok_0 is None,
        HeaderText::Text(text) => decoded_outcome(text@, r),
        HeaderText::Opaque(words) => r is Err && r->Err_0@ == ErrorCodeView::InternalError(
            Some(words@),
        ),
    }
}

/// Decodes the certificate that was taken from a header.
pub fn decode_certificate(taken: HeaderText) -> (r: Result<Option<Vec<u8>>, ErrorCode>)
    ensures
        certificate_outcome(taken, r),
{
    match taken {
        HeaderText::Absent => Ok(None),
        HeaderText::Text(text) => match base64_decode(text.as_str()) {
            Ok(bytes) => Ok(Some(bytes)),
            Err(words) => Err(ErrorCode::InternalError(Some(words))),
        },
        HeaderText::Opaque(words) => Err(ErrorCode::InternalError(Some(words))),
    }
}

/// Texts of visible ASCII with the same bytes are the same text.
pub proof fn lemma_visible_text_by_bytes(a: Seq<char>, b: Seq<char>)
    requires
        visible_text(a),
        visible_text(b),
        ascii_bytes(a) == ascii_bytes(b),
    ensures
        a == b,
{
    assert(a.len() == ascii_bytes(a).len());
    assert(b.len() == ascii_bytes(b).len());
    assert forall|i: int| 0 <= i < a.len() implies a[i] == b[i] by {
        assert(is_visible_char(a[i]) && is_visible_char(b[i]));
        assert(ascii_bytes(a)[i] == a[i] as u8);
        assert(ascii_bytes(b)[i] == b[i] as u8);
    }
    assert(a =~= b);
}

/// The bytes of a text of visible ASCII are visible ASCII.
pub proof fn lemma_visible_bytes(text: Seq<char>)
    requires
        visible_text(text),
    ensures
        visible_bytes(ascii_bytes(text)),
{
    assert forall|i: int| 0 <= i < ascii_bytes(text).len() implies is_visible(
        #[trigger] ascii_bytes(text)[i],
    ) by {
        assert(is_visible_char(text[i]));
    }
}

/// Prepares the headers of a request for the network: the `client-cert`
/// header is taken out and decoded, and the `host` header is removed.
///
/// Without a `client-cert` header there is no certificate. Where the header
/// has one value, of visible ASCII, the result is what that text decodes
/// to: the certificate, or an internal error that says why the text is no
/// Base64. A value that is not visible ASCII is an internal error. After an
/// error the `client-cert` header is gone too; the `host` header is not.
#[verifier::rlimit(40)]
pub fn prepare_request(headers: &mut http::HeaderMap<http::HeaderValue>) -> (r: Result<
    Option<Vec<u8>>,
    ErrorCode,
>)
    ensures
        forall|e: (Seq<char>, Seq<u8>)|
            #[trigger] header_entries(*final(headers)).count(e) == if e.0 == "client-cert"@ || (r
                is Ok && e.0 == "host"@) {
                0
            } else {
                header_entries(*old(headers)).count(e)
            },
        !has_header(header_entries(*old(headers)), "client-cert"@) ==> r is Ok && r->Ok_0 is None,
        forall|text: Seq<char>| #[trigger]
            sole_text(header_entries(*old(headers)), "client-cert"@, text) ==> decoded_outcome(
                text,
                r,
            ),
        exists|taken: HeaderText|
            can_take(header_entries(*old(headers)), "client-cert"@, taken)
                && #[trigger] certificate_outcome(taken, r),
{
    proof {
        lemma_forbidden_lower();
    }
    let ghost entries = header_entries(*headers);
    let taken = take_header_text(headers, "client-cert");
    let ghost found = taken;
    let r = match decode_certificate(taken) {
        Ok(certificate) => {
            remove_header(headers, "host");
            proof {
                reveal_strlit("host");
                reveal_strlit("client-cert");
                assert("host"@ != "client-cert"@) by {
                    assert("host"@.len() != "client-cert"@.len());
                }
            }
            Ok(certificate)
        },
        Err(e) => Err(e),
    };
    proof {
        assert(certificate_outcome(found, r));
        assert forall|text: Seq<char>| #[trigger]
            sole_text(entries, "client-cert"@, text) implies decoded_outcome(text, r) by {
            lemma_visible_bytes(text);
            assert(has_header(entries, "client-cert"@)) by {
                assert(entries.count(("client-cert"@, ascii_bytes(text))) > 0);
            }
            match found {
                HeaderText::Text(got) => {
                    lemma_visible_text_by_bytes(got@, text);
                },
                _ => {},
            }
        }
    }
    r
}

/// How the HTTP backend is reached.
#[derive(Debug, Clone, PartialEq, Eq)]
pub struct ConnectOptions {
    /// The address of the backend.
    pub addr: String,
}

impl FromEnv for ConnectOptions {
    /// The address is `HTTP_ADDR`, or `http://localhost:8080` without it.
    open spec fn loaded(env: EnvView, r: Result<ConnectOptions, ConfigError>) -> bool {
        r is Ok && r->Ok_0.addr@ == crate::host::setting_or(env, "HTTP_ADDR"@, "http://localhost:8080"@)
    }

    fn from_env(env: &Environment) -> (r: Result<ConnectOptions, ConfigError>) {
        Ok(ConnectOptions { addr: env.get_or("HTTP_ADDR", "http://localhost:8080") })
    }
}

/// The default backend of the HTTP capability. It keeps no state.
#[derive(Debug, Clone, Copy, PartialEq, Eq, Structural)]
pub struct HttpDefault;

impl Backend for HttpDefault {
    type ConnectOptions = ConnectOptions;

    open spec fn connected(options: ConnectOptions, r: Result<HttpDefault, ConfigError>) -> bool {
        r == Ok::<HttpDefault, ConfigError>(HttpDefault)
    }

    fn connect_with(options: ConnectOptions) -> (r: Result<HttpDefault, ConfigError>) {
        Ok(HttpDefault)
    }
}

} // verus!
