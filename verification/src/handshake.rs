//! The WebSocket opening handshake: which requests are upgrade requests, and what is
//! answered to them.

use crate::http::{
    all_values, eq_ignore_case, fields_view, find_header, find_headers, first_value,
    header_text, is_field_value, is_visible_text, lemma_visible_text_bytes, lowered, values_view,
    HeaderField, HeaderFieldView, HttpRequest, HttpRequestView, HttpResponse, HttpResponseView,
};
use headers::HeaderMapExt;
use vstd::prelude::*;
use vstd::string::*;
use vstd::utf8::encode_utf8;

verus! {

/// What `headers::Connection::contains` answers, asked for `option`, for a `Connection`
/// header with the given values, or `None` where a value is no legal header value or there
/// is none.
pub uninterp spec fn connection_contains(values: Seq<Seq<u8>>, option: Seq<char>) -> Option<bool>;

/// The `Sec-WebSocket-Accept` value that `headers::SecWebsocketAccept` derives from a
/// `Sec-WebSocket-Key` value, or `None` where the key is no legal header value.
pub uninterp spec fn websocket_accept(key: Seq<u8>) -> Option<Seq<char>>;

/// Whether the first header line named `name` is visible ASCII text that reads, in lower
/// case, `lower_value`.
pub open spec fn value_is(
    headers: Seq<HeaderFieldView>,
    name: Seq<char>,
    lower_value: Seq<char>,
) -> bool {
    first_value(headers, name) matches Some(v) && is_visible_text(v) && lowered(v)
        == encode_utf8(lower_value)
}

/// Whether the `Connection` header lines of a request list the option `Upgrade`.
pub open spec fn connection_asks_upgrade(headers: Seq<HeaderFieldView>) -> bool {
    let values = all_values(headers, "connection"@);
    values.len() > 0 && connection_contains(values, "Upgrade"@) == Some(true)
}

/// Whether a request carries the four headers of a WebSocket upgrade.
pub open spec fn asks_for_upgrade(req: HttpRequestView) -> bool {
    &&& value_is(req.headers, "upgrade"@, "websocket"@)
    &&& value_is(req.headers, "sec-websocket-version"@, "13"@)
    &&& connection_asks_upgrade(req.headers)
    &&& first_value(req.headers, "sec-websocket-key"@) is Some
}

/// The accept value owed to the key of a request.
pub open spec fn accept_of(req: HttpRequestView) -> Option<Seq<char>> {
    match first_value(req.headers, "sec-websocket-key"@) {
        Some(key) => websocket_accept(key),
        None => None,
    }
}

/// Whether the key of a request is a legal header value.
pub open spec fn key_is_legal(req: HttpRequestView) -> bool {
    first_value(req.headers, "sec-websocket-key"@) matches Some(key) && is_field_value(key)
}

/// The answer that grants the upgrade.
pub open spec fn switching_protocols(accept: Seq<char>) -> HttpResponseView {
    HttpResponseView {
        status: 101,
        headers: seq![
            ("upgrade"@, "websocket"@),
            ("sec-websocket-accept"@, accept),
            ("connection"@, "upgrade"@),
        ],
        body: Seq::empty(),
    }
}

/// The answer that refuses the upgrade.
pub open spec fn bad_request() -> HttpResponseView {
    HttpResponseView { status: 400, headers: Seq::empty(), body: Seq::empty() }
}

/// The outcome of the handshake: `Ok` with the `101` answer, or `Err` with the `400` one.
pub open spec fn handshake(req: HttpRequestView) -> Result<HttpResponseView, HttpResponseView> {
    if asks_for_upgrade(req) && accept_of(req) is Some {
        Ok(switching_protocols(accept_of(req)->Some_0))
    } else {
        Err(bad_request())
    }
}

/// Builds a `Connection` header from `values` with `HeaderMap::append`, reads it back with
/// `HeaderMapExt::typed_get` and asks `headers::Connection::contains` for `option`.
/// `None` stands for a value that `HeaderValue::from_bytes` refuses, or for no values.
#[verifier::external_body]
fn connection_lists(values: &Vec<Vec<u8>>, option: &str) -> (found: Option<bool>)
    ensures
        found == connection_contains(values_view(values@), option@),
{
    let mut map = hyper::HeaderMap::new();
    for value in values.iter() {
        map.append(hyper::header::CONNECTION, hyper::header::HeaderValue::from_bytes(value).ok()?);
    }
    Some(map.typed_get::<headers::Connection>()?.contains(option))
}

/// Reads `key` as a `headers::SecWebsocketKey`, turns it into a
/// `headers::SecWebsocketAccept` and gives that header's value as text.
/// `None` stands for a key that `HeaderValue::from_bytes` refuses, which it does for a
/// control character other than the tab and for nothing else.
#[verifier::external_body]
fn accept_for_key(key: &Vec<u8>) -> (accept: Option<String>)
    ensures
        match accept {
            Some(a) => websocket_accept(key@) == Some(a@),
            None => websocket_accept(key@) is None,
        },
        accept is Some <==> is_field_value(key@),
{
    let mut request = hyper::HeaderMap::new();
    request.insert(
        hyper::header::SEC_WEBSOCKET_KEY,
        hyper::header::HeaderValue::from_bytes(key).ok()?,
    );
    let key = request.typed_get::<headers::SecWebsocketKey>()?;
    let mut response = hyper::HeaderMap::new();
    response.typed_insert(headers::SecWebsocketAccept::from(key));
    Some(response.get(hyper::header::SEC_WEBSOCKET_ACCEPT)?.to_str().ok()?.to_string())
}

/// Whether the first header line named `name` is visible ASCII text that reads, in lower
/// case, `value`. The name is found whatever its letter case; a `value` with an upper-case
/// letter matches nothing.
pub fn header_matches(headers: &Vec<HeaderField>, name: &str, value: &str) -> (same: bool)
    ensures
        same == value_is(fields_view(headers@), name@, value@),
{
    match find_header(headers, name) {
        Some(v) => match header_text(v) {
            Some(text) => {
                proof {
                    lemma_visible_text_bytes(v@);
                }
                eq_ignore_case(text.as_str().as_bytes(), value.as_bytes())
            },
            None => false,
        },
        None => false,
    }
}

/// The answer of the handshake once the headers are judged: the upgrade is granted where
/// no header is at fault and an accept value could be derived.
pub fn handshake_response(header_error: bool, accept: Option<String>) -> (answer: Result<
    HttpResponse,
    HttpResponse,
>)
    ensures
        match answer {
            Ok(resp) => !header_error && accept is Some && resp@ == switching_protocols(
                accept->Some_0@,
            ),
            Err(resp) => (header_error || accept is None) && resp@ == bad_request(),
        },
{
    if !header_error {
        if let Some(value) = accept {
            let mut headers: Vec<(String, String)> = Vec::new();
            headers.push((String::from_str("upgrade"), String::from_str("websocket")));
            headers.push((String::from_str("sec-websocket-accept"), value));
            headers.push((String::from_str("connection"), String::from_str("upgrade")));
            let resp = HttpResponse { status: 101, headers, body: String::new() };
            assert(resp@.headers =~= switching_protocols(value@).headers);
            return Ok(resp);
        }
    }
    let resp = HttpResponse { status: 400, headers: Vec::new(), body: String::new() };
    assert(resp@.headers =~= bad_request().headers);
    Err(resp)
}

/// Judges a request as a WebSocket upgrade request and builds the answer to it. The
/// upgrade is granted exactly where the request carries the four headers and its key is a
/// legal header value.
pub fn upgrade_connection(req: &HttpRequest) -> (answer: Result<HttpResponse, HttpResponse>)
    ensures
        match answer {
            Ok(resp) => handshake(req@) == Ok::<HttpResponseView, HttpResponseView>(resp@),
            Err(resp) => handshake(req@) == Err::<HttpResponseView, HttpResponseView>(resp@),
        },
        answer is Ok <==> asks_for_upgrade(req@) && key_is_legal(req@),
{
    let mut header_error = false;
    if !header_matches(&req.headers, "upgrade", "websocket") {
        header_error = true;
    }
    if !header_matches(&req.headers, "sec-websocket-version", "13") {
        header_error = true;
    }
    let connection = find_headers(&req.headers, "connection");
    let listed = if connection.len() > 0 {
        match connection_lists(&connection, "Upgrade") {
            Some(found) => found,
            None => false,
        }
    } else {
        false
    };
    if !listed {
        header_error = true;
    }
    let accept = match find_header(&req.headers, "sec-websocket-key") {
        Some(key) => accept_for_key(key),
        None => {
            header_error = true;
            None
        },
    };
    handshake_response(header_error, accept)
}

} // verus!
