//! HTTP requests and responses as plain values, and the checks that the `http` crate
//! makes on them.

use crate::json::pairs_view;
use vstd::prelude::*;
use vstd::utf8::{encode_utf8, is_ascii_chars, is_ascii_chars_encode_utf8};

verus! {

/// One header line of a request: the name as received and the raw value.
#[derive(Debug, Clone, PartialEq, Eq)]
pub struct HeaderField {
    pub name: String,
    pub value: Vec<u8>,
}

/// What the gateway reads of an inbound HTTP request.
#[derive(Debug, Clone, PartialEq, Eq)]
pub struct HttpRequest {
    pub method: String,
    /// The address of the client, as text, taken from the accepted connection.
    pub remote: String,
    pub path: String,
    /// The query part of the request target, without the question mark.
    pub query: Option<String>,
    pub headers: Vec<HeaderField>,
}

/// What the gateway answers: a status, header lines in order, and a body.
#[derive(Debug, Clone, PartialEq, Eq)]
pub struct HttpResponse {
    pub status: u16,
    pub headers: Vec<(String, String)>,
    pub body: String,
}

pub struct HeaderFieldView {
    pub name: Seq<char>,
    pub value: Seq<u8>,
}

pub struct HttpRequestView {
    pub method: Seq<char>,
    pub remote: Seq<char>,
    pub path: Seq<char>,
    pub query: Option<Seq<char>>,
    pub headers: Seq<HeaderFieldView>,
}

pub struct HttpResponseView {
    pub status: u16,
    pub headers: Seq<(Seq<char>, Seq<char>)>,
    pub body: Seq<char>,
}

impl View for HeaderField {
    type V = HeaderFieldView;

    open spec fn view(&self) -> HeaderFieldView {
        HeaderFieldView { name: self.name@, value: self.value@ }
    }
}

/// The views of a list of header lines.
pub open spec fn fields_view(fields: Seq<HeaderField>) -> Seq<HeaderFieldView> {
    Seq::new(fields.len(), |i: int| fields[i]@)
}

/// The views of a list of byte strings.
pub open spec fn values_view(values: Seq<Vec<u8>>) -> Seq<Seq<u8>> {
    Seq::new(values.len(), |i: int| values[i]@)
}

/// The view of a string that may be absent.
pub open spec fn optional_text(text: Option<String>) -> Option<Seq<char>> {
    match text {
        Some(t) => Some(t@),
        None => None,
    }
}

impl View for HttpRequest {
    type V = HttpRequestView;

    open spec fn view(&self) -> HttpRequestView {
        HttpRequestView {
            method: self.method@,
            remote: self.remote@,
            path: self.path@,
            query: optional_text(self.query),
            headers: fields_view(self.headers@),
        }
    }
}

impl View for HttpResponse {
    type V = HttpResponseView;

    open spec fn view(&self) -> HttpResponseView {
        HttpResponseView {
            status: self.status,
            headers: pairs_view(self.headers@),
            body: self.body@,
        }
    }
}

/// A byte with an upper-case ASCII letter turned into its lower-case one.
pub open spec fn lower(b: u8) -> u8 {
    if 65 <= b <= 90 {
        (b + 32) as u8
    } else {
        b
    }
}

/// `bytes` with every upper-case ASCII letter turned into its lower-case one.
pub open spec fn lowered(bytes: Seq<u8>) -> Seq<u8> {
    Seq::new(bytes.len(), |i: int| lower(bytes[i]))
}

/// Whether two header names are the same name, ASCII letter case aside.
pub open spec fn names_match(name: Seq<char>, asked: Seq<char>) -> bool {
    lowered(encode_utf8(name)) == lowered(encode_utf8(asked))
}

/// The value of the first header line named `name`, ASCII letter case aside.
pub open spec fn first_value(headers: Seq<HeaderFieldView>, name: Seq<char>) -> Option<Seq<u8>>
    decreases headers.len(),
{
    if headers.len() == 0 {
        None
    } else if names_match(headers[0].name, name) {
        Some(headers[0].value)
    } else {
        first_value(headers.drop_first(), name)
    }
}

/// The values of all header lines named `name`, ASCII letter case aside, in order.
pub open spec fn all_values(headers: Seq<HeaderFieldView>, name: Seq<char>) -> Seq<Seq<u8>>
    decreases headers.len(),
{
    if headers.len() == 0 {
        Seq::empty()
    } else {
        let rest = all_values(headers.drop_last(), name);
        if names_match(headers.last().name, name) {
            rest.push(headers.last().value)
        } else {
            rest
        }
    }
}

/// A header value that can be read as text: visible ASCII and tabs only.
pub open spec fn is_visible_text(value: Seq<u8>) -> bool {
    forall|i: int| 0 <= i < value.len() ==> 32 <= #[trigger] value[i] < 127 || value[i] == 9
}

/// The characters that ASCII bytes stand for.
pub open spec fn ascii_text(value: Seq<u8>) -> Seq<char> {
    Seq::new(value.len(), |i: int| value[i] as char)
}

/// Bytes that may stand as a header value: no control character but the tab.
pub open spec fn is_field_value(bytes: Seq<u8>) -> bool {
    forall|i: int|
        0 <= i < bytes.len() ==> (32 <= #[trigger] bytes[i] && bytes[i] != 127) || bytes[i] == 9
}

/// A string that may stand as a header value.
pub open spec fn is_header_value(text: Seq<char>) -> bool {
    is_field_value(encode_utf8(text))
}

/// A byte that may stand in a header name: an ASCII letter, a digit, or one of
/// ``! " # $ % & ' * + - . ^ _ ` | ~``.
pub open spec fn is_name_byte(b: u8) -> bool {
    33 <= b <= 39 || b == 42 || b == 43 || b == 45 || b == 46 || 48 <= b <= 57 || 65 <= b <= 90
        || 94 <= b <= 122 || b == 124 || b == 126
}

/// A string that may stand as a header name: 1 to 65535 bytes, each of them a name byte.
pub open spec fn is_header_name(name: Seq<char>) -> bool {
    let bytes = encode_utf8(name);
    1 <= bytes.len() <= 65535 && forall|i: int|
        0 <= i < bytes.len() ==> is_name_byte(#[trigger] bytes[i])
}

/// Visible ASCII bytes are the UTF-8 form of the text they stand for.
pub proof fn lemma_visible_text_bytes(value: Seq<u8>)
    requires
        is_visible_text(value),
    ensures
        encode_utf8(ascii_text(value)) == value,
{
    let text = ascii_text(value);
    assert(is_ascii_chars(text)) by {
        assert forall|i: int| 0 <= i < text.len() implies '\0' <= #[trigger] text[i]
            <= '\u{7f}' by {
            assert(32 <= value[i] < 127 || value[i] == 9);
        }
    }
    is_ascii_chars_encode_utf8(text);
    assert forall|i: int| 0 <= i < value.len() implies encode_utf8(text)[i] == value[i] by {
        assert(32 <= value[i] < 127 || value[i] == 9);
        assert(text[i] as u8 == value[i]);
    }
    assert(encode_utf8(text) =~= value);
}

fn lower_byte(b: u8) -> (r: u8)
    ensures
        r == lower(b),
{
    if 65 <= b && b <= 90 {
        b + 32
    } else {
        b
    }
}

/// Compares `text`, letter case aside, with `lower_text`, which holds no upper-case letter.
pub fn eq_ignore_case(text: &[u8], lower_text: &[u8]) -> (same: bool)
    ensures
        same == (lowered(text@) == lower_text@),
{
    if text.len() != lower_text.len() {
        return false;
    }
    let mut i: usize = 0;
    while i < text.len()
        invariant
            i <= text.len(),
            text.len() == lower_text.len(),
            forall|k: int| 0 <= k < i ==> lower(text[k]) == lower_text[k],
        decreases text.len() - i,
    {
        if lower_byte(text[i]) != lower_text[i] {
            assert(lowered(text@)[i as int] != lower_text@[i as int]);
            return false;
        }
        i += 1;
    }
    assert(lowered(text@) =~= lower_text@);
    true
}

/// Compares two byte strings, ASCII letter case aside.
pub fn same_ignoring_case(left: &[u8], right: &[u8]) -> (same: bool)
    ensures
        same == (lowered(left@) == lowered(right@)),
{
    if left.len() != right.len() {
        assert(lowered(left@).len() != lowered(right@).len());
        return false;
    }
    let mut i: usize = 0;
    while i < left.len()
        invariant
            i <= left.len(),
            left.len() == right.len(),
            forall|k: int| 0 <= k < i ==> lower(left[k]) == lower(right[k]),
        decreases left.len() - i,
    {
        if lower_byte(left[i]) != lower_byte(right[i]) {
            assert(lowered(left@)[i as int] != lowered(right@)[i as int]);
            return false;
        }
        i += 1;
    }
    assert(lowered(left@) =~= lowered(right@));
    true
}

proof fn lemma_first_value_skip(headers: Seq<HeaderFieldView>, name: Seq<char>, n: int)
    requires
        0 <= n <= headers.len(),
        forall|i: int| 0 <= i < n ==> !names_match(#[trigger] headers[i].name, name),
    ensures
        first_value(headers, name) == first_value(headers.skip(n), name),
    decreases n,
{
    if n > 0 {
        assert(!names_match(headers[0].name, name));
        assert(first_value(headers, name) == first_value(headers.drop_first(), name));
        assert forall|i: int| 0 <= i < n - 1 implies !names_match(
            #[trigger] headers.drop_first()[i].name,
            name,
        ) by {
            assert(headers.drop_first()[i] == headers[i + 1]);
        }
        lemma_first_value_skip(headers.drop_first(), name, n - 1);
        assert(headers.drop_first().skip(n - 1) =~= headers.skip(n));
    } else {
        assert(headers.skip(0) =~= headers);
    }
}

/// The value of the first header line named `name`, ASCII letter case aside.
pub fn find_header<'a>(headers: &'a Vec<HeaderField>, name: &str) -> (found: Option<&'a Vec<u8>>)
    ensures
        match found {
            Some(v) => first_value(fields_view(headers@), name@) == Some(v@),
            None => first_value(fields_view(headers@), name@) is None,
        },
{
    let ghost fields = fields_view(headers@);
    let mut i: usize = 0;
    while i < headers.len()
        invariant
            i <= headers.len(),
            fields == fields_view(headers@),
            forall|k: int| 0 <= k < i ==> !names_match(#[trigger] fields[k].name, name@),
        decreases headers.len() - i,
    {
        if same_ignoring_case(headers[i].name.as_str().as_bytes(), name.as_bytes()) {
            proof {
                lemma_first_value_skip(fields, name@, i as int);
                assert(names_match(fields.skip(i as int)[0].name, name@));
            }
            return Some(&headers[i].value);
        }
        i += 1;
    }
    proof {
        lemma_first_value_skip(fields, name@, headers.len() as int);
    }
    None
}

/// The values of all header lines named `name`, ASCII letter case aside, in order.
pub fn find_headers(headers: &Vec<HeaderField>, name: &str) -> (found: Vec<Vec<u8>>)
    ensures
        values_view(found@) == all_values(fields_view(headers@), name@),
{
    let ghost fields = fields_view(headers@);
    let mut found: Vec<Vec<u8>> = Vec::new();
    let mut i: usize = 0;
    assert(fields.take(0) =~= Seq::<HeaderFieldView>::empty());
    assert(values_view(found@) =~= all_values(fields.take(0), name@));
    while i < headers.len()
        invariant
            i <= headers.len(),
            fields == fields_view(headers@),
            values_view(found@) == all_values(fields.take(i as int), name@),
        decreases headers.len() - i,
    {
        let ghost before = values_view(found@);
        assert(fields.take(i + 1).drop_last() =~= fields.take(i as int));
        assert(fields.take(i + 1).last() == fields[i as int]);
        if same_ignoring_case(headers[i].name.as_str().as_bytes(), name.as_bytes()) {
            let value = headers[i].value.clone();
            assert(value@ =~= headers[i as int].value@);
            found.push(value);
            assert(values_view(found@) =~= before.push(headers[i as int].value@));
        }
        i += 1;
    }
    assert(fields.take(headers.len() as int) =~= fields);
    found
}

/// Reads a header value as text with `http::header::HeaderValue::from_bytes` and
/// `HeaderValue::to_str`. The first refuses control characters other than the tab, the
/// second every byte that is not visible ASCII or a tab, and the text is the bytes as they
/// stand.
#[verifier::external_body]
pub(crate) fn header_text(value: &Vec<u8>) -> (text: Option<String>)
    ensures
        match text {
            Some(t) => is_visible_text(value@) && t@ == ascii_text(value@),
            None => !is_visible_text(value@),
        },
{
    hyper::header::HeaderValue::from_bytes(value).ok()?.to_str().ok().map(String::from)
}

/// Asks `http::StatusCode::from_u16` whether `code` is a status code: it takes 100 to 999.
#[verifier::external_body]
pub(crate) fn status_accepted(code: u16) -> (ok: bool)
    ensures
        ok == (100 <= code < 1000),
{
    hyper::StatusCode::from_u16(code).is_ok()
}

/// Asks `http::header::HeaderName::from_bytes` whether it takes `name` as a header name:
/// it takes 1 to 65535 bytes, each with an entry in its table of name characters.
#[verifier::external_body]
pub(crate) fn header_name_ok(name: &str) -> (ok: bool)
    ensures
        ok == is_header_name(name@),
{
    hyper::header::HeaderName::from_bytes(name.as_bytes()).is_ok()
}

/// Asks `http::header::HeaderValue::from_str` whether it takes `value` as a header value:
/// it refuses a string with a byte below 32 other than the tab, or with the byte 127.
#[verifier::external_body]
pub(crate) fn header_value_ok(value: &str) -> (ok: bool)
    ensures
        ok == is_header_value(value@),
{
    hyper::header::HeaderValue::from_str(value).is_ok()
}

} // verus!
