//! The three messages that cross the worker socket, and their JSON form.
//!
//! Each message is a JSON object whose members carry the names of the fields below. A
//! reader ignores members it does not know; a member that is missing, or holds a value of
//! another kind or out of range, makes the whole document unreadable.

use crate::json::{
    json_parse, json_print, lemma_items_view, lemma_member_at, lemma_members_view,
    lemma_object_built, pairs_view,
    parse, print, table_view, texts_view, Json, JsonValue,
};
use vstd::prelude::*;
use vstd::string::*;

verus! {

/// Metadata of a response: whether it is complete or one part of a streamed body.
#[derive(Debug, Clone, PartialEq, Eq)]
pub struct ResponseMeta {
    pub response_type: String,
}

/// What a worker sends back for one request.
#[derive(Debug, Clone, PartialEq, Eq)]
pub struct ASGIResponse {
    pub op: usize,
    pub meta: ResponseMeta,
    pub request_id: usize,
    pub response_type: String,
    pub status: u16,
    /// Header rows in order; a row holds a name, a value, and possibly more.
    pub headers: Vec<Vec<String>>,
    pub body: String,
    pub more_body: bool,
}

/// The first message of a worker: the shard it serves.
#[derive(Debug, Clone, PartialEq, Eq)]
pub struct ShardIdentify {
    pub op: usize,
    pub shard_id: String,
}

/// One HTTP request on its way to a worker.
#[derive(Debug, Clone, PartialEq, Eq)]
pub struct OutGoingRequest {
    pub op: usize,
    pub request_id: usize,
    pub method: String,
    pub remote: String,
    pub path: String,
    /// Header names and values; a name occurs once.
    pub headers: Vec<(String, String)>,
    pub version: String,
    pub body: String,
    pub query: String,
}

pub struct ResponseMetaView {
    pub response_type: Seq<char>,
}

pub struct ResponseView {
    pub op: usize,
    pub meta: ResponseMetaView,
    pub request_id: usize,
    pub response_type: Seq<char>,
    pub status: u16,
    pub headers: Seq<Seq<Seq<char>>>,
    pub body: Seq<char>,
    pub more_body: bool,
}

pub struct IdentifyView {
    pub op: usize,
    pub shard_id: Seq<char>,
}

pub struct RequestView {
    pub op: usize,
    pub request_id: usize,
    pub method: Seq<char>,
    pub remote: Seq<char>,
    pub path: Seq<char>,
    pub headers: Seq<(Seq<char>, Seq<char>)>,
    pub version: Seq<char>,
    pub body: Seq<char>,
    pub query: Seq<char>,
}

impl View for ResponseMeta {
    type V = ResponseMetaView;

    open spec fn view(&self) -> ResponseMetaView {
        ResponseMetaView { response_type: self.response_type@ }
    }
}

impl View for ASGIResponse {
    type V = ResponseView;

    open spec fn view(&self) -> ResponseView {
        ResponseView {
            op: self.op,
            meta: self.meta@,
            request_id: self.request_id,
            response_type: self.response_type@,
            status: self.status,
            headers: table_view(self.headers@),
            body: self.body@,
            more_body: self.more_body,
        }
    }
}

impl View for ShardIdentify {
    type V = IdentifyView;

    open spec fn view(&self) -> IdentifyView {
        IdentifyView { op: self.op, shard_id: self.shard_id@ }
    }
}

impl View for OutGoingRequest {
    type V = RequestView;

    open spec fn view(&self) -> RequestView {
        RequestView {
            op: self.op,
            request_id: self.request_id,
            method: self.method@,
            remote: self.remote@,
            path: self.path@,
            headers: pairs_view(self.headers@),
            version: self.version@,
            body: self.body@,
            query: self.query@,
        }
    }
}

/// No name occurs twice.
pub open spec fn distinct_names(pairs: Seq<(Seq<char>, Seq<char>)>) -> bool {
    forall|i: int, j: int|
        0 <= i < pairs.len() && 0 <= j < pairs.len() && i != j ==> (#[trigger] pairs[i]).0 != (
        #[trigger] pairs[j]).0
}

impl OutGoingRequest {
    /// The headers of a request are a map: no name occurs twice.
    pub open spec fn well_formed(&self) -> bool {
        distinct_names(self@.headers)
    }
}

/// The number held by the member `key` of `doc`.
pub open spec fn number_member(doc: JsonValue, key: Seq<char>) -> Option<u64> {
    match doc.field(key) {
        Some(v) => v.as_number(),
        None => None,
    }
}

/// The text held by the member `key` of `doc`.
pub open spec fn text_member(doc: JsonValue, key: Seq<char>) -> Option<Seq<char>> {
    match doc.field(key) {
        Some(v) => v.as_text(),
        None => None,
    }
}

/// The truth value held by the member `key` of `doc`.
pub open spec fn bool_member(doc: JsonValue, key: Seq<char>) -> Option<bool> {
    match doc.field(key) {
        Some(v) => v.as_bool(),
        None => None,
    }
}

/// The metadata that a document holds.
pub open spec fn decode_meta(doc: JsonValue) -> Option<ResponseMetaView> {
    match text_member(doc, "response_type"@) {
        Some(response_type) => Some(ResponseMetaView { response_type }),
        None => None,
    }
}

/// The response that a document holds.
pub open spec fn decode_response(doc: JsonValue) -> Option<ResponseView> {
    let op = number_member(doc, "op"@);
    let meta = match doc.field("meta"@) {
        Some(m) => decode_meta(m),
        None => None,
    };
    let request_id = number_member(doc, "request_id"@);
    let response_type = text_member(doc, "response_type"@);
    let status = number_member(doc, "status"@);
    let headers = match doc.field("headers"@) {
        Some(h) => h.text_table(),
        None => None,
    };
    let body = text_member(doc, "body"@);
    let more_body = bool_member(doc, "more_body"@);
    if op is Some && op->Some_0 <= usize::MAX && meta is Some && request_id is Some
        && request_id->Some_0 <= usize::MAX && response_type is Some && status is Some
        && status->Some_0 <= u16::MAX && headers is Some && body is Some && more_body is Some {
        Some(
            ResponseView {
                op: op->Some_0 as usize,
                meta: meta->Some_0,
                request_id: request_id->Some_0 as usize,
                response_type: response_type->Some_0,
                status: status->Some_0 as u16,
                headers: headers->Some_0,
                body: body->Some_0,
                more_body: more_body->Some_0,
            },
        )
    } else {
        None
    }
}

/// The identify message that a document holds.
pub open spec fn decode_identify(doc: JsonValue) -> Option<IdentifyView> {
    let op = number_member(doc, "op"@);
    let shard_id = text_member(doc, "shard_id"@);
    if op is Some && op->Some_0 <= usize::MAX && shard_id is Some {
        Some(IdentifyView { op: op->Some_0 as usize, shard_id: shard_id->Some_0 })
    } else {
        None
    }
}

/// The request that a document holds. Its headers must be an object of texts in which no
/// name occurs twice.
pub open spec fn decode_request(doc: JsonValue) -> Option<RequestView> {
    let op = number_member(doc, "op"@);
    let request_id = number_member(doc, "request_id"@);
    let method = text_member(doc, "method"@);
    let remote = text_member(doc, "remote"@);
    let path = text_member(doc, "path"@);
    let headers = match doc.field("headers"@) {
        Some(h) => h.text_members(),
        None => None,
    };
    let version = text_member(doc, "version"@);
    let body = text_member(doc, "body"@);
    let query = text_member(doc, "query"@);
    if op is Some && op->Some_0 <= usize::MAX && request_id is Some && request_id->Some_0
        <= usize::MAX && method is Some && remote is Some && path is Some && headers is Some
        && distinct_names(headers->Some_0) && version is Some && body is Some && query is Some {
        Some(
            RequestView {
                op: op->Some_0 as usize,
                request_id: request_id->Some_0 as usize,
                method: method->Some_0,
                remote: remote->Some_0,
                path: path->Some_0,
                headers: headers->Some_0,
                version: version->Some_0,
                body: body->Some_0,
                query: query->Some_0,
            },
        )
    } else {
        None
    }
}

/// The object whose members are the given texts, in order.
pub open spec fn encode_text_members(pairs: Seq<(Seq<char>, Seq<char>)>) -> JsonValue {
    JsonValue::Object(Seq::new(pairs.len(), |i: int| (pairs[i].0, JsonValue::Text(pairs[i].1))))
}

/// The array whose items are the given texts.
pub open spec fn encode_text_list(texts: Seq<Seq<char>>) -> JsonValue {
    JsonValue::Array(Seq::new(texts.len(), |i: int| JsonValue::Text(texts[i])))
}

/// The array whose items are the given rows, each an array of texts.
pub open spec fn encode_text_table(rows: Seq<Seq<Seq<char>>>) -> JsonValue {
    JsonValue::Array(Seq::new(rows.len(), |i: int| encode_text_list(rows[i])))
}

/// The document that carries the metadata of a response.
pub open spec fn encode_meta(meta: ResponseMetaView) -> JsonValue {
    JsonValue::Object(seq![("response_type"@, JsonValue::Text(meta.response_type))])
}

/// The document that carries a response.
pub open spec fn encode_response(response: ResponseView) -> JsonValue {
    JsonValue::Object(
        seq![
            ("op"@, JsonValue::Number(Some(response.op as u64))),
            ("meta"@, encode_meta(response.meta)),
            ("request_id"@, JsonValue::Number(Some(response.request_id as u64))),
            ("response_type"@, JsonValue::Text(response.response_type)),
            ("status"@, JsonValue::Number(Some(response.status as u64))),
            ("headers"@, encode_text_table(response.headers)),
            ("body"@, JsonValue::Text(response.body)),
            ("more_body"@, JsonValue::Bool(response.more_body)),
        ],
    )
}

/// The document that carries an identify message.
pub open spec fn encode_identify(identify: IdentifyView) -> JsonValue {
    JsonValue::Object(
        seq![
            ("op"@, JsonValue::Number(Some(identify.op as u64))),
            ("shard_id"@, JsonValue::Text(identify.shard_id)),
        ],
    )
}

/// The document that carries a request.
pub open spec fn encode_request(req: RequestView) -> JsonValue {
    JsonValue::Object(
        seq![
            ("op"@, JsonValue::Number(Some(req.op as u64))),
            ("request_id"@, JsonValue::Number(Some(req.request_id as u64))),
            ("method"@, JsonValue::Text(req.method)),
            ("remote"@, JsonValue::Text(req.remote)),
            ("path"@, JsonValue::Text(req.path)),
            ("headers"@, encode_text_members(req.headers)),
            ("version"@, JsonValue::Text(req.version)),
            ("body"@, JsonValue::Text(req.body)),
            ("query"@, JsonValue::Text(req.query)),
        ],
    )
}

/// The response that a text holds: it must be JSON and hold a response.
pub open spec fn response_of_text(text: Seq<char>) -> Option<ResponseView> {
    match json_parse(text) {
        Some(doc) => decode_response(doc),
        None => None,
    }
}

/// The identify message that a text holds.
pub open spec fn identify_of_text(text: Seq<char>) -> Option<IdentifyView> {
    match json_parse(text) {
        Some(doc) => decode_identify(doc),
        None => None,
    }
}

/// The request that a text holds.
pub open spec fn request_of_text(text: Seq<char>) -> Option<RequestView> {
    match json_parse(text) {
        Some(doc) => decode_request(doc),
        None => None,
    }
}

fn number_field(doc: &Json, key: &str) -> (n: Option<u64>)
    ensures
        n == number_member(doc@, key@),
{
    let name = String::from_str(key);
    match doc.field(&name) {
        Some(v) => v.as_number(),
        None => None,
    }
}

fn index_field(doc: &Json, key: &str) -> (n: Option<usize>)
    ensures
        match n {
            Some(i) => number_member(doc@, key@) == Some(i as u64),
            None => !(number_member(doc@, key@) matches Some(v) && v <= usize::MAX),
        },
{
    match number_field(doc, key) {
        Some(v) => if v <= usize::MAX as u64 {
            Some(v as usize)
        } else {
            None
        },
        None => None,
    }
}

fn text_field(doc: &Json, key: &str) -> (text: Option<String>)
    ensures
        match text {
            Some(t) => text_member(doc@, key@) == Some(t@),
            None => text_member(doc@, key@) is None,
        },
{
    let name = String::from_str(key);
    match doc.field(&name) {
        Some(v) => match v.as_text() {
            Some(t) => Some(t.clone()),
            None => None,
        },
        None => None,
    }
}

fn bool_field(doc: &Json, key: &str) -> (b: Option<bool>)
    ensures
        b == bool_member(doc@, key@),
{
    let name = String::from_str(key);
    match doc.field(&name) {
        Some(v) => v.as_bool(),
        None => None,
    }
}

impl ResponseMeta {
    /// The document that carries this metadata.
    pub fn to_json(&self) -> (doc: Json)
        ensures
            doc@ == encode_meta(self@),
            doc@.is_printable(),
    {
        let mut members: Vec<(String, Json)> = Vec::new();
        members.push((String::from_str("response_type"), Json::Text(self.response_type.clone())));
        let doc = Json::Object(members);
        proof {
            lemma_object_built(members@, encode_meta(self@)->Object_0);
        }
        doc
    }

    /// Reads the metadata out of a document.
    pub fn from_json(doc: &Json) -> (meta: Option<ResponseMeta>)
        ensures
            match meta {
                Some(m) => decode_meta(doc@) == Some(m@),
                None => decode_meta(doc@) is None,
            },
    {
        match text_field(doc, "response_type") {
            Some(response_type) => Some(ResponseMeta { response_type }),
            None => None,
        }
    }
}

impl ASGIResponse {
    /// The document that carries this response.
    pub fn to_json(&self) -> (doc: Json)
        ensures
            doc@ == encode_response(self@),
            doc@.is_printable(),
    {
        let mut members: Vec<(String, Json)> = Vec::new();
        members.push((String::from_str("op"), Json::Number(Some(self.op as u64))));
        members.push((String::from_str("meta"), self.meta.to_json()));
        members.push((String::from_str("request_id"), Json::Number(Some(self.request_id as u64))));
        members.push((String::from_str("response_type"), Json::Text(self.response_type.clone())));
        members.push((String::from_str("status"), Json::Number(Some(self.status as u64))));
        members.push((String::from_str("headers"), text_table_json(&self.headers)));
        members.push((String::from_str("body"), Json::Text(self.body.clone())));
        members.push((String::from_str("more_body"), Json::Bool(self.more_body)));
        let doc = Json::Object(members);
        proof {
            lemma_object_built(members@, encode_response(self@)->Object_0);
        }
        doc
    }

    /// The JSON text that carries this response.
    pub fn to_json_text(&self) -> (text: String)
        ensures
            text@ == json_print(encode_response(self@)),
    {
        let doc = self.to_json();
        print(&doc)
    }

    /// Reads a response out of a document.
    pub fn from_json(doc: &Json) -> (response: Option<ASGIResponse>)
        ensures
            match response {
                Some(r) => decode_response(doc@) == Some(r@),
                None => decode_response(doc@) is None,
            },
    {
        let op = match index_field(doc, "op") {
            Some(v) => v,
            None => { return None; },
        };
        let meta = match doc.field(&String::from_str("meta")) {
            Some(m) => match ResponseMeta::from_json(m) {
                Some(meta) => meta,
                None => { return None; },
            },
            None => { return None; },
        };
        let request_id = match index_field(doc, "request_id") {
            Some(v) => v,
            None => { return None; },
        };
        let response_type = match text_field(doc, "response_type") {
            Some(v) => v,
            None => { return None; },
        };
        let status = match number_field(doc, "status") {
            Some(v) => if v <= u16::MAX as u64 {
                v as u16
            } else {
                return None;
            },
            None => { return None; },
        };
        let headers = match doc.field(&String::from_str("headers")) {
            Some(h) => match h.text_table() {
                Some(rows) => rows,
                None => { return None; },
            },
            None => { return None; },
        };
        let body = match text_field(doc, "body") {
            Some(v) => v,
            None => { return None; },
        };
        let more_body = match bool_field(doc, "more_body") {
            Some(v) => v,
            None => { return None; },
        };
        Some(
            ASGIResponse { op, meta, request_id, response_type, status, headers, body, more_body },
        )
    }

    /// Reads a response out of JSON text.
    pub fn from_json_text(text: &str) -> (response: Option<ASGIResponse>)
        ensures
            match response {
                Some(r) => response_of_text(text@) == Some(r@),
                None => response_of_text(text@) is None,
            },
    {
        match parse(text) {
            Some(doc) => ASGIResponse::from_json(&doc),
            None => None,
        }
    }
}

impl ShardIdentify {
    /// The document that carries this message.
    pub fn to_json(&self) -> (doc: Json)
        ensures
            doc@ == encode_identify(self@),
            doc@.is_printable(),
    {
        let mut members: Vec<(String, Json)> = Vec::new();
        members.push((String::from_str("op"), Json::Number(Some(self.op as u64))));
        members.push((String::from_str("shard_id"), Json::Text(self.shard_id.clone())));
        let doc = Json::Object(members);
        proof {
            lemma_object_built(members@, encode_identify(self@)->Object_0);
        }
        doc
    }

    /// The JSON text that carries this message.
    pub fn to_json_text(&self) -> (text: String)
        ensures
            text@ == json_print(encode_identify(self@)),
    {
        let doc = self.to_json();
        print(&doc)
    }

    /// Reads an identify message out of a document.
    pub fn from_json(doc: &Json) -> (identify: Option<ShardIdentify>)
        ensures
            match identify {
                Some(m) => decode_identify(doc@) == Some(m@),
                None => decode_identify(doc@) is None,
            },
    {
        let op = match index_field(doc, "op") {
            Some(v) => v,
            None => { return None; },
        };
        let shard_id = match text_field(doc, "shard_id") {
            Some(v) => v,
            None => { return None; },
        };
        Some(ShardIdentify { op, shard_id })
    }

    /// Reads an identify message out of JSON text.
    pub fn from_json_text(text: &str) -> (identify: Option<ShardIdentify>)
        ensures
            match identify {
                Some(m) => identify_of_text(text@) == Some(m@),
                None => identify_of_text(text@) is None,
            },
    {
        match parse(text) {
            Some(doc) => ShardIdentify::from_json(&doc),
            None => None,
        }
    }
}

fn text_list_json(texts: &Vec<String>) -> (doc: Json)
    ensures
        doc@ == encode_text_list(texts_view(texts@)),
        doc@.is_printable(),
{
    let mut items: Vec<Json> = Vec::new();
    let mut i: usize = 0;
    while i < texts.len()
        invariant
            i <= texts.len(),
            items.len() == i,
            forall|k: int| 0 <= k < i ==> (#[trigger] items[k])@ == JsonValue::Text(texts[k]@),
        decreases texts.len() - i,
    {
        items.push(Json::Text(texts[i].clone()));
        i += 1;
    }
    let doc = Json::Array(items);
    proof {
        lemma_items_view(items@, items@.len());
        let want = encode_text_list(texts_view(texts@));
        assert(doc@->Array_0 =~= want->Array_0);
        assert forall|k: int| 0 <= k < doc@->Array_0.len() implies (
        #[trigger] doc@->Array_0[k]).is_printable() by {
            assert(doc@->Array_0[k] == JsonValue::Text(texts[k]@));
        }
    }
    doc
}

fn text_table_json(rows: &Vec<Vec<String>>) -> (doc: Json)
    ensures
        doc@ == encode_text_table(table_view(rows@)),
        doc@.is_printable(),
{
    let mut items: Vec<Json> = Vec::new();
    let mut i: usize = 0;
    while i < rows.len()
        invariant
            i <= rows.len(),
            items.len() == i,
            forall|k: int|
                0 <= k < i ==> (#[trigger] items[k])@ == encode_text_list(texts_view(rows[k]@))
                    && items[k]@.is_printable(),
        decreases rows.len() - i,
    {
        items.push(text_list_json(&rows[i]));
        i += 1;
    }
    let doc = Json::Array(items);
    proof {
        lemma_items_view(items@, items@.len());
        let want = encode_text_table(table_view(rows@));
        assert(doc@->Array_0 =~= want->Array_0);
        assert forall|k: int| 0 <= k < doc@->Array_0.len() implies (
        #[trigger] doc@->Array_0[k]).is_printable() by {
            assert(doc@->Array_0[k] == items[k]@);
        }
    }
    doc
}

/// Whether no name occurs twice in `pairs`.
pub fn names_are_distinct(pairs: &Vec<(String, String)>) -> (distinct: bool)
    ensures
        distinct == distinct_names(pairs_view(pairs@)),
{
    let ghost views = pairs_view(pairs@);
    let mut i: usize = 0;
    while i < pairs.len()
        invariant
            i <= pairs.len(),
            views == pairs_view(pairs@),
            forall|a: int, b: int|
                0 <= a < i && 0 <= b < i && a != b ==> (#[trigger] views[a]).0 != (
                #[trigger] views[b]).0,
        decreases pairs.len() - i,
    {
        let mut j: usize = 0;
        while j < i
            invariant
                j <= i,
                i < pairs.len(),
                views == pairs_view(pairs@),
                forall|b: int| 0 <= b < j ==> (#[trigger] views[b]).0 != views[i as int].0,
            decreases i - j,
        {
            if pairs[j].0 == pairs[i].0 {
                assert(views[j as int].0 == views[i as int].0);
                return false;
            }
            j += 1;
        }
        i += 1;
    }
    true
}

fn text_members_json(pairs: &Vec<(String, String)>) -> (doc: Json)
    ensures
        doc@ == encode_text_members(pairs_view(pairs@)),
        doc@.is_printable(),
{
    let mut members: Vec<(String, Json)> = Vec::new();
    let mut i: usize = 0;
    while i < pairs.len()
        invariant
            i <= pairs.len(),
            members.len() == i,
            forall|k: int|
                0 <= k < i ==> (#[trigger] members[k]).0@ == pairs[k].0@ && members[k].1@
                    == JsonValue::Text(pairs[k].1@),
        decreases pairs.len() - i,
    {
        members.push((pairs[i].0.clone(), Json::Text(pairs[i].1.clone())));
        i += 1;
    }
    let doc = Json::Object(members);
    proof {
        lemma_members_view(members@, members@.len());
        let want = encode_text_members(pairs_view(pairs@));
        assert(doc@->Object_0 =~= want->Object_0);
        assert forall|k: int| 0 <= k < doc@->Object_0.len() implies (
        #[trigger] doc@->Object_0[k]).1.is_printable() by {
            assert(doc@->Object_0[k].1 == JsonValue::Text(pairs[k].1@));
        }
    }
    doc
}

impl OutGoingRequest {
    /// The document that carries this request.
    pub fn to_json(&self) -> (doc: Json)
        ensures
            doc@ == encode_request(self@),
            doc@.is_printable(),
    {
        let mut members: Vec<(String, Json)> = Vec::new();
        members.push((String::from_str("op"), Json::Number(Some(self.op as u64))));
        members.push((String::from_str("request_id"), Json::Number(Some(self.request_id as u64))));
        members.push((String::from_str("method"), Json::Text(self.method.clone())));
        members.push((String::from_str("remote"), Json::Text(self.remote.clone())));
        members.push((String::from_str("path"), Json::Text(self.path.clone())));
        members.push((String::from_str("headers"), text_members_json(&self.headers)));
        members.push((String::from_str("version"), Json::Text(self.version.clone())));
        members.push((String::from_str("body"), Json::Text(self.body.clone())));
        members.push((String::from_str("query"), Json::Text(self.query.clone())));
        let doc = Json::Object(members);
        proof {
            lemma_object_built(members@, encode_request(self@)->Object_0);
        }
        doc
    }

    /// The JSON text that carries this request.
    pub fn to_json_text(&self) -> (text: String)
        ensures
            text@ == json_print(encode_request(self@)),
    {
        let doc = self.to_json();
        print(&doc)
    }

    /// Reads a request out of a document. A document whose headers name a header twice
    /// holds no request.
    pub fn from_json(doc: &Json) -> (request: Option<OutGoingRequest>)
        ensures
            match request {
                Some(r) => decode_request(doc@) == Some(r@) && r.well_formed(),
                None => decode_request(doc@) is None,
            },
    {
        let op = match index_field(doc, "op") {
            Some(v) => v,
            None => { return None; },
        };
        let request_id = match index_field(doc, "request_id") {
            Some(v) => v,
            None => { return None; },
        };
        let method = match text_field(doc, "method") {
            Some(v) => v,
            None => { return None; },
        };
        let remote = match text_field(doc, "remote") {
            Some(v) => v,
            None => { return None; },
        };
        let path = match text_field(doc, "path") {
            Some(v) => v,
            None => { return None; },
        };
        let headers = match doc.field(&String::from_str("headers")) {
            Some(h) => match h.text_members() {
                Some(pairs) => pairs,
                None => { return None; },
            },
            None => { return None; },
        };
        if !names_are_distinct(&headers) {
            return None;
        }
        let version = match text_field(doc, "version") {
            Some(v) => v,
            None => { return None; },
        };
        let body = match text_field(doc, "body") {
            Some(v) => v,
            None => { return None; },
        };
        let query = match text_field(doc, "query") {
            Some(v) => v,
            None => { return None; },
        };
        Some(
            OutGoingRequest { op, request_id, method, remote, path, headers, version, body, query },
        )
    }

    /// Reads a request out of JSON text.
    pub fn from_json_text(text: &str) -> (request: Option<OutGoingRequest>)
        ensures
            match request {
                Some(r) => request_of_text(text@) == Some(r@) && r.well_formed(),
                None => request_of_text(text@) is None,
            },
    {
        match parse(text) {
            Some(doc) => OutGoingRequest::from_json(&doc),
            None => None,
        }
    }
}

/// The nine names of a request's members are pairwise different.
proof fn lemma_request_names()
    ensures
        "op"@ != "request_id"@,
        "method"@ != "op"@ && "method"@ != "request_id"@,
        "remote"@ != "op"@ && "remote"@ != "request_id"@ && "remote"@ != "method"@,
        "path"@ != "op"@ && "path"@ != "request_id"@ && "path"@ != "method"@ && "path"@
            != "remote"@,
        "headers"@ != "op"@ && "headers"@ != "request_id"@ && "headers"@ != "method"@
            && "headers"@ != "remote"@ && "headers"@ != "path"@,
        "version"@ != "op"@ && "version"@ != "request_id"@ && "version"@ != "method"@
            && "version"@ != "remote"@ && "version"@ != "path"@ && "version"@ != "headers"@,
        "body"@ != "op"@ && "body"@ != "request_id"@ && "body"@ != "method"@ && "body"@
            != "remote"@ && "body"@ != "path"@ && "body"@ != "headers"@ && "body"@ != "version"@,
        "query"@ != "op"@ && "query"@ != "request_id"@ && "query"@ != "method"@ && "query"@
            != "remote"@ && "query"@ != "path"@ && "query"@ != "headers"@ && "query"@
            != "version"@ && "query"@ != "body"@,
{
    reveal_strlit("op");
    reveal_strlit("request_id");
    reveal_strlit("method");
    reveal_strlit("remote");
    reveal_strlit("path");
    reveal_strlit("headers");
    reveal_strlit("version");
    reveal_strlit("body");
    reveal_strlit("query");
    assert("op"@.len() == 2 && "request_id"@.len() == 10 && "method"@.len() == 6);
    assert("remote"@.len() == 6 && "path"@.len() == 4 && "headers"@.len() == 7);
    assert("version"@.len() == 7 && "body"@.len() == 4 && "query"@.len() == 5);
    assert("method"@[0] != "remote"@[0]);
    assert("path"@[0] != "body"@[0]);
    assert("headers"@[0] != "version"@[0]);
}

/// A request read back from the document that carries it is the request itself.
pub proof fn lemma_request_round_trip(req: RequestView)
    requires
        distinct_names(req.headers),
    ensures
        decode_request(encode_request(req)) == Some(req),
{
    lemma_request_names();
    let doc = encode_request(req);
    let members = doc->Object_0;
    lemma_member_at(members, "op"@, 0);
    lemma_member_at(members, "request_id"@, 1);
    lemma_member_at(members, "method"@, 2);
    lemma_member_at(members, "remote"@, 3);
    lemma_member_at(members, "path"@, 4);
    lemma_member_at(members, "headers"@, 5);
    lemma_member_at(members, "version"@, 6);
    lemma_member_at(members, "body"@, 7);
    lemma_member_at(members, "query"@, 8);
    let headers = encode_text_members(req.headers);
    assert(headers.text_members() is Some);
    assert(headers.text_members()->Some_0 =~= req.headers);
    assert(decode_request(doc)->Some_0.headers == req.headers);
}

/// The eight names of a response's members are pairwise different.
proof fn lemma_response_names()
    ensures
        "meta"@ != "op"@,
        "request_id"@ != "op"@ && "request_id"@ != "meta"@,
        "response_type"@ != "op"@ && "response_type"@ != "meta"@ && "response_type"@
            != "request_id"@,
        "status"@ != "op"@ && "status"@ != "meta"@ && "status"@ != "request_id"@ && "status"@
            != "response_type"@,
        "headers"@ != "op"@ && "headers"@ != "meta"@ && "headers"@ != "request_id"@
            && "headers"@ != "response_type"@ && "headers"@ != "status"@,
        "body"@ != "op"@ && "body"@ != "meta"@ && "body"@ != "request_id"@ && "body"@
            != "response_type"@ && "body"@ != "status"@ && "body"@ != "headers"@,
        "more_body"@ != "op"@ && "more_body"@ != "meta"@ && "more_body"@ != "request_id"@
            && "more_body"@ != "response_type"@ && "more_body"@ != "status"@ && "more_body"@
            != "headers"@ && "more_body"@ != "body"@,
{
    reveal_strlit("op");
    reveal_strlit("meta");
    reveal_strlit("request_id");
    reveal_strlit("response_type");
    reveal_strlit("status");
    reveal_strlit("headers");
    reveal_strlit("body");
    reveal_strlit("more_body");
    assert("op"@.len() == 2 && "meta"@.len() == 4 && "request_id"@.len() == 10);
    assert("response_type"@.len() == 13 && "status"@.len() == 6 && "headers"@.len() == 7);
    assert("body"@.len() == 4 && "more_body"@.len() == 9);
    assert("meta"@[0] != "body"@[0]);
}

/// A table of texts read back from the array that carries it is the table itself.
pub proof fn lemma_text_table_round_trip(rows: Seq<Seq<Seq<char>>>)
    ensures
        encode_text_table(rows).text_table() == Some(rows),
{
    let items = encode_text_table(rows)->Array_0;
    assert forall|i: int| 0 <= i < items.len() implies (#[trigger] items[i]).text_list() == Some(
        rows[i],
    ) by {
        let list = encode_text_list(rows[i]);
        assert(items[i] == list);
        assert(list.text_list() is Some);
        assert(list.text_list()->Some_0 =~= rows[i]);
    }
    assert(encode_text_table(rows).text_table() is Some);
    assert(encode_text_table(rows).text_table()->Some_0 =~= rows);
}

/// A response read back from the document that carries it is the response itself.
pub proof fn lemma_response_round_trip(response: ResponseView)
    ensures
        decode_response(encode_response(response)) == Some(response),
{
    lemma_response_names();
    let doc = encode_response(response);
    let members = doc->Object_0;
    lemma_member_at(members, "op"@, 0);
    lemma_member_at(members, "meta"@, 1);
    lemma_member_at(members, "request_id"@, 2);
    lemma_member_at(members, "response_type"@, 3);
    lemma_member_at(members, "status"@, 4);
    lemma_member_at(members, "headers"@, 5);
    lemma_member_at(members, "body"@, 6);
    lemma_member_at(members, "more_body"@, 7);
    lemma_member_at(encode_meta(response.meta)->Object_0, "response_type"@, 0);
    lemma_text_table_round_trip(response.headers);
    assert(decode_meta(encode_meta(response.meta)) == Some(response.meta));
}

/// An identify message read back from the document that carries it is the message itself.
pub proof fn lemma_identify_round_trip(identify: IdentifyView)
    ensures
        decode_identify(encode_identify(identify)) == Some(identify),
{
    reveal_strlit("op");
    reveal_strlit("shard_id");
    assert("op"@.len() == 2 && "shard_id"@.len() == 8);
    let members = encode_identify(identify)->Object_0;
    lemma_member_at(members, "op"@, 0);
    lemma_member_at(members, "shard_id"@, 1);
}

} // verus!
