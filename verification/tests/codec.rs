use sandman::dispatch::get_outgoing;
use sandman::envelope::{
    names_are_distinct, ASGIResponse, OutGoingRequest, ResponseMeta, ShardIdentify,
};
use sandman::http::{HeaderField, HttpRequest};
use sandman::json::Json;

fn sample_request() -> HttpRequest {
    HttpRequest {
        method: "GET".to_string(),
        remote: "127.0.0.1".to_string(),
        path: "/foo".to_string(),
        query: Some("a=1".to_string()),
        headers: vec![HeaderField { name: "X-Test".to_string(), value: b"1".to_vec() }],
    }
}

fn sample_response_text() -> String {
    "{\"op\":1,\"meta\":{\"response_type\":\"complete\"},\"request_id\":7,\
     \"response_type\":\"http.response\",\"status\":200,\
     \"headers\":[[\"Content-Type\",\"text/plain\"]],\"body\":\"hi\",\"more_body\":false}"
        .to_string()
}

#[test]
fn outgoing_request_round_trips_through_json() {
    let envelope = get_outgoing(&sample_request(), 1);
    let text = envelope.to_json_text();
    let back = OutGoingRequest::from_json_text(&text).expect("the text holds a request");
    assert_eq!(back, envelope);
    assert_eq!(back.method, "GET");
    assert_eq!(back.path, "/foo");
    assert_eq!(back.query, "a=1");
    assert_eq!(back.headers, vec![("X-Test".to_string(), "1".to_string())]);
}

#[test]
fn outgoing_request_text_lists_the_fields_in_order() {
    let envelope = get_outgoing(&sample_request(), 1);
    assert_eq!(
        envelope.to_json_text(),
        "{\"op\":0,\"request_id\":1,\"method\":\"GET\",\"remote\":\"127.0.0.1\",\
         \"path\":\"/foo\",\"headers\":{\"X-Test\":\"1\"},\"version\":\"HTTP/1.1\",\
         \"body\":\"\",\"query\":\"a=1\"}"
    );
}

#[test]
fn outgoing_request_document_has_nine_members() {
    let doc = get_outgoing(&sample_request(), 5).to_json();
    match &doc {
        Json::Object(members) => {
            assert_eq!(members.len(), 9);
            assert_eq!(members[0], ("op".to_string(), Json::Number(Some(0))));
            assert_eq!(members[1], ("request_id".to_string(), Json::Number(Some(5))));
        }
        _ => panic!("the envelope is an object"),
    }
    assert_eq!(doc.field(&"path".to_string()), Some(&Json::Text("/foo".to_string())));
    assert_eq!(doc.field(&"nothing".to_string()), None);
}

#[test]
fn response_is_read_from_json_text() {
    let response = ASGIResponse::from_json_text(&sample_response_text()).expect("a response");
    assert_eq!(
        response,
        ASGIResponse {
            op: 1,
            meta: ResponseMeta { response_type: "complete".to_string() },
            request_id: 7,
            response_type: "http.response".to_string(),
            status: 200,
            headers: vec![vec!["Content-Type".to_string(), "text/plain".to_string()]],
            body: "hi".to_string(),
            more_body: false,
        }
    );
}

#[test]
fn response_reader_ignores_unknown_members() {
    let text = sample_response_text().replace("\"op\":1,", "\"op\":1,\"extra\":[1.5,null,-3],");
    let response = ASGIResponse::from_json_text(&text).expect("a response");
    assert_eq!(response.request_id, 7);
}

#[test]
fn response_reader_refuses_a_missing_member() {
    let text = sample_response_text().replace(",\"more_body\":false", "");
    assert_eq!(ASGIResponse::from_json_text(&text), None);
}

#[test]
fn response_reader_refuses_a_member_of_another_kind() {
    let text = sample_response_text().replace("\"status\":200", "\"status\":\"200\"");
    assert_eq!(ASGIResponse::from_json_text(&text), None);
    let text = sample_response_text().replace("\"request_id\":7", "\"request_id\":7.5");
    assert_eq!(ASGIResponse::from_json_text(&text), None);
    let text = sample_response_text().replace("\"request_id\":7", "\"request_id\":-7");
    assert_eq!(ASGIResponse::from_json_text(&text), None);
    let text = sample_response_text().replace("\"text/plain\"", "5");
    assert_eq!(ASGIResponse::from_json_text(&text), None);
}

#[test]
fn response_reader_refuses_a_status_out_of_range() {
    let text = sample_response_text().replace("\"status\":200", "\"status\":65536");
    assert_eq!(ASGIResponse::from_json_text(&text), None);
    let text = sample_response_text().replace("\"status\":200", "\"status\":65535");
    assert_eq!(ASGIResponse::from_json_text(&text).map(|r| r.status), Some(65535));
}

#[test]
fn response_reader_refuses_what_is_not_json() {
    assert_eq!(ASGIResponse::from_json_text("None"), None);
    assert_eq!(ASGIResponse::from_json_text(""), None);
    assert_eq!(ASGIResponse::from_json_text("[1,2"), None);
    assert_eq!(ASGIResponse::from_json_text("[]"), None);
}

#[test]
fn identify_is_read_from_json_text() {
    assert_eq!(
        ShardIdentify::from_json_text("{\"op\":2,\"shard_id\":\"7\"}"),
        Some(ShardIdentify { op: 2, shard_id: "7".to_string() })
    );
    assert_eq!(ShardIdentify::from_json_text("{\"op\":2,\"shard_id\":7}"), None);
    assert_eq!(ShardIdentify::from_json_text("{\"shard_id\":\"7\"}"), None);
}

#[test]
fn request_reader_keeps_the_header_order_of_the_text() {
    let text = "{\"op\":0,\"request_id\":3,\"method\":\"POST\",\"remote\":\"h\",\"path\":\"/\",\
                \"headers\":{\"b\":\"2\",\"a\":\"1\"},\"version\":\"HTTP/1.1\",\"body\":\"\",\
                \"query\":\"\"}";
    let request = OutGoingRequest::from_json_text(text).expect("a request");
    assert_eq!(
        request.headers,
        vec![("b".to_string(), "2".to_string()), ("a".to_string(), "1".to_string())]
    );
    assert_eq!(request.request_id, 3);
}

#[test]
fn request_reader_refuses_a_header_that_is_no_text() {
    let text = "{\"op\":0,\"request_id\":3,\"method\":\"POST\",\"remote\":\"h\",\"path\":\"/\",\
                \"headers\":{\"b\":2},\"version\":\"HTTP/1.1\",\"body\":\"\",\"query\":\"\"}";
    assert_eq!(OutGoingRequest::from_json_text(text), None);
}

#[test]
fn json_accessors_tell_the_kinds_apart() {
    let text = Json::Text("t".to_string());
    assert_eq!(text.as_text(), Some(&"t".to_string()));
    assert_eq!(text.as_number(), None);
    assert_eq!(text.as_bool(), None);
    assert_eq!(Json::Number(Some(4)).as_number(), Some(4));
    assert_eq!(Json::Number(None).as_number(), None);
    assert_eq!(Json::Bool(true).as_bool(), Some(true));
    let list = Json::Array(vec![Json::Text("a".to_string()), Json::Text("b".to_string())]);
    assert_eq!(list.text_list(), Some(vec!["a".to_string(), "b".to_string()]));
    assert_eq!(Json::Array(vec![Json::Null]).text_list(), None);
    assert_eq!(Json::Array(vec![list]).text_table(), Some(vec![vec!["a".to_string(), "b".to_string()]]));
    assert_eq!(Json::Null.text_members(), None);
}

#[test]
fn response_round_trips_through_json() {
    let response = ASGIResponse {
        op: 1,
        meta: ResponseMeta { response_type: "partial".to_string() },
        request_id: 42,
        response_type: "http.response".to_string(),
        status: 206,
        headers: vec![
            vec!["Set-Cookie".to_string(), "a=1".to_string()],
            vec!["Set-Cookie".to_string(), "b=2".to_string()],
            Vec::new(),
        ],
        body: "line\n\"quoted\" \u{e9}".to_string(),
        more_body: true,
    };
    let text = response.to_json_text();
    assert_eq!(ASGIResponse::from_json_text(&text), Some(response.clone()));
    assert_eq!(ASGIResponse::from_json(&response.to_json()), Some(response));
}

#[test]
fn response_text_lists_the_fields_in_order() {
    let response = ASGIResponse::from_json_text(&sample_response_text()).expect("a response");
    assert_eq!(response.to_json_text(), sample_response_text());
}

#[test]
fn identify_round_trips_through_json() {
    let identify = ShardIdentify { op: 2, shard_id: "shard-9".to_string() };
    assert_eq!(identify.to_json_text(), "{\"op\":2,\"shard_id\":\"shard-9\"}");
    assert_eq!(ShardIdentify::from_json_text(&identify.to_json_text()), Some(identify.clone()));
    assert_eq!(ShardIdentify::from_json(&identify.to_json()), Some(identify));
}

#[test]
fn meta_round_trips_through_json() {
    let meta = ResponseMeta { response_type: "complete".to_string() };
    assert_eq!(ResponseMeta::from_json(&meta.to_json()), Some(meta));
    assert_eq!(ResponseMeta::from_json(&Json::Null), None);
}

#[test]
fn largest_ids_survive_the_json_text() {
    let mut envelope = get_outgoing(&sample_request(), usize::MAX);
    envelope.op = usize::MAX;
    let back = OutGoingRequest::from_json_text(&envelope.to_json_text()).expect("a request");
    assert_eq!(back.request_id, usize::MAX);
    assert_eq!(back.op, usize::MAX);
}

#[test]
fn request_reader_refuses_a_header_named_twice() {
    let envelope = get_outgoing(&sample_request(), 1);
    let mut doc = envelope.to_json();
    assert_eq!(OutGoingRequest::from_json(&doc), Some(envelope));
    if let Json::Object(members) = &mut doc {
        members[5].1 = Json::Object(vec![
            ("a".to_string(), Json::Text("1".to_string())),
            ("b".to_string(), Json::Text("2".to_string())),
            ("a".to_string(), Json::Text("3".to_string())),
        ]);
    }
    assert_eq!(OutGoingRequest::from_json(&doc), None);
}

#[test]
fn request_text_with_a_repeated_header_keeps_its_last_value() {
    let text = "{\"op\":0,\"request_id\":3,\"method\":\"POST\",\"remote\":\"h\",\"path\":\"/\",\
                \"headers\":{\"a\":\"1\",\"b\":\"2\",\"a\":\"3\"},\"version\":\"HTTP/1.1\",\
                \"body\":\"\",\"query\":\"\"}";
    let request = OutGoingRequest::from_json_text(text).expect("a request");
    assert_eq!(
        request.headers,
        vec![("a".to_string(), "3".to_string()), ("b".to_string(), "2".to_string())]
    );
}

#[test]
fn distinct_names_are_told_from_repeated_ones() {
    let pair = |name: &str| (name.to_string(), "v".to_string());
    assert!(names_are_distinct(&Vec::new()));
    assert!(names_are_distinct(&vec![pair("a")]));
    assert!(names_are_distinct(&vec![pair("a"), pair("A"), pair("b")]));
    assert!(!names_are_distinct(&vec![pair("a"), pair("b"), pair("a")]));
    assert!(!names_are_distinct(&vec![pair("a"), pair("b"), pair("b")]));
}
