use sandman::dispatch::{
    build_response, delivery, get_outgoing, handle_incoming, respond_with, send_to_ws,
    wait_for_response, Delivery, RenderError, RequestIds, Step, MAX_POLLS, POLL_INTERVAL_MICROS,
};
use sandman::envelope::{ASGIResponse, OutGoingRequest, ResponseMeta};
use sandman::http::{HeaderField, HttpRequest, HttpResponse};
use sandman::registry::{WorkerChannel, WorkerRegistry};
use sandman::store::CorrelationStore;
use tokio::sync::mpsc::{unbounded_channel, UnboundedReceiver};
use tokio_tungstenite::tungstenite::error::Error;
use tokio_tungstenite::tungstenite::protocol::Message;

fn plain_request() -> HttpRequest {
    HttpRequest {
        method: "GET".to_string(),
        remote: "203.0.113.9".to_string(),
        path: "/hello/world".to_string(),
        query: None,
        headers: Vec::new(),
    }
}

fn worker_response(request_id: usize, status: u16, headers: Vec<Vec<String>>, body: &str) -> ASGIResponse {
    ASGIResponse {
        op: 1,
        meta: ResponseMeta { response_type: "complete".to_string() },
        request_id,
        response_type: "http.response".to_string(),
        status,
        headers,
        body: body.to_string(),
        more_body: false,
    }
}

fn row(name: &str, value: &str) -> Vec<String> {
    vec![name.to_string(), value.to_string()]
}

fn channel() -> (WorkerChannel, UnboundedReceiver<Result<Message, Error>>) {
    unbounded_channel()
}

#[test]
fn request_ids_start_at_one_and_increase() {
    let mut ids = RequestIds::new();
    assert_eq!(ids.peek(), 1);
    let mut last = 0;
    for expected in 1..=1000usize {
        let id = ids.allocate();
        assert_eq!(id, expected);
        assert!(id > last);
        last = id;
    }
    assert_eq!(ids.peek(), 1001);
}

#[test]
fn response_renders_status_headers_and_body() {
    let response = worker_response(1, 200, vec![row("Content-Type", "text/plain")], "hi");
    assert_eq!(
        build_response(&response),
        Ok(HttpResponse {
            status: 200,
            headers: vec![("Content-Type".to_string(), "text/plain".to_string())],
            body: "hi".to_string(),
        })
    );
}

#[test]
fn response_keeps_header_order_and_repeated_names() {
    let rows = vec![row("Set-Cookie", "a=1"), row("X-Other", "x"), row("Set-Cookie", "b=2")];
    let rendered = build_response(&worker_response(1, 404, rows, "")).expect("a response");
    assert_eq!(rendered.status, 404);
    assert_eq!(
        rendered.headers,
        vec![
            ("Set-Cookie".to_string(), "a=1".to_string()),
            ("X-Other".to_string(), "x".to_string()),
            ("Set-Cookie".to_string(), "b=2".to_string()),
        ]
    );
}

#[test]
fn response_row_gives_its_first_two_items() {
    let rows = vec![vec!["a".to_string(), "b".to_string(), "c".to_string()]];
    let rendered = build_response(&worker_response(1, 200, rows, "")).expect("a response");
    assert_eq!(rendered.headers, vec![("a".to_string(), "b".to_string())]);
}

#[test]
fn response_with_a_status_out_of_range_is_refused() {
    assert_eq!(build_response(&worker_response(1, 99, Vec::new(), "")), Err(RenderError::InvalidStatus));
    assert_eq!(build_response(&worker_response(1, 1000, Vec::new(), "")), Err(RenderError::InvalidStatus));
    assert_eq!(build_response(&worker_response(1, 0, Vec::new(), "")), Err(RenderError::InvalidStatus));
    assert_eq!(build_response(&worker_response(1, 100, Vec::new(), "")).map(|r| r.status), Ok(100));
    assert_eq!(build_response(&worker_response(1, 999, Vec::new(), "")).map(|r| r.status), Ok(999));
}

#[test]
fn response_with_a_short_header_row_is_refused() {
    let rows = vec![row("a", "b"), vec!["lonely".to_string()]];
    assert_eq!(build_response(&worker_response(1, 200, rows, "")), Err(RenderError::ShortHeaderRow));
    let rows = vec![Vec::new()];
    assert_eq!(build_response(&worker_response(1, 200, rows, "")), Err(RenderError::ShortHeaderRow));
}

#[test]
fn response_with_a_bad_header_name_is_refused() {
    for name in ["bad name", "", "caf\u{e9}", "a:b"] {
        let rows = vec![row(name, "v")];
        assert_eq!(
            build_response(&worker_response(1, 200, rows, "")),
            Err(RenderError::InvalidHeaderName)
        );
    }
}

#[test]
fn response_with_a_bad_header_value_is_refused() {
    for value in ["a\nb", "a\rb", "\u{0}", "\u{7f}"] {
        let rows = vec![row("x", value)];
        assert_eq!(
            build_response(&worker_response(1, 200, rows, "")),
            Err(RenderError::InvalidHeaderValue)
        );
    }
    for value in ["a\tb", "", "caf\u{e9}", " ~"] {
        let rows = vec![row("x", value)];
        assert!(build_response(&worker_response(1, 200, rows, "")).is_ok());
    }
}

#[test]
fn first_fault_in_row_order_is_reported() {
    let rows = vec![row("ok", "fine"), row("x", "a\nb"), row("bad name", "v")];
    assert_eq!(
        build_response(&worker_response(1, 200, rows, "")),
        Err(RenderError::InvalidHeaderValue)
    );
    let rows = vec![row("bad name", "a\nb")];
    assert_eq!(
        build_response(&worker_response(1, 0, rows, "")),
        Err(RenderError::InvalidStatus)
    );
}

#[test]
fn unrenderable_response_becomes_a_server_error() {
    let answer = respond_with(&worker_response(1, 20, Vec::new(), "x"));
    assert_eq!(
        answer,
        HttpResponse { status: 500, headers: Vec::new(), body: "Internal Server Error".to_string() }
    );
    let answer = respond_with(&worker_response(1, 201, Vec::new(), "made"));
    assert_eq!(answer, HttpResponse { status: 201, headers: Vec::new(), body: "made".to_string() });
}

#[test]
fn envelope_takes_method_path_remote_and_query() {
    let mut request = plain_request();
    request.query = Some("name=bob&age=27".to_string());
    let envelope = get_outgoing(&request, 9);
    assert_eq!(
        envelope,
        OutGoingRequest {
            op: 0,
            request_id: 9,
            method: "GET".to_string(),
            remote: "203.0.113.9".to_string(),
            path: "/hello/world".to_string(),
            headers: Vec::new(),
            version: "HTTP/1.1".to_string(),
            body: "".to_string(),
            query: "name=bob&age=27".to_string(),
        }
    );
}

#[test]
fn envelope_carries_the_address_of_the_client() {
    let mut request = plain_request();
    request.remote = "2001:db8::7".to_string();
    let envelope = get_outgoing(&request, 1);
    assert_eq!(envelope.remote, "2001:db8::7");
    assert_eq!(envelope.query, "");
}

#[test]
fn envelope_names_each_header_once_with_its_last_value() {
    let mut request = plain_request();
    request.headers = vec![
        HeaderField { name: "accept".to_string(), value: b"text/html".to_vec() },
        HeaderField { name: "x-test".to_string(), value: b"1".to_vec() },
        HeaderField { name: "accept".to_string(), value: b"*/*".to_vec() },
        HeaderField { name: "Accept".to_string(), value: b"image/png".to_vec() },
    ];
    let envelope = get_outgoing(&request, 1);
    assert_eq!(
        envelope.headers,
        vec![
            ("accept".to_string(), "*/*".to_string()),
            ("x-test".to_string(), "1".to_string()),
            ("Accept".to_string(), "image/png".to_string()),
        ]
    );
}

#[test]
fn envelope_forwards_an_unreadable_header_value_as_empty() {
    let mut request = plain_request();
    request.headers = vec![
        HeaderField { name: "x-bin".to_string(), value: vec![b'a', 0xfa] },
        HeaderField { name: "x-ctl".to_string(), value: vec![b'a', 7] },
        HeaderField { name: "x-del".to_string(), value: vec![127] },
        HeaderField { name: "x-tab".to_string(), value: b"a\tb".to_vec() },
    ];
    let envelope = get_outgoing(&request, 1);
    assert_eq!(
        envelope.headers,
        vec![
            ("x-bin".to_string(), "".to_string()),
            ("x-ctl".to_string(), "".to_string()),
            ("x-del".to_string(), "".to_string()),
            ("x-tab".to_string(), "a\tb".to_string()),
        ]
    );
}

#[test]
fn dispatch_without_worker_answers_at_once() {
    let workers = WorkerRegistry::new();
    let mut ids = RequestIds::new();
    let mut cache = CorrelationStore::new();
    let (step, sent) = handle_incoming(&plain_request(), "1", &workers, &mut ids, &mut cache);
    assert_eq!(
        step,
        Step::Respond(HttpResponse {
            status: 503,
            headers: Vec::new(),
            body: "No workers active".to_string(),
        })
    );
    assert_eq!(sent, Delivery::NoWorker);
    assert_eq!(ids.peek(), 1);
}

#[test]
fn dispatch_sends_the_envelope_to_the_worker() {
    let (tx, mut rx) = channel();
    let mut workers = WorkerRegistry::new();
    workers.register("1".to_string(), tx);
    let mut ids = RequestIds::new();
    let mut cache = CorrelationStore::new();
    let (step, sent) = handle_incoming(&plain_request(), "1", &workers, &mut ids, &mut cache);
    assert_eq!(step, Step::Sleep { request_id: 1, polls: 0 });
    assert_eq!(sent, Delivery::Queued);
    assert_eq!(ids.peek(), 2);
    let expected = get_outgoing(&plain_request(), 1).to_json_text();
    match rx.try_recv() {
        Ok(Ok(Message::Text(text))) => assert_eq!(text, expected),
        _ => panic!("one text frame is queued"),
    }
    assert!(rx.try_recv().is_err());
}

#[test]
fn dispatch_to_a_silent_worker_times_out_after_the_full_budget() {
    let (tx, _rx) = channel();
    let mut workers = WorkerRegistry::new();
    workers.register("1".to_string(), tx);
    let mut ids = RequestIds::new();
    let mut cache = CorrelationStore::new();
    let (mut step, sent) = handle_incoming(&plain_request(), "1", &workers, &mut ids, &mut cache);
    assert_eq!(sent, Delivery::Queued);
    let mut sleeps: u64 = 0;
    let answer = loop {
        match step {
            Step::Sleep { request_id, polls } => {
                assert_eq!(request_id, 1);
                assert_eq!(u64::from(polls), sleeps);
                sleeps += 1;
                step = wait_for_response(request_id, polls, &mut cache);
            }
            Step::Respond(answer) => break answer,
        }
    };
    assert_eq!(sleeps, u64::from(MAX_POLLS) + 1);
    assert_eq!(sleeps * POLL_INTERVAL_MICROS, 10025);
    assert_eq!(
        answer,
        HttpResponse {
            status: 503,
            headers: Vec::new(),
            body: "Server took too long to respond.".to_string(),
        }
    );
}

#[test]
fn dispatch_answers_with_the_response_once_it_is_stored() {
    let (tx, _rx) = channel();
    let mut workers = WorkerRegistry::new();
    workers.register("1".to_string(), tx);
    let mut ids = RequestIds::new();
    let mut cache = CorrelationStore::new();
    let (step, sent) = handle_incoming(&plain_request(), "1", &workers, &mut ids, &mut cache);
    assert_eq!(step, Step::Sleep { request_id: 1, polls: 0 });
    assert_eq!(sent, Delivery::Queued);
    let step = wait_for_response(1, 0, &mut cache);
    assert_eq!(step, Step::Sleep { request_id: 1, polls: 1 });
    cache.put(2, worker_response(2, 200, Vec::new(), "other"));
    let step = wait_for_response(1, 1, &mut cache);
    assert_eq!(step, Step::Sleep { request_id: 1, polls: 2 });
    cache.put(1, worker_response(1, 200, vec![row("Content-Type", "text/plain")], "hi"));
    let step = wait_for_response(1, 2, &mut cache);
    assert_eq!(
        step,
        Step::Respond(HttpResponse {
            status: 200,
            headers: vec![("Content-Type".to_string(), "text/plain".to_string())],
            body: "hi".to_string(),
        })
    );
    assert!(!cache.contains(1));
    assert!(cache.contains(2));
}

#[test]
fn wait_gives_up_at_the_last_poll_count_without_a_look() {
    let mut cache = CorrelationStore::new();
    cache.put(1, worker_response(1, 200, Vec::new(), "late"));
    let step = wait_for_response(1, MAX_POLLS, &mut cache);
    assert_eq!(
        step,
        Step::Respond(HttpResponse {
            status: 503,
            headers: Vec::new(),
            body: "Server took too long to respond.".to_string(),
        })
    );
    assert!(cache.contains(1));
    let step = wait_for_response(1, MAX_POLLS - 1, &mut cache);
    assert_eq!(
        step,
        Step::Respond(HttpResponse { status: 200, headers: Vec::new(), body: "late".to_string() })
    );
}

#[test]
fn dispatch_finds_a_response_that_is_already_there() {
    let (tx, _rx) = channel();
    let mut workers = WorkerRegistry::new();
    workers.register("1".to_string(), tx);
    let mut ids = RequestIds::new();
    let mut cache = CorrelationStore::new();
    cache.put(1, worker_response(1, 204, Vec::new(), ""));
    let (step, sent) = handle_incoming(&plain_request(), "1", &workers, &mut ids, &mut cache);
    assert_eq!(step, Step::Respond(HttpResponse { status: 204, headers: Vec::new(), body: "".to_string() }));
    assert_eq!(sent, Delivery::Queued);
    assert!(!cache.contains(1));
}

#[test]
fn send_needs_a_registered_shard_and_an_open_channel() {
    let (tx, mut rx) = channel();
    let mut workers = WorkerRegistry::new();
    let envelope = get_outgoing(&plain_request(), 4);
    assert_eq!(send_to_ws("1", &workers, &envelope), Delivery::NoWorker);
    workers.register("1".to_string(), tx);
    assert_eq!(send_to_ws("1", &workers, &envelope), Delivery::Queued);
    assert_eq!(send_to_ws("2", &workers, &envelope), Delivery::NoWorker);
    match rx.try_recv() {
        Ok(Ok(Message::Text(text))) => assert_eq!(text, envelope.to_json_text()),
        _ => panic!("one text frame is queued"),
    }
    assert!(rx.try_recv().is_err());
    drop(rx);
    assert_eq!(
        send_to_ws("1", &workers, &envelope),
        Delivery::Refused(envelope.to_json_text())
    );
}

#[test]
fn delivery_follows_the_answer_of_the_channel() {
    let envelope = get_outgoing(&plain_request(), 4);
    assert_eq!(delivery(true, &envelope), Delivery::Queued);
    assert_eq!(
        delivery(false, &envelope),
        Delivery::Refused(
            "{\"op\":0,\"request_id\":4,\"method\":\"GET\",\"remote\":\"203.0.113.9\",\
             \"path\":\"/hello/world\",\"headers\":{},\"version\":\"HTTP/1.1\",\
             \"body\":\"\",\"query\":\"\"}"
                .to_string()
        )
    );
}

#[test]
fn dispatch_to_a_closed_channel_still_waits() {
    let (tx, rx) = channel();
    drop(rx);
    let mut workers = WorkerRegistry::new();
    workers.register("1".to_string(), tx);
    let mut ids = RequestIds::new();
    let mut cache = CorrelationStore::new();
    let (step, sent) = handle_incoming(&plain_request(), "1", &workers, &mut ids, &mut cache);
    assert_eq!(step, Step::Sleep { request_id: 1, polls: 0 });
    assert_eq!(sent, Delivery::Refused(get_outgoing(&plain_request(), 1).to_json_text()));
}

fn is_name_character(byte: u8) -> bool {
    byte.is_ascii_alphanumeric() || b"!\"#$%&'*+-.^_`|~".contains(&byte)
}

#[test]
fn header_name_takes_letters_digits_and_the_listed_marks() {
    for byte in 0u8..128 {
        let name = String::from_utf8(vec![byte]).expect("ASCII");
        let rendered = build_response(&worker_response(1, 200, vec![row(&name, "v")], ""));
        if is_name_character(byte) {
            assert_eq!(rendered.map(|r| r.headers[0].0.clone()), Ok(name));
        } else {
            assert_eq!(rendered, Err(RenderError::InvalidHeaderName));
        }
    }
    let rendered = build_response(&worker_response(1, 200, vec![row("Content-Type", "v")], ""));
    assert!(rendered.is_ok());
}

#[test]
fn header_name_has_one_to_65535_bytes() {
    for (length, accepted) in [(1usize, true), (64, true), (65, true), (65535, true), (65536, false)] {
        let name = "a".repeat(length);
        let rendered = build_response(&worker_response(1, 200, vec![row(&name, "v")], ""));
        assert_eq!(rendered.is_ok(), accepted);
    }
    let mut name = "a".repeat(100);
    name.push(' ');
    let rendered = build_response(&worker_response(1, 200, vec![row(&name, "v")], ""));
    assert_eq!(rendered, Err(RenderError::InvalidHeaderName));
}
