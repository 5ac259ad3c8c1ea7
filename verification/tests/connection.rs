use sandman::connection::{handle_ws, Frame, Link, SocketEvent};
use sandman::dispatch::{handle_incoming, Delivery, RequestIds, Step};
use sandman::http::{HttpRequest, HttpResponse};
use sandman::registry::{WorkerChannel, WorkerRegistry};
use sandman::store::CorrelationStore;
use tokio::sync::mpsc::unbounded_channel;

fn fresh_channel() -> WorkerChannel {
    unbounded_channel().0
}

fn response_text(request_id: usize) -> String {
    format!(
        "{{\"op\":1,\"meta\":{{\"response_type\":\"complete\"}},\"request_id\":{},\
         \"response_type\":\"http.response\",\"status\":200,\"headers\":[],\
         \"body\":\"ok\",\"more_body\":false}}",
        request_id
    )
}

fn text_event(text: &str) -> SocketEvent {
    SocketEvent::Frame(Frame::Text(text.to_string()))
}

fn any_request() -> HttpRequest {
    HttpRequest {
        method: "GET".to_string(),
        remote: "127.0.0.1".to_string(),
        path: "/".to_string(),
        query: None,
        headers: Vec::new(),
    }
}

fn streaming_under(link: &Link, shard: &str) -> bool {
    match link {
        Link::Streaming(name) => name == shard,
        _ => false,
    }
}

#[test]
fn identify_registers_the_worker_under_its_shard() {
    let mut workers = WorkerRegistry::new();
    let mut cache = CorrelationStore::new();
    let link = handle_ws(
        Link::AwaitingIdentify(fresh_channel()),
        text_event("{\"op\":2,\"shard_id\":\"7\"}"),
        &mut workers,
        &mut cache,
    );
    assert!(streaming_under(&link, "7"));
    assert!(workers.is_registered("7"));
    assert!(!workers.is_registered("main"));
}

#[test]
fn first_frame_without_identify_registers_the_default_shard() {
    let mut workers = WorkerRegistry::new();
    let mut cache = CorrelationStore::new();
    let link = handle_ws(
        Link::AwaitingIdentify(fresh_channel()),
        text_event("hello"),
        &mut workers,
        &mut cache,
    );
    assert!(streaming_under(&link, "main"));
    assert!(workers.is_registered("main"));
}

#[test]
fn first_frame_that_is_a_response_is_kept() {
    let mut workers = WorkerRegistry::new();
    let mut cache = CorrelationStore::new();
    let link = handle_ws(
        Link::AwaitingIdentify(fresh_channel()),
        text_event(&response_text(3)),
        &mut workers,
        &mut cache,
    );
    assert!(streaming_under(&link, "main"));
    assert!(cache.contains(3));
}

#[test]
fn socket_that_ends_before_a_frame_registers_nothing() {
    let mut workers = WorkerRegistry::new();
    let mut cache = CorrelationStore::new();
    let link = handle_ws(Link::AwaitingIdentify(fresh_channel()), SocketEvent::End, &mut workers, &mut cache);
    assert!(matches!(link, Link::Closed));
    assert!(!workers.is_registered("main"));
    let link = handle_ws(Link::AwaitingIdentify(fresh_channel()), SocketEvent::Error, &mut workers, &mut cache);
    assert!(matches!(link, Link::Closed));
}

#[test]
fn streamed_response_is_stored_under_its_request_id() {
    let mut workers = WorkerRegistry::new();
    workers.register("7".to_string(), fresh_channel());
    let mut cache = CorrelationStore::new();
    let link = handle_ws(Link::Streaming("7".to_string()), text_event(&response_text(11)), &mut workers, &mut cache);
    assert!(streaming_under(&link, "7"));
    let link = handle_ws(
        link,
        SocketEvent::Frame(Frame::Binary(response_text(12).into_bytes())),
        &mut workers,
        &mut cache,
    );
    assert!(streaming_under(&link, "7"));
    assert!(cache.contains(11));
    assert!(cache.contains(12));
    assert_eq!(cache.take(11).map(|r| r.body), Some("ok".to_string()));
    assert!(workers.is_registered("7"));
}

#[test]
fn malformed_frame_closes_the_connection() {
    for event in [
        text_event("{\"op\":1}"),
        text_event("not json"),
        SocketEvent::Frame(Frame::Binary(vec![0xff, 0xfe])),
        SocketEvent::Frame(Frame::Binary(vec![0xc0, 0x80])),
        SocketEvent::Frame(Frame::Other),
    ] {
        let mut workers = WorkerRegistry::new();
        workers.register("7".to_string(), fresh_channel());
        workers.register("8".to_string(), fresh_channel());
        let mut cache = CorrelationStore::new();
        let link = handle_ws(Link::Streaming("7".to_string()), event, &mut workers, &mut cache);
        assert!(matches!(link, Link::Closed));
        assert!(!workers.is_registered("7"));
        assert!(workers.is_registered("8"));
    }
}

#[test]
fn binary_frame_is_read_as_utf8_text() {
    let mut workers = WorkerRegistry::new();
    let mut cache = CorrelationStore::new();
    let text = "{\"op\":2,\"shard_id\":\"caf\u{e9}\"}";
    let link = handle_ws(
        Link::AwaitingIdentify(fresh_channel()),
        SocketEvent::Frame(Frame::Binary(text.as_bytes().to_vec())),
        &mut workers,
        &mut cache,
    );
    assert!(streaming_under(&link, "caf\u{e9}"));
}

#[test]
fn disconnect_deregisters_and_dispatch_sees_no_worker() {
    let mut workers = WorkerRegistry::new();
    let mut cache = CorrelationStore::new();
    let mut ids = RequestIds::new();
    let link = handle_ws(
        Link::AwaitingIdentify(fresh_channel()),
        text_event("{\"op\":2,\"shard_id\":\"1\"}"),
        &mut workers,
        &mut cache,
    );
    let (step, sent) = handle_incoming(&any_request(), "1", &workers, &mut ids, &mut cache);
    assert_eq!(step, Step::Sleep { request_id: 1, polls: 0 });
    assert_ne!(sent, Delivery::NoWorker);
    let link = handle_ws(link, SocketEvent::End, &mut workers, &mut cache);
    assert!(matches!(link, Link::Closed));
    assert!(!workers.is_registered("1"));
    let (step, sent) = handle_incoming(&any_request(), "1", &workers, &mut ids, &mut cache);
    assert_eq!(sent, Delivery::NoWorker);
    assert_eq!(
        step,
        Step::Respond(HttpResponse {
            status: 503,
            headers: Vec::new(),
            body: "No workers active".to_string(),
        })
    );
    assert_eq!(ids.peek(), 2);
}

#[test]
fn socket_error_deregisters_like_the_end() {
    let mut workers = WorkerRegistry::new();
    workers.register("1".to_string(), fresh_channel());
    let mut cache = CorrelationStore::new();
    let link = handle_ws(Link::Streaming("1".to_string()), SocketEvent::Error, &mut workers, &mut cache);
    assert!(matches!(link, Link::Closed));
    assert!(!workers.is_registered("1"));
}

#[test]
fn closed_connection_stays_closed() {
    let mut workers = WorkerRegistry::new();
    workers.register("main".to_string(), fresh_channel());
    let mut cache = CorrelationStore::new();
    let link = handle_ws(Link::Closed, text_event(&response_text(1)), &mut workers, &mut cache);
    assert!(matches!(link, Link::Closed));
    assert!(!cache.contains(1));
    assert!(workers.is_registered("main"));
}
