//! The worker connection handler: what one worker's socket does to the registry and to
//! the correlation store, message by message.

use crate::dispatch::{first_step, no_workers, StepView};
use crate::envelope::{
    decode_identify, decode_response, ASGIResponse, IdentifyView, ResponseView, ShardIdentify,
};
use crate::json::{json_parse, parse, Json, JsonValue};
use crate::registry::{default_shard, WorkerChannel, WorkerRegistry, DEFAULT_SHARD};
use crate::store::{after_put, taken, CorrelationStore};
use vstd::prelude::*;
use vstd::string::*;
use vstd::utf8::{
    decode_utf8, encode_utf8, encode_utf8_decode_utf8, encode_utf8_valid_utf8, valid_utf8,
};

verus! {

/// A message read from a worker's socket.
#[derive(Debug, Clone, PartialEq, Eq)]
pub enum Frame {
    Text(String),
    Binary(Vec<u8>),
    /// A ping, a pong or a close message.
    Other,
}

/// What the read half of a worker's socket yields.
#[derive(Debug, Clone, PartialEq, Eq)]
pub enum SocketEvent {
    Frame(Frame),
    /// The read failed.
    Error,
    /// The socket is closed.
    End,
}

/// The state of one worker's connection.
pub enum Link {
    /// No message was read yet. The channel is the one that feeds the socket's write half.
    AwaitingIdentify(WorkerChannel),
    /// The worker is registered under this shard and its responses are being read.
    Streaming(String),
    /// The connection is over.
    Closed,
}

pub enum FrameView {
    Text(Seq<char>),
    Binary(Seq<u8>),
    Other,
}

pub enum SocketEventView {
    Frame(FrameView),
    Error,
    End,
}

pub enum LinkView {
    AwaitingIdentify(WorkerChannel),
    Streaming(Seq<char>),
    Closed,
}

impl View for Frame {
    type V = FrameView;

    open spec fn view(&self) -> FrameView {
        match self {
            Frame::Text(text) => FrameView::Text(text@),
            Frame::Binary(bytes) => FrameView::Binary(bytes@),
            Frame::Other => FrameView::Other,
        }
    }
}

impl View for SocketEvent {
    type V = SocketEventView;

    open spec fn view(&self) -> SocketEventView {
        match self {
            SocketEvent::Frame(frame) => SocketEventView::Frame(frame@),
            SocketEvent::Error => SocketEventView::Error,
            SocketEvent::End => SocketEventView::End,
        }
    }
}

impl View for Link {
    type V = LinkView;

    open spec fn view(&self) -> LinkView {
        match self {
            Link::AwaitingIdentify(channel) => LinkView::AwaitingIdentify(*channel),
            Link::Streaming(shard) => LinkView::Streaming(shard@),
            Link::Closed => LinkView::Closed,
        }
    }
}

/// The JSON document that a frame carries: a text frame's text or a binary frame's UTF-8
/// text, read as JSON.
pub open spec fn frame_document(frame: FrameView) -> Option<JsonValue> {
    match frame {
        FrameView::Text(text) => json_parse(text),
        FrameView::Binary(bytes) => if valid_utf8(bytes) {
            json_parse(decode_utf8(bytes))
        } else {
            None
        },
        FrameView::Other => None,
    }
}

/// The identify message that a frame carries.
pub open spec fn frame_identify(frame: FrameView) -> Option<IdentifyView> {
    match frame_document(frame) {
        Some(doc) => decode_identify(doc),
        None => None,
    }
}

/// The response that a frame carries.
pub open spec fn frame_response(frame: FrameView) -> Option<ResponseView> {
    match frame_document(frame) {
        Some(doc) => decode_response(doc),
        None => None,
    }
}

/// The shard under which a worker is registered after its first frame: the one it names,
/// or the default one.
pub open spec fn first_shard(frame: FrameView) -> Seq<char> {
    match frame_identify(frame) {
        Some(identify) => identify.shard_id,
        None => default_shard(),
    }
}

/// The store after the response of a frame, if it carries one, was put into it.
pub open spec fn with_response(held: Map<usize, ResponseView>, frame: FrameView) -> Map<
    usize,
    ResponseView,
> {
    match frame_response(frame) {
        Some(response) => after_put(held, response.request_id, response),
        None => held,
    }
}

/// The state of a connection after an event.
pub open spec fn next_link(link: LinkView, event: SocketEventView) -> LinkView {
    match (link, event) {
        (LinkView::AwaitingIdentify(_), SocketEventView::Frame(frame)) => LinkView::Streaming(
            first_shard(frame),
        ),
        (LinkView::Streaming(shard), SocketEventView::Frame(frame)) => if frame_response(frame)
            is Some {
            LinkView::Streaming(shard)
        } else {
            LinkView::Closed
        },
        _ => LinkView::Closed,
    }
}

/// The registry after an event on a connection.
pub open spec fn next_workers(
    link: LinkView,
    event: SocketEventView,
    workers: Map<Seq<char>, WorkerChannel>,
) -> Map<Seq<char>, WorkerChannel> {
    match (link, event) {
        (LinkView::AwaitingIdentify(channel), SocketEventView::Frame(frame)) => workers.insert(
            first_shard(frame),
            channel,
        ),
        (LinkView::Streaming(shard), SocketEventView::Frame(frame)) => if frame_response(frame)
            is Some {
            workers
        } else {
            workers.remove(shard)
        },
        (LinkView::Streaming(shard), _) => workers.remove(shard),
        _ => workers,
    }
}

/// The store after an event on a connection.
pub open spec fn next_held(
    link: LinkView,
    event: SocketEventView,
    held: Map<usize, ResponseView>,
) -> Map<usize, ResponseView> {
    match (link, event) {
        (LinkView::AwaitingIdentify(_), SocketEventView::Frame(frame)) => if frame_identify(frame)
            is Some {
            held
        } else {
            with_response(held, frame)
        },
        (LinkView::Streaming(_), SocketEventView::Frame(frame)) => with_response(held, frame),
        _ => held,
    }
}

/// Reads bytes as text with `String::from_utf8`: the string holds the bytes it was given,
/// and there is none only where the bytes are not UTF-8.
#[verifier::external_body]
fn text_of_bytes(bytes: Vec<u8>) -> (text: Option<String>)
    ensures
        match text {
            Some(t) => encode_utf8(t@) == bytes@,
            None => !valid_utf8(bytes@),
        },
{
    String::from_utf8(bytes).ok()
}

/// The JSON document that a frame carries.
fn read_frame(frame: Frame) -> (doc: Option<Json>)
    ensures
        match doc {
            Some(d) => frame_document(frame@) == Some(d@),
            None => frame_document(frame@) is None,
        },
{
    let text = match frame {
        Frame::Text(text) => Some(text),
        Frame::Binary(bytes) => {
            let text = text_of_bytes(bytes);
            proof {
                if text is Some {
                    encode_utf8_valid_utf8(text->Some_0@);
                    encode_utf8_decode_utf8(text->Some_0@);
                }
            }
            text
        },
        Frame::Other => None,
    };
    match text {
        Some(t) => parse(t.as_str()),
        None => None,
    }
}

/// The response that a frame's document carries.
fn read_response(doc: &Option<Json>) -> (response: Option<ASGIResponse>)
    ensures
        match response {
            Some(r) => doc matches Some(d) && decode_response(d@) == Some(r@),
            None => doc matches Some(d) ==> decode_response(d@) is None,
        },
{
    match doc {
        Some(d) => ASGIResponse::from_json(d),
        None => None,
    }
}

/// The identify message that a frame's document carries.
fn read_identify(doc: &Option<Json>) -> (identify: Option<ShardIdentify>)
    ensures
        match identify {
            Some(m) => doc matches Some(d) && decode_identify(d@) == Some(m@),
            None => doc matches Some(d) ==> decode_identify(d@) is None,
        },
{
    match doc {
        Some(d) => ShardIdentify::from_json(d),
        None => None,
    }
}

/// Takes one event of a worker's socket and goes to the next state of its connection.
///
/// The first frame registers the worker: under the shard it names where the frame is an
/// identify message, under the default shard otherwise, and in that case a response that
/// the frame carries is kept. Every later frame must carry a response, which is kept under
/// its request id. A frame that carries none, a read error and the end of the socket take
/// the shard out of the registry and close the connection.
pub fn handle_ws(
    link: Link,
    event: SocketEvent,
    workers: &mut WorkerRegistry,
    cache: &mut CorrelationStore,
) -> (next: Link)
    ensures
        next@ == next_link(link@, event@),
        final(workers)@ == next_workers(link@, event@, old(workers)@),
        final(cache)@ == next_held(link@, event@, old(cache)@),
{
    match link {
        Link::AwaitingIdentify(channel) => match event {
            SocketEvent::Frame(frame) => {
                let doc = read_frame(frame);
                match read_identify(&doc) {
                    Some(identify) => {
                        let shard = identify.shard_id;
                        workers.register(shard.clone(), channel);
                        Link::Streaming(shard)
                    },
                    None => {
                        workers.register(String::from_str(DEFAULT_SHARD), channel);
                        if let Some(response) = read_response(&doc) {
                            cache.put(response.request_id, response);
                        }
                        Link::Streaming(String::from_str(DEFAULT_SHARD))
                    },
                }
            },
            _ => Link::Closed,
        },
        Link::Streaming(shard) => match event {
            SocketEvent::Frame(frame) => {
                let doc = read_frame(frame);
                match read_response(&doc) {
                    Some(response) => {
                        cache.put(response.request_id, response);
                        Link::Streaming(shard)
                    },
                    None => {
                        workers.deregister(shard.as_str());
                        Link::Closed
                    },
                }
            },
            _ => {
                workers.deregister(shard.as_str());
                Link::Closed
            },
        },
        Link::Closed => Link::Closed,
    }
}

/// Whatever closes a worker's connection takes its shard out of the registry, and a
/// dispatch to that shard is then answered at once with "No workers active".
pub proof fn lemma_disconnect_then_dispatch(
    shard: Seq<char>,
    event: SocketEventView,
    workers: Map<Seq<char>, WorkerChannel>,
    next_id: usize,
    held: Map<usize, ResponseView>,
)
    requires
        next_link(LinkView::Streaming(shard), event) is Closed,
    ensures
        !next_workers(LinkView::Streaming(shard), event, workers).contains_key(shard),
        first_step(
            next_workers(LinkView::Streaming(shard), event, workers).contains_key(shard),
            next_id,
            held,
        ) == StepView::Respond(no_workers()),
{
}

/// The end of a worker's socket and a failed read both close its connection.
pub proof fn lemma_socket_end_closes(shard: Seq<char>, event: SocketEventView)
    requires
        event is Error || event is End,
    ensures
        next_link(LinkView::Streaming(shard), event) is Closed,
{
}

/// A frame that carries a response leaves it in the store under its request id, and the
/// connection goes on.
pub proof fn lemma_response_is_stored(
    shard: Seq<char>,
    frame: FrameView,
    held: Map<usize, ResponseView>,
)
    requires
        frame_response(frame) is Some,
    ensures
        next_link(LinkView::Streaming(shard), SocketEventView::Frame(frame)) == LinkView::Streaming(
            shard,
        ),
        taken(
            next_held(LinkView::Streaming(shard), SocketEventView::Frame(frame), held),
            frame_response(frame)->Some_0.request_id,
        ) == frame_response(frame),
{
}

} // verus!
