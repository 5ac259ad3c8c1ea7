//! The HTTP request dispatcher: from an inbound request to the envelope sent to a
//! worker, the bounded wait for the worker's response, and the HTTP answer.

use crate::envelope::{
    distinct_names, encode_request, ASGIResponse, OutGoingRequest, RequestView, ResponseView,
};
use crate::handshake::{handshake, upgrade_connection};
use crate::http::{
    ascii_text, fields_view, header_name_ok, header_text, is_header_name,
    header_value_ok, is_header_value, is_visible_text, status_accepted, HeaderFieldView,
    HttpRequest, HttpRequestView, HttpResponse, HttpResponseView,
};
use crate::json::{json_print, pairs_view, table_view, texts_view};
use crate::registry::{send_text, WorkerChannel, WorkerRegistry};
use crate::store::{after_take, taken, CorrelationStore};
use vstd::prelude::*;
use vstd::string::*;

verus! {

/// The id that is issued after `id`. Ids wrap around at the largest `usize`.
pub open spec fn next_after(id: usize) -> usize {
    if id == usize::MAX {
        0
    } else {
        (id + 1) as usize
    }
}

/// The id that a source hands out as its `k`-th next one, counted from zero, when its
/// next id is `first`.
pub open spec fn issued(first: usize, k: nat) -> usize
    decreases k,
{
    if k == 0 {
        first
    } else {
        next_after(issued(first, (k - 1) as nat))
    }
}

/// The source of request ids of one gateway instance.
pub struct RequestIds {
    next: usize,
}

impl RequestIds {
    /// The id that the next call of [`RequestIds::allocate`] hands out.
    pub closed spec fn next_id(&self) -> usize {
        self.next
    }

    /// A source whose first id is 1.
    pub fn new() -> (ids: Self)
        ensures
            ids.next_id() == 1,
    {
        RequestIds { next: 1 }
    }

    /// Hands out the next id.
    pub fn allocate(&mut self) -> (id: usize)
        ensures
            id == old(self).next_id(),
            final(self).next_id() == next_after(id),
    {
        let id = self.next;
        self.next = if id == usize::MAX {
            0
        } else {
            id + 1
        };
        id
    }

    /// The id that the next call of [`RequestIds::allocate`] hands out.
    pub fn peek(&self) -> (id: usize)
        ensures
            id == self.next_id(),
    {
        self.next
    }
}

/// Below the wrap-around, the `k`-th id is `first + k`.
pub proof fn lemma_issued_linear(first: usize, k: nat)
    requires
        first + k <= usize::MAX,
    ensures
        issued(first, k) == first + k,
    decreases k,
{
    if k > 0 {
        lemma_issued_linear(first, (k - 1) as nat);
        assert(issued(first, k) == next_after(issued(first, (k - 1) as nat)));
    } else {
        assert(issued(first, k) == first);
    }
}

/// Ids are issued in strictly increasing order, and so no id is issued twice, as long as
/// the source has not wrapped around.
pub proof fn lemma_ids_increase(first: usize, i: nat, j: nat)
    requires
        i < j,
        first + j <= usize::MAX,
    ensures
        issued(first, i) < issued(first, j),
{
    lemma_issued_linear(first, i);
    lemma_issued_linear(first, j);
}

/// The text that a header value is forwarded as: the value itself where it is visible
/// ASCII, and nothing otherwise.
pub open spec fn value_text(value: Seq<u8>) -> Seq<char> {
    if is_visible_text(value) {
        ascii_text(value)
    } else {
        Seq::empty()
    }
}

/// The place of the first pair named `name`.
pub open spec fn position(pairs: Seq<(Seq<char>, Seq<char>)>, name: Seq<char>) -> Option<int>
    decreases pairs.len(),
{
    if pairs.len() == 0 {
        None
    } else {
        match position(pairs.drop_last(), name) {
            Some(i) => Some(i),
            None => if pairs.last().0 == name {
                Some(pairs.len() - 1)
            } else {
                None
            },
        }
    }
}

/// `pairs` with `name` set to `text`: in place where the name occurs, at the end where it
/// does not.
pub open spec fn with_header(
    pairs: Seq<(Seq<char>, Seq<char>)>,
    name: Seq<char>,
    text: Seq<char>,
) -> Seq<(Seq<char>, Seq<char>)> {
    match position(pairs, name) {
        Some(i) => pairs.update(i, (name, text)),
        None => pairs.push((name, text)),
    }
}

/// The header map of the envelope for a request: each name once, with the value of its
/// last header line.
pub open spec fn header_pairs(fields: Seq<HeaderFieldView>) -> Seq<(Seq<char>, Seq<char>)>
    decreases fields.len(),
{
    if fields.len() == 0 {
        Seq::empty()
    } else {
        with_header(
            header_pairs(fields.drop_last()),
            fields.last().name,
            value_text(fields.last().value),
        )
    }
}

/// The envelope for a request under the id `id`.
pub open spec fn outgoing(req: HttpRequestView, id: usize) -> RequestView {
    RequestView {
        op: 0,
        request_id: id,
        method: req.method,
        remote: req.remote,
        path: req.path,
        headers: header_pairs(req.headers),
        version: "HTTP/1.1"@,
        body: Seq::empty(),
        query: match req.query {
            Some(query) => query,
            None => Seq::empty(),
        },
    }
}

/// [`position`] finds the first pair of the name, and finds none only where there is none.
pub proof fn lemma_position(pairs: Seq<(Seq<char>, Seq<char>)>, name: Seq<char>)
    ensures
        match position(pairs, name) {
            Some(i) => 0 <= i < pairs.len() && pairs[i].0 == name && forall|j: int|
                0 <= j < i ==> (#[trigger] pairs[j]).0 != name,
            None => forall|j: int| 0 <= j < pairs.len() ==> (#[trigger] pairs[j]).0 != name,
        },
    decreases pairs.len(),
{
    if pairs.len() > 0 {
        lemma_position(pairs.drop_last(), name);
        assert(position(pairs, name) == match position(pairs.drop_last(), name) {
            Some(i) => Some(i),
            None => if pairs.last().0 == name {
                Some(pairs.len() - 1)
            } else {
                None
            },
        });
        assert forall|j: int| 0 <= j < pairs.len() - 1 implies pairs.drop_last()[j]
            == pairs[j] by {}
    } else {
        assert(position(pairs, name) is None);
    }
}

/// Setting a header keeps the names distinct.
pub proof fn lemma_with_header_distinct(
    pairs: Seq<(Seq<char>, Seq<char>)>,
    name: Seq<char>,
    text: Seq<char>,
)
    requires
        distinct_names(pairs),
    ensures
        distinct_names(with_header(pairs, name, text)),
{
    lemma_position(pairs, name);
    let next = with_header(pairs, name, text);
    assert forall|i: int, j: int|
        0 <= i < next.len() && 0 <= j < next.len() && i != j implies (#[trigger] next[i]).0 != (
    #[trigger] next[j]).0 by {
        match position(pairs, name) {
            Some(p) => {
                if i != p {
                    assert(next[i] == pairs[i]);
                }
                if j != p {
                    assert(next[j] == pairs[j]);
                }
                assert(pairs[p].0 == name);
            },
            None => {
                if i < pairs.len() {
                    assert(next[i] == pairs[i]);
                }
                if j < pairs.len() {
                    assert(next[j] == pairs[j]);
                }
            },
        }
    }
}

/// The header map of an envelope names each header once.
pub proof fn lemma_header_pairs_distinct(fields: Seq<HeaderFieldView>)
    ensures
        distinct_names(header_pairs(fields)),
    decreases fields.len(),
{
    if fields.len() > 0 {
        lemma_header_pairs_distinct(fields.drop_last());
        lemma_with_header_distinct(
            header_pairs(fields.drop_last()),
            fields.last().name,
            value_text(fields.last().value),
        );
        assert(header_pairs(fields) == with_header(
            header_pairs(fields.drop_last()),
            fields.last().name,
            value_text(fields.last().value),
        ));
    } else {
        assert(header_pairs(fields) == Seq::<(Seq<char>, Seq<char>)>::empty());
    }
}

fn find_name(pairs: &Vec<(String, String)>, name: &String) -> (place: Option<usize>)
    ensures
        match place {
            Some(i) => position(pairs_view(pairs@), name@) == Some(i as int),
            None => position(pairs_view(pairs@), name@) is None,
        },
{
    let ghost views = pairs_view(pairs@);
    let mut i: usize = 0;
    while i < pairs.len()
        invariant
            i <= pairs.len(),
            views == pairs_view(pairs@),
            forall|j: int| 0 <= j < i ==> (#[trigger] views[j]).0 != name@,
        decreases pairs.len() - i,
    {
        if pairs[i].0 == *name {
            proof {
                assert(views[i as int].0 == name@);
                lemma_position(views, name@);
            }
            return Some(i);
        }
        i += 1;
    }
    proof {
        lemma_position(views, name@);
    }
    None
}

fn set_header(pairs: &mut Vec<(String, String)>, name: String, text: String)
    ensures
        pairs_view(final(pairs)@) == with_header(pairs_view(old(pairs)@), name@, text@),
{
    proof {
        lemma_position(pairs_view(pairs@), name@);
    }
    match find_name(pairs, &name) {
        Some(i) => {
            pairs.set(i, (name, text));
            assert(pairs_view(pairs@) =~= pairs_view(old(pairs)@).update(
                i as int,
                (name@, text@),
            ));
        },
        None => {
            pairs.push((name, text));
            assert(pairs_view(pairs@) =~= pairs_view(old(pairs)@).push((name@, text@)));
        },
    }
}

/// Builds the envelope for a request under the id `req_id`.
pub fn get_outgoing(req: &HttpRequest, req_id: usize) -> (envelope: OutGoingRequest)
    ensures
        envelope@ == outgoing(req@, req_id),
        envelope.well_formed(),
{
    let ghost fields = fields_view(req.headers@);
    let mut headers: Vec<(String, String)> = Vec::new();
    let mut i: usize = 0;
    assert(fields.take(0) =~= Seq::<HeaderFieldView>::empty());
    assert(pairs_view(headers@) =~= header_pairs(fields.take(0)));
    while i < req.headers.len()
        invariant
            i <= req.headers.len(),
            fields == fields_view(req.headers@),
            pairs_view(headers@) == header_pairs(fields.take(i as int)),
        decreases req.headers.len() - i,
    {
        let text = match header_text(&req.headers[i].value) {
            Some(t) => t,
            None => String::new(),
        };
        assert(fields.take(i + 1).drop_last() =~= fields.take(i as int));
        assert(fields.take(i + 1).last() == fields[i as int]);
        set_header(&mut headers, req.headers[i].name.clone(), text);
        i += 1;
    }
    assert(fields.take(req.headers.len() as int) =~= fields);
    proof {
        lemma_header_pairs_distinct(fields);
    }
    OutGoingRequest {
        op: 0,
        request_id: req_id,
        method: req.method.clone(),
        remote: req.remote.clone(),
        path: req.path.clone(),
        headers,
        version: String::from_str("HTTP/1.1"),
        body: String::new(),
        query: match &req.query {
            Some(query) => query.clone(),
            None => String::new(),
        },
    }
}

/// Why a worker's response cannot be handed on as an HTTP response.
#[derive(Debug, Clone, Copy, PartialEq, Eq, Structural)]
pub enum RenderError {
    /// The status is not a number from 100 to 999.
    InvalidStatus,
    /// A header row holds fewer than a name and a value.
    ShortHeaderRow,
    /// A header row's name is no HTTP header name.
    InvalidHeaderName,
    /// A header row's value holds a control character.
    InvalidHeaderValue,
}

/// What is wrong with a header row, if anything.
pub open spec fn row_fault(row: Seq<Seq<char>>) -> Option<RenderError> {
    if row.len() < 2 {
        Some(RenderError::ShortHeaderRow)
    } else if !is_header_name(row[0]) {
        Some(RenderError::InvalidHeaderName)
    } else if !is_header_value(row[1]) {
        Some(RenderError::InvalidHeaderValue)
    } else {
        None
    }
}

/// The fault of the first header row that has one.
pub open spec fn first_fault(rows: Seq<Seq<Seq<char>>>) -> Option<RenderError>
    decreases rows.len(),
{
    if rows.len() == 0 {
        None
    } else {
        match row_fault(rows[0]) {
            Some(e) => Some(e),
            None => first_fault(rows.drop_first()),
        }
    }
}

/// The header lines that the rows stand for: the first two items of each.
pub open spec fn header_lines(rows: Seq<Seq<Seq<char>>>) -> Seq<(Seq<char>, Seq<char>)> {
    Seq::new(rows.len(), |i: int| (rows[i][0], rows[i][1]))
}

/// The HTTP response that a worker's response is handed on as, or why there is none.
pub open spec fn render(response: ResponseView) -> Result<HttpResponseView, RenderError> {
    if !(100 <= response.status < 1000) {
        Err(RenderError::InvalidStatus)
    } else {
        match first_fault(response.headers) {
            Some(e) => Err(e),
            None => Ok(
                HttpResponseView {
                    status: response.status,
                    headers: header_lines(response.headers),
                    body: response.body,
                },
            ),
        }
    }
}

/// A response without header lines.
pub open spec fn plain_response(status: u16, body: Seq<char>) -> HttpResponseView {
    HttpResponseView { status, headers: Seq::empty(), body }
}

/// The answer when the chosen shard has no worker.
pub open spec fn no_workers() -> HttpResponseView {
    plain_response(503, "No workers active"@)
}

/// The answer when the wait for the worker's response ran out.
pub open spec fn timed_out() -> HttpResponseView {
    plain_response(503, "Server took too long to respond."@)
}

/// The answer when the worker's response cannot be handed on.
pub open spec fn render_failed() -> HttpResponseView {
    plain_response(500, "Internal Server Error"@)
}

/// The answer to a request on the worker port for any path but `/workers`.
pub open spec fn not_found() -> HttpResponseView {
    plain_response(404, "Not Found"@)
}

/// The answer to the client once the worker's response is there.
pub open spec fn answer(response: ResponseView) -> HttpResponseView {
    match render(response) {
        Ok(r) => r,
        Err(_) => render_failed(),
    }
}

proof fn lemma_first_fault_skip(rows: Seq<Seq<Seq<char>>>, n: int)
    requires
        0 <= n <= rows.len(),
        forall|i: int| 0 <= i < n ==> row_fault(#[trigger] rows[i]) is None,
    ensures
        first_fault(rows) == first_fault(rows.skip(n)),
    decreases n,
{
    if n > 0 {
        assert(row_fault(rows[0]) is None);
        assert(first_fault(rows) == first_fault(rows.drop_first()));
        assert forall|i: int| 0 <= i < n - 1 implies row_fault(#[trigger] rows.drop_first()[i])
            is None by {
            assert(rows.drop_first()[i] == rows[i + 1]);
        }
        lemma_first_fault_skip(rows.drop_first(), n - 1);
        assert(rows.drop_first().skip(n - 1) =~= rows.skip(n));
    } else {
        assert(rows.skip(0) =~= rows);
    }
}

fn plain(status: u16, body: &str) -> (response: HttpResponse)
    ensures
        response@ == plain_response(status, body@),
{
    let response = HttpResponse { status, headers: Vec::new(), body: String::from_str(body) };
    assert(response@.headers =~= Seq::<(Seq<char>, Seq<char>)>::empty());
    response
}

fn check_row(row: &Vec<String>) -> (fault: Option<RenderError>)
    ensures
        fault == row_fault(texts_view(row@)),
{
    if row.len() < 2 {
        Some(RenderError::ShortHeaderRow)
    } else if !header_name_ok(row[0].as_str()) {
        Some(RenderError::InvalidHeaderName)
    } else if !header_value_ok(row[1].as_str()) {
        Some(RenderError::InvalidHeaderValue)
    } else {
        None
    }
}

/// Turns a worker's response into the HTTP response for the client: its status, a header
/// line for each row in order, and its body.
pub fn build_response(asgi_resp: &ASGIResponse) -> (rendered: Result<HttpResponse, RenderError>)
    ensures
        match rendered {
            Ok(resp) => render(asgi_resp@) == Ok::<HttpResponseView, RenderError>(resp@),
            Err(e) => render(asgi_resp@) == Err::<HttpResponseView, RenderError>(e),
        },
{
    if !status_accepted(asgi_resp.status) {
        return Err(RenderError::InvalidStatus);
    }
    let ghost rows = table_view(asgi_resp.headers@);
    let mut lines: Vec<(String, String)> = Vec::new();
    let mut i: usize = 0;
    while i < asgi_resp.headers.len()
        invariant
            i <= asgi_resp.headers.len(),
            rows == table_view(asgi_resp.headers@),
            100 <= asgi_resp.status < 1000,
            lines.len() == i,
            forall|k: int| 0 <= k < i ==> row_fault(#[trigger] rows[k]) is None,
            forall|k: int|
                0 <= k < i ==> (#[trigger] lines[k]).0@ == rows[k][0] && lines[k].1@
                    == rows[k][1],
        decreases asgi_resp.headers.len() - i,
    {
        let row = &asgi_resp.headers[i];
        assert(rows[i as int] == texts_view(row@));
        match check_row(row) {
            Some(fault) => {
                proof {
                    lemma_first_fault_skip(rows, i as int);
                    assert(rows.skip(i as int)[0] == rows[i as int]);
                    assert(first_fault(rows.skip(i as int)) == Some(fault));
                }
                return Err(fault);
            },
            None => {
                lines.push((row[0].clone(), row[1].clone()));
            },
        }
        i += 1;
    }
    proof {
        lemma_first_fault_skip(rows, rows.len() as int);
        assert(pairs_view(lines@) =~= header_lines(rows));
    }
    Ok(HttpResponse { status: asgi_resp.status, headers: lines, body: asgi_resp.body.clone() })
}

/// The answer to the client for a worker's response: the rendered response, or the
/// server-error answer where it cannot be rendered.
pub fn respond_with(asgi_resp: &ASGIResponse) -> (response: HttpResponse)
    ensures
        response@ == answer(asgi_resp@),
{
    match build_response(asgi_resp) {
        Ok(response) => response,
        Err(_) => plain(500, "Internal Server Error"),
    }
}

/// Hands the envelope, as JSON text, to the channel of `shard_id` and tells what became of
/// it. Nothing is handed on exactly where the shard has no channel.
pub fn send_to_ws(shard_id: &str, workers: &WorkerRegistry, outgoing: &OutGoingRequest) -> (sent:
    Delivery)
    ensures
        sent is NoWorker <==> !workers@.contains_key(shard_id@),
        sent is Refused ==> sent->Refused_0@ == frame_text(outgoing@),
{
    match workers.get(shard_id) {
        Some(channel) => {
            let took = send_text(channel, outgoing.to_json_text());
            delivery(took, outgoing)
        },
        None => Delivery::NoWorker,
    }
}

/// What became of an envelope that was to be sent to a worker.
#[derive(Debug, Clone, PartialEq, Eq)]
pub enum Delivery {
    /// The shard has no channel, so the envelope went nowhere.
    NoWorker,
    /// The channel took the frame.
    Queued,
    /// The channel is closed and did not take the frame, which is given here.
    Refused(String),
}

/// The text of the frame that carries an envelope.
pub open spec fn frame_text(envelope: RequestView) -> Seq<char> {
    json_print(encode_request(envelope))
}

/// What became of an envelope once its channel has said whether it took the frame.
pub fn delivery(took: bool, outgoing: &OutGoingRequest) -> (sent: Delivery)
    ensures
        took ==> sent is Queued,
        !took ==> sent is Refused && sent->Refused_0@ == frame_text(outgoing@),
{
    if took {
        Delivery::Queued
    } else {
        Delivery::Refused(outgoing.to_json_text())
    }
}

/// The length of one sleep between two looks into the store, in microseconds.
pub const POLL_INTERVAL_MICROS: u64 = 25;

/// How many times the wait looks again after the first look.
pub const MAX_POLLS: u16 = 400;

/// What the caller of the dispatcher does next.
#[derive(Debug, PartialEq, Eq)]
pub enum Step {
    /// Sleep for one poll interval, then call [`wait_for_response`] with these values.
    Sleep { request_id: usize, polls: u16 },
    /// Send this answer to the client; the exchange is over.
    Respond(HttpResponse),
}

pub enum StepView {
    Sleep { request_id: usize, polls: u16 },
    Respond(HttpResponseView),
}

impl View for Step {
    type V = StepView;

    open spec fn view(&self) -> StepView {
        match self {
            Step::Sleep { request_id, polls } => StepView::Sleep {
                request_id: *request_id,
                polls: *polls,
            },
            Step::Respond(response) => StepView::Respond(response@),
        }
    }
}

/// The step after one look into the store for the response to `request_id`, the `polls`-th
/// after the first.
pub open spec fn look(held: Map<usize, ResponseView>, request_id: usize, polls: u16) -> StepView {
    match taken(held, request_id) {
        Some(response) => StepView::Respond(answer(response)),
        None => StepView::Sleep { request_id, polls },
    }
}

/// The first step of a dispatch: without a worker for the shard the answer is at hand,
/// else the request goes out under `next_id` and the store is looked into once.
pub open spec fn first_step(
    registered: bool,
    next_id: usize,
    held: Map<usize, ResponseView>,
) -> StepView {
    if !registered {
        StepView::Respond(no_workers())
    } else {
        look(held, next_id, 0)
    }
}

/// The step after a sleep: the wait is over once `polls` has reached [`MAX_POLLS`], else the
/// store is looked into again.
pub open spec fn next_step(
    held: Map<usize, ResponseView>,
    request_id: usize,
    polls: u16,
) -> StepView {
    if polls >= MAX_POLLS {
        StepView::Respond(timed_out())
    } else {
        look(held, request_id, (polls + 1) as u16)
    }
}

fn look_once(request_id: usize, polls: u16, cache: &mut CorrelationStore) -> (step: Step)
    ensures
        step@ == look(old(cache)@, request_id, polls),
        final(cache)@ == after_take(old(cache)@, request_id),
{
    match cache.take(request_id) {
        Some(response) => Step::Respond(respond_with(&response)),
        None => Step::Sleep { request_id, polls },
    }
}

/// Starts the dispatch of one request to the worker of `shard`, and tells the next step
/// and what became of the envelope.
///
/// Without a worker for the shard the answer is `503` at once, no request id is used and
/// nothing is sent. Otherwise the request is sent under a fresh id and the store is looked
/// into for the first time, whether or not the channel took the frame.
pub fn handle_incoming(
    req: &HttpRequest,
    shard: &str,
    workers: &WorkerRegistry,
    ids: &mut RequestIds,
    cache: &mut CorrelationStore,
) -> (started: (Step, Delivery))
    ensures
        started.0@ == first_step(workers@.contains_key(shard@), old(ids).next_id(), old(cache)@),
        started.1 is NoWorker <==> !workers@.contains_key(shard@),
        started.1 is Refused ==> started.1->Refused_0@ == frame_text(
            outgoing(req@, old(ids).next_id()),
        ),
        !workers@.contains_key(shard@) ==> final(ids).next_id() == old(ids).next_id()
            && final(cache)@ == old(cache)@,
        workers@.contains_key(shard@) ==> final(ids).next_id() == next_after(old(ids).next_id())
            && final(cache)@ == after_take(old(cache)@, old(ids).next_id()),
{
    if !workers.is_registered(shard) {
        return (Step::Respond(plain(503, "No workers active")), Delivery::NoWorker);
    }
    let req_id = ids.allocate();
    let outgoing = get_outgoing(req, req_id);
    let sent = send_to_ws(shard, workers, &outgoing);
    (look_once(req_id, 0, cache), sent)
}

/// Goes on with the wait for the response to `request_id` after a sleep that followed the
/// `polls`-th look after the first.
pub fn wait_for_response(request_id: usize, polls: u16, cache: &mut CorrelationStore) -> (step:
    Step)
    ensures
        step@ == next_step(old(cache)@, request_id, polls),
        polls >= MAX_POLLS ==> final(cache)@ == old(cache)@,
        polls < MAX_POLLS ==> final(cache)@ == after_take(old(cache)@, request_id),
{
    if polls >= MAX_POLLS {
        Step::Respond(plain(503, "Server took too long to respond."))
    } else {
        look_once(request_id, polls + 1, cache)
    }
}

/// Answers a request on the worker port: the handshake on `/workers`, `404` elsewhere.
/// `Ok` holds the `101` answer, after which the connection is a worker's socket.
pub fn handle_workers_incoming(req: &HttpRequest) -> (outcome: Result<HttpResponse, HttpResponse>)
    ensures
        req@.path == "/workers"@ ==> match outcome {
            Ok(resp) => handshake(req@) == Ok::<HttpResponseView, HttpResponseView>(resp@),
            Err(resp) => handshake(req@) == Err::<HttpResponseView, HttpResponseView>(resp@),
        },
        req@.path != "/workers"@ ==> outcome is Err && outcome->Err_0@ == not_found(),
{
    if req.path == String::from_str("/workers") {
        upgrade_connection(req)
    } else {
        Err(plain(404, "Not Found"))
    }
}

/// How many more sleeps follow a wait step at `polls`, as long as the store holds what
/// `held` holds.
pub open spec fn sleeps_after(held: Map<usize, ResponseView>, request_id: usize, polls: u16) -> nat
    decreases MAX_POLLS - polls,
{
    match next_step(held, request_id, polls) {
        StepView::Sleep { polls: next, .. } => if polls < next <= MAX_POLLS {
            1 + sleeps_after(held, request_id, next)
        } else {
            0
        },
        StepView::Respond(_) => 0,
    }
}

/// While the response is not in the store, a wait step sleeps again below [`MAX_POLLS`] and
/// gives the time-out answer at it, and the store stays as it is.
pub proof fn lemma_wait_without_response(
    held: Map<usize, ResponseView>,
    request_id: usize,
    polls: u16,
)
    requires
        !held.contains_key(request_id),
    ensures
        polls < MAX_POLLS ==> next_step(held, request_id, polls) == (StepView::Sleep {
            request_id,
            polls: (polls + 1) as u16,
        }),
        polls >= MAX_POLLS ==> next_step(held, request_id, polls) == StepView::Respond(timed_out()),
        after_take(held, request_id) == held,
{
    assert(after_take(held, request_id) =~= held);
}

/// A wait whose response never comes sleeps `MAX_POLLS - polls` more times after the step
/// at `polls`.
pub proof fn lemma_sleeps_after(held: Map<usize, ResponseView>, request_id: usize, polls: u16)
    requires
        !held.contains_key(request_id),
        polls <= MAX_POLLS,
    ensures
        sleeps_after(held, request_id, polls) == MAX_POLLS - polls,
    decreases MAX_POLLS - polls,
{
    lemma_wait_without_response(held, request_id, polls);
    if polls < MAX_POLLS {
        lemma_sleeps_after(held, request_id, (polls + 1) as u16);
        assert(sleeps_after(held, request_id, polls) == 1 + sleeps_after(
            held,
            request_id,
            (polls + 1) as u16,
        ));
    } else {
        assert(sleeps_after(held, request_id, polls) == 0);
    }
}

/// A dispatch to a registered shard whose response never comes starts with a sleep and
/// makes 401 sleeps, 10025 microseconds in all, before it answers.
pub proof fn lemma_wait_budget(held: Map<usize, ResponseView>, request_id: usize)
    requires
        !held.contains_key(request_id),
    ensures
        first_step(true, request_id, held) == (StepView::Sleep { request_id, polls: 0 }),
        1 + sleeps_after(held, request_id, 0) == 401,
        (1 + sleeps_after(held, request_id, 0)) * POLL_INTERVAL_MICROS == 10025,
{
    lemma_sleeps_after(held, request_id, 0);
}

/// A dispatch to a shard that is not in the registry is answered at once with "No workers
/// active", whatever the store holds.
pub proof fn lemma_dispatch_without_worker(
    workers: Map<Seq<char>, WorkerChannel>,
    shard: Seq<char>,
    next_id: usize,
    held: Map<usize, ResponseView>,
)
    requires
        !workers.contains_key(shard),
    ensures
        first_step(workers.contains_key(shard), next_id, held) == StepView::Respond(no_workers()),
{
}

} // verus!
