//! The correlation store: responses of workers, kept until the request that waits for
//! them takes them.

use crate::envelope::{ASGIResponse, ResponseView};
use std::collections::HashMap;
use vstd::prelude::*;

verus! {

/// What a store holds after `response` was put under `id`.
pub open spec fn after_put(
    held: Map<usize, ResponseView>,
    id: usize,
    response: ResponseView,
) -> Map<usize, ResponseView> {
    held.insert(id, response)
}

/// What a take of `id` hands out.
pub open spec fn taken(held: Map<usize, ResponseView>, id: usize) -> Option<ResponseView> {
    if held.contains_key(id) {
        Some(held[id])
    } else {
        None
    }
}

/// What a store holds after a take of `id`.
pub open spec fn after_take(held: Map<usize, ResponseView>, id: usize) -> Map<usize, ResponseView> {
    held.remove(id)
}

/// Responses by request id. A response leaves the store with the take that hands it out.
pub struct CorrelationStore {
    responses: HashMap<usize, ASGIResponse>,
}

impl View for CorrelationStore {
    type V = Map<usize, ResponseView>;

    closed spec fn view(&self) -> Map<usize, ResponseView> {
        self.responses@.map_values(|r: ASGIResponse| r@)
    }
}

impl CorrelationStore {
    /// An empty store.
    pub fn new() -> (store: Self)
        ensures
            store@ == Map::<usize, ResponseView>::empty(),
    {
        let store = CorrelationStore { responses: HashMap::new() };
        assert(store@ =~= Map::<usize, ResponseView>::empty());
        store
    }

    /// Keeps `response` under `request_id`, in place of any response kept under it.
    pub fn put(&mut self, request_id: usize, response: ASGIResponse)
        ensures
            final(self)@ == after_put(old(self)@, request_id, response@),
    {
        self.responses.insert(request_id, response);
        assert(self@ =~= after_put(old(self)@, request_id, response@));
    }

    /// Hands out the response kept under `request_id` and removes it in the same step.
    pub fn take(&mut self, request_id: usize) -> (response: Option<ASGIResponse>)
        ensures
            match response {
                Some(r) => taken(old(self)@, request_id) == Some(r@),
                None => taken(old(self)@, request_id) is None,
            },
            final(self)@ == after_take(old(self)@, request_id),
    {
        let response = self.responses.remove(&request_id);
        assert(self@ =~= after_take(old(self)@, request_id));
        response
    }

    /// Whether a response is kept under `request_id`.
    pub fn contains(&self, request_id: usize) -> (present: bool)
        ensures
            present == self@.contains_key(request_id),
    {
        self.responses.contains_key(&request_id)
    }
}

/// A response is handed out at most once: after a take of `id`, whatever it gave, the next
/// take of `id` gives nothing.
pub proof fn lemma_take_once(held: Map<usize, ResponseView>, id: usize)
    ensures
        taken(after_take(held, id), id) is None,
{
}

/// A take of one id leaves the responses of all others where they are.
pub proof fn lemma_take_keeps_others(held: Map<usize, ResponseView>, id: usize, other: usize)
    requires
        other != id,
    ensures
        taken(after_take(held, id), other) == taken(held, other),
{
}

/// What was put under an id is what the next take of it hands out.
pub proof fn lemma_put_then_take(held: Map<usize, ResponseView>, id: usize, response: ResponseView)
    ensures
        taken(after_put(held, id, response), id) == Some(response),
{
}

} // verus!
