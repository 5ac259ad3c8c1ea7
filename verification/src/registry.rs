//! The worker registry: which shard is served by which outbound channel.

use tokio::sync::mpsc::UnboundedSender;
use tokio_tungstenite::tungstenite::error::Error;
use tokio_tungstenite::tungstenite::protocol::Message;
use vstd::hash_map::StringHashMap;
use vstd::prelude::*;

verus! {

/// The sending half of tokio's unbounded channel.
#[verifier::external_type_specification]
#[verifier::external_body]
#[verifier::reject_recursive_types(T)]
pub struct ExUnboundedSender<T>(UnboundedSender<T>);

/// A WebSocket message of tungstenite.
#[verifier::external_type_specification]
#[verifier::external_body]
pub struct ExMessage(Message);

/// The error type of tungstenite.
#[verifier::external_type_specification]
#[verifier::external_body]
pub struct ExError(Error);

/// The channel on which frames for one worker are queued; what is sent on it is written
/// to that worker's socket.
pub type WorkerChannel = UnboundedSender<Result<Message, Error>>;

/// The name under which a worker is registered when it does not identify itself.
pub const DEFAULT_SHARD: &'static str = "main";

/// The name under which a worker is registered when it does not identify itself.
pub open spec fn default_shard() -> Seq<char> {
    DEFAULT_SHARD@
}

/// Which shard is served by which channel. A shard has at most one channel: registering
/// it again replaces the channel it had.
pub struct WorkerRegistry {
    workers: StringHashMap<WorkerChannel>,
}

impl View for WorkerRegistry {
    type V = Map<Seq<char>, WorkerChannel>;

    closed spec fn view(&self) -> Map<Seq<char>, WorkerChannel> {
        self.workers@
    }
}

impl WorkerRegistry {
    /// A registry without workers.
    pub fn new() -> (registry: Self)
        ensures
            registry@ == Map::<Seq<char>, WorkerChannel>::empty(),
    {
        WorkerRegistry { workers: StringHashMap::new() }
    }

    /// Installs `channel` as the channel of `shard`, in place of any it had.
    pub fn register(&mut self, shard: String, channel: WorkerChannel)
        ensures
            final(self)@ == old(self)@.insert(shard@, channel),
    {
        self.workers.insert(shard, channel);
    }

    /// Takes `shard` out of the registry.
    pub fn deregister(&mut self, shard: &str)
        ensures
            final(self)@ == old(self)@.remove(shard@),
    {
        self.workers.remove(shard);
    }

    /// The channel of `shard`, where it has one.
    pub fn get(&self, shard: &str) -> (channel: Option<&WorkerChannel>)
        ensures
            match channel {
                Some(c) => self@.contains_key(shard@) && *c == self@[shard@],
                None => !self@.contains_key(shard@),
            },
    {
        self.workers.get(shard)
    }

    /// Whether `shard` has a channel.
    pub fn is_registered(&self, shard: &str) -> (present: bool)
        ensures
            present == self@.contains_key(shard@),
    {
        self.workers.contains_key(shard)
    }
}

/// Registering a shard twice leaves it with the channel registered last.
pub proof fn lemma_last_registered_wins(
    workers: Map<Seq<char>, WorkerChannel>,
    shard: Seq<char>,
    first: WorkerChannel,
    second: WorkerChannel,
)
    ensures
        workers.insert(shard, first).insert(shard, second) == workers.insert(shard, second),
{
    assert(workers.insert(shard, first).insert(shard, second) =~= workers.insert(shard, second));
}

/// Queues a text frame with tokio's `UnboundedSender::send` and tells whether the channel
/// took it. It refuses once the receiving half is closed or dropped, which is for the
/// other side to decide, so nothing is promised of the answer.
#[verifier::external_body]
pub(crate) fn send_text(channel: &WorkerChannel, text: String) -> (sent: bool) {
    channel.send(Ok(Message::Text(text))).is_ok()
}

} // verus!
