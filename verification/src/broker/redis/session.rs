//! A Redis broker and what it does on its connection.

use vstd::prelude::*;
use vstd::utf8::{encode_utf8, encode_utf8_decode_utf8, encode_utf8_valid_utf8};

use crate::broker::consumer_tag::{is_random_uuid, new_consumer_tag};
use crate::broker::prefetch::{clamp_prefetch, prefetch_limit};
use crate::broker::redis::batch::RedisStreamsBatchReader;
use crate::broker::redis::config::RedisBrokerBuilder;
use crate::broker::redis::consumer::{Consumer, ConsumerView};
use crate::broker::redis::declare::{
    all_declared, in_progress, queues_of_kind, read_options, DeclareTask,
};
use crate::broker::redis::queue::{declared_views, QueueConfig, QueueView, RedisQueue};
use crate::broker::redis::reconnect::{ReconnectPhase, ReconnectTask};
use crate::broker::redis::stream::{item_of, StreamEntryView, StreamItemView, StreamValue};
use crate::broker::redis::url::{redis_url_of, showable, shown};
use crate::error::BrokerError;
use crate::string_map::StringMap;

verus! {

/// A Redis broker.
#[derive(Debug)]
pub struct RedisBroker {
    pub uri: String,
    /// How many deliveries are worked on at once.
    pub prefetch_count: u16,
    /// Unique consumer name for this process
    pub consumer: String,
    /// Mapping of queue name to declared queue.
    pub queues: StringMap<RedisQueue>,
    /// What was asked for of each queue.
    pub queue_declare_options: StringMap<QueueConfig>,
}

/// The model of a [`RedisBroker`].
#[verifier::ext_equal]
pub struct BrokerView {
    pub uri: Seq<char>,
    pub prefetch_count: u16,
    pub consumer: Seq<char>,
    pub queues: Map<Seq<char>, QueueView>,
    pub queue_declare_options: Map<Seq<char>, QueueConfig>,
}

impl View for RedisBroker {
    type V = BrokerView;

    open spec fn view(&self) -> BrokerView {
        BrokerView {
            uri: self.uri@,
            prefetch_count: self.prefetch_count,
            consumer: self.consumer@,
            queues: declared_views(self.queues@),
            queue_declare_options: self.queue_declare_options@,
        }
    }
}

/// An entry with one field on its way to a stream.
#[derive(Debug, PartialEq, Eq)]
pub struct StreamAddition {
    pub key: String,
    /// The ID of the entry; the server makes one up for a star.
    pub id: String,
    pub field: String,
    pub value: String,
}

/// The model of a [`StreamAddition`].
pub struct AdditionView {
    pub key: Seq<char>,
    pub id: Seq<char>,
    pub field: Seq<char>,
    pub value: Seq<char>,
}

impl View for StreamAddition {
    type V = AdditionView;

    open spec fn view(&self) -> AdditionView {
        AdditionView {
            key: self.key@,
            id: self.id@,
            field: self.field@,
            value: self.value@,
        }
    }
}

/// The entry that carries an encoded message to a queue.
pub open spec fn addition(queue: Seq<char>, json: Seq<char>) -> AdditionView {
    AdditionView { key: queue, id: "*"@, field: "json"@, value: json }
}

/// What is sent to a queue is read from its stream: an entry whose fields hold the bytes of
/// what was added is an item of that stream with the encoded message.
pub proof fn sent_text_is_read(
    queue: Seq<char>,
    json: Seq<char>,
    id: Seq<char>,
    fields: Map<Seq<char>, StreamValue>,
    bytes: Vec<u8>,
)
    requires
        bytes@ == encode_utf8(addition(queue, json).value),
        fields.contains_key(addition(queue, json).field),
        fields[addition(queue, json).field] == StreamValue::BulkString(bytes),
    ensures
        item_of(addition(queue, json).key, StreamEntryView { id, fields }) == Some(
            StreamItemView { key: queue, id, json: Some(json) },
        ),
{
    encode_utf8_valid_utf8(json);
    encode_utf8_decode_utf8(json);
}

/// Copies what is asked for of some queues.
fn copy_queues(queues: &StringMap<QueueConfig>) -> (r: StringMap<QueueConfig>)
    ensures
        r@ == queues@,
{
    let count = queues.len();
    let ghost keys = queues.keys();
    let mut copy: StringMap<QueueConfig> = StringMap::new();
    let mut i: usize = 0;
    while i < count
        invariant
            i <= count,
            count == keys.len(),
            keys == queues.keys(),
            forall|key: Seq<char>| queues@.contains_key(key) <==> #[trigger] keys.contains(key),
            forall|key: Seq<char>| #[trigger]
                copy@.contains_key(key) <==> exists|j: int| 0 <= j < i && #[trigger] keys[j] == key,
            forall|key: Seq<char>| #[trigger]
                copy@.contains_key(key) ==> queues@.contains_key(key) && copy@[key] == queues@[key],
        decreases count - i,
    {
        let key = queues.key(i).to_owned();
        copy.insert(key, *queues.value(i));
        i = i + 1;
    }
    proof {
        assert forall|key: Seq<char>| queues@.contains_key(key) implies #[trigger]
            copy@.contains_key(key) by {
            assert(keys.contains(key));
        }
        assert(copy@ =~= queues@);
    }
    copy
}

impl RedisBrokerBuilder {
    /// The reader of the queues of one kind.
    pub fn reader(&self, broadcast: bool, connection_timeout: u32, consumer: &str) -> (r:
        RedisStreamsBatchReader)
        ensures
            r@.size == queues_of_kind(self@.queues, broadcast).len(),
            r@.options == read_options(broadcast, connection_timeout, consumer@),
            r@.processed == Map::<Seq<char>, Seq<Seq<char>>>::empty(),
    {
        crate::broker::redis::declare::reader_of_kind(
            &self.config.queues,
            broadcast,
            connection_timeout,
            consumer,
        )
    }

    /// Starts the declaration of the queues for a consumer.
    pub fn declare_queues<'a>(&'a self, consumer: &'a str) -> (r: DeclareTask<'a>)
        ensures
            r@.configs == self@.queues,
            r@.consumer == consumer@,
            r@.declared == Map::<Seq<char>, QueueView>::empty(),
            r@.setup is None,
            in_progress(r@),
    {
        crate::broker::redis::declare::declare_queues(&self.config.queues, consumer)
    }

    /// Construct the broker with the given configuration, once there is a connection and the
    /// queues are declared.
    pub fn build(&self, consumer: String, queues: StringMap<RedisQueue>) -> (r: RedisBroker)
        ensures
            r@ == (BrokerView {
                uri: self@.broker_url,
                prefetch_count: prefetch_limit(self@.prefetch_count),
                consumer: consumer@,
                queues: declared_views(queues@),
                queue_declare_options: self@.queues,
            }),
    {
        RedisBroker {
            uri: self.config.broker_url.clone(),
            prefetch_count: clamp_prefetch(self.config.prefetch_count),
            consumer,
            queues,
            queue_declare_options: copy_queues(&self.config.queues),
        }
    }
}

impl BrokerView {
    /// The stream of a queue. One that was not declared here has the stream of its name.
    pub open spec fn stream_of(self, queue: Seq<char>) -> Seq<char> {
        if self.queues.contains_key(queue) {
            self.queues[queue].queue
        } else {
            queue
        }
    }
}

/// Where the queues were declared as they were asked for, every message goes to the stream of
/// the name that it is sent to, whether that queue was declared or not.
pub proof fn messages_go_to_their_stream(broker: BrokerView, queue: Seq<char>)
    requires
        all_declared(broker.queue_declare_options, broker.queues),
    ensures
        broker.stream_of(queue) == queue,
{
}

impl RedisBroker {
    /// The URL of the broker in a form that may be shown.
    pub fn safe_url(&self) -> (r: String)
        requires
            showable(redis_url_of(self@.uri)),
        ensures
            r@ == shown(redis_url_of(self@.uri)),
    {
        crate::broker::redis::url::safe_url(self.uri.as_str())
    }

    /// The URL of the broker in a form that may be shown, if there is one.
    pub fn try_safe_url(&self) -> (r: Option<String>)
        ensures
            match r {
                Some(text) => showable(redis_url_of(self@.uri)) && text@ == shown(
                    redis_url_of(self@.uri),
                ),
                None => !showable(redis_url_of(self@.uri)),
            },
    {
        if crate::broker::redis::url::try_safe_url(self.uri.as_str()).is_some() {
            Some(self.safe_url())
        } else {
            None
        }
    }

    /// A consumer of a queue, under a new name. The queue must have been declared.
    pub fn consume(&self, queue: &str) -> (r: Result<(String, Consumer), BrokerError>)
        ensures
            if self@.queues.contains_key(queue@) {
                r matches Ok(named) && is_random_uuid(named.0@) && named.1@ == (ConsumerView {
                    queue: self@.queues[queue@],
                    last_id: None,
                    held: None,
                })
            } else {
                r matches Err(BrokerError::UnknownQueue(name)) && name@ == queue@
            },
    {
        match self.queues.get(queue) {
            Some(declared) => Ok((new_consumer_tag(), Consumer::new(declared.clone()))),
            None => Err(BrokerError::UnknownQueue(queue.to_owned())),
        }
    }

    /// The entry that carries an encoded message to a queue, declared or not.
    pub fn send(&self, json: String, queue: &str) -> (r: StreamAddition)
        ensures
            r@ == addition(self@.stream_of(queue@), json@),
    {
        let key = match self.queues.get(queue) {
            Some(declared) => declared.name().to_owned(),
            None => queue.to_owned(),
        };
        StreamAddition { key, id: "*".to_owned(), field: "json".to_owned(), value: json }
    }

    /// Forgets all queues, before the connection is closed.
    pub fn close(&mut self)
        ensures
            final(self)@ == (BrokerView { queues: Map::empty(), ..old(self)@ }),
    {
        self.queues.clear();
        assert(declared_views(self.queues@) =~= Map::empty());
    }

    /// Starts an attempt to connect again within some seconds.
    pub fn reconnect(&self, connection_timeout: u32) -> (r: ReconnectTask)
        ensures
            r == (ReconnectTask {
                timeout: connection_timeout,
                permits: 0,
                error: BrokerError::NotConnected,
                phase: ReconnectPhase::Ready,
            }),
    {
        ReconnectTask::new(connection_timeout)
    }

    /// The reader of the queues of one kind on a new connection.
    pub fn reader(&self, broadcast: bool, connection_timeout: u32) -> (r: RedisStreamsBatchReader)
        ensures
            r@.size == queues_of_kind(self@.queue_declare_options, broadcast).len(),
            r@.options == read_options(broadcast, connection_timeout, self@.consumer),
            r@.processed == Map::<Seq<char>, Seq<Seq<char>>>::empty(),
    {
        crate::broker::redis::declare::reader_of_kind(
            &self.queue_declare_options,
            broadcast,
            connection_timeout,
            self.consumer.as_str(),
        )
    }

    /// Starts the declaration of the queues on a new connection.
    pub fn declare_queues(&self) -> (r: DeclareTask)
        ensures
            r@.configs == self@.queue_declare_options,
            r@.consumer == self@.consumer,
            r@.declared == Map::<Seq<char>, QueueView>::empty(),
            r@.setup is None,
            in_progress(r@),
    {
        crate::broker::redis::declare::declare_queues(
            &self.queue_declare_options,
            self.consumer.as_str(),
        )
    }

    /// Goes on with the queues that were declared on a new connection.
    pub fn reconnected(&mut self, queues: StringMap<RedisQueue>)
        ensures
            final(self)@ == (BrokerView { queues: declared_views(queues@), ..old(self)@ }),
    {
        self.queues = queues;
    }
}

/// A message is added to the stream that it is for, under an ID that the server makes up, as the
/// whole text of its field.
pub proof fn messages_are_added_whole(queue: Seq<char>, json: Seq<char>)
    ensures
        addition(queue, json).key == queue,
        addition(queue, json).id == "*"@,
        addition(queue, json).field == "json"@,
        addition(queue, json).value == json,
{
}

/// A declared queue is reached by its stream and one that was not declared by its name. Declaring
/// one queue changes nothing for the others.
pub proof fn undeclared_queues_are_reached_by_name(
    broker: BrokerView,
    queue: Seq<char>,
    other: Seq<char>,
    declared: QueueView,
)
    ensures
        !broker.queues.contains_key(queue) ==> broker.stream_of(queue) == queue,
        broker.queues.contains_key(queue) ==> broker.stream_of(queue)
            == broker.queues[queue].queue,
        other != queue ==> (BrokerView { queues: broker.queues.insert(other, declared), ..broker })
            .stream_of(queue) == broker.stream_of(queue),
{
}

} // verus!
