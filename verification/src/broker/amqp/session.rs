//! An AMQP broker and what it does on its connection.

use vstd::prelude::*;

use crate::broker::amqp::config::{queue_views, AMQPBrokerBuilder, QueueConfig, QueueConfigView};
use crate::broker::amqp::message::{message_of, properties_of, received};
use crate::broker::amqp::queue::{
    declared_views, in_progress, published, AMQPQueue, DeclareTask, Publication, PublicationView,
    QueueView,
};
use crate::broker::amqp::uri::{shown, uri_of, BrokerUri, UriView};
use crate::broker::prefetch::{clamp_prefetch, prefetch_limit};
use crate::error::{BrokerError, ProtocolErrorView};
use crate::protocol::{Message, MessageView};
use crate::string_map::StringMap;

verus! {

/// An AMQP broker.
#[derive(Debug)]
pub struct AMQPBroker {
    pub uri: BrokerUri,
    /// How many deliveries are worked on at once.
    pub prefetch_count: u16,
    /// Mapping of queue name to declared queue.
    pub queues: StringMap<AMQPQueue>,
    /// What was asked for of each queue.
    pub queue_declare_options: StringMap<QueueConfig>,
}

/// The model of an [`AMQPBroker`].
#[verifier::ext_equal]
pub struct BrokerView {
    pub uri: UriView,
    pub prefetch_count: u16,
    pub queues: Map<Seq<char>, QueueView>,
    pub queue_declare_options: Map<Seq<char>, QueueConfigView>,
}

impl View for AMQPBroker {
    type V = BrokerView;

    open spec fn view(&self) -> BrokerView {
        BrokerView {
            uri: self.uri@,
            prefetch_count: self.prefetch_count,
            queues: declared_views(self.queues@),
            queue_declare_options: queue_views(self.queue_declare_options@),
        }
    }
}

/// What to ask of the server to consume from a queue, with default options and no arguments.
#[derive(Debug, PartialEq, Eq)]
pub struct ConsumeRequest {
    pub queue: String,
    /// The server makes one up where it is empty.
    pub consumer_tag: String,
}

/// Copies what is asked for of some queues.
fn copy_queues(queues: &StringMap<QueueConfig>) -> (r: StringMap<QueueConfig>)
    ensures
        queue_views(r@) == queue_views(queues@),
{
    let count = queues.len();
    let ghost keys = queues.keys();
    let mut copy: StringMap<QueueConfig> = StringMap::new();
    let mut i: usize = 0;
    while i < count
        invariant
            i <= count,
            count == keys.len(),
            keys == queues.keys(),
            keys.no_duplicates(),
            forall|key: Seq<char>| queues@.contains_key(key) <==> #[trigger] keys.contains(key),
            forall|key: Seq<char>| #[trigger]
                copy@.contains_key(key) <==> exists|j: int| 0 <= j < i && #[trigger] keys[j] == key,
            forall|key: Seq<char>| #[trigger]
                copy@.contains_key(key) ==> queues@.contains_key(key) && copy@[key]@
                    == queues@[key]@,
        decreases count - i,
    {
        let key = queues.key(i).to_owned();
        copy.insert(key, queues.value(i).clone());
        i = i + 1;
    }
    proof {
        assert(queue_views(copy@) =~= queue_views(queues@)) by {
            assert forall|key: Seq<char>| queues@.contains_key(key) implies #[trigger]
                copy@.contains_key(key) by {
                assert(keys.contains(key));
            }
        }
    }
    copy
}

impl AMQPBrokerBuilder {
    /// The URI to connect to, with the time to wait in seconds. A broker URL that is no AMQP
    /// URI is an error.
    pub fn connection_uri(&self, connection_timeout: u32) -> (r: Result<BrokerUri, BrokerError>)
        ensures
            match uri_of(self@.broker_url) {
                Some(uri) => r matches Ok(out) && out@ == BrokerUri::for_connection(
                    uri,
                    self@.heartbeat,
                    connection_timeout,
                ),
                None => r matches Err(BrokerError::InvalidBrokerUrl(url)) && url@
                    == self@.broker_url,
            },
    {
        BrokerUri::connecting(
            self.config.broker_url.as_str(),
            self.config.heartbeat,
            connection_timeout,
        )
    }

    /// Starts the declaration of the queues.
    pub fn declare_queues(&self) -> (r: DeclareTask)
        ensures
            r@.configs == self@.queues,
            r@.declared == Map::<Seq<char>, QueueView>::empty(),
            r@.phase is Ready,
            in_progress(r@),
    {
        crate::broker::amqp::queue::declare_queues(&self.config.queues)
    }

    /// Build an `AMQPBroker` once there is a connection to `uri` and the queues are declared.
    pub fn build(&self, uri: BrokerUri, queues: StringMap<AMQPQueue>) -> (r: AMQPBroker)
        ensures
            r@ == (BrokerView {
                uri: uri@,
                prefetch_count: prefetch_limit(self@.prefetch_count),
                queues: declared_views(queues@),
                queue_declare_options: self@.queues,
            }),
    {
        AMQPBroker {
            uri,
            prefetch_count: clamp_prefetch(self.config.prefetch_count),
            queues,
            queue_declare_options: copy_queues(&self.config.queues),
        }
    }
}

impl BrokerView {
    /// The publication of a message to a queue. One that was not declared here is reached by
    /// its name over the default exchange.
    pub open spec fn publication(self, message: MessageView, queue: Seq<char>) -> PublicationView {
        if self.queues.contains_key(queue) {
            self.queues[queue].publication(message)
        } else {
            published(message, ""@, queue)
        }
    }
}

impl AMQPBroker {
    /// The URI of the broker in a form that may be shown.
    pub fn safe_url(&self) -> (r: String)
        ensures
            r@ == shown(self@.uri),
    {
        crate::broker::amqp::uri::safe_url(&self.uri)
    }

    /// What to ask of the server to consume from a queue. The queue must have been declared.
    pub fn consume(&self, queue: &str) -> (r: Result<ConsumeRequest, BrokerError>)
        ensures
            if self@.queues.contains_key(queue@) {
                r matches Ok(request) && request.queue@ == self@.queues[queue@].name()
                    && request.consumer_tag@ == ""@
            } else {
                r matches Err(BrokerError::UnknownQueue(name)) && name@ == queue@
            },
    {
        match self.queues.get(queue) {
            Some(declared) => Ok(
                ConsumeRequest {
                    queue: declared.name().to_owned(),
                    consumer_tag: "".to_owned(),
                },
            ),
            None => Err(BrokerError::UnknownQueue(queue.to_owned())),
        }
    }

    /// Makes a message ready to be published to a queue. What is read from the publication is
    /// the message as it arrives.
    pub fn send(&self, message: Message, queue: &str) -> (r: Publication)
        ensures
            r@ == self@.publication(message@, queue@),
            message_of(r@.properties, r@.payload) == Ok::<MessageView, ProtocolErrorView>(
                received(message@),
            ),
    {
        match self.queues.get(queue) {
            Some(declared) => declared.send(message),
            None => crate::broker::amqp::queue::publish(message, "", queue),
        }
    }

    /// Starts the closing of the broker.
    pub fn close(&self) -> (r: CloseTask)
        ensures
            r == CloseTask::Ready,
    {
        CloseTask::new()
    }

    /// The URI to connect to again, with the number given handed on unscaled as the time to
    /// wait. There is none while the broker is connected.
    pub fn reconnect(&self, connected: bool, connection_timeout: u32) -> (r: Option<BrokerUri>)
        ensures
            match r {
                Some(uri) => !connected && uri@ == BrokerUri::for_reconnection(
                    self@.uri,
                    connection_timeout,
                ),
                None => connected,
            },
    {
        if connected {
            None
        } else {
            Some(self.uri.clone().with_reconnection(connection_timeout))
        }
    }

    /// Starts the declaration of the queues on a new connection.
    pub fn declare_queues(&self) -> (r: DeclareTask)
        ensures
            r@.configs == self@.queue_declare_options,
            r@.declared == Map::<Seq<char>, QueueView>::empty(),
            r@.phase is Ready,
            in_progress(r@),
    {
        crate::broker::amqp::queue::declare_queues(&self.queue_declare_options)
    }

    /// Goes on with the queues that were declared on a new connection.
    pub fn reconnected(&mut self, queues: StringMap<AMQPQueue>)
        ensures
            final(self)@ == (BrokerView { queues: declared_views(queues@), ..old(self)@ }),
    {
        self.queues = queues;
    }
}

/// What is closed when a broker is closed.
#[derive(Clone, Copy, Debug, PartialEq, Eq)]
pub enum CloseTarget {
    ConsumeChannel,
    ProduceChannel,
    Connection,
}

/// What happened while a broker is closed.
pub enum CloseEvent<E> {
    /// Closing begins.
    Begin,
    /// Whether the one in turn is connected.
    Status(bool),
    /// The one in turn was closed.
    Closed(Result<(), E>),
}

/// What is to be done to close a broker.
pub enum CloseAction<E> {
    /// Find out whether one of them is connected.
    Ask(CloseTarget),
    /// Close one of them.
    Close { target: CloseTarget, code: u16, reason: String },
    /// Nothing more.
    Finish(Result<(), E>),
}

/// The model of a [`CloseAction`].
pub enum CloseActionView<E> {
    Ask(CloseTarget),
    Close { target: CloseTarget, code: u16, reason: Seq<char> },
    Finish(Result<(), E>),
}

impl<E> View for CloseAction<E> {
    type V = CloseActionView<E>;

    open spec fn view(&self) -> CloseActionView<E> {
        match *self {
            CloseAction::Ask(target) => CloseActionView::Ask(target),
            CloseAction::Close { target, code, reason } => CloseActionView::Close {
                target,
                code,
                reason: reason@,
            },
            CloseAction::Finish(r) => CloseActionView::Finish(r),
        }
    }
}

/// The closing of a broker: its channels in turn and then its connection, as far as they are
/// connected. The first error ends it.
#[derive(Clone, Copy, Debug, PartialEq, Eq)]
pub enum CloseTask {
    Ready,
    Asking(CloseTarget),
    Closing(CloseTarget),
    Ended,
}

/// What comes once a target needs no closing any more.
pub open spec fn after_target<E>(target: CloseTarget) -> (CloseTask, CloseActionView<E>) {
    match target {
        CloseTarget::ConsumeChannel => (
            CloseTask::Asking(CloseTarget::ProduceChannel),
            CloseActionView::Ask(CloseTarget::ProduceChannel),
        ),
        CloseTarget::ProduceChannel => (
            CloseTask::Asking(CloseTarget::Connection),
            CloseActionView::Ask(CloseTarget::Connection),
        ),
        CloseTarget::Connection => (CloseTask::Ended, CloseActionView::Finish(Ok(()))),
    }
}

/// Whether an event can come.
pub open spec fn close_expects<E>(task: CloseTask, event: CloseEvent<E>) -> bool {
    match task {
        CloseTask::Ready => event is Begin,
        CloseTask::Asking(_) => event is Status,
        CloseTask::Closing(_) => event is Closed,
        CloseTask::Ended => false,
    }
}

/// What comes after an event.
pub open spec fn close_next<E>(task: CloseTask, event: CloseEvent<E>) -> (
    CloseTask,
    CloseActionView<E>,
) {
    match (task, event) {
        (CloseTask::Asking(target), CloseEvent::Status(true)) => (
            CloseTask::Closing(target),
            CloseActionView::Close { target, code: 200, reason: "OK"@ },
        ),
        (CloseTask::Asking(target), _) => after_target(target),
        (CloseTask::Closing(target), CloseEvent::Closed(Err(e))) => (
            CloseTask::Ended,
            CloseActionView::Finish(Err(e)),
        ),
        (CloseTask::Closing(target), _) => after_target(target),
        _ => (
            CloseTask::Asking(CloseTarget::ConsumeChannel),
            CloseActionView::Ask(CloseTarget::ConsumeChannel),
        ),
    }
}

/// What closing does from a state on, in at most so many steps: what it closes, in order, and
/// how it ends. Whether each target is connected when it is its turn is told by `connected`,
/// what comes of closing it by `closing`.
pub open spec fn close_run<E>(
    task: CloseTask,
    action: CloseActionView<E>,
    connected: spec_fn(CloseTarget) -> bool,
    closing: spec_fn(CloseTarget) -> Result<(), E>,
    steps: nat,
) -> (Seq<CloseTarget>, Option<Result<(), E>>)
    decreases steps,
{
    match action {
        CloseActionView::Finish(result) => (Seq::empty(), Some(result)),
        CloseActionView::Ask(target) => if steps == 0 {
            (Seq::empty(), None)
        } else {
            let after = close_next(task, CloseEvent::Status(connected(target)));
            close_run(after.0, after.1, connected, closing, (steps - 1) as nat)
        },
        CloseActionView::Close { target, .. } => if steps == 0 {
            (Seq::empty(), None)
        } else {
            let after = close_next(task, CloseEvent::Closed(closing(target)));
            let rest = close_run(after.0, after.1, connected, closing, (steps - 1) as nat);
            (seq![target] + rest.0, rest.1)
        },
    }
}

/// What is closed of some targets, in order, and how that ends: those that are connected, up
/// to the first one that fails to close.
pub open spec fn closed_in_order<E>(
    targets: Seq<CloseTarget>,
    connected: spec_fn(CloseTarget) -> bool,
    closing: spec_fn(CloseTarget) -> Result<(), E>,
) -> (Seq<CloseTarget>, Result<(), E>)
    decreases targets.len(),
{
    if targets.len() == 0 {
        (Seq::empty(), Ok(()))
    } else {
        let first = targets[0];
        let rest = closed_in_order(targets.drop_first(), connected, closing);
        if !connected(first) {
            rest
        } else if closing(first) is Err {
            (seq![first], closing(first))
        } else {
            (seq![first] + rest.0, rest.1)
        }
    }
}

/// All that is closed when a broker is closed, in order.
pub open spec fn close_order() -> Seq<CloseTarget> {
    seq![CloseTarget::ConsumeChannel, CloseTarget::ProduceChannel, CloseTarget::Connection]
}

/// Closing goes through the consuming channel, the producing channel and the connection, in
/// this order, and closes those that are connected. The first failure is the result, and the
/// rest is not tried.
pub proof fn what_is_connected_is_closed<E>(
    connected: spec_fn(CloseTarget) -> bool,
    closing: spec_fn(CloseTarget) -> Result<(), E>,
)
    ensures
        ({
            let begun = close_next(CloseTask::Ready, CloseEvent::<E>::Begin);
            let expected = closed_in_order(close_order(), connected, closing);
            close_run(begun.0, begun.1, connected, closing, 6) == (expected.0, Some(expected.1))
        }),
{
    reveal_with_fuel(close_run, 8);
    reveal_with_fuel(closed_in_order, 5);
    let begun = close_next(CloseTask::Ready, CloseEvent::<E>::Begin);
    let order = close_order();
    assert(order.drop_first() =~= seq![CloseTarget::ProduceChannel, CloseTarget::Connection]);
    assert(order.drop_first().drop_first() =~= seq![CloseTarget::Connection]);
    assert(order.drop_first().drop_first().drop_first() =~= Seq::empty());
    let expected = closed_in_order(order, connected, closing);
    let done = close_run(begun.0, begun.1, connected, closing, 6);
    assert(done.0 =~= expected.0);
}

/// Every request to close has the code 200 and the reason "OK".
pub proof fn closing_is_in_good_order<E>(task: CloseTask, event: CloseEvent<E>)
    ensures
        close_next(task, event).1 matches CloseActionView::Close { code, reason, .. } ==> code
            == 200 && reason == "OK"@,
{
}

/// Where closing ends well, everything that was connected was closed. So when nothing is
/// connected any more, closing once more closes nothing and ends well.
pub proof fn closing_well_closes_all<E>(
    connected: spec_fn(CloseTarget) -> bool,
    closing: spec_fn(CloseTarget) -> Result<(), E>,
    target: CloseTarget,
    disconnected: spec_fn(CloseTarget) -> bool,
)
    requires
        forall|t: CloseTarget| !(#[trigger] disconnected(t)),
    ensures
        ({
            let first = closed_in_order(close_order(), connected, closing);
            first.1 is Ok && connected(target) ==> first.0.contains(target) && closing(target) is Ok
        }),
        closed_in_order(close_order(), disconnected, closing) == (
            Seq::<CloseTarget>::empty(),
            Ok::<(), E>(()),
        ),
{
    reveal_with_fuel(closed_in_order, 5);
    let order = close_order();
    assert(order.drop_first() =~= seq![CloseTarget::ProduceChannel, CloseTarget::Connection]);
    assert(order.drop_first().drop_first() =~= seq![CloseTarget::Connection]);
    assert(order.drop_first().drop_first().drop_first() =~= Seq::empty());
    closed_targets(order, connected, closing, target);
    assert(order[0] == CloseTarget::ConsumeChannel && order[1] == CloseTarget::ProduceChannel
        && order[2] == CloseTarget::Connection);
    assert(order.contains(target));
}

/// Where closing some targets ends well, each of them that was connected was closed.
proof fn closed_targets<E>(
    targets: Seq<CloseTarget>,
    connected: spec_fn(CloseTarget) -> bool,
    closing: spec_fn(CloseTarget) -> Result<(), E>,
    target: CloseTarget,
)
    requires
        targets.contains(target),
    ensures
        closed_in_order(targets, connected, closing).1 is Ok && connected(target)
            ==> closed_in_order(targets, connected, closing).0.contains(target) && closing(
            target,
        ) is Ok,
    decreases targets.len(),
{
    let rest = closed_in_order(targets.drop_first(), connected, closing).0;
    let all = seq![targets[0]] + rest;
    assert(all[0] == targets[0]);
    if target != targets[0] {
        let i = choose|i: int| 0 <= i < targets.len() && targets[i] == target;
        assert(targets.drop_first()[i - 1] == target);
        closed_targets(targets.drop_first(), connected, closing, target);
        if rest.contains(target) {
            let j = choose|j: int| 0 <= j < rest.len() && rest[j] == target;
            assert(all[j + 1] == target);
        }
    }
}

impl CloseTask {
    /// The closing of a broker, not begun yet.
    pub fn new() -> (r: Self)
        ensures
            r == CloseTask::Ready,
    {
        CloseTask::Ready
    }

    /// What comes once a target needs no closing any more.
    fn after<E>(target: CloseTarget) -> (r: (CloseTask, CloseAction<E>))
        ensures
            (r.0, r.1@) == after_target::<E>(target),
    {
        match target {
            CloseTarget::ConsumeChannel => (
                CloseTask::Asking(CloseTarget::ProduceChannel),
                CloseAction::Ask(CloseTarget::ProduceChannel),
            ),
            CloseTarget::ProduceChannel => (
                CloseTask::Asking(CloseTarget::Connection),
                CloseAction::Ask(CloseTarget::Connection),
            ),
            CloseTarget::Connection => (CloseTask::Ended, CloseAction::Finish(Ok(()))),
        }
    }

    /// What comes after an event.
    pub fn step<E>(self, event: CloseEvent<E>) -> (r: (CloseTask, CloseAction<E>))
        requires
            close_expects(self, event),
        ensures
            (r.0, r.1@) == close_next(self, event),
    {
        match (self, event) {
            (CloseTask::Asking(target), CloseEvent::Status(true)) => (
                CloseTask::Closing(target),
                CloseAction::Close { target, code: 200, reason: "OK".to_owned() },
            ),
            (CloseTask::Asking(target), _) => CloseTask::after(target),
            (CloseTask::Closing(target), CloseEvent::Closed(Err(e))) => (
                CloseTask::Ended,
                CloseAction::Finish(Err(e)),
            ),
            (CloseTask::Closing(target), _) => CloseTask::after(target),
            _ => (
                CloseTask::Asking(CloseTarget::ConsumeChannel),
                CloseAction::Ask(CloseTarget::ConsumeChannel),
            ),
        }
    }
}

/// A message to a queue that was not declared goes over the default exchange by the name it is
/// sent to, and one to a declared queue as that queue is reached. Declaring one queue changes
/// nothing for the others.
pub proof fn undeclared_queues_are_reached_by_name(
    broker: BrokerView,
    message: MessageView,
    queue: Seq<char>,
    other: Seq<char>,
    declared: QueueView,
)
    ensures
        !broker.queues.contains_key(queue) ==> {
            let publication = broker.publication(message, queue);
            &&& publication.exchange == ""@
            &&& publication.routing_key == queue
            &&& publication.properties == properties_of(message)
            &&& publication.payload == message.raw_body
        },
        broker.queues.contains_key(queue) ==> broker.publication(message, queue)
            == broker.queues[queue].publication(message),
        other != queue ==> (BrokerView { queues: broker.queues.insert(other, declared), ..broker })
            .publication(message, queue) == broker.publication(message, queue),
{
}

} // verus!
