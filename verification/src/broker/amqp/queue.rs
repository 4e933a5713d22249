//! Queues of an AMQP broker: how they are declared and how messages are sent to them.

use lapin::types::FieldTable;
use vstd::prelude::*;

use crate::broker::amqp::config::{
    arguments_of, exchange_options_of, queue_options_of, queue_views, ExchangeDeclareOptions,
    QueueConfig, QueueConfigView, QueueDeclareOptions,
};
use crate::broker::amqp::field::{new_table, no_entries, table_entries, FieldView};
use crate::broker::amqp::message::{
    message_of, properties_of, received, BasicProperties, BasicPropertiesView,
};
use crate::error::ProtocolErrorView;
use crate::protocol::{Message, MessageView};
use crate::string_map::StringMap;

verus! {

/// A queue that workers share: each message goes to one of them.
#[derive(Debug)]
pub struct CooperativeQueue {
    /// The name that the server knows the queue by.
    pub inner: String,
}

/// A queue of which every consumer gets every message.
#[derive(Debug)]
pub struct BroadcastQueue {
    /// The name that the server gave the queue of this consumer.
    pub inner: String,
    /// The exchange that hands the messages out.
    pub queue: String,
}

/// A declared queue.
#[derive(Debug)]
pub enum AMQPQueue {
    Cooperative(CooperativeQueue),
    Broadcast(BroadcastQueue),
}

/// The model of an [`AMQPQueue`].
pub enum QueueView {
    Cooperative { inner: Seq<char> },
    Broadcast { inner: Seq<char>, queue: Seq<char> },
}

impl View for AMQPQueue {
    type V = QueueView;

    open spec fn view(&self) -> QueueView {
        match *self {
            AMQPQueue::Cooperative(q) => QueueView::Cooperative { inner: q.inner@ },
            AMQPQueue::Broadcast(q) => QueueView::Broadcast { inner: q.inner@, queue: q.queue@ },
        }
    }
}

/// The models of the queues of a map.
pub open spec fn declared_views(queues: Map<Seq<char>, AMQPQueue>) -> Map<Seq<char>, QueueView> {
    queues.map_values(|q: AMQPQueue| q@)
}

/// A message on its way to an exchange.
#[derive(Debug)]
pub struct Publication {
    pub exchange: String,
    pub routing_key: String,
    pub properties: BasicProperties,
    pub payload: Vec<u8>,
}

/// The model of a [`Publication`].
pub struct PublicationView {
    pub exchange: Seq<char>,
    pub routing_key: Seq<char>,
    pub properties: BasicPropertiesView,
    pub payload: Seq<u8>,
}

impl View for Publication {
    type V = PublicationView;

    open spec fn view(&self) -> PublicationView {
        PublicationView {
            exchange: self.exchange@,
            routing_key: self.routing_key@,
            properties: self.properties@,
            payload: self.payload@,
        }
    }
}

/// The publication of a message to an exchange.
pub open spec fn published(
    message: MessageView,
    exchange: Seq<char>,
    routing_key: Seq<char>,
) -> PublicationView {
    PublicationView {
        exchange,
        routing_key,
        properties: properties_of(message),
        payload: message.raw_body,
    }
}

impl QueueView {
    /// The name to consume from.
    pub open spec fn name(self) -> Seq<char> {
        match self {
            QueueView::Cooperative { inner } => inner,
            QueueView::Broadcast { inner, .. } => inner,
        }
    }

    /// The publication of a message to the queue: a shared queue is reached by its name over
    /// the default exchange, a broadcast one over its exchange.
    pub open spec fn publication(self, message: MessageView) -> PublicationView {
        match self {
            QueueView::Cooperative { inner } => published(message, ""@, inner),
            QueueView::Broadcast { queue, .. } => published(message, queue, ""@),
        }
    }
}

/// Makes a message ready to be published. What is read from the publication is the message as
/// it arrives.
pub fn publish(message: Message, exchange: &str, routing_key: &str) -> (r: Publication)
    ensures
        r@ == published(message@, exchange@, routing_key@),
        message_of(r@.properties, r@.payload) == Ok::<MessageView, ProtocolErrorView>(
            received(message@),
        ),
{
    let properties = message.delivery_properties();
    Publication {
        exchange: exchange.to_owned(),
        routing_key: routing_key.to_owned(),
        properties,
        payload: message.raw_body,
    }
}

impl AMQPQueue {
    /// The name to consume from.
    pub fn name(&self) -> (r: &str)
        ensures
            r@ == self@.name(),
    {
        match self {
            AMQPQueue::Cooperative(queue) => queue.inner.as_str(),
            AMQPQueue::Broadcast(queue) => queue.inner.as_str(),
        }
    }

    /// Makes a message ready to be published to the queue.
    pub fn send(&self, message: Message) -> (r: Publication)
        ensures
            r@ == self@.publication(message@),
            message_of(r@.properties, r@.payload) == Ok::<MessageView, ProtocolErrorView>(
                received(message@),
            ),
    {
        match self {
            AMQPQueue::Cooperative(queue) => publish(message, "", queue.inner.as_str()),
            AMQPQueue::Broadcast(queue) => publish(message, queue.queue.as_str(), ""),
        }
    }
}

/// How an exchange hands messages on.
#[derive(Clone, Copy, Debug, PartialEq, Eq)]
pub enum ExchangeKind {
    /// To the queues that are bound with the routing key of the message.
    Direct,
    /// To all queues that are bound.
    Fanout,
    /// To the queues whose binding fits the headers of the message.
    Headers,
    /// To the queues whose binding is a pattern that fits the routing key of the message.
    Topic,
}

/// What to ask of the server next while queues are declared.
#[derive(Debug)]
#[allow(inconsistent_fields)]
pub enum DeclareAction {
    /// Declare an exchange without arguments.
    DeclareExchange { name: String, kind: ExchangeKind, options: ExchangeDeclareOptions },
    /// Declare a queue. The server names one without a name.
    DeclareQueue { name: String, options: QueueDeclareOptions, arguments: FieldTable },
    /// Bind a queue to an exchange, without options and arguments.
    BindQueue { queue: String, exchange: String, routing_key: String },
}

/// The model of a [`DeclareAction`].
#[allow(inconsistent_fields)]
pub enum DeclareActionView {
    DeclareExchange { name: Seq<char>, kind: ExchangeKind, options: ExchangeDeclareOptions },
    DeclareQueue {
        name: Seq<char>,
        options: QueueDeclareOptions,
        arguments: Map<Seq<char>, FieldView>,
    },
    BindQueue { queue: Seq<char>, exchange: Seq<char>, routing_key: Seq<char> },
}

impl View for DeclareAction {
    type V = DeclareActionView;

    open spec fn view(&self) -> DeclareActionView {
        match *self {
            DeclareAction::DeclareExchange { name, kind, options } => {
                DeclareActionView::DeclareExchange { name: name@, kind, options }
            },
            DeclareAction::DeclareQueue { name, options, arguments } => {
                DeclareActionView::DeclareQueue {
                    name: name@,
                    options,
                    arguments: table_entries(arguments),
                }
            },
            DeclareAction::BindQueue { queue, exchange, routing_key } => {
                DeclareActionView::BindQueue {
                    queue: queue@,
                    exchange: exchange@,
                    routing_key: routing_key@,
                }
            },
        }
    }
}

/// What the server said.
pub enum DeclareEvent<E> {
    /// Nothing yet.
    Begin,
    /// The exchange was declared, or the queue bound.
    Done(Result<(), E>),
    /// The queue was declared under a name.
    Declared(Result<String, E>),
}

/// The model of a [`DeclareEvent`].
pub enum DeclareEventView<E> {
    Begin,
    Done(Result<(), E>),
    Declared(Result<Seq<char>, E>),
}

impl<E> View for DeclareEvent<E> {
    type V = DeclareEventView<E>;

    open spec fn view(&self) -> DeclareEventView<E> {
        match *self {
            DeclareEvent::Begin => DeclareEventView::Begin,
            DeclareEvent::Done(r) => DeclareEventView::Done(r),
            DeclareEvent::Declared(Ok(name)) => DeclareEventView::Declared(Ok(name@)),
            DeclareEvent::Declared(Err(e)) => DeclareEventView::Declared(Err(e)),
        }
    }
}

/// What is being waited for while queues are declared.
#[derive(Debug)]
pub enum DeclarePhase {
    Ready,
    /// A shared queue.
    Queue,
    /// The exchange of a broadcast queue.
    Exchange,
    /// The anonymous queue of a broadcast queue.
    Anonymous,
    /// The binding of an anonymous queue.
    Binding { inner: String },
}

/// The model of a [`DeclarePhase`].
pub enum DeclarePhaseView {
    Ready,
    Queue,
    Exchange,
    Anonymous,
    Binding { inner: Seq<char> },
}

impl View for DeclarePhase {
    type V = DeclarePhaseView;

    open spec fn view(&self) -> DeclarePhaseView {
        match *self {
            DeclarePhase::Ready => DeclarePhaseView::Ready,
            DeclarePhase::Queue => DeclarePhaseView::Queue,
            DeclarePhase::Exchange => DeclarePhaseView::Exchange,
            DeclarePhase::Anonymous => DeclarePhaseView::Anonymous,
            DeclarePhase::Binding { inner } => DeclarePhaseView::Binding { inner: inner@ },
        }
    }
}

/// The declaration of some queues, one after the other.
#[derive(Debug)]
pub struct DeclareTask<'a> {
    configs: &'a StringMap<QueueConfig>,
    at: usize,
    phase: DeclarePhase,
    declared: StringMap<AMQPQueue>,
}

/// The model of a [`DeclareTask`].
#[verifier::ext_equal]
pub struct DeclareView {
    pub configs: Map<Seq<char>, QueueConfigView>,
    /// The queues that are not declared yet. The first one is at work.
    pub pending: Seq<Seq<char>>,
    pub phase: DeclarePhaseView,
    pub declared: Map<Seq<char>, QueueView>,
}

impl<'a> View for DeclareTask<'a> {
    type V = DeclareView;

    closed spec fn view(&self) -> DeclareView {
        DeclareView {
            configs: queue_views(self.configs@),
            pending: self.configs.keys().skip(self.at as int),
            phase: self.phase@,
            declared: declared_views(self.declared@),
        }
    }
}

/// What comes after an event.
pub enum DeclareStep<'a, E> {
    /// Something is to be asked of the server.
    Go(DeclareTask<'a>, DeclareAction),
    /// All queues are declared.
    Finished(StringMap<AMQPQueue>),
    /// The server refused something.
    Failed(E),
}

/// The model of a [`DeclareStep`].
pub enum DeclareStepView<E> {
    Go(DeclareView, DeclareActionView),
    Finished(Map<Seq<char>, QueueView>),
    Failed(E),
}

impl<'a, E> View for DeclareStep<'a, E> {
    type V = DeclareStepView<E>;

    open spec fn view(&self) -> DeclareStepView<E> {
        match *self {
            DeclareStep::Go(task, action) => DeclareStepView::Go(task@, action@),
            DeclareStep::Finished(queues) => DeclareStepView::Finished(declared_views(queues@)),
            DeclareStep::Failed(e) => DeclareStepView::Failed(e),
        }
    }
}

impl DeclareView {
    /// The task in another phase.
    pub open spec fn at(self, phase: DeclarePhaseView) -> DeclareView {
        DeclareView { phase, ..self }
    }

    /// The task once the first queue is declared.
    pub open spec fn with_queue(self, queue: QueueView) -> DeclareView {
        DeclareView {
            pending: self.pending.drop_first(),
            declared: self.declared.insert(self.pending[0], queue),
            ..self
        }
    }
}

/// The options of an anonymous queue.
pub open spec fn anonymous_options() -> QueueDeclareOptions {
    QueueDeclareOptions {
        passive: false,
        durable: false,
        exclusive: true,
        auto_delete: false,
        nowait: false,
    }
}

/// Turns to the first queue that is left.
pub open spec fn turn_to_first<E>(task: DeclareView) -> DeclareStepView<E> {
    if task.pending.len() == 0 {
        DeclareStepView::Finished(task.declared)
    } else {
        let name = task.pending[0];
        let config = task.configs[name];
        if config.broadcast {
            DeclareStepView::Go(
                task.at(DeclarePhaseView::Exchange),
                DeclareActionView::DeclareExchange {
                    name,
                    kind: ExchangeKind::Fanout,
                    options: exchange_options_of(config),
                },
            )
        } else {
            DeclareStepView::Go(
                task.at(DeclarePhaseView::Queue),
                DeclareActionView::DeclareQueue {
                    name,
                    options: queue_options_of(config),
                    arguments: arguments_of(config),
                },
            )
        }
    }
}

/// Whether an event can come.
pub open spec fn expects<E>(task: DeclareView, event: DeclareEventView<E>) -> bool {
    match task.phase {
        DeclarePhaseView::Ready => event is Begin,
        DeclarePhaseView::Queue => event is Declared && task.pending.len() > 0,
        DeclarePhaseView::Exchange => event is Done && task.pending.len() > 0,
        DeclarePhaseView::Anonymous => event is Declared && task.pending.len() > 0,
        DeclarePhaseView::Binding { inner } => event is Done && task.pending.len() > 0,
    }
}

/// What comes after an event. A broadcast queue takes a fanout exchange of its name, an
/// anonymous queue of this connection, and the binding of the one to the other.
pub open spec fn next<E>(task: DeclareView, event: DeclareEventView<E>) -> DeclareStepView<E> {
    match (task.phase, event) {
        (_, DeclareEventView::Done(Err(e))) => DeclareStepView::Failed(e),
        (_, DeclareEventView::Declared(Err(e))) => DeclareStepView::Failed(e),
        (DeclarePhaseView::Queue, DeclareEventView::Declared(Ok(inner))) => {
            turn_to_first(task.with_queue(QueueView::Cooperative { inner }))
        },
        (DeclarePhaseView::Exchange, DeclareEventView::Done(Ok(_))) => DeclareStepView::Go(
            task.at(DeclarePhaseView::Anonymous),
            DeclareActionView::DeclareQueue {
                name: ""@,
                options: anonymous_options(),
                arguments: no_entries(),
            },
        ),
        (
            DeclarePhaseView::Anonymous,
            DeclareEventView::Declared(Ok(inner)),
        ) => DeclareStepView::Go(
            task.at(DeclarePhaseView::Binding { inner }),
            DeclareActionView::BindQueue {
                queue: inner,
                exchange: task.pending[0],
                routing_key: ""@,
            },
        ),
        (DeclarePhaseView::Binding { inner }, DeclareEventView::Done(Ok(_))) => {
            turn_to_first(task.with_queue(QueueView::Broadcast { inner, queue: task.pending[0] }))
        },
        _ => turn_to_first(task),
    }
}

/// Whether a declared queue is what was asked for.
pub open spec fn fits(config: QueueConfigView, name: Seq<char>, queue: QueueView) -> bool {
    match queue {
        QueueView::Cooperative { .. } => !config.broadcast,
        QueueView::Broadcast { queue, .. } => config.broadcast && queue == name,
    }
}

/// Whether a queue of the given kind is at work in a phase.
pub open spec fn kind_at_work(phase: DeclarePhaseView, broadcast: bool) -> bool {
    match phase {
        DeclarePhaseView::Ready => true,
        DeclarePhaseView::Queue => !broadcast,
        _ => broadcast,
    }
}

/// What holds of the task between steps: each queue that is asked for is either declared, as
/// it was asked for, or among those to come, once.
pub open spec fn in_progress(task: DeclareView) -> bool {
    &&& task.pending.no_duplicates()
    &&& forall|name: Seq<char>| #[trigger]
        task.pending.contains(name) ==> task.configs.contains_key(name)
            && !task.declared.contains_key(name)
    &&& forall|name: Seq<char>| #[trigger]
        task.configs.contains_key(name) ==> task.pending.contains(name)
            || task.declared.contains_key(name)
    &&& forall|name: Seq<char>| #[trigger]
        task.declared.contains_key(name) ==> task.configs.contains_key(name) && fits(
            task.configs[name],
            name,
            task.declared[name],
        )
    &&& !(task.phase is Ready) ==> task.pending.len() > 0 && kind_at_work(
        task.phase,
        task.configs[task.pending[0]].broadcast,
    )
}

/// Whether the declared queues are all that were asked for, each as it was asked for.
pub open spec fn all_declared(
    configs: Map<Seq<char>, QueueConfigView>,
    declared: Map<Seq<char>, QueueView>,
) -> bool {
    &&& declared.dom() == configs.dom()
    &&& forall|name: Seq<char>| #[trigger]
        declared.contains_key(name) ==> fits(configs[name], name, declared[name])
}

/// What the task promises of a step: it goes on in good order with the same queues to
/// declare, or has declared them all.
pub open spec fn keeps_order<E>(task: DeclareView, step: DeclareStepView<E>) -> bool {
    match step {
        DeclareStepView::Go(after, _) => in_progress(after) && after.configs == task.configs,
        DeclareStepView::Finished(declared) => all_declared(task.configs, declared),
        DeclareStepView::Failed(_) => true,
    }
}

/// Turning to the next queue keeps the order.
proof fn turning_keeps_order<E>(task: DeclareView)
    requires
        in_progress(task.at(DeclarePhaseView::Ready)),
    ensures
        keeps_order(task, turn_to_first::<E>(task)),
{
    if task.pending.len() == 0 {
        let ready = task.at(DeclarePhaseView::Ready);
        assert forall|name: Seq<char>| #[trigger] ready.configs.contains_key(name) implies
            ready.declared.contains_key(name) by {
            assert(!ready.pending.contains(name));
        }
        assert forall|name: Seq<char>| #[trigger] ready.declared.contains_key(name) implies
            ready.configs.contains_key(name) by {}
        assert(ready.declared.dom() =~= ready.configs.dom());
    } else {
        assert(task.pending.contains(task.pending[0]));
        let config = task.configs[task.pending[0]];
        let phase = if config.broadcast {
            DeclarePhaseView::Exchange
        } else {
            DeclarePhaseView::Queue
        };
        let ready = task.at(DeclarePhaseView::Ready);
        assert(in_progress(task.at(phase))) by {
            assert(ready.pending == task.pending);
            assert(forall|name: Seq<char>| ready.pending.contains(name) == task.at(
                phase,
            ).pending.contains(name));
        }
    }
}

/// Every step keeps the declaration in good order, and when it is finished each queue that
/// was asked for is there, as it was asked for, and no other.
pub proof fn declaration_is_complete<E>(task: DeclareView, event: DeclareEventView<E>)
    requires
        in_progress(task),
        expects(task, event),
    ensures
        keeps_order(task, next(task, event)),
{
    let failed = match event {
        DeclareEventView::Begin => false,
        DeclareEventView::Done(r) => r is Err,
        DeclareEventView::Declared(r) => r is Err,
    };
    if !failed {
        match task.phase {
            DeclarePhaseView::Ready => {
                assert(task.at(DeclarePhaseView::Ready) == task);
                turning_keeps_order::<E>(task);
            },
            DeclarePhaseView::Exchange => {},
            DeclarePhaseView::Anonymous => {},
            _ => {
                let queue = match (task.phase, event) {
                    (DeclarePhaseView::Binding { inner }, _) => QueueView::Broadcast {
                        inner,
                        queue: task.pending[0],
                    },
                    (_, DeclareEventView::Declared(Ok(inner))) => QueueView::Cooperative { inner },
                    _ => QueueView::Cooperative { inner: Seq::empty() },
                };
                one_more_is_declared(task, queue);
                turning_keeps_order::<E>(task.with_queue(queue));
            },
        }
    }
}

/// With one more queue declared the task is still in good order.
proof fn one_more_is_declared(task: DeclareView, queue: QueueView)
    requires
        in_progress(task),
        task.pending.len() > 0,
        fits(task.configs[task.pending[0]], task.pending[0], queue),
    ensures
        in_progress(task.with_queue(queue).at(DeclarePhaseView::Ready)),
{
    let first = task.pending[0];
    let rest = task.pending.drop_first();
    let after = task.with_queue(queue).at(DeclarePhaseView::Ready);
    assert(after.pending == rest);
    assert(task.pending.contains(first));
    assert forall|name: Seq<char>| #[trigger] rest.contains(name) implies task.pending.contains(
        name,
    ) && name != first by {
        let i = choose|i: int| 0 <= i < rest.len() && rest[i] == name;
        assert(task.pending[i + 1] == name);
    }
    assert forall|name: Seq<char>| task.pending.contains(name) && name != first implies
        #[trigger] rest.contains(name) by {
        let i = choose|i: int| 0 <= i < task.pending.len() && task.pending[i] == name;
        assert(rest[i - 1] == name);
    }
    assert(rest.no_duplicates()) by {
        assert forall|i: int, j: int|
            0 <= i < rest.len() && 0 <= j < rest.len() && i != j implies rest[i] != rest[j] by {
            assert(rest[i] == task.pending[i + 1]);
            assert(rest[j] == task.pending[j + 1]);
        }
    }
}

/// Starts the declaration of some queues.
pub fn declare_queues(queues: &StringMap<QueueConfig>) -> (r: DeclareTask)
    ensures
        r@ == (DeclareView {
            configs: queue_views(queues@),
            pending: queues.keys(),
            phase: DeclarePhaseView::Ready,
            declared: Map::empty(),
        }),
        in_progress(r@),
{
    let count = queues.len();
    let task = DeclareTask {
        configs: queues,
        at: 0,
        phase: DeclarePhase::Ready,
        declared: StringMap::new(),
    };
    proof {
        assert(queues.keys().skip(0) =~= queues.keys());
        assert(declared_views(task.declared@) =~= Map::empty());
    }
    task
}

impl<'a> DeclareTask<'a> {
    #[verifier::type_invariant]
    spec fn wf(self) -> bool {
        self.at <= self.configs.keys().len()
    }

    /// Turns to the first queue that is left.
    fn turn_to_first<E>(self) -> (r: DeclareStep<'a, E>)
        ensures
            r@ == turn_to_first::<E>(self@),
    {
        proof {
            use_type_invariant(&self);
        }
        if self.at >= self.configs.len() {
            return DeclareStep::Finished(self.declared);
        }
        let name = self.configs.key(self.at).to_owned();
        let config = self.configs.value(self.at);
        let ghost keys = self.configs.keys();
        assert(keys.skip(self.at as int)[0] == keys[self.at as int]);
        if config.broadcast {
            DeclareStep::Go(
                DeclareTask { phase: DeclarePhase::Exchange, ..self },
                DeclareAction::DeclareExchange {
                    name,
                    kind: ExchangeKind::Fanout,
                    options: config.exchange_options(),
                },
            )
        } else {
            DeclareStep::Go(
                DeclareTask { phase: DeclarePhase::Queue, ..self },
                DeclareAction::DeclareQueue {
                    name,
                    options: config.queue_options(),
                    arguments: config.arguments(),
                },
            )
        }
    }

    /// Enters the first queue, and turns to the next one.
    fn enter<E>(self, queue: AMQPQueue) -> (r: DeclareStep<'a, E>)
        requires
            self@.pending.len() > 0,
        ensures
            r@ == turn_to_first::<E>(self@.with_queue(queue@)),
    {
        proof {
            use_type_invariant(&self);
        }
        let ghost before = self@;
        let ghost keys = self.configs.keys();
        assert(keys.skip(self.at as int)[0] == keys[self.at as int]);
        assert(keys.skip(self.at as int).drop_first() =~= keys.skip(self.at + 1));
        let count = self.configs.len();
        let name = self.configs.key(self.at).to_owned();
        let mut declared = self.declared;
        declared.insert(name, queue);
        let task = DeclareTask { at: self.at + 1, declared, ..self };
        assert(task@ =~= before.with_queue(queue@));
        task.turn_to_first()
    }

    /// What comes after an event.
    pub fn step<E>(self, event: DeclareEvent<E>) -> (r: DeclareStep<'a, E>)
        requires
            expects(self@, event@),
        ensures
            r@ == next(self@, event@),
    {
        let ghost keys = self.configs.keys();
        proof {
            use_type_invariant(&self);
            assert(self@.pending.len() > 0 ==> self@.pending[0] == keys[self.at as int]);
        }
        match event {
            DeclareEvent::Begin => self.turn_to_first(),
            DeclareEvent::Done(Err(e)) => DeclareStep::Failed(e),
            DeclareEvent::Declared(Err(e)) => DeclareStep::Failed(e),
            DeclareEvent::Done(Ok(_)) => match self.phase {
                DeclarePhase::Binding { inner } => {
                    let name = self.configs.key(self.at).to_owned();
                    let task = DeclareTask { phase: DeclarePhase::Ready, ..self };
                    task.enter(AMQPQueue::Broadcast(BroadcastQueue { inner, queue: name }))
                },
                _ => DeclareStep::Go(
                    DeclareTask { phase: DeclarePhase::Anonymous, ..self },
                    DeclareAction::DeclareQueue {
                        name: "".to_owned(),
                        options: QueueDeclareOptions {
                            passive: false,
                            durable: false,
                            exclusive: true,
                            auto_delete: false,
                            nowait: false,
                        },
                        arguments: new_table(),
                    },
                ),
            },
            DeclareEvent::Declared(Ok(inner)) => match self.phase {
                DeclarePhase::Anonymous => {
                    let exchange = self.configs.key(self.at).to_owned();
                    let queue = inner.clone();
                    DeclareStep::Go(
                        DeclareTask { phase: DeclarePhase::Binding { inner }, ..self },
                        DeclareAction::BindQueue { queue, exchange, routing_key: "".to_owned() },
                    )
                },
                _ => self.enter(AMQPQueue::Cooperative(CooperativeQueue { inner })),
            },
        }
    }
}

/// Whether an action is the one that a phase of the declaration waits for. A shared queue is
/// declared under its name, with the options and arguments of its configuration. For a broadcast
/// queue a fanout exchange of its name is declared with the options of its configuration, then a
/// queue without a name, which is exclusive and nothing else and has no arguments, and that queue
/// is bound to that exchange under no routing key.
pub open spec fn action_of_phase(task: DeclareView, action: DeclareActionView) -> bool {
    let name = task.pending[0];
    match task.phase {
        DeclarePhaseView::Ready => false,
        DeclarePhaseView::Queue => {
            &&& action matches DeclareActionView::DeclareQueue { name: n, options, arguments }
            &&& n == name
            &&& options == queue_options_of(task.configs[name])
            &&& arguments == arguments_of(task.configs[name])
            &&& !task.configs[name].broadcast
        },
        DeclarePhaseView::Exchange => {
            &&& action matches DeclareActionView::DeclareExchange { name: n, kind, options }
            &&& n == name
            &&& kind is Fanout
            &&& options == exchange_options_of(task.configs[name])
            &&& task.configs[name].broadcast
        },
        DeclarePhaseView::Anonymous => {
            &&& action matches DeclareActionView::DeclareQueue { name: n, options, arguments }
            &&& n == ""@
            &&& options.exclusive && !options.passive && !options.durable && !options.auto_delete
                && !options.nowait
            &&& forall|argument: Seq<char>| !arguments.contains_key(argument)
        },
        DeclarePhaseView::Binding { inner } => {
            &&& action matches DeclareActionView::BindQueue { queue, exchange, routing_key }
            &&& queue == inner
            &&& exchange == name
            &&& routing_key == ""@
        },
    }
}

/// Whatever the server is asked for is what the first queue that is left needs next.
pub proof fn the_first_queue_is_asked_for<E>(task: DeclareView, event: DeclareEventView<E>)
    requires
        in_progress(task),
        expects(task, event),
    ensures
        next(task, event) matches DeclareStepView::Go(after, action) ==> action_of_phase(
            after,
            action,
        ) && after.configs == task.configs,
{
    declaration_is_complete(task, event);
}

/// The queues that are declared once a step was taken.
pub open spec fn declared_after<E>(step: DeclareStepView<E>) -> Map<Seq<char>, QueueView> {
    match step {
        DeclareStepView::Go(after, _) => after.declared,
        DeclareStepView::Finished(declared) => declared,
        DeclareStepView::Failed(_) => Map::empty(),
    }
}

/// A shared queue is declared once the server has declared it, under the name that the server
/// said, and a broadcast queue once its own queue was bound, with the name that the server gave
/// that queue. No other reply declares anything, and every queue is declared under the name that
/// it was asked for.
pub proof fn replies_declare_queues<E>(task: DeclareView, event: DeclareEventView<E>)
    requires
        in_progress(task),
        expects(task, event),
        !(next(task, event) is Failed),
    ensures
        match (task.phase, event) {
            (
                DeclarePhaseView::Queue,
                DeclareEventView::Declared(Ok(inner)),
            ) => declared_after(next(task, event)) == task.declared.insert(
                task.pending[0],
                QueueView::Cooperative { inner },
            ),
            (
                DeclarePhaseView::Binding { inner },
                DeclareEventView::Done(Ok(_)),
            ) => declared_after(next(task, event)) == task.declared.insert(
                task.pending[0],
                QueueView::Broadcast { inner, queue: task.pending[0] },
            ),
            _ => declared_after(next(task, event)) == task.declared,
        },
        (task.phase is Anonymous && event is Declared) ==> (next(task, event) matches
            DeclareStepView::Go(after, _) && after.phase == DeclarePhaseView::Binding {
            inner: event->Declared_0->Ok_0,
        }),
        task.phase is Exchange ==> (next(task, event) matches DeclareStepView::Go(after, _)
            && after.phase is Anonymous),
{
}

/// The declaration fails if and only if the server refuses something, with the error of the
/// server.
pub proof fn only_refusals_fail<E>(task: DeclareView, event: DeclareEventView<E>, error: E)
    requires
        expects(task, event),
    ensures
        next(task, event) == DeclareStepView::<E>::Failed(error) <==> (event
            == DeclareEventView::<E>::Done(Err(error)) || event == DeclareEventView::<
            E,
        >::Declared(Err(error))),
{
}

/// The declaration is finished if and only if no queue is left.
pub proof fn all_queues_are_gone_through<E>(task: DeclareView, event: DeclareEventView<E>)
    requires
        in_progress(task),
        expects(task, event),
    ensures
        next(task, event) is Finished ==> task.pending.len() <= 1,
        next(task, event) matches DeclareStepView::Go(after, _) ==> after.pending.len() > 0 && (
        after.pending == task.pending || after.pending == task.pending.drop_first()),
{
}

/// A message goes to a shared queue over the default exchange by the name that the server knows
/// the queue by, and to a broadcast queue over the exchange of that name without a routing key.
/// Either way it goes whole, and what is consumed is the queue that the server named.
pub proof fn messages_are_routed_by_kind(
    message: MessageView,
    inner: Seq<char>,
    queue: Seq<char>,
)
    ensures
        ({
            let shared = QueueView::Cooperative { inner };
            let broadcast = QueueView::Broadcast { inner, queue };
            let (a, b) = (shared.publication(message), broadcast.publication(message));
            &&& a.exchange == ""@ && a.routing_key == inner
            &&& b.exchange == queue && b.routing_key == ""@
            &&& a.properties == properties_of(message) && b.properties == properties_of(message)
            &&& a.payload == message.raw_body && b.payload == message.raw_body
            &&& shared.name() == inner && broadcast.name() == inner
        }),
{
}

/// The model of the declared queues leaves none out, and says of each what kind it is and by which
/// names it is reached.
pub proof fn models_leave_no_queue_out(queues: Map<Seq<char>, AMQPQueue>, name: Seq<char>)
    ensures
        declared_views(queues).contains_key(name) <==> queues.contains_key(name),
        queues.contains_key(name) ==> match queues[name] {
            AMQPQueue::Cooperative(queue) => declared_views(queues)[name] matches
                QueueView::Cooperative { inner } && inner == queue.inner@,
            AMQPQueue::Broadcast(queue) => declared_views(queues)[name] matches
                QueueView::Broadcast { inner, queue: exchange } && inner == queue.inner@
                && exchange == queue.queue@,
        },
{
}

} // verus!
