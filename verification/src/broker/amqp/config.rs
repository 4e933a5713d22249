//! What an AMQP broker is to be like, and how it is put together.

use lapin::types::FieldTable;
use vstd::prelude::*;

use crate::broker::amqp::field::{
    new_table, table_entries, table_insert, FieldView, NewValue,
};
use crate::string_map::StringMap;
use crate::text::{copy_opt, opt_text, same_text};

verus! {

/// How to declare a queue.
#[derive(Clone, Copy, Debug, PartialEq, Eq)]
pub struct QueueDeclareOptions {
    pub passive: bool,
    pub durable: bool,
    pub exclusive: bool,
    pub auto_delete: bool,
    pub nowait: bool,
}

/// How to declare an exchange.
#[derive(Clone, Copy, Debug, PartialEq, Eq)]
pub struct ExchangeDeclareOptions {
    pub passive: bool,
    pub durable: bool,
    pub auto_delete: bool,
    pub internal: bool,
    pub nowait: bool,
}

/// What is asked for of a queue.
#[derive(Debug, PartialEq, Eq)]
pub struct QueueConfig {
    pub options: QueueDeclareOptions,
    /// Whether every consumer gets every message.
    pub broadcast: bool,
    pub expire_time_ms: Option<u32>,
    pub message_ttl_ms: Option<u32>,
    pub queue_type: Option<String>,
}

/// The model of a [`QueueConfig`].
pub struct QueueConfigView {
    pub options: QueueDeclareOptions,
    pub broadcast: bool,
    pub expire_time_ms: Option<u32>,
    pub message_ttl_ms: Option<u32>,
    pub queue_type: Option<Seq<char>>,
}

impl View for QueueConfig {
    type V = QueueConfigView;

    open spec fn view(&self) -> QueueConfigView {
        QueueConfigView {
            options: self.options,
            broadcast: self.broadcast,
            expire_time_ms: self.expire_time_ms,
            message_ttl_ms: self.message_ttl_ms,
            queue_type: opt_text(self.queue_type),
        }
    }
}

impl Clone for QueueConfig {
    fn clone(&self) -> (r: Self)
        ensures
            r@ == self@,
    {
        QueueConfig {
            options: self.options,
            broadcast: self.broadcast,
            expire_time_ms: self.expire_time_ms,
            message_ttl_ms: self.message_ttl_ms,
            queue_type: copy_opt(&self.queue_type),
        }
    }
}

/// The options to declare a queue with: a quorum queue is always durable and never exclusive.
pub open spec fn queue_options_of(config: QueueConfigView) -> QueueDeclareOptions {
    if config.queue_type == Some("quorum"@) {
        QueueDeclareOptions { durable: true, exclusive: false, ..config.options }
    } else {
        config.options
    }
}

/// The options to declare the exchange of a broadcast queue with.
pub open spec fn exchange_options_of(config: QueueConfigView) -> ExchangeDeclareOptions {
    ExchangeDeclareOptions {
        passive: config.options.passive,
        durable: config.options.durable,
        auto_delete: config.options.auto_delete,
        internal: false,
        nowait: config.options.nowait,
    }
}

/// The type of a queue.
pub open spec fn type_of(config: QueueConfigView) -> Seq<char> {
    match config.queue_type {
        Some(t) => t,
        None => "classic"@,
    }
}

/// The argument of a queue under a name.
pub open spec fn argument_at(config: QueueConfigView, name: Seq<char>) -> Option<FieldView> {
    if name == "x-queue-type"@ {
        Some(FieldView::LongString(type_of(config)))
    } else if name == "x-message-ttl"@ {
        match config.message_ttl_ms {
            Some(ms) => Some(FieldView::LongUInt(ms)),
            None => None,
        }
    } else if name == "x-expires"@ {
        match config.expire_time_ms {
            Some(ms) => Some(FieldView::LongUInt(ms)),
            None => None,
        }
    } else {
        None
    }
}

/// The arguments to declare a queue with.
pub open spec fn arguments_of(config: QueueConfigView) -> Map<Seq<char>, FieldView> {
    Map::new(
        |name: Seq<char>| argument_at(config, name) is Some,
        |name: Seq<char>| argument_at(config, name)->0,
    )
}

/// The names of the arguments of a queue are different.
proof fn argument_names_differ()
    ensures
        "x-expires"@ != "x-message-ttl"@,
        "x-expires"@ != "x-queue-type"@,
        "x-message-ttl"@ != "x-queue-type"@,
{
    reveal_strlit("x-expires");
    reveal_strlit("x-message-ttl");
    reveal_strlit("x-queue-type");
    assert("x-expires"@.len() == 9);
    assert("x-message-ttl"@.len() == 13);
    assert("x-queue-type"@.len() == 12);
}

impl QueueConfig {
    /// The options to declare the exchange of the queue with.
    pub fn exchange_options(&self) -> (r: ExchangeDeclareOptions)
        ensures
            r == exchange_options_of(self@),
    {
        ExchangeDeclareOptions {
            passive: self.options.passive,
            durable: self.options.durable,
            auto_delete: self.options.auto_delete,
            internal: false,
            nowait: self.options.nowait,
        }
    }

    /// The options to declare the queue with.
    pub fn queue_options(&self) -> (r: QueueDeclareOptions)
        ensures
            r == queue_options_of(self@),
    {
        if let Some(queue_type) = &self.queue_type {
            if same_text(queue_type.as_str(), "quorum") {
                return QueueDeclareOptions { durable: true, exclusive: false, ..self.options };
            }
        }
        self.options
    }

    /// The arguments to declare the queue with.
    pub fn arguments(&self) -> (r: FieldTable)
        ensures
            table_entries(r) == arguments_of(self@),
    {
        let mut fields = new_table();
        if let Some(expire_time_ms) = self.expire_time_ms {
            table_insert(&mut fields, "x-expires", NewValue::LongUInt(expire_time_ms));
        }
        if let Some(message_ttl_ms) = self.message_ttl_ms {
            table_insert(&mut fields, "x-message-ttl", NewValue::LongUInt(message_ttl_ms));
        }
        let queue_type = match &self.queue_type {
            Some(t) => t.clone(),
            None => "classic".to_owned(),
        };
        table_insert(&mut fields, "x-queue-type", NewValue::LongString(queue_type));
        proof {
            argument_names_differ();
            assert(table_entries(fields) =~= arguments_of(self@));
        }
        fields
    }
}

/// What an AMQP broker is to be like.
#[derive(Debug)]
pub struct Config {
    pub broker_url: String,
    pub prefetch_count: u16,
    pub queues: StringMap<QueueConfig>,
    /// The time between two heartbeats in seconds.
    pub heartbeat: Option<u16>,
}

/// The model of a [`Config`].
#[verifier::ext_equal]
pub struct ConfigView {
    pub broker_url: Seq<char>,
    pub prefetch_count: u16,
    pub queues: Map<Seq<char>, QueueConfigView>,
    pub heartbeat: Option<u16>,
}

/// The models of the queues of a map.
pub open spec fn queue_views(queues: Map<Seq<char>, QueueConfig>) -> Map<
    Seq<char>,
    QueueConfigView,
> {
    queues.map_values(|c: QueueConfig| c@)
}

impl View for Config {
    type V = ConfigView;

    open spec fn view(&self) -> ConfigView {
        ConfigView {
            broker_url: self.broker_url@,
            prefetch_count: self.prefetch_count,
            queues: queue_views(self.queues@),
            heartbeat: self.heartbeat,
        }
    }
}

/// A queue that the workers share.
pub open spec fn plain_queue() -> QueueConfigView {
    QueueConfigView {
        options: QueueDeclareOptions {
            passive: false,
            durable: true,
            exclusive: false,
            auto_delete: false,
            nowait: false,
        },
        broadcast: false,
        expire_time_ms: None,
        message_ttl_ms: None,
        queue_type: None,
    }
}

/// A queue that one connection has for itself.
pub open spec fn exclusive_queue() -> QueueConfigView {
    QueueConfigView {
        options: QueueDeclareOptions { durable: false, exclusive: true, ..plain_queue().options },
        ..plain_queue()
    }
}

/// A queue of which every consumer gets every message.
pub open spec fn broadcast_queue() -> QueueConfigView {
    QueueConfigView { broadcast: true, ..exclusive_queue() }
}

impl ConfigView {
    /// The configuration of a broker of which only the URL is known.
    pub open spec fn initial(broker_url: Seq<char>) -> ConfigView {
        ConfigView {
            broker_url,
            prefetch_count: 10,
            queues: Map::empty(),
            heartbeat: Some(60),
        }
    }

    /// The configuration with a queue declared. One that was declared before stays.
    pub open spec fn declaring(self, name: Seq<char>, queue: QueueConfigView) -> ConfigView {
        if self.queues.contains_key(name) {
            self
        } else {
            ConfigView { queues: self.queues.insert(name, queue), ..self }
        }
    }

    /// The configuration with a declared queue changed. One that was not declared is passed
    /// over.
    pub open spec fn changing(self, name: Seq<char>, queue: QueueConfigView) -> ConfigView {
        if self.queues.contains_key(name) {
            ConfigView { queues: self.queues.insert(name, queue), ..self }
        } else {
            self
        }
    }

    /// The configuration with an expiry time of a queue. The queue is durable and deleted
    /// when unused unless the time is zero.
    pub open spec fn expiring(self, name: Seq<char>, ms: u32) -> ConfigView {
        let queue = self.queues[name];
        self.changing(
            name,
            QueueConfigView {
                expire_time_ms: Some(ms),
                options: QueueDeclareOptions {
                    durable: ms != 0,
                    auto_delete: ms != 0,
                    ..queue.options
                },
                ..queue
            },
        )
    }

    /// The configuration with a lifetime of the messages of a queue.
    pub open spec fn limiting(self, name: Seq<char>, ms: u32) -> ConfigView {
        self.changing(
            name,
            QueueConfigView { message_ttl_ms: Some(ms), ..self.queues[name] },
        )
    }

    /// The configuration with a type of a queue.
    pub open spec fn typing(self, name: Seq<char>, queue_type: Seq<char>) -> ConfigView {
        self.changing(
            name,
            QueueConfigView { queue_type: Some(queue_type), ..self.queues[name] },
        )
    }
}

/// The first declaration of a queue stands: another one of the same name changes nothing.
pub proof fn first_declaration_stands(
    config: ConfigView,
    name: Seq<char>,
    first: QueueConfigView,
    second: QueueConfigView,
)
    ensures
        config.declaring(name, first).declaring(name, second) == config.declaring(name, first),
{
}

/// Declarations of different queues can come in any order.
pub proof fn declarations_commute(
    config: ConfigView,
    a: Seq<char>,
    first: QueueConfigView,
    b: Seq<char>,
    second: QueueConfigView,
)
    requires
        a != b,
    ensures
        config.declaring(a, first).declaring(b, second) == config.declaring(b, second).declaring(
            a,
            first,
        ),
{
    assert(config.declaring(a, first).declaring(b, second) =~= config.declaring(
        b,
        second,
    ).declaring(a, first));
}

/// The settings of a queue that was not declared change nothing.
pub proof fn unknown_queues_are_passed_over(
    config: ConfigView,
    name: Seq<char>,
    ms: u32,
    queue_type: Seq<char>,
)
    requires
        !config.queues.contains_key(name),
    ensures
        config.expiring(name, ms) == config,
        config.limiting(name, ms) == config,
        config.typing(name, queue_type) == config,
{
}

/// The settings of one queue leave all others as they are, and declare none.
pub proof fn settings_concern_one_queue(
    config: ConfigView,
    name: Seq<char>,
    other: Seq<char>,
    ms: u32,
    queue_type: Seq<char>,
)
    requires
        other != name,
    ensures
        config.expiring(name, ms).queues.dom() == config.queues.dom(),
        config.limiting(name, ms).queues.dom() == config.queues.dom(),
        config.typing(name, queue_type).queues.dom() == config.queues.dom(),
        config.queues.contains_key(other) ==> {
            &&& config.expiring(name, ms).queues[other] == config.queues[other]
            &&& config.limiting(name, ms).queues[other] == config.queues[other]
            &&& config.typing(name, queue_type).queues[other] == config.queues[other]
        },
{
    assert(config.expiring(name, ms).queues.dom() =~= config.queues.dom());
    assert(config.limiting(name, ms).queues.dom() =~= config.queues.dom());
    assert(config.typing(name, queue_type).queues.dom() =~= config.queues.dom());
}

/// Once its type was set to quorum, a declared queue is declared durable, shared and of that
/// type, whatever was asked for.
pub proof fn quorum_queues_are_durable(config: ConfigView, name: Seq<char>)
    requires
        config.queues.contains_key(name),
    ensures
        ({
            let queue = config.typing(name, "quorum"@).queues[name];
            &&& queue_options_of(queue).durable
            &&& !queue_options_of(queue).exclusive
            &&& argument_at(queue, "x-queue-type"@) == Some(FieldView::LongString("quorum"@))
        }),
{
}

/// Builds an [`AMQPBroker`](crate::broker::amqp::session::AMQPBroker) with a custom
/// configuration.
#[derive(Debug)]
pub struct AMQPBrokerBuilder {
    pub config: Config,
}

impl View for AMQPBrokerBuilder {
    type V = ConfigView;

    open spec fn view(&self) -> ConfigView {
        self.config@
    }
}

impl AMQPBrokerBuilder {
    /// Create a new `AMQPBrokerBuilder`.
    pub fn new(broker_url: &str) -> (r: Self)
        ensures
            r@ == ConfigView::initial(broker_url@),
    {
        let r = AMQPBrokerBuilder {
            config: Config {
                broker_url: broker_url.to_owned(),
                prefetch_count: 10,
                queues: StringMap::new(),
                heartbeat: Some(60),
            },
        };
        assert(r@ =~= ConfigView::initial(broker_url@));
        r
    }

    /// Set the worker [prefetch
    /// count](https://www.rabbitmq.com/confirms.html#channel-qos-prefetch).
    pub fn prefetch_count(self, prefetch_count: u16) -> (r: Self)
        ensures
            r@ == (ConfigView { prefetch_count, ..self@ }),
    {
        AMQPBrokerBuilder { config: Config { prefetch_count, ..self.config } }
    }

    /// Adds a queue unless there is one of the name.
    fn declare(self, name: &str, queue: QueueConfig) -> (r: Self)
        ensures
            r@ == self@.declaring(name@, queue@),
    {
        let mut config = self.config;
        if !config.queues.contains_key(name) {
            config.queues.insert(name.to_owned(), queue);
            assert(config@ =~= self@.declaring(name@, queue@));
        }
        AMQPBrokerBuilder { config }
    }

    /// Declare a queue.
    pub fn declare_queue(self, name: &str) -> (r: Self)
        ensures
            r@ == self@.declaring(name@, plain_queue()),
    {
        self.declare(
            name,
            QueueConfig {
                options: QueueDeclareOptions {
                    passive: false,
                    durable: true,
                    exclusive: false,
                    auto_delete: false,
                    nowait: false,
                },
                broadcast: false,
                expire_time_ms: None,
                message_ttl_ms: None,
                queue_type: None,
            },
        )
    }

    /// Declare a broadcast queue.
    pub fn declare_broadcast_queue(self, name: &str) -> (r: Self)
        ensures
            r@ == self@.declaring(name@, broadcast_queue()),
    {
        self.declare(
            name,
            QueueConfig {
                options: QueueDeclareOptions {
                    passive: false,
                    durable: false,
                    exclusive: true,
                    auto_delete: false,
                    nowait: false,
                },
                broadcast: true,
                expire_time_ms: None,
                message_ttl_ms: None,
                queue_type: None,
            },
        )
    }

    /// Declare a exclusive queue.
    pub fn declare_exclusive_queue(self, name: &str) -> (r: Self)
        ensures
            r@ == self@.declaring(name@, exclusive_queue()),
    {
        self.declare(
            name,
            QueueConfig {
                options: QueueDeclareOptions {
                    passive: false,
                    durable: false,
                    exclusive: true,
                    auto_delete: false,
                    nowait: false,
                },
                broadcast: false,
                expire_time_ms: None,
                message_ttl_ms: None,
                queue_type: None,
            },
        )
    }

    /// Set the heartbeat.
    pub fn heartbeat(self, heartbeat: Option<u16>) -> (r: Self)
        ensures
            r@ == (ConfigView { heartbeat, ..self@ }),
    {
        AMQPBrokerBuilder { config: Config { heartbeat, ..self.config } }
    }

    /// Puts a queue in the place of the declared one of the name.
    fn replace(self, name: &str, queue: QueueConfig) -> (r: Self)
        requires
            self@.queues.contains_key(name@),
        ensures
            r@ == self@.changing(name@, queue@),
    {
        let mut config = self.config;
        config.queues.insert(name.to_owned(), queue);
        assert(config@ =~= self@.changing(name@, queue@));
        AMQPBrokerBuilder { config }
    }

    /// Set the per-queue expiry time.
    pub fn set_queue_expire_time(self, queue_name: &str, queue_expire_time_ms: u32) -> (r: Self)
        ensures
            r@ == self@.expiring(queue_name@, queue_expire_time_ms),
    {
        let mut queue = match self.config.queues.get(queue_name) {
            Some(config) => config.clone(),
            None => {
                return self;
            },
        };
        queue.expire_time_ms = Some(queue_expire_time_ms);
        queue.options.durable = queue_expire_time_ms != 0;
        queue.options.auto_delete = queue_expire_time_ms != 0;
        self.replace(queue_name, queue)
    }

    /// Set the per-queue message TTL.
    pub fn set_queue_message_ttl(self, queue_name: &str, queue_message_ttl_ms: u32) -> (r: Self)
        ensures
            r@ == self@.limiting(queue_name@, queue_message_ttl_ms),
    {
        let mut queue = match self.config.queues.get(queue_name) {
            Some(config) => config.clone(),
            None => {
                return self;
            },
        };
        queue.message_ttl_ms = Some(queue_message_ttl_ms);
        self.replace(queue_name, queue)
    }

    /// Set the queue type.
    pub fn set_queue_type(self, queue_name: &str, queue_type: &str) -> (r: Self)
        ensures
            r@ == self@.typing(queue_name@, queue_type@),
    {
        let mut queue = match self.config.queues.get(queue_name) {
            Some(config) => config.clone(),
            None => {
                return self;
            },
        };
        queue.queue_type = Some(queue_type.to_owned());
        self.replace(queue_name, queue)
    }
}

/// Each argument of a queue depends on its own setting alone: the expiry time and the lifetime of
/// messages are there exactly when they were set, with the time that was set, whatever else was.
/// The type is always there, and nothing else is.
pub proof fn each_argument_has_its_own_setting(config: QueueConfigView, name: Seq<char>)
    ensures
        arguments_of(config).contains_key("x-expires"@) <==> config.expire_time_ms is Some,
        config.expire_time_ms matches Some(ms) ==> arguments_of(config)["x-expires"@]
            == FieldView::LongUInt(ms),
        arguments_of(config).contains_key("x-message-ttl"@) <==> config.message_ttl_ms is Some,
        config.message_ttl_ms matches Some(ms) ==> arguments_of(config)["x-message-ttl"@]
            == FieldView::LongUInt(ms),
        arguments_of(config).contains_key("x-queue-type"@),
        config.queue_type matches Some(t) ==> arguments_of(config)["x-queue-type"@]
            == FieldView::LongString(t),
        config.queue_type is None ==> arguments_of(config)["x-queue-type"@]
            == FieldView::LongString("classic"@),
        arguments_of(config).contains_key(name) ==> name == "x-expires"@ || name
            == "x-message-ttl"@ || name == "x-queue-type"@,
{
    argument_names_differ();
}

/// What is set of a declared queue is what the queue is declared with: the arguments hold the
/// time or the type that was set, and those of the other settings are as they were.
pub proof fn settings_reach_the_arguments(
    config: ConfigView,
    name: Seq<char>,
    ms: u32,
    queue_type: Seq<char>,
)
    requires
        config.queues.contains_key(name),
    ensures
        arguments_of(config.expiring(name, ms).queues[name]) == arguments_of(
            config.queues[name],
        ).insert("x-expires"@, FieldView::LongUInt(ms)),
        arguments_of(config.limiting(name, ms).queues[name]) == arguments_of(
            config.queues[name],
        ).insert("x-message-ttl"@, FieldView::LongUInt(ms)),
        arguments_of(config.typing(name, queue_type).queues[name]) == arguments_of(
            config.queues[name],
        ).insert("x-queue-type"@, FieldView::LongString(queue_type)),
{
    argument_names_differ();
    let queue = config.queues[name];
    assert(arguments_of(config.expiring(name, ms).queues[name]) =~= arguments_of(queue).insert(
        "x-expires"@,
        FieldView::LongUInt(ms),
    ));
    assert(arguments_of(config.limiting(name, ms).queues[name]) =~= arguments_of(queue).insert(
        "x-message-ttl"@,
        FieldView::LongUInt(ms),
    ));
    assert(arguments_of(config.typing(name, queue_type).queues[name]) =~= arguments_of(
        queue,
    ).insert("x-queue-type"@, FieldView::LongString(queue_type)));
}

/// Each setting of a declared queue changes that setting and nothing else of it. An expiry time
/// also makes the queue durable and deleted when unused, and a time of zero makes it neither.
/// Nothing but the queues of the configuration changes.
pub proof fn settings_change_one_thing(
    config: ConfigView,
    name: Seq<char>,
    ms: u32,
    queue_type: Seq<char>,
)
    requires
        config.queues.contains_key(name),
    ensures
        ({
            let before = config.queues[name];
            let expiring = config.expiring(name, ms);
            let limiting = config.limiting(name, ms);
            let typing = config.typing(name, queue_type);
            let (e, l, t) = (expiring.queues[name], limiting.queues[name], typing.queues[name]);
            &&& e.expire_time_ms == Some(ms)
            &&& e.options.durable == (ms > 0)
            &&& e.options.auto_delete == (ms > 0)
            &&& e.options.passive == before.options.passive
            &&& e.options.exclusive == before.options.exclusive
            &&& e.options.nowait == before.options.nowait
            &&& e.broadcast == before.broadcast
            &&& e.message_ttl_ms == before.message_ttl_ms
            &&& e.queue_type == before.queue_type
            &&& l.message_ttl_ms == Some(ms)
            &&& l.options == before.options
            &&& l.broadcast == before.broadcast
            &&& l.expire_time_ms == before.expire_time_ms
            &&& l.queue_type == before.queue_type
            &&& t.queue_type == Some(queue_type)
            &&& t.options == before.options
            &&& t.broadcast == before.broadcast
            &&& t.expire_time_ms == before.expire_time_ms
            &&& t.message_ttl_ms == before.message_ttl_ms
            &&& expiring.broker_url == config.broker_url && limiting.broker_url
                == config.broker_url && typing.broker_url == config.broker_url
            &&& expiring.prefetch_count == config.prefetch_count && limiting.prefetch_count
                == config.prefetch_count && typing.prefetch_count == config.prefetch_count
            &&& expiring.heartbeat == config.heartbeat && limiting.heartbeat == config.heartbeat
                && typing.heartbeat == config.heartbeat
        }),
{
}

/// The settings of a queue can come in any order.
pub proof fn settings_commute(
    config: ConfigView,
    name: Seq<char>,
    expire_ms: u32,
    ttl_ms: u32,
    queue_type: Seq<char>,
)
    ensures
        config.expiring(name, expire_ms).limiting(name, ttl_ms) == config.limiting(
            name,
            ttl_ms,
        ).expiring(name, expire_ms),
        config.expiring(name, expire_ms).typing(name, queue_type) == config.typing(
            name,
            queue_type,
        ).expiring(name, expire_ms),
        config.limiting(name, ttl_ms).typing(name, queue_type) == config.typing(
            name,
            queue_type,
        ).limiting(name, ttl_ms),
{
    assert(config.expiring(name, expire_ms).limiting(name, ttl_ms) =~= config.limiting(
        name,
        ttl_ms,
    ).expiring(name, expire_ms));
    assert(config.expiring(name, expire_ms).typing(name, queue_type) =~= config.typing(
        name,
        queue_type,
    ).expiring(name, expire_ms));
    assert(config.limiting(name, ttl_ms).typing(name, queue_type) =~= config.typing(
        name,
        queue_type,
    ).limiting(name, ttl_ms));
}

/// A queue that is declared for the first time is there as it was declared. Other queues are as
/// they were, none is made up, and nothing else of the configuration changes.
pub proof fn declared_queues_are_there(
    config: ConfigView,
    name: Seq<char>,
    queue: QueueConfigView,
    other: Seq<char>,
)
    ensures
        ({
            let after = config.declaring(name, queue);
            &&& after.queues.contains_key(name)
            &&& !config.queues.contains_key(name) ==> after.queues[name] == queue
            &&& config.queues.contains_key(name) ==> after.queues[name] == config.queues[name]
            &&& other != name ==> (after.queues.contains_key(other)
                <==> config.queues.contains_key(other))
            &&& config.queues.contains_key(other) ==> after.queues[other] == config.queues[other]
            &&& after.broker_url == config.broker_url
            &&& after.prefetch_count == config.prefetch_count
            &&& after.heartbeat == config.heartbeat
        }),
{
}

/// A shared queue outlives the server and is open to all. An exclusive queue and a broadcast
/// queue belong to one connection and do not outlive the server. Only a broadcast queue hands
/// every message to everyone, and no queue has an expiry time, a lifetime of messages or a type
/// unless it is set.
pub proof fn kinds_of_queue_differ()
    ensures
        plain_queue().options.durable && !plain_queue().options.exclusive
            && !plain_queue().broadcast,
        !exclusive_queue().options.durable && exclusive_queue().options.exclusive
            && !exclusive_queue().broadcast,
        !broadcast_queue().options.durable && broadcast_queue().options.exclusive
            && broadcast_queue().broadcast,
        forall|queue: QueueConfigView|
            queue == plain_queue() || queue == exclusive_queue() || queue == broadcast_queue()
                ==> !(#[trigger] queue.options.passive) && !queue.options.auto_delete
                && !queue.options.nowait && queue.expire_time_ms is None && queue.message_ttl_ms
                is None && queue.queue_type is None,
{
}

/// A configuration begins with the URL that it was given, ten deliveries at once, a heartbeat of a
/// minute and no queue, whatever the URL.
pub proof fn configurations_begin_with_defaults(broker_url: Seq<char>, name: Seq<char>)
    ensures
        ConfigView::initial(broker_url).broker_url == broker_url,
        ConfigView::initial(broker_url).prefetch_count == 10,
        ConfigView::initial(broker_url).heartbeat == Some(60u16),
        !ConfigView::initial(broker_url).queues.contains_key(name),
{
}

/// A queue is declared with the options that were asked for, unless it is a quorum queue: then
/// durable and shared, and otherwise as asked for. The exchange of a queue has the options of the
/// queue that exchanges have, and is never internal.
pub proof fn options_are_those_asked_for(config: QueueConfigView)
    ensures
        config.queue_type != Some("quorum"@) ==> queue_options_of(config) == config.options,
        queue_options_of(config).passive == config.options.passive,
        queue_options_of(config).auto_delete == config.options.auto_delete,
        queue_options_of(config).nowait == config.options.nowait,
        config.queue_type == Some("quorum"@) ==> queue_options_of(config).durable
            && !queue_options_of(config).exclusive,
        exchange_options_of(config).passive == config.options.passive,
        exchange_options_of(config).durable == config.options.durable,
        exchange_options_of(config).auto_delete == config.options.auto_delete,
        exchange_options_of(config).nowait == config.options.nowait,
        !exchange_options_of(config).internal,
{
}

/// The model of some queues leaves nothing out: it has the queues of the same names, each with the
/// settings that it has.
pub proof fn models_leave_no_queue_out(queues: Map<Seq<char>, QueueConfig>, name: Seq<char>)
    ensures
        queue_views(queues).contains_key(name) <==> queues.contains_key(name),
        queues.contains_key(name) ==> {
            let (queue, model) = (queues[name], queue_views(queues)[name]);
            &&& model.options == queue.options
            &&& model.broadcast == queue.broadcast
            &&& model.expire_time_ms == queue.expire_time_ms
            &&& model.message_ttl_ms == queue.message_ttl_ms
            &&& model.queue_type == opt_text(queue.queue_type)
        },
{
}

} // verus!
